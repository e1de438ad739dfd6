use mic::data::{
    array_truncate, convert_sec_to_fmt_time, hashmap_to_vec_truple, string_clean, string_to_vec, sum_rgb,
    validate_img_filename, vec_u8_to_vec_point,
};
use mic::digits::{numeral, padded_numeral};
use mic::error::ErrorKind;
use mic::lexical::text_lt;
use mic::text::{chars_of, has_text, join, replace, same_text, split, stands_at, strings_of};
use mic::words::{ascii_letter, char_is_whitespace, longer_than, split_words, trim};
use std::collections::HashMap;

fn chars(s: &str) -> Vec<char> {
    s.chars().collect()
}

fn text(v: &Vec<char>) -> String {
    v.iter().collect()
}

#[test]
fn chars_of_keeps_every_character() {
    assert_eq!(chars_of("héllo"), vec!['h', 'é', 'l', 'l', 'o']);
    assert_eq!(chars_of(""), Vec::<char>::new());
}

#[test]
fn same_text_compares_character_by_character() {
    assert!(same_text(&chars("abc"), &chars("abc")));
    assert!(!same_text(&chars("abc"), &chars("abd")));
    assert!(!same_text(&chars("abc"), &chars("ab")));
    assert!(same_text(&chars(""), &chars("")));
}

#[test]
fn stands_at_finds_a_pattern_at_an_index() {
    assert!(stands_at(&chars("hello"), &chars("ll"), 2));
    assert!(!stands_at(&chars("hello"), &chars("ll"), 1));
    assert!(!stands_at(&chars("hello"), &chars("lo"), 4));
    assert!(stands_at(&chars("hello"), &chars(""), 5));
    assert!(!stands_at(&chars("hello"), &chars(""), 6));
}

#[test]
fn has_text_is_substring_search() {
    assert!(has_text(&chars("the night belongs"), &chars("night")));
    assert!(has_text(&chars("night"), &chars("")));
    assert!(has_text(&chars(""), &chars("")));
    assert!(!has_text(&chars("night"), &chars("nights")));
    assert!(!has_text(&chars(""), &chars("a")));
    assert!(has_text(&chars("aab"), &chars("ab")));
}

#[test]
fn split_cuts_at_each_separator() {
    let parts = split(&chars("a,b,,c"), &chars(","));
    let got: Vec<String> = parts.iter().map(text).collect();
    assert_eq!(got, vec!["a", "b", "", "c"]);
    let whole = split(&chars("abc"), &chars(","));
    assert_eq!(whole.len(), 1);
    assert_eq!(text(&whole[0]), "abc");
    let empty = split(&chars(""), &chars(","));
    assert_eq!(empty.len(), 1);
    assert_eq!(text(&empty[0]), "");
}

#[test]
fn split_agrees_with_the_standard_library() {
    for (s, pat) in [
        ("one\n\ntwo\n\n\nthree", "\n\n"),
        ("aaaa", "aa"),
        ("aaa", "aa"),
        (",", ","),
        ("a--b-c", "--"),
        ("xyz", "xyzz"),
    ] {
        let ours: Vec<String> = split(&chars(s), &chars(pat)).iter().map(text).collect();
        let theirs: Vec<String> = s.split(pat).map(|p| p.to_string()).collect();
        assert_eq!(ours, theirs);
    }
}

#[test]
fn join_puts_the_separator_between() {
    let parts = vec![chars("a"), chars("b"), chars("c")];
    assert_eq!(text(&join(&parts, &chars(", "))), "a, b, c");
    assert_eq!(text(&join(&vec![chars("a")], &chars(", "))), "a");
    assert_eq!(text(&join(&Vec::new(), &chars(", "))), "");
}

#[test]
fn replace_agrees_with_the_standard_library() {
    for (s, pat, to) in [
        ("/home/andrew/music/a/b.flac", "/home/andrew/music/", ""),
        ("aaaa", "aa", "b"),
        ("no match", "xyz", "!"),
        ("", "x", "y"),
    ] {
        assert_eq!(text(&replace(&chars(s), &chars(pat), &chars(to))), s.replace(pat, to));
    }
}

#[test]
fn strings_of_spells_the_rows() {
    assert_eq!(strings_of(&vec![chars("ab"), chars(""), chars("ç")]), vec!["ab", "", "ç"]);
}

#[test]
fn text_lt_is_the_order_of_strings() {
    let samples = ["", "a", "ab", "b", "B", "Zebra", "apple", "éclair", "z", "ab ", "a b"];
    for a in samples {
        for b in samples {
            assert_eq!(text_lt(&chars(a), &chars(b)), a < b, "{:?} < {:?}", a, b);
        }
    }
}

#[test]
fn split_words_cuts_at_white_space() {
    let words: Vec<String> = split_words(&chars("  the quick\tbrown\n\nfox ")).iter().map(text).collect();
    assert_eq!(words, vec!["the", "quick", "brown", "fox"]);
    assert!(split_words(&chars("   ")).is_empty());
    assert!(split_words(&chars("")).is_empty());
    let one: Vec<String> = split_words(&chars("word")).iter().map(text).collect();
    assert_eq!(one, vec!["word"]);
    let wide: Vec<String> = split_words(&chars("a\u{a0}b\u{3000}c")).iter().map(text).collect();
    assert_eq!(wide, vec!["a", "b", "c"]);
}

#[test]
fn trim_keeps_what_lies_between_letters() {
    assert_eq!(text(&trim(&chars("(lovers),"))), "lovers");
    assert_eq!(text(&trim(&chars("don't!"))), "don't");
    assert_eq!(text(&trim(&chars("12345"))), "");
    assert_eq!(text(&trim(&chars("héllo"))), "héllo");
    assert_eq!(text(&trim(&chars("éa1b2é"))), "a1b");
    assert_eq!(text(&trim(&chars(""))), "");
}

#[test]
fn ascii_letter_knows_the_two_alphabets() {
    assert!(ascii_letter('a') && ascii_letter('z') && ascii_letter('A') && ascii_letter('Z'));
    assert!(!ascii_letter('1') && !ascii_letter('é') && !ascii_letter('[') && !ascii_letter('`'));
}

#[test]
fn longer_than_counts_bytes() {
    assert!(longer_than(&chars("night"), 4));
    assert!(!longer_than(&chars("when"), 4));
    assert!(longer_than(&chars("héll"), 4));
    assert!(!longer_than(&chars("日"), 3));
    assert!(longer_than(&chars("日"), 2));
    assert!(longer_than(&chars("😀"), 3));
    assert!(!longer_than(&chars("😀"), 4));
    for s in ["", "a", "é", "日本", "😀x", "hello world"] {
        for limit in 0..12 {
            assert_eq!(longer_than(&chars(s), limit), s.len() > limit);
        }
    }
}

#[test]
fn numerals_are_decimal() {
    assert_eq!(text(&numeral(0)), "0");
    assert_eq!(text(&numeral(7)), "7");
    assert_eq!(text(&numeral(1987)), "1987");
    assert_eq!(text(&numeral(u64::MAX)), "18446744073709551615");
    assert_eq!(text(&padded_numeral(5, 2)), "05");
    assert_eq!(text(&padded_numeral(5, 3)), "005");
    assert_eq!(text(&padded_numeral(123, 2)), "123");
    assert_eq!(text(&padded_numeral(0, 0)), "0");
}

#[test]
fn clock_text_has_minutes_and_seconds() {
    assert_eq!(convert_sec_to_fmt_time(0), "00:00");
    assert_eq!(convert_sec_to_fmt_time(65), "01:05");
    assert_eq!(convert_sec_to_fmt_time(3599), "59:59");
}

#[test]
fn clock_text_has_hours_from_one_hour_on() {
    assert_eq!(convert_sec_to_fmt_time(3600), "01:00:00");
    assert_eq!(convert_sec_to_fmt_time(3661), "01:01:01");
    assert_eq!(convert_sec_to_fmt_time(35999), "09:59:59");
    assert_eq!(convert_sec_to_fmt_time(36000), "010:00:00");
    assert_eq!(convert_sec_to_fmt_time(86399), "023:59:59");
    assert_eq!(convert_sec_to_fmt_time(3600 * 1234 + 5), "1234:00:05");
}

#[test]
fn array_truncate_cuts_to_the_length() {
    let mut v = vec![1, 2, 3, 4];
    array_truncate(&mut v, Some(2));
    assert_eq!(v, vec![1, 2]);
    array_truncate(&mut v, Some(5));
    assert_eq!(v, vec![1, 2]);
    array_truncate(&mut v, None);
    assert_eq!(v, vec![1, 2]);
    array_truncate(&mut v, Some(0));
    assert!(v.is_empty());
}

#[test]
fn hashmap_to_vec_truple_hands_out_every_entry_once() {
    let mut map: HashMap<i32, usize> = HashMap::new();
    map.insert(1987, 3);
    map.insert(1991, 1);
    map.insert(2004, 7);
    let mut pairs = hashmap_to_vec_truple(map);
    pairs.sort();
    assert_eq!(pairs, vec![(1987, 3), (1991, 1), (2004, 7)]);
    assert!(hashmap_to_vec_truple(HashMap::<i32, usize>::new()).is_empty());
}

#[test]
fn string_clean_lowers_the_case() {
    assert_eq!(string_clean("Adam LAMBERT".to_string()), "adam lambert");
    assert_eq!(string_clean("ÉCLAIR".to_string()), "éclair");
}

#[test]
fn string_to_vec_drops_empty_pieces() {
    assert_eq!(string_to_vec("a,b,,c".to_string(), ","), vec!["a", "b", "c"]);
    assert_eq!(string_to_vec("Rock;Pop;".to_string(), ";"), vec!["Rock", "Pop"]);
    assert_eq!(string_to_vec("one\n\ntwo\n\n\n\nthree".to_string(), "\n\n"), vec!["one", "two", "three"]);
    assert!(string_to_vec("".to_string(), ",").is_empty());
    assert!(string_to_vec(",,".to_string(), ",").is_empty());
    assert_eq!(string_to_vec("abc".to_string(), ""), vec!["a", "b", "c"]);
}

#[test]
fn validate_img_filename_goes_by_the_extension() {
    assert_eq!(validate_img_filename("cover.png"), Ok(true));
    assert_eq!(validate_img_filename("cover.JPEG"), Ok(true));
    assert_eq!(validate_img_filename("/tmp/a b/cover.jpg"), Ok(true));
    assert_eq!(validate_img_filename("cover.gif"), Ok(false));
    assert_eq!(validate_img_filename("cover.png.txt"), Ok(false));
    assert_eq!(validate_img_filename("png"), Ok(false));
    assert_eq!(validate_img_filename("cover.Png"), Ok(false));
}

#[test]
fn error_messages_are_sentences() {
    assert_eq!(ErrorKind::InvalidFileName.message(), "Invalid filename");
    assert_eq!(ErrorKind::UnparsableDate.message(), "the recording date is not a calendar date");
    assert_eq!(ErrorKind::EmptyImage.message(), "the image has no pixels");
    assert_eq!(ErrorKind::NoCovers.message(), "no cover matches the filter");
    assert_eq!(ErrorKind::BadPattern.message(), "the file name pattern is not a regular expression");
    assert_eq!(ErrorKind::OversizedCanvas.message(), "the image is too large to be resized");
    assert_eq!(ErrorKind::BrokenCover.message(), "the image has too few pixels for its size");
}

#[test]
fn sum_rgb_adds_the_channels() {
    assert_eq!(sum_rgb(&(0, 0, 0)), 0);
    assert_eq!(sum_rgb(&(255, 255, 255)), 765);
    assert_eq!(sum_rgb(&(1, 20, 200)), 221);
}

#[test]
fn vec_u8_to_vec_point_places_the_pixels() {
    let points = vec_u8_to_vec_point(vec![1, 2, 3, 4, 5, 6, 7, 8, 9, 10], 2);
    assert_eq!(points.len(), 3);
    assert_eq!((points[0].x, points[0].y, points[0].color), (0, 0, (1, 2, 3)));
    assert_eq!((points[1].x, points[1].y, points[1].color), (1, 0, (4, 5, 6)));
    assert_eq!((points[2].x, points[2].y, points[2].color), (0, 1, (7, 8, 9)));
}

#[test]
fn vec_u8_to_vec_point_keeps_positions_in_eight_bits() {
    let points = vec_u8_to_vec_point(vec![0; 3 * 600], 300);
    assert_eq!((points[255].x, points[255].y), (255, 0));
    assert_eq!((points[256].x, points[256].y), (0, 0));
    assert_eq!((points[299].x, points[299].y), (43, 0));
    assert_eq!((points[300].x, points[300].y), (0, 1));
    let tall = vec_u8_to_vec_point(vec![0; 3 * 258], 1);
    assert_eq!((tall[255].x, tall[255].y), (0, 255));
    assert_eq!((tall[257].x, tall[257].y), (0, 1));
}

#[test]
fn a_pattern_that_is_no_regular_expression_is_a_bad_pattern() {
    assert_eq!(mic::data::matches_pattern("(", "anything"), Err(ErrorKind::BadPattern));
    assert_eq!(mic::data::matches_pattern("a{2,1}", ""), Err(ErrorKind::BadPattern));
    assert_eq!(mic::data::matches_pattern("^a+$", "aaa"), Ok(true));
    assert_eq!(mic::data::matches_pattern("^a+$", "aab"), Ok(false));
}

#[test]
fn an_image_without_a_pixel_has_no_points_whatever_its_width() {
    assert!(vec_u8_to_vec_point(Vec::new(), 0).is_empty());
    assert!(vec_u8_to_vec_point(vec![1, 2], 0).is_empty());
    assert!(vec_u8_to_vec_point(vec![1, 2], 7).is_empty());
}

#[test]
fn white_space_is_what_the_standard_library_takes_for_it() {
    for code in 0..=0x10ffffu32 {
        if let Some(c) = char::from_u32(code) {
            assert_eq!(char_is_whitespace(c), c.is_whitespace(), "U+{:04X}", code);
        }
    }
}

#[test]
fn words_are_what_the_standard_library_splits_at_white_space() {
    for s in ["", " ", "a b", "\ta\u{2003}b\u{85}\u{85}c ", "no\u{180e}break", "x\u{200b}y z\u{feff}", "\u{1680}"] {
        let ours: Vec<String> = split_words(&chars(s)).iter().map(text).collect();
        let theirs: Vec<String> = s.split_whitespace().map(|w| w.to_string()).collect();
        assert_eq!(ours, theirs);
    }
}
