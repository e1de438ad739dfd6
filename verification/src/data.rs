//! Small conversions between the shapes that data comes and goes in.

use std::collections::HashMap;
use vstd::prelude::*;
use vstd::std_specs::hash::obeys_key_model;
use crate::digits::{padded_numeral, zero_padded};
use crate::error::ErrorKind;
use crate::kmeans::Point;
use crate::text::{
    chars_of, extend_chars, lemma_without_empty_push, rows, split, split_text, string_of, strings_of, texts,
    without_empty,
};
use crate::words::{lowercase, to_lowercase};

verus! {

/// `regex::Error`, the error of building a regular expression. The library
/// hands it on without looking into it.
#[verifier::external_type_specification]
#[verifier::external_body]
pub struct ExRegexError(regex::Error);

/// Whether `regex::Regex::new` builds a regular expression from `pattern`.
pub uninterp spec fn is_regex(pattern: Seq<char>) -> bool;

/// Whether the regular expression that `regex::Regex::new` builds from
/// `pattern` matches somewhere in `text`, by `regex::Regex::is_match`.
pub uninterp spec fn regex_found(pattern: Seq<char>, text: Seq<char>) -> bool;

/// `regex::Regex::new(pattern)`, then `regex::Regex::is_match(text)` on the
/// expression. Whether there is an expression is a matter of the pattern
/// alone and goes by the name `is_regex`; whether it matches is a matter of
/// pattern and text and goes by the name `regex_found`.
#[verifier::external_body]
fn regex_is_match(pattern: &str, text: &str) -> (r: Result<bool, regex::Error>)
    ensures
        r is Ok <==> is_regex(pattern@),
        r matches Ok(found) ==> found == regex_found(pattern@, text@),
{
    let expression = regex::Regex::new(pattern)?;
    Ok(expression.is_match(text))
}

/// `HashMap::into_iter`, collected: the entries of the map, each once, in the
/// order in which the map hands them out, which is not fixed.
#[verifier::external_body]
fn entries_of<K, V>(data: HashMap<K, V>) -> (out: Vec<(K, V)>)
    ensures
        obeys_key_model::<K>() ==> {
            &&& out@.len() == data@.dom().len()
            &&& forall|i: int|
                0 <= i < out@.len() ==> data@.contains_key((#[trigger] out@[i]).0) && data@[out@[i].0]
                    == out@[i].1
            &&& forall|i: int, j: int| 0 <= i < j < out@.len() ==> (#[trigger] out@[i]).0 != (#[trigger] out@[j]).0
            &&& forall|k: K| #[trigger]
                data@.contains_key(k) ==> exists|i: int| 0 <= i < out@.len() && (#[trigger] out@[i]).0 == k
        },
{
    data.into_iter().collect()
}

/// The pattern that an image file name has to match: a dot and one of the
/// known extensions at the end of the name.
pub open spec fn image_name_pattern() -> Seq<char> {
    "\\.(png|PNG|jpeg|JPG|JPEG|jpg)$"@
}

/// The pieces of `s` between the occurrences of `pat` that are not empty. An
/// empty `pat` cuts between any two characters.
pub open spec fn nonempty_pieces(s: Seq<char>, pat: Seq<char>) -> Seq<Seq<char>> {
    if pat.len() == 0 {
        Seq::new(s.len(), |i: int| seq![s[i]])
    } else {
        without_empty(split_text(s, pat))
    }
}

/// A pixel's position, kept in eight bits: the coordinate modulo 256.
pub open spec fn coordinate(n: int) -> u8 {
    (n % 256) as u8
}

/// The point of pixel `i` of an image that is `width` pixels wide, whose
/// pixels lie in `pixels` as three bytes each, red, green and blue.
pub open spec fn pixel_point(pixels: Seq<u8>, width: int, i: int) -> Point {
    Point {
        x: coordinate(i % width),
        y: coordinate(i / width),
        color: (pixels[3 * i], pixels[3 * i + 1], pixels[3 * i + 2]),
    }
}

/// A duration in seconds as clock text: minutes and seconds, two digits each;
/// from one hour on the hours in front, two digits up to nine hours and three
/// or more from ten.
pub open spec fn clock_text(sec: nat) -> Seq<char> {
    let hours = sec / 3600;
    let minutes = (sec % 3600) / 60;
    let seconds = sec % 60;
    let tail = zero_padded(minutes, 2) + seq![':'] + zero_padded(seconds, 2);
    if hours == 0 {
        tail
    } else if hours > 9 {
        zero_padded(hours, 3) + seq![':'] + tail
    } else {
        zero_padded(hours, 2) + seq![':'] + tail
    }
}

/// Cuts `arr` down to `len` members, if a length is given and `arr` is longer.
pub fn array_truncate<T>(arr: &mut Vec<T>, len: Option<usize>)
    ensures
        final(arr)@ == match len {
            Some(n) => if n < old(arr)@.len() {
                old(arr)@.take(n as int)
            } else {
                old(arr)@
            },
            None => old(arr)@,
        },
{
    match len {
        Some(n) => {
            let new_length = if arr.len() < n {
                arr.len()
            } else {
                n
            };
            arr.truncate(new_length);
            assert(old(arr)@.take(old(arr)@.len() as int) =~= old(arr)@);
        },
        None => {},
    }
}

/// The entries of a map as a vector of pairs, each key once. The order is the
/// map's and is not fixed.
pub fn hashmap_to_vec_truple<K, V>(data: HashMap<K, V>) -> (out: Vec<(K, V)>)
    ensures
        obeys_key_model::<K>() ==> {
            &&& out@.len() == data@.dom().len()
            &&& forall|i: int|
                0 <= i < out@.len() ==> data@.contains_key((#[trigger] out@[i]).0) && data@[out@[i].0]
                    == out@[i].1
            &&& forall|i: int, j: int| 0 <= i < j < out@.len() ==> (#[trigger] out@[i]).0 != (#[trigger] out@[j]).0
            &&& forall|k: K| #[trigger]
                data@.contains_key(k) ==> exists|i: int| 0 <= i < out@.len() && (#[trigger] out@[i]).0 == k
        },
{
    entries_of(data)
}

/// The text in lowercase.
pub fn string_clean(str: String) -> (out: String)
    ensures
        out@ == lowercase(str@),
{
    to_lowercase(str.as_str())
}

/// The pieces of `data` between the occurrences of `pattern`, without the
/// empty ones.
pub fn string_to_vec(data: String, pattern: &str) -> (out: Vec<String>)
    ensures
        texts(out@) == nonempty_pieces(data@, pattern@),
{
    let s = chars_of(data.as_str());
    let pat = chars_of(pattern);
    let mut kept: Vec<Vec<char>> = Vec::new();
    if pat.len() == 0 {
        let mut i: usize = 0;
        while i < s.len()
            invariant
                i <= s.len(),
                kept.len() == i,
                forall|j: int| 0 <= j < i ==> (#[trigger] kept@[j])@ == seq![s@[j]],
            decreases s.len() - i,
        {
            let mut one: Vec<char> = Vec::new();
            one.push(s[i]);
            assert(one@ =~= seq![s@[i as int]]);
            kept.push(one);
            i += 1;
        }
        assert(rows(kept@) =~= nonempty_pieces(s@, pat@));
    } else {
        let parts = split(&s, &pat);
        let ghost all = rows(parts@);
        let mut i: usize = 0;
        assert(all.take(0) =~= Seq::<Seq<char>>::empty());
        assert(without_empty(Seq::<Seq<char>>::empty()) =~= Seq::<Seq<char>>::empty()) by {
            reveal(Seq::filter);
        }
        while i < parts.len()
            invariant
                i <= parts.len(),
                all == rows(parts@),
                rows(kept@) == without_empty(all.take(i as int)),
            decreases parts.len() - i,
        {
            proof {
                lemma_without_empty_push(all.take(i as int), all[i as int]);
                assert(all.take(i + 1) =~= all.take(i as int).push(all[i as int]));
            }
            if parts[i].len() > 0 {
                let ghost done = rows(kept@);
                let mut piece: Vec<char> = Vec::new();
                extend_chars(&mut piece, &parts[i]);
                assert(piece@ =~= parts@[i as int]@);
                kept.push(piece);
                assert(rows(kept@) =~= done.push(all[i as int]));
            }
            i += 1;
        }
        assert(all.take(i as int) =~= all);
    }
    strings_of(&kept)
}

/// The points of an image that is `width` pixels wide, from its pixels as
/// three bytes each. Bytes behind the last whole pixel are left out.
pub fn vec_u8_to_vec_point(pixels: Vec<u8>, width: u32) -> (out: Vec<Point>)
    requires
        width > 0 || pixels@.len() < 3,
    ensures
        out@.len() == pixels@.len() / 3,
        forall|i: int| 0 <= i < out@.len() ==> #[trigger] out@[i] == pixel_point(pixels@, width as int, i),
{
    points_of(&pixels, width)
}

/// The points of an image that is `width` pixels wide, from its pixels as
/// three bytes each. Bytes behind the last whole pixel are left out.
pub fn points_of(pixels: &Vec<u8>, width: u32) -> (out: Vec<Point>)
    requires
        width > 0 || pixels@.len() < 3,
    ensures
        out@.len() == pixels@.len() / 3,
        forall|i: int| 0 <= i < out@.len() ==> #[trigger] out@[i] == pixel_point(pixels@, width as int, i),
{
    let count: usize = pixels.len() / 3;
    let wide: usize = width as usize;
    let mut out: Vec<Point> = Vec::new();
    let mut i: usize = 0;
    while i < count
        invariant
            i <= count,
            count == pixels@.len() / 3,
            3 * count <= pixels@.len() <= usize::MAX,
            wide == width,
            wide > 0 || count == 0,
            out.len() == i,
            forall|j: int| 0 <= j < i ==> #[trigger] out@[j] == pixel_point(pixels@, width as int, j),
        decreases count - i,
    {
        let x: u8 = ((i % wide) % 256) as u8;
        let y: u8 = ((i / wide) % 256) as u8;
        let color = (pixels[3 * i], pixels[3 * i + 1], pixels[3 * i + 2]);
        out.push(Point { x, y, color });
        i += 1;
    }
    out
}

/// What a search by regular expression comes to: whether the expression
/// matches, or that the pattern is no regular expression.
pub open spec fn search_outcome(pattern: Seq<char>, text: Seq<char>) -> Result<bool, ErrorKind> {
    if is_regex(pattern) {
        Ok(regex_found(pattern, text))
    } else {
        Err(ErrorKind::BadPattern)
    }
}

/// Whether the regular expression `pattern` matches somewhere in `text`.
pub fn matches_pattern(pattern: &str, text: &str) -> (r: Result<bool, ErrorKind>)
    ensures
        r == search_outcome(pattern@, text@),
{
    match regex_is_match(pattern, text) {
        Ok(found) => Ok(found),
        Err(_) => Err(ErrorKind::BadPattern),
    }
}

/// Whether `name` is the name of an image file: whether it ends in a dot and
/// one of the extensions `png`, `PNG`, `jpeg`, `JPG`, `JPEG`, `jpg`, as the
/// regular expression for that decides it.
pub fn validate_img_filename(name: &str) -> (r: Result<bool, ErrorKind>)
    ensures
        r == search_outcome(image_name_pattern(), name@),
{
    matches_pattern("\\.(png|PNG|jpeg|JPG|JPEG|jpg)$", name)
}

/// The sum of the three channels of a colour.
pub fn sum_rgb(color: &(u8, u8, u8)) -> (sum: u32)
    ensures
        sum == color.0 + color.1 + color.2,
{
    color.0 as u32 + color.1 as u32 + color.2 as u32
}

/// A duration in seconds as clock text, `MM:SS` or `HH:MM:SS`.
pub fn convert_sec_to_fmt_time(sec: u64) -> (out: String)
    ensures
        out@ == clock_text(sec as nat),
{
    let hours: u64 = sec / 3600;
    let minutes: u64 = (sec % 3600) / 60;
    let seconds: u64 = sec % 60;
    let mut text: Vec<char> = Vec::new();
    if hours > 9 {
        extend_chars(&mut text, &padded_numeral(hours, 3));
        text.push(':');
    } else if hours > 0 {
        extend_chars(&mut text, &padded_numeral(hours, 2));
        text.push(':');
    }
    let ghost head = text@;
    extend_chars(&mut text, &padded_numeral(minutes, 2));
    text.push(':');
    extend_chars(&mut text, &padded_numeral(seconds, 2));
    proof {
        let tail = zero_padded(minutes as nat, 2) + seq![':'] + zero_padded(seconds as nat, 2);
        assert(text@ =~= head + tail);
        if hours == 0 {
            assert(head + tail =~= tail);
        } else if hours > 9 {
            assert(head =~= zero_padded(hours as nat, 3) + seq![':']);
            assert(head + tail =~= zero_padded(hours as nat, 3) + seq![':'] + tail);
        } else {
            assert(head =~= zero_padded(hours as nat, 2) + seq![':']);
            assert(head + tail =~= zero_padded(hours as nat, 2) + seq![':'] + tail);
        }
    }
    string_of(&text)
}

} // verus!
