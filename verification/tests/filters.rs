use mic::date::{
    current_week, get_start_end_week_dates, parse_string_to_datetime, parse_string_to_yearless_date, today,
    week_of, Date, WeekWindow, YearlessDate,
};
use mic::error::ErrorKind;
use mic::filters::{
    comma_separated, contains_list_of_strings, equals_same_value, match_current_week, match_decade,
    match_items_left, match_items_left_on, match_lyrics_contain_words, match_no_lyrics, match_week,
};
use mic::songs::{SongData, SongDataFilter};

fn strings(items: &[&str]) -> Vec<String> {
    items.iter().map(|s| s.to_string()).collect()
}

fn song(file: &str, date: &str) -> SongData {
    SongData { filename: file.to_string(), recording_date: date.to_string(), ..SongData::default() }
}

fn day(month: u32, day: u32) -> YearlessDate {
    YearlessDate { month, day }
}

#[test]
fn dates_read_as_year_month_day() {
    assert_eq!(parse_string_to_datetime("1987-03-01"), Ok(Date { year: 1987, month: 3, day: 1 }));
    assert_eq!(parse_string_to_datetime("2024-02-29"), Ok(Date { year: 2024, month: 2, day: 29 }));
    assert_eq!(parse_string_to_datetime("2024-5-7"), Ok(Date { year: 2024, month: 5, day: 7 }));
}

#[test]
fn what_is_no_date_is_an_unparsable_date() {
    for bad in ["", "1987", "1987-03", "2023-02-29", "2023-13-01", "01/03/1987", "1987-03-01 12:00", "soon"] {
        assert_eq!(parse_string_to_datetime(bad), Err(ErrorKind::UnparsableDate), "{:?}", bad);
        assert_eq!(parse_string_to_yearless_date(bad), Err(ErrorKind::UnparsableDate));
    }
}

#[test]
fn yearless_dates_drop_the_year() {
    assert_eq!(parse_string_to_yearless_date("1987-03-01"), Ok(day(3, 1)));
    assert_eq!(parse_string_to_yearless_date("2020-02-29"), Ok(day(2, 29)));
}

#[test]
fn days_of_the_year_compare_by_month_then_day() {
    assert!(day(3, 1).is_earlier(&day(3, 2)));
    assert!(day(2, 28).is_earlier(&day(3, 1)));
    assert!(!day(3, 1).is_earlier(&day(3, 1)));
    assert!(!day(12, 1).is_earlier(&day(1, 31)));
}

#[test]
fn the_week_runs_from_saturday_to_friday() {
    let wednesday = Date { year: 2024, month: 5, day: 15 };
    assert_eq!(
        week_of(&wednesday),
        Some((Date { year: 2024, month: 5, day: 11 }, Date { year: 2024, month: 5, day: 17 }))
    );
    let saturday = Date { year: 2024, month: 5, day: 18 };
    assert_eq!(
        week_of(&saturday),
        Some((Date { year: 2024, month: 5, day: 18 }, Date { year: 2024, month: 5, day: 24 }))
    );
    let new_year = Date { year: 2025, month: 1, day: 1 };
    assert_eq!(
        week_of(&new_year),
        Some((Date { year: 2024, month: 12, day: 28 }, Date { year: 2025, month: 1, day: 3 }))
    );
}

#[test]
fn a_day_that_does_not_exist_has_no_week() {
    assert_eq!(week_of(&Date { year: 2023, month: 2, day: 30 }), None);
    assert_eq!(week_of(&Date { year: 2023, month: 0, day: 1 }), None);
}

#[test]
fn the_current_week_holds_today() {
    let now = today();
    let (first, last) = get_start_end_week_dates().unwrap();
    assert_eq!(week_of(&now), Some((first, last)));
    let window = current_week().unwrap();
    assert!(window.contains(&now.without_year()));
    let text = format!("{:04}-{:02}-{:02}", now.year, now.month, now.day);
    assert!(match_current_week(&text));
    assert!(match_items_left(&text));
}

#[test]
fn a_week_window_within_the_year() {
    let week = WeekWindow { start: day(5, 11), end: day(5, 17) };
    assert!(week.contains(&day(5, 11)));
    assert!(week.contains(&day(5, 14)));
    assert!(week.contains(&day(5, 17)));
    assert!(!week.contains(&day(5, 10)));
    assert!(!week.contains(&day(5, 18)));
    assert!(!week.contains(&day(6, 12)));
}

#[test]
fn a_week_window_across_the_new_year() {
    let week = WeekWindow { start: day(12, 28), end: day(1, 3) };
    assert!(week.contains(&day(12, 30)));
    assert!(week.contains(&day(12, 28)));
    assert!(week.contains(&day(1, 1)));
    assert!(week.contains(&day(1, 3)));
    assert!(!week.contains(&day(1, 4)));
    assert!(!week.contains(&day(12, 27)));
    assert!(!week.contains(&day(6, 15)));
}

#[test]
fn match_week_goes_by_month_and_day() {
    let week = Some(WeekWindow { start: day(12, 28), end: day(1, 3) });
    assert!(match_week("1999-12-30", &week));
    assert!(match_week("2031-12-30", &week));
    assert!(!match_week("1999-11-30", &week));
    assert!(!match_week("no date", &week));
    assert!(!match_week("1999-12-30", &None));
}

#[test]
fn match_current_week_rejects_what_is_no_date() {
    assert!(!match_current_week(&"soon".to_string()));
    assert!(!match_items_left("soon"));
}

#[test]
fn match_items_left_on_compares_days_of_the_year() {
    let now = Date { year: 2024, month: 5, day: 15 };
    assert!(match_items_left_on("1990-05-15", &now));
    assert!(match_items_left_on("1990-12-01", &now));
    assert!(!match_items_left_on("2030-05-14", &now));
    assert!(!match_items_left_on("soon", &now));
}

#[test]
fn comma_separated_keeps_empty_values() {
    let parts: Vec<String> = comma_separated("a,,b").iter().map(|p| p.iter().collect()).collect();
    assert_eq!(parts, vec!["a", "", "b"]);
}

#[test]
fn a_list_criterion_needs_one_common_member() {
    let genres = strings(&["Rock", "Synth Pop"]);
    assert!(contains_list_of_strings(&None, &genres));
    assert!(contains_list_of_strings(&Some("Rock".to_string()), &genres));
    assert!(contains_list_of_strings(&Some("Metal,Synth Pop".to_string()), &genres));
    assert!(!contains_list_of_strings(&Some("Metal,Punk".to_string()), &genres));
    assert!(!contains_list_of_strings(&Some("rock".to_string()), &genres));
    assert!(!contains_list_of_strings(&Some("Rock ".to_string()), &genres));
    assert!(!contains_list_of_strings(&Some("Synth".to_string()), &genres));
}

#[test]
fn a_list_criterion_against_an_empty_list() {
    assert!(contains_list_of_strings(&None, &Vec::new()));
    assert!(!contains_list_of_strings(&Some("Rock".to_string()), &Vec::new()));
    assert!(!contains_list_of_strings(&Some("".to_string()), &Vec::new()));
    assert!(contains_list_of_strings(&Some("".to_string()), &strings(&[""])));
}

#[test]
fn the_decade_of_1987_is_1980() {
    let date = Date { year: 1987, month: 3, day: 1 };
    assert!(match_decade(date, &Some(1980)));
    assert!(match_decade(date, &None));
    for other in [0u16, 1970, 1979, 1981, 1987, 1990, 2080, 65535] {
        assert!(!match_decade(date, &Some(other)));
    }
}

#[test]
fn decades_at_their_borders() {
    assert!(match_decade(Date { year: 1990, month: 1, day: 1 }, &Some(1990)));
    assert!(match_decade(Date { year: 1999, month: 12, day: 31 }, &Some(1990)));
    assert!(!match_decade(Date { year: 2000, month: 1, day: 1 }, &Some(1990)));
    assert!(match_decade(Date { year: 5, month: 1, day: 1 }, &Some(0)));
    assert!(!match_decade(Date { year: -5, month: 1, day: 1 }, &Some(0)));
    assert!(!match_decade(Date { year: -15, month: 1, day: 1 }, &Some(65526)));
}

#[test]
fn no_lyrics_means_an_empty_list() {
    assert!(match_no_lyrics(&Vec::new()));
    assert!(!match_no_lyrics(&strings(&[""])));
    assert!(!match_no_lyrics(&strings(&["la la la"])));
}

#[test]
fn words_are_found_in_any_block_whatever_the_case() {
    let lyrics = strings(&["Because the NIGHT", "belongs to lovers"]);
    assert!(match_lyrics_contain_words(&None, &lyrics));
    assert!(match_lyrics_contain_words(&Some("night".to_string()), &lyrics));
    assert!(match_lyrics_contain_words(&Some("Lovers".to_string()), &lyrics));
    assert!(match_lyrics_contain_words(&Some("day,LOVE".to_string()), &lyrics));
    assert!(match_lyrics_contain_words(&Some("the night".to_string()), &lyrics));
    assert!(!match_lyrics_contain_words(&Some("day,morning".to_string()), &lyrics));
    assert!(!match_lyrics_contain_words(&Some("night belongs".to_string()), &lyrics));
}

#[test]
fn words_against_no_lyrics() {
    assert!(match_lyrics_contain_words(&None, &Vec::new()));
    assert!(!match_lyrics_contain_words(&Some("night".to_string()), &Vec::new()));
    assert!(!match_lyrics_contain_words(&Some("".to_string()), &Vec::new()));
    assert!(match_lyrics_contain_words(&Some("".to_string()), &strings(&["x"])));
}

#[test]
fn an_exact_criterion_is_absent_or_equal() {
    assert!(equals_same_value::<i32>(&None, &1987));
    assert!(equals_same_value::<i32>(&Some(1987), &1987));
    assert!(!equals_same_value::<i32>(&Some(1988), &1987));
    assert!(equals_same_value::<u32>(&Some(3), &3));
    assert!(!equals_same_value::<u16>(&Some(1980), &1990));
    assert!(equals_same_value::<String>(&Some("Dookie".to_string()), &"Dookie".to_string()));
    assert!(!equals_same_value::<String>(&Some("Dookie".to_string()), &"dookie".to_string()));
    assert!(equals_same_value::<String>(&None, &"Dookie".to_string()));
}

#[test]
fn a_filter_without_criteria_accepts_every_dated_record() {
    let filter = SongDataFilter::default();
    let mut record = song("/m/a/b/01.flac", "1987-03-01");
    assert!(filter.matches(&record));
    record.genre = strings(&["Rock"]);
    record.lyrics = strings(&["la"]);
    record.track_artist = "Someone".to_string();
    assert!(filter.matches(&record));
    assert!(filter.matches_in_week(&record, &None));
}

#[test]
fn a_record_without_a_date_is_filtered_out() {
    let filter = SongDataFilter::default();
    assert!(!filter.matches(&song("/m/a/b/01.flac", "")));
    assert!(!filter.matches(&song("/m/a/b/01.flac", "1987")));
    let kept = filter.filter(vec![song("a", "1987-03-01"), song("b", "?"), song("c", "2001-01-01")]);
    let names: Vec<&str> = kept.iter().map(|s| s.filename.as_str()).collect();
    assert_eq!(names, vec!["a", "c"]);
}

#[test]
fn exact_criteria_reject_a_record_that_differs() {
    let mut record = song("/m/a/b/01.flac", "1987-03-01");
    record.track_artist = "Green Day".to_string();
    record.album_title = "Dookie".to_string();
    record.track_number = "01".to_string();
    let year = SongDataFilter { year: Some(1987), ..SongDataFilter::default() };
    assert!(year.matches(&record));
    let other_year = SongDataFilter { year: Some(1988), ..SongDataFilter::default() };
    assert!(!other_year.matches(&record));
    let month = SongDataFilter { month: Some(3), ..SongDataFilter::default() };
    assert!(month.matches(&record));
    let other_month = SongDataFilter { month: Some(4), ..SongDataFilter::default() };
    assert!(!other_month.matches(&record));
    let first = SongDataFilter { day: Some(1), ..SongDataFilter::default() };
    assert!(first.matches(&record));
    let second = SongDataFilter { day: Some(2), ..SongDataFilter::default() };
    assert!(!second.matches(&record));
    let artist = SongDataFilter { artist: Some("Green Day".to_string()), ..SongDataFilter::default() };
    assert!(artist.matches(&record));
    let other_artist = SongDataFilter { artist: Some("Green".to_string()), ..SongDataFilter::default() };
    assert!(!other_artist.matches(&record));
    let album = SongDataFilter { album: Some("Dookie".to_string()), ..SongDataFilter::default() };
    assert!(album.matches(&record));
    let other_album = SongDataFilter { album: Some("Nimrod".to_string()), ..SongDataFilter::default() };
    assert!(!other_album.matches(&record));
    let track = SongDataFilter { track: Some("01".to_string()), ..SongDataFilter::default() };
    assert!(track.matches(&record));
    let other_track = SongDataFilter { track: Some("1".to_string()), ..SongDataFilter::default() };
    assert!(!other_track.matches(&record));
}

#[test]
fn one_criterion_that_fails_rejects_the_record() {
    let mut record = song("/m/a/b/01.flac", "1987-03-01");
    record.genre = strings(&["Rock"]);
    let both = SongDataFilter { year: Some(1987), genre: Some("Rock".to_string()), ..SongDataFilter::default() };
    assert!(both.matches(&record));
    let one = SongDataFilter { year: Some(1987), genre: Some("Pop".to_string()), ..SongDataFilter::default() };
    assert!(!one.matches(&record));
}

#[test]
fn a_record_of_1987_matches_the_decade_1980_and_no_other() {
    let record = song("/m/a/b/01.flac", "1987-03-01");
    for decade in (0..3000u16).step_by(10) {
        let filter = SongDataFilter { decade: Some(decade), ..SongDataFilter::default() };
        assert_eq!(filter.matches(&record), decade == 1980);
    }
}

#[test]
fn the_instrumental_flag_asks_for_no_lyrics() {
    let mut record = song("/m/a/b/01.flac", "1987-03-01");
    let filter = SongDataFilter { instrumental: true, ..SongDataFilter::default() };
    assert!(filter.matches(&record));
    record.lyrics = strings(&["la"]);
    assert!(!filter.matches(&record));
    assert!(SongDataFilter::default().matches(&record));
}

#[test]
fn the_week_flag_goes_by_the_window() {
    let record = song("/m/a/b/01.flac", "1987-12-30");
    let filter = SongDataFilter { week: true, ..SongDataFilter::default() };
    let across = Some(WeekWindow { start: day(12, 28), end: day(1, 3) });
    let spring = Some(WeekWindow { start: day(5, 11), end: day(5, 17) });
    assert!(filter.matches_in_week(&record, &across));
    assert!(!filter.matches_in_week(&record, &spring));
    assert!(!filter.matches_in_week(&record, &None));
    assert!(SongDataFilter::default().matches_in_week(&record, &spring));
}

#[test]
fn filter_keeps_the_order_of_the_records() {
    let mut records = Vec::new();
    for (file, date) in [("e", "2001-05-05"), ("a", "1987-03-01"), ("d", "2001-01-09"), ("b", "1987-12-24"), ("c", "2001-02-02")] {
        records.push(song(file, date));
    }
    let filter = SongDataFilter { year: Some(2001), ..SongDataFilter::default() };
    let kept = filter.filter(records);
    let names: Vec<&str> = kept.iter().map(|s| s.filename.as_str()).collect();
    assert_eq!(names, vec!["e", "d", "c"]);
}

#[test]
fn filter_of_nothing_is_nothing() {
    assert!(SongDataFilter::default().filter(Vec::new()).is_empty());
    assert!(SongDataFilter::default().filter_in_week(Vec::new(), &None).is_empty());
}

#[test]
fn today_is_a_day_of_the_calendar() {
    let now = today();
    assert!(1 <= now.month && now.month <= 12);
    assert!(1 <= now.day && now.day <= 31);
    assert!(now.year >= 2024);
    assert!(chrono::NaiveDate::from_ymd_opt(now.year, now.month, now.day).is_some());
    assert!(week_of(&now).is_some());
}

#[test]
fn a_day_that_no_month_has_is_in_no_week() {
    assert_eq!(week_of(&Date { year: 2024, month: 2, day: 30 }), None);
    assert_eq!(week_of(&Date { year: 2023, month: 2, day: 29 }), None);
    assert!(week_of(&Date { year: 2024, month: 2, day: 29 }).is_some());
    assert!(week_of(&Date { year: 2000, month: 2, day: 29 }).is_some());
    assert_eq!(week_of(&Date { year: 1900, month: 2, day: 29 }), None);
    assert_eq!(week_of(&Date { year: 2024, month: 4, day: 31 }), None);
}
