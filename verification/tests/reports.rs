use mic::count::{
    count_distinct, count_general, count_genres, count_moods, count_music, count_words, count_years, gather,
    get_count_headers, get_songs_or_albums, words_of_lyrics, CountArgs, CountCommands, CountRows, Field,
    GenreArgs, MoodArgs, WordsArgs, YearsArgs,
};
use mic::date::{WeekWindow, YearlessDate};
use mic::info::{get_track_info, has_value, is_tag_excluded, InfoArgs, TagValue};
use mic::missing::{get_missing_tag, MissingArgs};
use mic::playlist::{
    generate_playlist, generate_playlist_in_week, playlist_path, playlist_text, song_files, PlaylistArgs,
};
use mic::release::{release_day_of, sort_by_release_day, sort_for_playlist};
use mic::songs::{SongData, SongDataFilter};
use mic::sort::{sort, strip_keys, Keyed};
use mic::tally::{ranking, tally};
use mic::time::{add_capped, measure, times_of_music, total_time, TimeArgs, TimeReport};
use mic::wtp::{line_of, wtpn, wtpn_in_week, WtpArgs};

fn strings(items: &[&str]) -> Vec<String> {
    items.iter().map(|s| s.to_string()).collect()
}

fn rows(items: &[(&str, usize)]) -> Vec<(String, usize)> {
    items.iter().map(|(s, n)| (s.to_string(), *n)).collect()
}

fn song(file: &str, date: &str) -> SongData {
    SongData { filename: file.to_string(), recording_date: date.to_string(), ..SongData::default() }
}

fn track(file: &str, date: &str, album: &str, artist: &str, genres: &[&str], moods: &[&str], length: u64) -> SongData {
    SongData {
        filename: file.to_string(),
        recording_date: date.to_string(),
        album_title: album.to_string(),
        track_artist: artist.to_string(),
        genre: strings(genres),
        mood: strings(moods),
        track_length: length,
        ..SongData::default()
    }
}

fn library() -> Vec<SongData> {
    vec![
        track("/home/andrew/music/gd/dookie/01-burnout.flac", "1994-02-01", "Dookie", "Green Day", &["Punk", "Rock"], &["angry"], 127),
        track("/home/andrew/music/gd/dookie/02-having.flac", "1994-02-01", "Dookie", "Green Day", &["Punk"], &["angry", "fast"], 164),
        track("/home/andrew/music/al/velvet/01-velvet.flac", "2020-03-20", "Velvet", "Adam Lambert", &["Pop", "Funk"], &["warm"], 215),
        track("/home/andrew/music/x/undated/01.flac", "unknown", "Lost", "Nobody", &["Noise"], &["dark"], 999),
        track("/home/andrew/music/q/hits/01.flac", "1981-10-26", "Greatest Hits", "Queen", &["Rock"], &["warm", "angry"], 355),
    ]
}

fn albums() -> Vec<SongData> {
    vec![
        track("/home/andrew/music/gd/dookie/01-burnout.flac", "1994-02-01", "Dookie", "Green Day", &["Punk", "Rock"], &["angry"], 127),
        track("/home/andrew/music/al/velvet/01-velvet.flac", "2020-03-20", "Velvet", "Adam Lambert", &["Pop", "Funk"], &["warm"], 215),
    ]
}

fn count_args() -> CountArgs {
    CountArgs { day: None, decade: None, month: None, year: None, moods: None, album: false, commands: None }
}

fn years_args() -> YearsArgs {
    YearsArgs { genre: None, day: None, decade: None, month: None, year: None, album: false }
}

fn genre_args() -> GenreArgs {
    GenreArgs { day: None, decade: None, month: None, year: None, album: false }
}

fn words_args() -> WordsArgs {
    WordsArgs { day: None, decade: None, month: None, year: None, album: false, length: None }
}

fn mood_args() -> MoodArgs {
    MoodArgs { day: None, decade: None, month: None, year: None, album: false, length: None }
}

fn playlist_args() -> PlaylistArgs {
    PlaylistArgs {
        album: None,
        artist: None,
        genre: None,
        moods: None,
        day: None,
        decade: None,
        month: None,
        year: None,
        length: None,
        track: None,
        week: false,
        words: None,
        instrumental: false,
        random: false,
        name: None,
    }
}

#[test]
fn sort_is_stable() {
    let mut items: Vec<Keyed<u128, &str>> = Vec::new();
    for (key, item) in [(3, "c"), (1, "a"), (3, "d"), (2, "b"), (1, "e"), (3, "f")] {
        items.push(Keyed { key, item });
    }
    sort(&mut items);
    let order: Vec<&str> = items.iter().map(|i| i.item).collect();
    assert_eq!(order, vec!["a", "e", "b", "c", "d", "f"]);
    let mut none: Vec<u128> = Vec::new();
    sort(&mut none);
    assert!(none.is_empty());
}

#[test]
fn sort_of_numbers_is_ascending() {
    let mut numbers: Vec<u128> = vec![5, 3, 9, 3, 0, 7];
    sort(&mut numbers);
    assert_eq!(numbers, vec![0, 3, 3, 5, 7, 9]);
    let mut pairs: Vec<(i32, usize)> = vec![(2001, 1), (1987, 5), (2001, 0), (-4, 2)];
    sort(&mut pairs);
    assert_eq!(pairs, vec![(-4, 2), (1987, 5), (2001, 0), (2001, 1)]);
}

#[test]
fn keyed_items_are_sorted_by_their_keys() {
    let mut keyed = vec![
        Keyed { key: 2u128, item: "two" },
        Keyed { key: 1u128, item: "one" },
        Keyed { key: 2u128, item: "zwei" },
    ];
    sort(&mut keyed);
    assert_eq!(strip_keys(keyed), vec!["one", "two", "zwei"]);
}

#[test]
fn tally_counts_in_the_order_of_first_appearance() {
    let counts = tally(&strings(&["b", "a", "b", "c", "b", "a"]));
    assert_eq!(counts, rows(&[("b", 3), ("a", 2), ("c", 1)]));
    assert!(tally(&Vec::new()).is_empty());
}

#[test]
fn ranking_puts_the_highest_count_first_and_then_goes_by_name() {
    let ranks = ranking(&strings(&["Rock", "Pop", "Jazz", "Rock", "Pop", "Ska", "Blues", "Pop"]));
    assert_eq!(ranks, rows(&[("Pop", 3), ("Rock", 2), ("Blues", 1), ("Jazz", 1), ("Ska", 1)]));
}

#[test]
fn gather_collects_a_field_of_every_record() {
    let songs = library();
    assert_eq!(gather(&songs, Field::AlbumTitle), vec!["Dookie", "Dookie", "Velvet", "Lost", "Greatest Hits"]);
    assert_eq!(gather(&songs, Field::Genre), vec!["Punk", "Rock", "Punk", "Pop", "Funk", "Noise", "Rock"]);
    assert_eq!(gather(&songs, Field::Mood), vec!["angry", "angry", "fast", "warm", "dark", "warm", "angry"]);
    assert_eq!(gather(&songs, Field::TrackArtist).len(), 5);
    assert!(gather(&songs, Field::Words).is_empty());
    assert_eq!(count_distinct(&gather(&songs, Field::AlbumTitle)), 4);
    assert_eq!(count_distinct(&Vec::new()), 0);
}

#[test]
fn words_of_lyrics_go_block_by_block() {
    let lyrics = strings(&["Hello darkness, my old friend", "I've come to TALK with you again"]);
    assert_eq!(words_of_lyrics(&lyrics), vec!["hello", "darkness", "friend", "again"]);
}

#[test]
fn the_records_of_a_count_are_tracks_or_albums() {
    let kept = get_songs_or_albums(false, SongDataFilter::default(), library(), albums());
    assert_eq!(kept.len(), 4);
    let kept = get_songs_or_albums(true, SongDataFilter::default(), library(), albums());
    assert_eq!(kept.len(), 2);
    let punk = SongDataFilter { genre: Some("Punk".to_string()), ..SongDataFilter::default() };
    let kept = get_songs_or_albums(false, punk, library(), albums());
    assert_eq!(kept.len(), 2);
}

#[test]
fn headers_name_what_is_counted() {
    assert_eq!(get_count_headers("Years", false), ("Years".to_string(), "# of Songs".to_string()));
    assert_eq!(get_count_headers("Genres", true), ("Genres".to_string(), "# of Albums".to_string()));
}

#[test]
fn the_sizes_of_the_library() {
    let sizes = count_general(count_args(), library(), albums());
    assert_eq!(sizes, rows(&[("Songs", 4), ("Albums", 3), ("Artists", 3), ("Genres", 4), ("Moods", 3)]));
    let of_albums = count_general(CountArgs { album: true, ..count_args() }, library(), albums());
    assert_eq!(of_albums, rows(&[("Albums", 2), ("Artists", 2), ("Genres", 4), ("Moods", 2)]));
    let of_1994 = count_general(CountArgs { year: Some(1994), ..count_args() }, library(), albums());
    assert_eq!(of_1994, rows(&[("Songs", 2), ("Albums", 1), ("Artists", 1), ("Genres", 2), ("Moods", 2)]));
    let warm = count_general(CountArgs { moods: Some("warm".to_string()), ..count_args() }, library(), albums());
    assert_eq!(warm, rows(&[("Songs", 2), ("Albums", 2), ("Artists", 2), ("Genres", 3), ("Moods", 2)]));
    let none = count_general(CountArgs { year: Some(1800), ..count_args() }, library(), albums());
    assert_eq!(none, rows(&[("Songs", 0), ("Albums", 0), ("Artists", 0), ("Genres", 0), ("Moods", 0)]));
}

#[test]
fn years_are_counted_in_ascending_order() {
    assert_eq!(count_years(years_args(), library(), albums()), vec![(1981, 1), (1994, 2), (2020, 1)]);
    let rock = YearsArgs { genre: Some("Rock".to_string()), ..years_args() };
    assert_eq!(count_years(rock, library(), albums()), vec![(1981, 1), (1994, 1)]);
    let nineties = YearsArgs { decade: Some(1990), album: true, ..years_args() };
    assert_eq!(count_years(nineties, library(), albums()), vec![(1994, 1)]);
    assert!(count_years(years_args(), Vec::new(), Vec::new()).is_empty());
}

#[test]
fn genres_are_ranked() {
    let ranks = count_genres(genre_args(), library(), albums());
    assert_eq!(ranks, rows(&[("Punk", 2), ("Rock", 2), ("Funk", 1), ("Pop", 1)]));
    let of_2020 = count_genres(GenreArgs { year: Some(2020), ..genre_args() }, library(), albums());
    assert_eq!(of_2020, rows(&[("Funk", 1), ("Pop", 1)]));
}

#[test]
fn moods_are_ranked_with_their_counts_less_one() {
    let ranks = count_moods(mood_args(), library(), albums());
    assert_eq!(ranks, rows(&[("angry", 2), ("warm", 1), ("fast", 0)]));
    let top = count_moods(MoodArgs { length: Some(2), ..mood_args() }, library(), albums());
    assert_eq!(top, rows(&[("angry", 2), ("warm", 1)]));
    let more = count_moods(MoodArgs { length: Some(9), ..mood_args() }, library(), albums());
    assert_eq!(more.len(), 3);
}

#[test]
fn words_are_ranked_and_cut_to_the_length() {
    let mut songs = library();
    songs[0].lyrics = strings(&["Hello darkness, my old friend", "Hello again"]);
    songs[2].lyrics = strings(&["again and again, HELLO"]);
    let all = count_words(words_args(), songs.clone(), albums());
    assert_eq!(all, rows(&[("again", 3), ("hello", 3), ("darkness", 1), ("friend", 1)]));
    let top = count_words(WordsArgs { length: Some(1), ..words_args() }, songs.clone(), albums());
    assert_eq!(top, rows(&[("again", 3)]));
    let none = count_words(WordsArgs { length: Some(0), ..words_args() }, songs, albums());
    assert!(none.is_empty());
}

#[test]
fn count_music_picks_the_table() {
    let report = count_music(count_args(), library(), albums());
    assert_eq!(report.headers, ("Name".to_string(), "Total".to_string()));
    assert!(matches!(report.rows, CountRows::Named(r) if r.len() == 5 && r[0] == ("Songs".to_string(), 4)));
    let years = CountArgs { commands: Some(CountCommands::Years(years_args())), ..count_args() };
    let report = count_music(years, library(), albums());
    assert_eq!(report.headers, ("Years".to_string(), "# of Songs".to_string()));
    assert!(matches!(report.rows, CountRows::Years(r) if r == vec![(1981, 1), (1994, 2), (2020, 1)]));
    let genres = CountArgs { commands: Some(CountCommands::Genres(GenreArgs { album: true, ..genre_args() })), ..count_args() };
    let report = count_music(genres, library(), albums());
    assert_eq!(report.headers, ("Genres".to_string(), "# of Albums".to_string()));
    assert!(matches!(report.rows, CountRows::Named(r) if r.len() == 4));
    let moods = CountArgs { commands: Some(CountCommands::Moods(mood_args())), ..count_args() };
    let report = count_music(moods, library(), albums());
    assert_eq!(report.headers.0, "Moods");
    assert!(matches!(report.rows, CountRows::Named(r) if r[0] == ("angry".to_string(), 2)));
    let words = CountArgs { commands: Some(CountCommands::Words(words_args())), ..count_args() };
    let report = count_music(words, library(), albums());
    assert_eq!(report.headers.0, "Moods");
    assert!(matches!(report.rows, CountRows::Named(r) if r.is_empty()));
}

#[test]
fn release_days_go_by_month_and_day() {
    assert_eq!(release_day_of(&song("a", "1994-02-01")), YearlessDate { month: 2, day: 1 });
    assert_eq!(release_day_of(&song("a", "?")), YearlessDate { month: 0, day: 0 });
    let sorted = sort_by_release_day(vec![
        song("d", "2020-12-24"),
        song("b", "1994-02-01"),
        song("a", "2001-02-01"),
        song("c", "1950-01-31"),
    ]);
    let names: Vec<&str> = sorted.iter().map(|s| s.filename.as_str()).collect();
    assert_eq!(names, vec!["c", "b", "a", "d"]);
}

#[test]
fn playlist_order_breaks_ties_by_file_name() {
    let songs = vec![
        song("d", "2020-12-24"),
        song("b", "1994-02-01"),
        song("a", "2001-02-01"),
        song("c", "1950-01-31"),
        song("B", "1977-02-01"),
    ];
    let sorted = sort_for_playlist(songs);
    let names: Vec<&str> = sorted.iter().map(|s| s.filename.as_str()).collect();
    assert_eq!(names, vec!["c", "B", "a", "b", "d"]);
}

#[test]
fn playlist_entries_leave_out_the_music_directory() {
    let files = song_files(&library());
    assert_eq!(files[0], "gd/dookie/01-burnout.flac");
    assert_eq!(files[2], "al/velvet/01-velvet.flac");
    assert_eq!(song_files(&vec![song("/elsewhere/a.mp3", "")]), vec!["/elsewhere/a.mp3"]);
    assert_eq!(song_files(&vec![song("/x/home/andrew/music/a.mp3", "")]), vec!["/xa.mp3"]);
}

#[test]
fn a_playlist_is_the_same_on_every_run() {
    let mut first: Option<Vec<String>> = None;
    for _ in 0..5 {
        let list = generate_playlist(playlist_args(), library());
        assert_eq!(
            list,
            vec![
                "gd/dookie/01-burnout.flac",
                "gd/dookie/02-having.flac",
                "al/velvet/01-velvet.flac",
                "q/hits/01.flac"
            ]
        );
        if let Some(before) = &first {
            assert_eq!(before, &list);
        }
        first = Some(list);
    }
}

#[test]
fn a_playlist_goes_by_its_filter_and_its_length() {
    let punk = PlaylistArgs { genre: Some("Punk".to_string()), length: Some(1), ..playlist_args() };
    assert_eq!(generate_playlist(punk, library()), vec!["gd/dookie/01-burnout.flac"]);
    let queen = PlaylistArgs { artist: Some("Queen".to_string()), day: Some(1), album: Some("x".to_string()), ..playlist_args() };
    assert_eq!(generate_playlist(queen, library()), vec!["q/hits/01.flac"]);
    let none = PlaylistArgs { year: Some(1800), ..playlist_args() };
    assert!(generate_playlist(none, library()).is_empty());
    let instrumental = PlaylistArgs { instrumental: true, track: Some("".to_string()), ..playlist_args() };
    assert_eq!(generate_playlist(instrumental, library()).len(), 4);
}

#[test]
fn a_random_playlist_holds_the_same_entries() {
    for _ in 0..20 {
        let mut list = generate_playlist(PlaylistArgs { random: true, ..playlist_args() }, library());
        list.sort();
        assert_eq!(
            list,
            vec![
                "al/velvet/01-velvet.flac",
                "gd/dookie/01-burnout.flac",
                "gd/dookie/02-having.flac",
                "q/hits/01.flac"
            ]
        );
    }
    let short = generate_playlist(PlaylistArgs { random: true, length: Some(3), ..playlist_args() }, library());
    assert_eq!(short.len(), 3);
}

#[test]
fn a_playlist_of_the_week_goes_by_the_window() {
    let week = Some(WeekWindow { start: YearlessDate { month: 3, day: 14 }, end: YearlessDate { month: 3, day: 20 } });
    let list = generate_playlist_in_week(PlaylistArgs { week: true, ..playlist_args() }, library(), &week);
    assert_eq!(list, vec!["al/velvet/01-velvet.flac"]);
    let list = generate_playlist_in_week(PlaylistArgs { week: true, ..playlist_args() }, library(), &None);
    assert!(list.is_empty());
}

#[test]
fn a_playlist_file_has_one_entry_to_the_line() {
    assert_eq!(playlist_text(&strings(&["a.flac", "b c.mp3", "d"])), "a.flac\nb c.mp3\nd");
    assert_eq!(playlist_text(&strings(&["a.flac"])), "a.flac");
    assert_eq!(playlist_text(&Vec::new()), "");
    assert_eq!(playlist_path("punk"), "./punk.m3u");
    assert_eq!(playlist_path(""), "./.m3u");
}

#[test]
fn what_to_play_lists_albums_by_release_day() {
    let args = WtpArgs { day: None, decade: None, month: None, year: None, week: false };
    let mut records = albums();
    records.push(track("/m/q/hits/01.flac", "1981-02-01", "Greatest Hits", "Queen", &[], &[], 1));
    let lines = wtpn(args, records);
    assert_eq!(
        lines,
        vec!["1994-02-01 Green Day - Dookie", "1981-02-01 Queen - Greatest Hits", "2020-03-20 Adam Lambert - Velvet"]
    );
    assert_eq!(line_of(&albums()[1]), "2020-03-20 Adam Lambert - Velvet");
}

#[test]
fn what_to_play_goes_by_its_filter() {
    let february = WtpArgs { day: None, decade: None, month: Some(2), year: None, week: false };
    assert_eq!(wtpn(february, albums()), vec!["1994-02-01 Green Day - Dookie"]);
    let week = Some(WeekWindow { start: YearlessDate { month: 3, day: 14 }, end: YearlessDate { month: 3, day: 20 } });
    let this_week = WtpArgs { day: None, decade: None, month: None, year: None, week: true };
    assert_eq!(wtpn_in_week(this_week, albums(), &week), vec!["2020-03-20 Adam Lambert - Velvet"]);
}

#[test]
fn times_are_added_up_to_the_limit() {
    assert_eq!(add_capped(1, 2), 3);
    assert_eq!(add_capped(u64::MAX, 1), u64::MAX);
    assert_eq!(add_capped(u64::MAX - 1, 1), u64::MAX);
    assert_eq!(total_time(&library()), 127 + 164 + 215 + 999 + 355);
    assert_eq!(total_time(&Vec::new()), 0);
}

#[test]
fn running_times_of_the_library() {
    let args = TimeArgs { decade: None, year: None, month: None, genre: None, artist: None, album: None };
    let report = times_of_music(args, library()).unwrap();
    assert_eq!(
        report,
        TimeReport {
            shortest_album: 215,
            average_album: 287,
            longest_album: 355,
            shortest_song: 127,
            average_song: 215,
            longest_song: 355,
            total: 861,
        }
    );
    let named: Vec<(String, String)> = report.rows();
    assert_eq!(named[0], ("Shortest album".to_string(), "03:35".to_string()));
    assert_eq!(named[1], ("Avg album length".to_string(), "04:47".to_string()));
    assert_eq!(named[2], ("Longest album".to_string(), "05:55".to_string()));
    assert_eq!(named[3], ("Shortest song".to_string(), "02:07".to_string()));
    assert_eq!(named[4], ("Avg song length".to_string(), "03:35".to_string()));
    assert_eq!(named[5], ("Longest song".to_string(), "05:55".to_string()));
    assert_eq!(named[6], ("Total song length".to_string(), "14:21".to_string()));
    assert_eq!(named.len(), 7);
}

#[test]
fn running_times_go_by_the_filter() {
    let punk = TimeArgs { decade: None, year: None, month: None, genre: Some("Punk".to_string()), artist: None, album: None };
    let report = times_of_music(punk, library()).unwrap();
    assert_eq!((report.shortest_album, report.longest_album, report.average_album), (291, 291, 291));
    assert_eq!((report.shortest_song, report.longest_song, report.average_song, report.total), (127, 164, 145, 291));
    let none = TimeArgs { decade: None, year: Some(1800), month: None, genre: None, artist: None, album: None };
    assert_eq!(times_of_music(none, library()), None);
    assert_eq!(measure(&Vec::new()), None);
}

#[test]
fn running_times_stop_at_the_limit() {
    let long = vec![
        track("a", "2000-01-01", "A", "x", &[], &[], u64::MAX),
        track("b", "2000-01-01", "A", "x", &[], &[], 5),
        track("c", "2000-01-01", "B", "x", &[], &[], 7),
    ];
    let report = measure(&long).unwrap();
    assert_eq!(report.total, u64::MAX);
    assert_eq!(report.longest_album, u64::MAX);
    assert_eq!(report.shortest_album, 7);
    assert_eq!(report.average_song, u64::MAX / 3);
    assert_eq!(report.average_album, u64::MAX / 2);
}

#[test]
fn excluded_tags_are_found_by_name() {
    let excludes = strings(&["lyrics", "comment"]);
    assert!(is_tag_excluded("lyrics".to_string(), &excludes));
    assert!(!is_tag_excluded("Lyrics".to_string(), &excludes));
    assert!(!is_tag_excluded("genre".to_string(), &Vec::new()));
}

#[test]
fn a_tag_has_a_value_or_is_missing() {
    assert!(has_value(&TagValue::List(strings(&["x"]))));
    assert!(!has_value(&TagValue::List(Vec::new())));
    assert!(has_value(&TagValue::Text("x".to_string())));
    assert!(!has_value(&TagValue::Text(String::new())));
    assert!(has_value(&TagValue::Number(1)));
    assert!(!has_value(&TagValue::Number(0)));
    assert!(!has_value(&TagValue::Other));
}

fn fields() -> Vec<(String, TagValue)> {
    vec![
        ("album_title".to_string(), TagValue::Text("Dookie".to_string())),
        ("comment".to_string(), TagValue::Text(String::new())),
        ("genre".to_string(), TagValue::List(strings(&["Punk"]))),
        ("lyrics".to_string(), TagValue::List(Vec::new())),
        ("track_length".to_string(), TagValue::Number(127)),
        ("work".to_string(), TagValue::Other),
    ]
}

fn shown(args: InfoArgs) -> Vec<String> {
    get_track_info(args, fields()).into_iter().map(|f| f.0).collect()
}

#[test]
fn the_table_of_a_track_shows_what_is_asked_for() {
    let all = InfoArgs { exclude: None, missing: false, name: "f".to_string() };
    assert_eq!(shown(all), vec!["album_title", "comment", "genre", "lyrics", "track_length", "work"]);
    let some = InfoArgs { exclude: Some("genre,,work,nothing".to_string()), missing: false, name: "f".to_string() };
    assert_eq!(shown(some), vec!["album_title", "comment", "lyrics", "track_length"]);
    let missing = InfoArgs { exclude: None, missing: true, name: "f".to_string() };
    assert_eq!(shown(missing), vec!["comment", "lyrics", "work"]);
    let both = InfoArgs { exclude: Some("lyrics".to_string()), missing: true, name: "f".to_string() };
    assert_eq!(shown(both), vec!["comment", "work"]);
    let none = InfoArgs { exclude: Some("".to_string()), missing: false, name: "f".to_string() };
    assert_eq!(get_track_info(none, Vec::new()).len(), 0);
}

#[test]
fn directories_with_tracks_without_lyrics() {
    let mut songs = library();
    songs[2].lyrics = strings(&["la"]);
    let dirs = get_missing_tag(MissingArgs { tag: None }, &songs);
    assert_eq!(dirs, vec!["/home/andrew/music/gd/dookie", "/home/andrew/music/x/undated", "/home/andrew/music/q/hits"]);
    assert!(get_missing_tag(MissingArgs { tag: Some("lyrics".to_string()) }, &Vec::new()).is_empty());
}

#[test]
fn a_playlist_does_not_go_by_the_order_of_the_records() {
    let expected = generate_playlist(playlist_args(), library());
    let mut turned = library();
    turned.reverse();
    assert_eq!(generate_playlist(playlist_args(), turned), expected);
    let mut rotated = library();
    rotated.rotate_left(2);
    assert_eq!(generate_playlist(PlaylistArgs { length: Some(3), ..playlist_args() }, rotated), expected[..3].to_vec());
    let mut swapped = library();
    swapped.swap(0, 1);
    swapped.swap(2, 4);
    assert_eq!(generate_playlist(playlist_args(), swapped), expected);
}
