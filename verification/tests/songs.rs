use mic::cache::CacheData;
use mic::songs::{load_song_tag, phrases_to_words, songs_list, SongData, TagText};

fn song(file: &str, title: &str) -> SongData {
    SongData { filename: file.to_string(), track_title: title.to_string(), ..SongData::default() }
}

#[test]
fn can_load_tag() {
    let tags = TagText { track_artist: "Adam Lambert".to_string(), ..TagText::default() };
    let tag = load_song_tag(tags, &"/home/andrew/music/adam-lambert/velvet/01-velvet.flac".to_string());

    assert_eq!(tag.track_artist, "Adam Lambert");
}

#[test]
fn a_record_keeps_single_values_as_they_are() {
    let tags = TagText {
        album_title: "Velvet".to_string(),
        recording_date: "2020-03-20".to_string(),
        track_number: "01".to_string(),
        track_length: 215,
        comment: "a, b; c".to_string(),
        ..TagText::default()
    };
    let record = load_song_tag(tags, &"/m/adam-lambert/velvet/01-velvet.flac".to_string());
    assert_eq!(record.filename, "/m/adam-lambert/velvet/01-velvet.flac");
    assert_eq!(record.album_title, "Velvet");
    assert_eq!(record.recording_date, "2020-03-20");
    assert_eq!(record.track_number, "01");
    assert_eq!(record.track_length, 215);
    assert_eq!(record.comment, "a, b; c");
    assert_eq!(record.track_artist, "");
}

#[test]
fn a_record_cuts_lists_at_their_separators() {
    let tags = TagText {
        genre: "Pop;Funk;;Rock, Glam".to_string(),
        mood: "warm,,dark".to_string(),
        lyrics: "first block\nstill first\n\nsecond block\n\n\n\nthird".to_string(),
        composer: "A,B".to_string(),
        writer: "".to_string(),
        ..TagText::default()
    };
    let record = load_song_tag(tags, &"f".to_string());
    assert_eq!(record.genre, vec!["Pop", "Funk", "Rock, Glam"]);
    assert_eq!(record.mood, vec!["warm", "dark"]);
    assert_eq!(record.lyrics, vec!["first block\nstill first", "second block", "third"]);
    assert_eq!(record.composer, vec!["A", "B"]);
    assert!(record.writer.is_empty());
    assert!(record.arranger.is_empty());
}

#[test]
fn the_blank_record_is_empty() {
    let record = SongData::default();
    assert_eq!(record.filename, "");
    assert_eq!(record.track_length, 0);
    assert!(record.genre.is_empty() && record.lyrics.is_empty() && record.mood.is_empty());
    let tags = TagText::default();
    assert_eq!(tags.genre, "");
    assert_eq!(tags.track_length, 0);
}

#[test]
fn phrases_to_words_keeps_long_words_that_are_no_conjunctions() {
    let words = phrases_to_words("Because the night BELONGS to lovers, wherever!".to_string());
    assert_eq!(words, vec!["night", "belongs", "lovers", "wherever"]);
}

#[test]
fn phrases_to_words_drops_conjunctions_and_short_words() {
    assert!(phrases_to_words("and but or nor for so yet if as than that now when".to_string()).is_empty());
    assert!(phrases_to_words("because although though while unless until".to_string()).is_empty());
    assert!(phrases_to_words("After Before Since Whenever Where Wherever Whether".to_string()).is_empty());
    assert!(phrases_to_words("love you baby yeah".to_string()).is_empty());
    assert!(phrases_to_words("".to_string()).is_empty());
    assert!(phrases_to_words(" \n\t ".to_string()).is_empty());
}

#[test]
fn phrases_to_words_counts_bytes_and_trims_afterwards() {
    assert_eq!(phrases_to_words("12345 (hi!) \"quoted\" héllo ¡olé!".to_string()), vec!["", "hi", "quoted", "héllo", "ol"]);
    assert_eq!(phrases_to_words("night-time o'clock".to_string()), vec!["night-time", "o'clock"]);
}

#[test]
fn songs_list_takes_in_fresh_records_and_hands_out_all() {
    let mut cache: CacheData<SongData> = CacheData::new();
    assert!(cache.insert_new("a".to_string(), song("a", "cached a")));
    assert!(cache.insert_new("b".to_string(), song("b", "cached b")));
    let fresh = vec![
        ("c".to_string(), song("c", "fresh c")),
        ("a".to_string(), song("a", "fresh a")),
        ("d".to_string(), song("d", "fresh d")),
        ("c".to_string(), song("c", "second c")),
    ];
    let all = songs_list(cache, fresh);
    let titles: Vec<(&str, &str)> = all.iter().map(|(path, s)| (path.as_str(), s.track_title.as_str())).collect();
    assert_eq!(titles, vec![("a", "cached a"), ("b", "cached b"), ("c", "fresh c"), ("d", "fresh d")]);
}

#[test]
fn patterns_lie_two_directories_below_the_music() {
    assert_eq!(mic::songs::songs_pattern("/home/andrew/music"), "/home/andrew/music/*/*/*[.flac,.mp3,.wav]");
    assert_eq!(mic::songs::albums_pattern("/m"), "/m/*/*/*01-*[.flac,.mp3,.wav]");
    assert_eq!(mic::covers::covers_pattern(""), "/*/*/cover.*");
}
