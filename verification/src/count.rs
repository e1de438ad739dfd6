//! Counting the library: how many tracks, albums, artists, genres and moods
//! there are, and how often each year, genre, mood and word occurs.

use std::collections::HashMap;
use vstd::prelude::*;
use crate::cache::{missing_from, CacheData};
use crate::data::{array_truncate, hashmap_to_vec_truple};
use crate::date::{date_of, parse_string_to_datetime, week_around, window_of, Date};
use crate::songs::{kept_words, phrases_to_words, SongData, SongDataFilter};
use crate::sort::{
    lemma_sorted_seq_in_order, lemma_sorted_seq_members, lemma_sorted_seq_pairwise, lemma_sorted_seq_permutes,
    sort, sorted_seq, Ranked,
};
use crate::tally::{capped, counts_of, ranked, ranking};
use crate::text::texts;
use crate::words::{lowercase, words_of};

verus! {

/// What to count, and of which part of the library.
pub struct CountArgs {
    /// Day of release
    pub day: Option<u16>,
    /// Decade of release
    pub decade: Option<u16>,
    /// Month of release
    pub month: Option<u32>,
    /// Year of release
    pub year: Option<i32>,
    /// Mood names, separated by commas
    pub moods: Option<String>,
    /// Count albums rather than tracks
    pub album: bool,
    /// What to count by; the sizes of the library if absent
    pub commands: Option<CountCommands>,
}

/// The counts by a property.
pub enum CountCommands {
    Years(YearsArgs),
    Genres(GenreArgs),
    Moods(MoodArgs),
    Words(WordsArgs),
}

/// Counting by year of release.
pub struct YearsArgs {
    /// Genres, separated by commas
    pub genre: Option<String>,
    /// Day of release
    pub day: Option<u16>,
    /// Decade of release
    pub decade: Option<u16>,
    /// Month of release
    pub month: Option<u32>,
    /// Year of release
    pub year: Option<i32>,
    /// Count albums rather than tracks
    pub album: bool,
}

/// Counting by genre.
pub struct GenreArgs {
    /// Day of release
    pub day: Option<u16>,
    /// Decade of release
    pub decade: Option<u16>,
    /// Month of release
    pub month: Option<u32>,
    /// Year of release
    pub year: Option<i32>,
    /// Count albums rather than tracks
    pub album: bool,
}

/// Counting the words of the lyrics.
pub struct WordsArgs {
    /// Day of release
    pub day: Option<u16>,
    /// Decade of release
    pub decade: Option<u16>,
    /// Month of release
    pub month: Option<u32>,
    /// Year of release
    pub year: Option<i32>,
    /// Count albums rather than tracks
    pub album: bool,
    /// The number of rows to keep
    pub length: Option<usize>,
}

/// Counting by mood.
pub struct MoodArgs {
    /// Day of release
    pub day: Option<u16>,
    /// Decade of release
    pub decade: Option<u16>,
    /// Month of release
    pub month: Option<u32>,
    /// Year of release
    pub year: Option<i32>,
    /// Count albums rather than tracks
    pub album: bool,
    /// The number of rows to keep
    pub length: Option<usize>,
}

/// A property of a record that is a text or a list of texts.
#[derive(Debug, Clone, Copy, PartialEq, Eq, Structural)]
pub enum Field {
    AlbumTitle,
    TrackArtist,
    Genre,
    Mood,
    Words,
}

/// The rows of a table of counts.
pub enum CountRows {
    /// A name and a number.
    Named(Vec<(String, usize)>),
    /// A year and a number.
    Years(Vec<(i32, usize)>),
}

/// A table of counts: the titles of its two columns and its rows.
pub struct CountReport {
    pub headers: (String, String),
    pub rows: CountRows,
}

/// The words worth counting of each block of `lyrics`, one block after the
/// other.
pub open spec fn lyric_words(lyrics: Seq<Seq<char>>) -> Seq<Seq<char>>
    decreases lyrics.len(),
{
    if lyrics.len() == 0 {
        Seq::empty()
    } else {
        lyric_words(lyrics.drop_last()) + kept_words(words_of(lowercase(lyrics.last())))
    }
}

/// The texts that a record has for a field.
pub open spec fn field_texts(song: SongData, field: Field) -> Seq<Seq<char>> {
    match field {
        Field::AlbumTitle => seq![song.album_title@],
        Field::TrackArtist => seq![song.track_artist@],
        Field::Genre => texts(song.genre@),
        Field::Mood => texts(song.mood@),
        Field::Words => lyric_words(texts(song.lyrics@)),
    }
}

/// The texts that the records of `songs` have for a field, one record after
/// the other.
pub open spec fn gathered(songs: Seq<SongData>, field: Field) -> Seq<Seq<char>>
    decreases songs.len(),
{
    if songs.len() == 0 {
        Seq::empty()
    } else {
        gathered(songs.drop_last(), field) + field_texts(songs.last(), field)
    }
}

/// The texts of `items`, each once, in the order of their first appearance.
pub open spec fn distinct(items: Seq<Seq<char>>) -> Seq<Seq<char>> {
    missing_from(Seq::empty(), items)
}

/// The rows of a ranking that are shown: the first `length` of them, or all
/// of them if no length is given or there are no more.
pub open spec fn shown<R>(rows: Seq<R>, length: Option<usize>) -> Seq<R> {
    match length {
        Some(n) => if n < rows.len() {
            rows.take(n as int)
        } else {
            rows
        },
        None => rows,
    }
}

/// Each row with its count lowered by one.
pub open spec fn lowered_by_one(rows: Seq<(String, usize)>) -> Seq<(String, usize)> {
    Seq::new(rows.len(), |i: int| (rows[i].0, (rows[i].1 - 1) as usize))
}

/// The filter that the sizes of the library are counted under.
pub open spec fn general_filter(args: CountArgs) -> SongDataFilter {
    SongDataFilter {
        day: None,
        month: args.month,
        year: args.year,
        artist: None,
        album: None,
        genre: None,
        moods: args.moods,
        words: None,
        decade: None,
        track: None,
        week: false,
        instrumental: false,
    }
}

/// A filter by year and month of release.
pub open spec fn year_month_filter(year: Option<i32>, month: Option<u32>) -> SongDataFilter {
    SongDataFilter {
        day: None,
        month,
        year,
        artist: None,
        album: None,
        genre: None,
        moods: None,
        words: None,
        decade: None,
        track: None,
        week: false,
        instrumental: false,
    }
}

/// The filter that genres are counted under.
pub open spec fn genre_filter(args: GenreArgs) -> SongDataFilter {
    SongDataFilter {
        day: None,
        month: args.month,
        year: args.year,
        artist: None,
        album: None,
        genre: None,
        moods: None,
        words: None,
        decade: args.decade,
        track: None,
        week: false,
        instrumental: false,
    }
}

/// The records that a count runs over: the albums or the tracks, as far as
/// the filter accepts them.
pub open spec fn counted_records(
    album: bool,
    filter: SongDataFilter,
    songs: Seq<SongData>,
    albums: Seq<SongData>,
) -> Seq<SongData> {
    filter.accepted(
        if album {
            albums
        } else {
            songs
        },
        None,
    )
}

/// Appends copies of the strings of `more` to `out`.
pub fn append_strings(out: &mut Vec<String>, more: &Vec<String>)
    ensures
        texts(final(out)@) == texts(old(out)@) + texts(more@),
{
    let ghost head = texts(out@);
    let mut k: usize = 0;
    assert(texts(out@) =~= head + texts(more@).take(0));
    while k < more.len()
        invariant
            k <= more.len(),
            texts(out@) == head + texts(more@).take(k as int),
        decreases more.len() - k,
    {
        let ghost done = texts(out@);
        out.push(more[k].clone());
        assert(texts(out@) =~= done.push(more@[k as int]@));
        k += 1;
        assert(done.push(more@[k - 1]@) =~= head + texts(more@).take(k as int));
    }
    assert(texts(more@).take(k as int) =~= texts(more@));
}

/// The words worth counting of each block of `lyrics`.
pub fn words_of_lyrics(lyrics: &Vec<String>) -> (out: Vec<String>)
    ensures
        texts(out@) == lyric_words(texts(lyrics@)),
{
    let mut out: Vec<String> = Vec::new();
    let ghost all = texts(lyrics@);
    let mut k: usize = 0;
    assert(all.take(0) =~= Seq::<Seq<char>>::empty());
    assert(texts(out@) =~= Seq::<Seq<char>>::empty());
    while k < lyrics.len()
        invariant
            k <= lyrics.len(),
            all == texts(lyrics@),
            texts(out@) == lyric_words(all.take(k as int)),
        decreases lyrics.len() - k,
    {
        assert(all.take(k + 1).drop_last() =~= all.take(k as int));
        let words = phrases_to_words(lyrics[k].clone());
        append_strings(&mut out, &words);
        k += 1;
    }
    assert(all.take(k as int) =~= all);
    out
}

/// The texts that the records of `songs` have for `field`.
pub fn gather(songs: &Vec<SongData>, field: Field) -> (out: Vec<String>)
    ensures
        texts(out@) == gathered(songs@, field),
{
    let mut out: Vec<String> = Vec::new();
    let mut k: usize = 0;
    assert(songs@.take(0) =~= Seq::<SongData>::empty());
    assert(texts(out@) =~= Seq::<Seq<char>>::empty());
    while k < songs.len()
        invariant
            k <= songs.len(),
            texts(out@) == gathered(songs@.take(k as int), field),
        decreases songs.len() - k,
    {
        assert(songs@.take(k + 1).drop_last() =~= songs@.take(k as int));
        let song = &songs[k];
        let ghost done = texts(out@);
        match field {
            Field::AlbumTitle => {
                out.push(song.album_title.clone());
                assert(texts(out@) =~= done + seq![song.album_title@]);
            },
            Field::TrackArtist => {
                out.push(song.track_artist.clone());
                assert(texts(out@) =~= done + seq![song.track_artist@]);
            },
            Field::Genre => {
                append_strings(&mut out, &song.genre);
            },
            Field::Mood => {
                append_strings(&mut out, &song.mood);
            },
            Field::Words => {
                let words = words_of_lyrics(&song.lyrics);
                append_strings(&mut out, &words);
            },
        }
        k += 1;
    }
    assert(songs@.take(k as int) =~= songs@);
    out
}

/// The number of different texts among `items`.
pub fn count_distinct(items: &Vec<String>) -> (n: usize)
    ensures
        n == distinct(texts(items@)).len(),
{
    let none: CacheData<u8> = CacheData::new();
    assert(none.keys() =~= Seq::<Seq<char>>::empty());
    let once = none.missing(items);
    once.len()
}

/// The albums or the tracks, as far as `filters` accepts them.
pub fn get_songs_or_albums(album: bool, filters: SongDataFilter, songs: Vec<SongData>, albums: Vec<
    SongData,
>) -> (out: Vec<SongData>)
    ensures
        !filters.week ==> out@ == counted_records(album, filters, songs@, albums@),
        exists|day: Date|
            day.in_calendar() && out@ == filters.accepted(
                if album {
                    albums@
                } else {
                    songs@
                },
                window_of(week_around(day)),
            ),
{
    if album {
        filters.filter(albums)
    } else {
        filters.filter(songs)
    }
}

/// The titles of the columns of a table of counts.
pub fn get_count_headers(count_name: &str, album: bool) -> (headers: (String, String))
    ensures
        headers.0@ == count_name@,
        headers.1@ == if album {
            "# of Albums"@
        } else {
            "# of Songs"@
        },
{
    if album {
        (count_name.to_string(), "# of Albums".to_string())
    } else {
        (count_name.to_string(), "# of Songs".to_string())
    }
}

/// The sizes of the library under the filter by year, month and moods: the
/// number of tracks, unless albums are counted, and the numbers of different
/// album titles, artists, genres and moods.
pub fn count_general(args: CountArgs, songs: Vec<SongData>, albums: Vec<SongData>) -> (rows: Vec<
    (String, usize),
>)
    ensures
        general_table(rows@, args, songs@, albums@),
{
    let filter = SongDataFilter {
        day: None,
        month: args.month,
        year: args.year,
        artist: None,
        album: None,
        genre: None,
        moods: args.moods,
        words: None,
        decade: None,
        track: None,
        week: false,
        instrumental: false,
    };
    let records = get_songs_or_albums(args.album, filter, songs, albums);
    let mut rows: Vec<(String, usize)> = Vec::new();
    if !args.album {
        rows.push(("Songs".to_string(), records.len()));
    }
    rows.push(("Albums".to_string(), count_distinct(&gather(&records, Field::AlbumTitle))));
    rows.push(("Artists".to_string(), count_distinct(&gather(&records, Field::TrackArtist))));
    rows.push(("Genres".to_string(), count_distinct(&gather(&records, Field::Genre))));
    rows.push(("Moods".to_string(), count_distinct(&gather(&records, Field::Mood))));
    proof {
        let found = counted_records(args.album, general_filter(args), songs@, albums@);
        let sizes = seq![
            ("Albums"@, distinct(gathered(found, Field::AlbumTitle)).len() as usize),
            ("Artists"@, distinct(gathered(found, Field::TrackArtist)).len() as usize),
            ("Genres"@, distinct(gathered(found, Field::Genre)).len() as usize),
            ("Moods"@, distinct(gathered(found, Field::Mood)).len() as usize),
        ];
        if args.album {
            assert(named(rows@) =~= sizes);
        } else {
            assert(named(rows@) =~= seq![("Songs"@, found.len() as usize)] + sizes);
        }
    }
    rows
}

/// The rows of a table with their names as texts.
pub open spec fn named(rows: Seq<(String, usize)>) -> Seq<(Seq<char>, usize)> {
    Seq::new(rows.len(), |i: int| (rows[i].0@, rows[i].1))
}

/// `rows` is the table of the sizes of the library: the number of records,
/// unless albums are counted, and the numbers of different album titles,
/// artists, genres and moods among the records.
pub open spec fn general_table(
    rows: Seq<(String, usize)>,
    args: CountArgs,
    songs: Seq<SongData>,
    albums: Seq<SongData>,
) -> bool {
    let records = counted_records(args.album, general_filter(args), songs, albums);
    let sizes = seq![
        ("Albums"@, distinct(gathered(records, Field::AlbumTitle)).len() as usize),
        ("Artists"@, distinct(gathered(records, Field::TrackArtist)).len() as usize),
        ("Genres"@, distinct(gathered(records, Field::Genre)).len() as usize),
        ("Moods"@, distinct(gathered(records, Field::Mood)).len() as usize),
    ];
    named(rows) == if args.album {
        sizes
    } else {
        seq![("Songs"@, records.len() as usize)] + sizes
    }
}

/// `rows` is the ranking of the genres of the records.
pub open spec fn genres_table(
    rows: Seq<(String, usize)>,
    args: GenreArgs,
    songs: Seq<SongData>,
    albums: Seq<SongData>,
) -> bool {
    &&& counts_of(rows, gathered(counted_records(args.album, genre_filter(args), songs, albums), Field::Genre))
    &&& ranked(rows)
}

/// `rows` is the ranking of the words of the records' lyrics, as far as it is
/// shown.
pub open spec fn words_table(
    rows: Seq<(String, usize)>,
    args: WordsArgs,
    songs: Seq<SongData>,
    albums: Seq<SongData>,
) -> bool {
    exists|full: Seq<(String, usize)>|
        {
            &&& counts_of(
                full,
                gathered(
                    counted_records(args.album, year_month_filter(args.year, args.month), songs, albums),
                    Field::Words,
                ),
            )
            &&& ranked(full)
            &&& rows == shown(full, args.length)
        }
}

/// `rows` is the ranking of the moods of the records, each count lowered by
/// one, as far as it is shown.
pub open spec fn moods_table(
    rows: Seq<(String, usize)>,
    args: MoodArgs,
    songs: Seq<SongData>,
    albums: Seq<SongData>,
) -> bool {
    exists|full: Seq<(String, usize)>|
        {
            &&& counts_of(
                full,
                gathered(
                    counted_records(args.album, year_month_filter(args.year, args.month), songs, albums),
                    Field::Mood,
                ),
            )
            &&& ranked(full)
            &&& rows == shown(lowered_by_one(full), args.length)
        }
}

/// The filter that years are counted under.
pub open spec fn years_filter(args: YearsArgs) -> SongDataFilter {
    SongDataFilter {
        day: None,
        month: args.month,
        year: None,
        artist: None,
        album: None,
        genre: args.genre,
        moods: None,
        words: None,
        decade: args.decade,
        track: None,
        week: false,
        instrumental: false,
    }
}

/// Whether the record was released in `year`.
pub open spec fn released_in(song: SongData, year: i32) -> bool {
    date_of(song.recording_date@) matches Some(d) && d.year == year
}

/// The number of records of `songs` that were released in `year`.
pub open spec fn releases(songs: Seq<SongData>, year: i32) -> nat
    decreases songs.len(),
{
    if songs.len() == 0 {
        0
    } else {
        releases(songs.drop_last(), year) + if released_in(songs.last(), year) {
            1nat
        } else {
            0nat
        }
    }
}

/// Whether `rows` has a row for `year`.
pub open spec fn has_year(rows: Seq<(i32, usize)>, year: i32) -> bool {
    exists|i: int| 0 <= i < rows.len() && (#[trigger] rows[i]).0 == year
}

/// The row holds the number of releases of its year, which is not zero.
pub open spec fn year_counted(row: (i32, usize), songs: Seq<SongData>) -> bool {
    releases(songs, row.0) > 0 && row.1 == capped(releases(songs, row.0))
}

/// `rows` counts the years of `songs`: one row for each year in which a
/// record was released, with the number of these records, the years
/// ascending.
pub open spec fn year_counts(rows: Seq<(i32, usize)>, songs: Seq<SongData>) -> bool {
    &&& forall|i: int, j: int| 0 <= i < j < rows.len() ==> (#[trigger] rows[i]).0 < (#[trigger] rows[j]).0
    &&& forall|i: int| 0 <= i < rows.len() ==> year_counted(#[trigger] rows[i], songs)
    &&& forall|y: i32| releases(songs, y) > 0 ==> #[trigger] has_year(rows, y)
}

/// `rows` is the table of the years of the records.
pub open spec fn years_table(
    rows: Seq<(i32, usize)>,
    args: YearsArgs,
    songs: Seq<SongData>,
    albums: Seq<SongData>,
) -> bool {
    year_counts(rows, counted_records(args.album, years_filter(args), songs, albums))
}

impl Ranked for (i32, usize) {
    open spec fn before(&self, other: &Self) -> bool {
        self.0 < other.0 || (self.0 == other.0 && self.1 < other.1)
    }

    fn is_before(&self, other: &Self) -> (r: bool) {
        self.0 < other.0 || (self.0 == other.0 && self.1 < other.1)
    }

    proof fn lemma_asymmetric(a: &Self, b: &Self) {
    }

    proof fn lemma_chain(a: &Self, b: &Self, c: &Self) {
    }
}

/// Two rows are for different years.
pub open spec fn other_year(a: (i32, usize), b: (i32, usize)) -> bool {
    a.0 != b.0
}

/// How many of the records under the filter by genre, decade and month were
/// released in each year, the years ascending.
pub fn count_years(args: YearsArgs, songs: Vec<SongData>, albums: Vec<SongData>) -> (rows: Vec<
    (i32, usize),
>)
    ensures
        years_table(rows@, args, songs@, albums@),
{
    broadcast use vstd::std_specs::hash::group_hash_axioms;

    let filter = SongDataFilter {
        day: None,
        month: args.month,
        year: None,
        artist: None,
        album: None,
        genre: args.genre,
        moods: None,
        words: None,
        decade: args.decade,
        track: None,
        week: false,
        instrumental: false,
    };
    let records = get_songs_or_albums(args.album, filter, songs, albums);
    let mut years: HashMap<i32, usize> = HashMap::new();
    let mut k: usize = 0;
    assert(records@.take(0) =~= Seq::<SongData>::empty());
    while k < records.len()
        invariant
            k <= records.len(),
            forall|y: i32| #[trigger] years@.contains_key(y) <==> releases(records@.take(k as int), y) > 0,
            forall|y: i32|
                #[trigger] years@.contains_key(y) ==> years@[y] == capped(releases(records@.take(k as int), y)),
        decreases records.len() - k,
    {
        assert(records@.take(k + 1).drop_last() =~= records@.take(k as int));
        match parse_string_to_datetime(records[k].recording_date.as_str()) {
            Ok(d) => {
                let count: usize = match years.get(&d.year) {
                    Some(c) => *c,
                    None => 0,
                };
                let bumped = if count < usize::MAX {
                    count + 1
                } else {
                    count
                };
                years.insert(d.year, bumped);
            },
            Err(_) => {},
        }
        k += 1;
    }
    assert(records@.take(k as int) =~= records@);
    let ghost counts = years@;
    let mut rows = hashmap_to_vec_truple(years);
    proof {
        let found = rows@;
        let rel = |a: (i32, usize), b: (i32, usize)| other_year(a, b);
        assert forall|i: int, j: int| 0 <= i < j < found.len() implies #[trigger] rel(found[i], found[j]) by {
            assert(found[i].0 != found[j].0);
        }
        lemma_sorted_seq_pairwise(found, rel);
        lemma_sorted_seq_members(found);
        lemma_sorted_seq_in_order(found);
        lemma_sorted_seq_permutes(found);
        let out = sorted_seq(found);
        assert forall|i: int, j: int| 0 <= i < j < out.len() implies (#[trigger] out[i]).0 < (
        #[trigger] out[j]).0 by {
            assert(rel(out[i], out[j]));
            assert(!out[j].before(&out[i]));
        }
        assert forall|i: int| 0 <= i < out.len() implies year_counted(#[trigger] out[i], records@) by {
            assert(out.contains(out[i]));
            assert(found.contains(out[i]));
            let m = choose|m: int| 0 <= m < found.len() && found[m] == out[i];
            assert(counts.contains_key(found[m].0));
        }
        assert forall|y: i32| releases(records@, y) > 0 implies #[trigger] has_year(out, y) by {
            assert(counts.contains_key(y));
            let m = choose|m: int| 0 <= m < found.len() && (#[trigger] found[m]).0 == y;
            assert(found.contains(found[m]));
            assert(out.contains(found[m]));
            let n = choose|n: int| 0 <= n < out.len() && out[n] == found[m];
            assert(out[n].0 == y);
        }
    }
    sort(&mut rows);
    rows
}

/// The table of counts that `args` asks for, over the tracks `songs` or the
/// albums `albums`.
pub fn count_music(args: CountArgs, songs: Vec<SongData>, albums: Vec<SongData>) -> (report: CountReport)
    ensures
        match args.commands {
            Some(CountCommands::Years(a)) => report.rows matches CountRows::Years(rows) && years_table(
                rows@,
                a,
                songs@,
                albums@,
            ) && report.headers.0@ == "Years"@ && report.headers.1@ == unit_title(a.album),
            Some(CountCommands::Genres(a)) => report.rows matches CountRows::Named(rows) && genres_table(
                rows@,
                a,
                songs@,
                albums@,
            ) && report.headers.0@ == "Genres"@ && report.headers.1@ == unit_title(a.album),
            Some(CountCommands::Moods(a)) => report.rows matches CountRows::Named(rows) && moods_table(
                rows@,
                a,
                songs@,
                albums@,
            ) && report.headers.0@ == "Moods"@ && report.headers.1@ == unit_title(a.album),
            Some(CountCommands::Words(a)) => report.rows matches CountRows::Named(rows) && words_table(
                rows@,
                a,
                songs@,
                albums@,
            ) && report.headers.0@ == "Moods"@ && report.headers.1@ == unit_title(a.album),
            None => report.rows matches CountRows::Named(rows) && general_table(rows@, args, songs@, albums@)
                && report.headers.0@ == "Name"@ && report.headers.1@ == "Total"@,
        },
{
    let CountArgs { day, decade, month, year, moods, album, commands } = args;
    match commands {
        Some(CountCommands::Years(a)) => {
            let headers = get_count_headers("Years", a.album);
            CountReport { headers, rows: CountRows::Years(count_years(a, songs, albums)) }
        },
        Some(CountCommands::Genres(a)) => {
            let headers = get_count_headers("Genres", a.album);
            CountReport { headers, rows: CountRows::Named(count_genres(a, songs, albums)) }
        },
        Some(CountCommands::Moods(a)) => {
            let headers = get_count_headers("Moods", a.album);
            CountReport { headers, rows: CountRows::Named(count_moods(a, songs, albums)) }
        },
        Some(CountCommands::Words(a)) => {
            let headers = get_count_headers("Moods", a.album);
            CountReport { headers, rows: CountRows::Named(count_words(a, songs, albums)) }
        },
        None => {
            let rest = CountArgs { day, decade, month, year, moods, album, commands: None };
            assert(general_filter(rest) == general_filter(args));
            let headers = ("Name".to_string(), "Total".to_string());
            CountReport { headers, rows: CountRows::Named(count_general(rest, songs, albums)) }
        },
    }
}

/// The title of the column of counts.
pub open spec fn unit_title(album: bool) -> Seq<char> {
    if album {
        "# of Albums"@
    } else {
        "# of Songs"@
    }
}

/// How often each genre occurs among the records under the filter by year,
/// month and decade, as a ranking.
pub fn count_genres(args: GenreArgs, songs: Vec<SongData>, albums: Vec<SongData>) -> (rows: Vec<
    (String, usize),
>)
    ensures
        genres_table(rows@, args, songs@, albums@),
{
    let filter = SongDataFilter {
        day: None,
        month: args.month,
        year: args.year,
        artist: None,
        album: None,
        genre: None,
        moods: None,
        words: None,
        decade: args.decade,
        track: None,
        week: false,
        instrumental: false,
    };
    let records = get_songs_or_albums(args.album, filter, songs, albums);
    ranking(&gather(&records, Field::Genre))
}

/// How often each word worth counting occurs in the lyrics of the records
/// under the filter by year and month: the ranking, cut down to the length
/// asked for.
pub fn count_words(args: WordsArgs, songs: Vec<SongData>, albums: Vec<SongData>) -> (rows: Vec<
    (String, usize),
>)
    ensures
        words_table(rows@, args, songs@, albums@),
{
    let filter = SongDataFilter {
        day: None,
        month: args.month,
        year: args.year,
        artist: None,
        album: None,
        genre: None,
        moods: None,
        words: None,
        decade: None,
        track: None,
        week: false,
        instrumental: false,
    };
    let records = get_songs_or_albums(args.album, filter, songs, albums);
    let mut rows = ranking(&gather(&records, Field::Words));
    let ghost full = rows@;
    array_truncate(&mut rows, args.length);
    assert(rows@ == shown(full, args.length));
    rows
}

/// How often each mood occurs among the records under the filter by year and
/// month, less one: the ranking, cut down to the length asked for.
pub fn count_moods(args: MoodArgs, songs: Vec<SongData>, albums: Vec<SongData>) -> (rows: Vec<
    (String, usize),
>)
    ensures
        moods_table(rows@, args, songs@, albums@),
{
    broadcast use vstd::std_specs::vec::axiom_spec_into_iter;

    let filter = SongDataFilter {
        day: None,
        month: args.month,
        year: args.year,
        artist: None,
        album: None,
        genre: None,
        moods: None,
        words: None,
        decade: None,
        track: None,
        week: false,
        instrumental: false,
    };
    let records = get_songs_or_albums(args.album, filter, songs, albums);
    let ranks = ranking(&gather(&records, Field::Mood));
    let ghost full = ranks@;
    let mut rows: Vec<(String, usize)> = Vec::new();
    for row in it: ranks.into_iter()
        invariant
            it.seq() == full,
            counts_of(
                full,
                gathered(
                    counted_records(args.album, year_month_filter(args.year, args.month), songs@, albums@),
                    Field::Mood,
                ),
            ),
            rows.len() == it.index(),
            forall|j: int| 0 <= j < it.index() ==> #[trigger] rows@[j] == (full[j].0, (full[j].1 - 1) as usize),
    {
        let (mood, count) = row;
        assert(crate::tally::counted(
            full[it.index()],
            gathered(
                counted_records(args.album, year_month_filter(args.year, args.month), songs@, albums@),
                Field::Mood,
            ),
        ));
        rows.push((mood, count - 1));
    }
    assert(rows@ =~= lowered_by_one(full));
    array_truncate(&mut rows, args.length);
    rows
}

} // verus!
