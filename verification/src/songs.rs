//! The record of one track, and the filter over records.

use vstd::prelude::*;
use crate::date::{current_week, date_of, parse_string_to_datetime, week_around, window_of, Date, WeekWindow};
use crate::filters::{
    contains_list_of_strings, decade_matches, decade_of, equals_same_value, list_matches, lyrics_match,
    match_decade, match_lyrics_contain_words, match_no_lyrics, opt_text, SameValue,
};
use crate::cache::{absorbed, cached, listed, CacheData};
use crate::data::{nonempty_pieces, string_clean, string_to_vec};
use crate::text::{chars_of, rows, same_text, strings_of, texts};
use crate::words::{byte_len, longer_than, lowercase, split_words, trim, trim_letters, words_of};

verus! {

/// What is known of one track. The file name identifies the record.
#[derive(Debug, Clone)]
pub struct SongData {
    // Track Info
    pub album_artist: String,
    pub album_title: String,
    pub catalog_number: String,
    pub genre: Vec<String>,
    pub length: String,
    pub lyrics: Vec<String>,
    pub mood: Vec<String>,
    pub movement: String,
    pub movement_number: String,
    pub movement_total: String,
    pub track_artist: String,
    pub track_length: u64,
    pub track_number: String,
    pub track_title: String,
    pub track_total: String,
    pub filename: String,
    pub recording_date: String,
    // Details and Comments
    pub comment: String,
    pub copyright_message: String,
    pub description: String,
    pub label: String,
    pub language: String,
    pub license: String,
    pub parental_advisory: String,
    // Production Credits
    pub arranger: Vec<String>,
    pub composer: Vec<String>,
    pub conductor: Vec<String>,
    pub director: Vec<String>,
    pub engineer: Vec<String>,
    pub involved_people: Vec<String>,
    pub lyricist: Vec<String>,
    pub mix_dj: Vec<String>,
    pub mix_engineer: Vec<String>,
    pub musician_credits: Vec<String>,
    pub performer: Vec<String>,
    pub producer: Vec<String>,
    pub publisher: String,
    pub remixer: String,
    pub work: String,
    pub writer: Vec<String>,
}

/// The criteria of a query over tracks. An absent criterion, and a flag that
/// is not set, accept every record.
pub struct SongDataFilter {
    pub day: Option<u32>,
    pub month: Option<u32>,
    pub year: Option<i32>,
    pub artist: Option<String>,
    pub album: Option<String>,
    pub genre: Option<String>,
    pub moods: Option<String>,
    pub words: Option<String>,
    pub decade: Option<u16>,
    pub track: Option<String>,
    pub week: bool,
    pub instrumental: bool,
}

/// An exact criterion: absent, or the same as the record's value.
pub open spec fn exact<T: SameValue>(needle: Option<T>, value: T) -> bool {
    match needle {
        Some(v) => v.same(&value),
        None => true,
    }
}

/// Whether the criteria of a filter, taken one by one, accept `song`, with the
/// week flag going by `week`. The filter over records and the filter over
/// covers both ask this.
pub(crate) fn criteria_accept(
    day: &Option<u32>,
    month: &Option<u32>,
    year: &Option<i32>,
    artist: &Option<String>,
    album: &Option<String>,
    genre: &Option<String>,
    moods: &Option<String>,
    words: &Option<String>,
    decade: &Option<u16>,
    track: &Option<String>,
    in_week: bool,
    instrumental: bool,
    song: &SongData,
    week: &Option<WeekWindow>,
) -> (r: bool)
    ensures
        r == (SongDataFilter {
            day: *day,
            month: *month,
            year: *year,
            artist: *artist,
            album: *album,
            genre: *genre,
            moods: *moods,
            words: *words,
            decade: *decade,
            track: *track,
            week: in_week,
            instrumental,
        }).accepts(song, *week),
{
    let dt = match parse_string_to_datetime(song.recording_date.as_str()) {
        Ok(d) => d,
        Err(_) => {
            return false;
        },
    };
    let genre = contains_list_of_strings(genre, &song.genre);
    let moods = contains_list_of_strings(moods, &song.mood);
    let words = match_lyrics_contain_words(words, &song.lyrics);
    let year = equals_same_value(year, &dt.year);
    let month = equals_same_value(month, &dt.month);
    let day = equals_same_value(day, &dt.day);
    let decade = match_decade(dt, decade);
    let artist = equals_same_value(artist, &song.track_artist);
    let album = equals_same_value(album, &song.album_title);
    let track = equals_same_value(track, &song.track_number);
    let this_week = !in_week || match week {
        Some(w) => w.contains(&dt.without_year()),
        None => false,
    };
    let without_words = !instrumental || match_no_lyrics(&song.lyrics);
    genre && moods && words && year && month && day && decade && artist && album && track && this_week
        && without_words
}

impl SongDataFilter {
    /// Every criterion is absent and no flag is set.
    pub open spec fn is_wildcard(&self) -> bool {
        &&& self.day is None
        &&& self.month is None
        &&& self.year is None
        &&& self.artist is None
        &&& self.album is None
        &&& self.genre is None
        &&& self.moods is None
        &&& self.words is None
        &&& self.decade is None
        &&& self.track is None
        &&& !self.week
        &&& !self.instrumental
    }

    /// Whether the filter accepts `song`: its recording date reads as a date,
    /// and every criterion that is present holds. `week` is the window that
    /// the week flag goes by.
    pub open spec fn accepts(&self, song: &SongData, week: Option<WeekWindow>) -> bool {
        match date_of(song.recording_date@) {
            None => false,
            Some(dt) => {
                &&& list_matches(opt_text(self.genre), texts(song.genre@))
                &&& list_matches(opt_text(self.moods), texts(song.mood@))
                &&& lyrics_match(opt_text(self.words), texts(song.lyrics@))
                &&& exact(self.year, dt.year)
                &&& exact(self.month, dt.month)
                &&& exact(self.day, dt.day)
                &&& decade_matches(self.decade, dt.year as int)
                &&& exact(self.artist, song.track_artist)
                &&& exact(self.album, song.album_title)
                &&& exact(self.track, song.track_number)
                &&& (self.week ==> (week matches Some(w) && w.holds(dt.yearless())))
                &&& (self.instrumental ==> song.lyrics@.len() == 0)
            },
        }
    }

    /// The records of `songs` that the filter accepts, in their order.
    pub open spec fn accepted(&self, songs: Seq<SongData>, week: Option<WeekWindow>) -> Seq<SongData> {
        songs.filter(|s: SongData| self.accepts(&s, week))
    }

    /// Whether the filter accepts `song`, with the week flag going by `week`.
    pub fn matches_in_week(&self, song: &SongData, week: &Option<WeekWindow>) -> (r: bool)
        ensures
            r == self.accepts(song, *week),
    {
        criteria_accept(
            &self.day,
            &self.month,
            &self.year,
            &self.artist,
            &self.album,
            &self.genre,
            &self.moods,
            &self.words,
            &self.decade,
            &self.track,
            self.week,
            self.instrumental,
            song,
            week,
        )
    }

    /// Whether the filter accepts `song`. With the week flag set the current
    /// week is asked of the clock; without it the result is a function of the
    /// filter and the record.
    pub fn matches(&self, song: &SongData) -> (r: bool)
        ensures
            !self.week ==> r == self.accepts(song, None),
            exists|day: Date| day.in_calendar() && r == self.accepts(song, window_of(week_around(day))),
    {
        if self.week {
            let week = current_week();
            self.matches_in_week(song, &week)
        } else {
            let r = self.matches_in_week(song, &None);
            proof {
                let day = Date { year: 0, month: 1, day: 1 };
                assert(day.in_calendar());
                assert(r == self.accepts(song, window_of(week_around(day))));
            }
            r
        }
    }

    /// The records of `songs` that the filter accepts with the week flag going
    /// by `week`, in their order.
    pub fn filter_in_week(&self, songs: Vec<SongData>, week: &Option<WeekWindow>) -> (out: Vec<SongData>)
        ensures
            out@ == self.accepted(songs@, *week),
    {
        broadcast use vstd::std_specs::vec::axiom_spec_into_iter;

        let mut out: Vec<SongData> = Vec::new();
        let ghost all = songs@;
        assert(all.take(0) =~= Seq::<SongData>::empty());
        for song in it: songs.into_iter()
            invariant
                it.seq() == all,
                out@ == self.accepted(all.take(it.index()), *week),
        {
            proof {
                self.lemma_accepted_push(all.take(it.index()), song, *week);
                assert(all.take(it.index() + 1) =~= all.take(it.index()).push(song));
            }
            if self.matches_in_week(&song, week) {
                out.push(song);
            }
        }
        assert(all.take(all.len() as int) =~= all);
        out
    }

    /// The records of `songs` that the filter accepts, in their order. With
    /// the week flag set the current week is asked of the clock, once.
    pub fn filter(&self, songs: Vec<SongData>) -> (out: Vec<SongData>)
        ensures
            !self.week ==> out@ == self.accepted(songs@, None),
            exists|day: Date| day.in_calendar() && out@ == self.accepted(songs@, window_of(week_around(day))),
    {
        if self.week {
            let week = current_week();
            self.filter_in_week(songs, &week)
        } else {
            let ghost all = songs@;
            let out = self.filter_in_week(songs, &None);
            proof {
                let day = Date { year: 0, month: 1, day: 1 };
                assert(day.in_calendar());
                self.lemma_week_unused(all, None, window_of(week_around(day)));
            }
            out
        }
    }

    /// One more record at the end adds itself to the accepted ones, or nothing.
    pub proof fn lemma_accepted_push(&self, songs: Seq<SongData>, song: SongData, week: Option<WeekWindow>)
        ensures
            self.accepted(songs.push(song), week) == if self.accepts(&song, week) {
                self.accepted(songs, week).push(song)
            } else {
                self.accepted(songs, week)
            },
    {
        songs.lemma_filter_push(song, |s: SongData| self.accepts(&s, week));
    }

    /// Without the week flag the window does not matter.
    pub proof fn lemma_week_unused(&self, songs: Seq<SongData>, a: Option<WeekWindow>, b: Option<WeekWindow>)
        requires
            !self.week,
        ensures
            self.accepted(songs, a) == self.accepted(songs, b),
    {
        assert((|s: SongData| self.accepts(&s, a)) =~= (|s: SongData| self.accepts(&s, b)));
    }

    /// A filter without criteria accepts every record whose recording date
    /// reads as a date.
    pub proof fn lemma_wildcard_accepts_all(&self, song: &SongData, week: Option<WeekWindow>)
        requires
            self.is_wildcard(),
            date_of(song.recording_date@) is Some,
        ensures
            self.accepts(song, week),
    {
    }

    /// A record that differs from an exact criterion in that field is
    /// rejected, whatever the other criteria say.
    pub proof fn lemma_exact_mismatch_rejects(&self, song: &SongData, week: Option<WeekWindow>)
        requires
            date_of(song.recording_date@) matches Some(dt) && {
                ||| (self.year matches Some(y) && y != dt.year)
                ||| (self.month matches Some(m) && m != dt.month)
                ||| (self.day matches Some(d) && d != dt.day)
                ||| (self.artist matches Some(a) && a@ != song.track_artist@)
                ||| (self.album matches Some(a) && a@ != song.album_title@)
                ||| (self.track matches Some(t) && t@ != song.track_number@)
            },
        ensures
            !self.accepts(song, week),
    {
    }

    /// With nothing but exact criteria present, a record is accepted if and
    /// only if it agrees with each of them.
    pub proof fn lemma_exact_match_accepts(&self, song: &SongData, week: Option<WeekWindow>)
        requires
            self.genre is None,
            self.moods is None,
            self.words is None,
            self.decade is None,
            !self.week,
            !self.instrumental,
            date_of(song.recording_date@) is Some,
        ensures
            self.accepts(song, week) <==> {
                let dt = date_of(song.recording_date@)->0;
                &&& (self.year matches Some(y) ==> y == dt.year)
                &&& (self.month matches Some(m) ==> m == dt.month)
                &&& (self.day matches Some(d) ==> d == dt.day)
                &&& (self.artist matches Some(a) ==> a@ == song.track_artist@)
                &&& (self.album matches Some(a) ==> a@ == song.album_title@)
                &&& (self.track matches Some(t) ==> t@ == song.track_number@)
            },
    {
    }

    /// A record is accepted under at most one decade: that of its year.
    pub proof fn lemma_decade_is_of_year(&self, song: &SongData, week: Option<WeekWindow>)
        requires
            self.decade is Some,
            self.accepts(song, week),
        ensures
            date_of(song.recording_date@) matches Some(dt) && self.decade->0 as int == decade_of(
                dt.year as int,
            ),
    {
    }
}

/// The conjunctions that are no words worth counting.
pub open spec fn conjunctions() -> Seq<Seq<char>> {
    seq![
        "and"@,
        "but"@,
        "or"@,
        "nor"@,
        "for"@,
        "so"@,
        "yet"@,
        "because"@,
        "although"@,
        "though"@,
        "even though"@,
        "while"@,
        "if"@,
        "unless"@,
        "until"@,
        "after"@,
        "before"@,
        "since"@,
        "when"@,
        "whenever"@,
        "where"@,
        "wherever"@,
        "whether"@,
        "as"@,
        "than"@,
        "that"@,
        "whether"@,
        "now"@,
    ]
}

/// A word is counted if it is no conjunction and takes more than four bytes.
pub open spec fn keeps_word(w: Seq<char>) -> bool {
    !listed(conjunctions(), w) && byte_len(w) > 4
}

/// Of `words`, those that are counted, each cut down to what lies between its
/// first and its last ASCII letter.
pub open spec fn kept_words(words: Seq<Seq<char>>) -> Seq<Seq<char>>
    decreases words.len(),
{
    if words.len() == 0 {
        Seq::empty()
    } else {
        let front = kept_words(words.drop_last());
        if keeps_word(words.last()) {
            front.push(trim_letters(words.last()))
        } else {
            front
        }
    }
}

/// The conjunctions, as characters.
pub fn conjunction_rows() -> (out: Vec<Vec<char>>)
    ensures
        rows(out@) == conjunctions(),
{
    let mut out: Vec<Vec<char>> = Vec::new();
    out.push(chars_of("and"));
    out.push(chars_of("but"));
    out.push(chars_of("or"));
    out.push(chars_of("nor"));
    out.push(chars_of("for"));
    out.push(chars_of("so"));
    out.push(chars_of("yet"));
    out.push(chars_of("because"));
    out.push(chars_of("although"));
    out.push(chars_of("though"));
    out.push(chars_of("even though"));
    out.push(chars_of("while"));
    out.push(chars_of("if"));
    out.push(chars_of("unless"));
    out.push(chars_of("until"));
    out.push(chars_of("after"));
    out.push(chars_of("before"));
    out.push(chars_of("since"));
    out.push(chars_of("when"));
    out.push(chars_of("whenever"));
    out.push(chars_of("where"));
    out.push(chars_of("wherever"));
    out.push(chars_of("whether"));
    out.push(chars_of("as"));
    out.push(chars_of("than"));
    out.push(chars_of("that"));
    out.push(chars_of("whether"));
    out.push(chars_of("now"));
    assert(rows(out@) =~= conjunctions());
    out
}

/// Whether `word` is among the rows of `list`.
pub fn holds_row(list: &Vec<Vec<char>>, word: &Vec<char>) -> (r: bool)
    ensures
        r == listed(rows(list@), word@),
{
    let mut i: usize = 0;
    while i < list.len()
        invariant
            i <= list.len(),
            forall|j: int| 0 <= j < i ==> rows(list@)[j] != word@,
        decreases list.len() - i,
    {
        if same_text(&list[i], word) {
            assert(rows(list@)[i as int] == word@);
            return true;
        }
        i += 1;
    }
    false
}

/// The words of a lyric block that are worth counting: the block in
/// lowercase, split at white space, without conjunctions and without words of
/// four bytes or less, each word cut down to what lies between its first and
/// its last ASCII letter.
pub fn phrases_to_words(phrases: String) -> (out: Vec<String>)
    ensures
        texts(out@) == kept_words(words_of(lowercase(phrases@))),
{
    let low = string_clean(phrases);
    let words = split_words(&chars_of(low.as_str()));
    let stop = conjunction_rows();
    let ghost all = rows(words@);
    let mut kept: Vec<Vec<char>> = Vec::new();
    let mut i: usize = 0;
    assert(all.take(0) =~= Seq::<Seq<char>>::empty());
    assert(rows(kept@) =~= Seq::<Seq<char>>::empty());
    while i < words.len()
        invariant
            i <= words.len(),
            all == rows(words@),
            rows(stop@) == conjunctions(),
            rows(kept@) == kept_words(all.take(i as int)),
        decreases words.len() - i,
    {
        proof {
            assert(all.take(i + 1).drop_last() =~= all.take(i as int));
            assert(all.take(i + 1).last() == words@[i as int]@);
        }
        if !holds_row(&stop, &words[i]) && longer_than(&words[i], 4) {
            let ghost done = rows(kept@);
            let word = trim(&words[i]);
            kept.push(word);
            assert(rows(kept@) =~= done.push(trim_letters(words@[i as int]@)));
        }
        i += 1;
    }
    assert(all.take(i as int) =~= all);
    strings_of(&kept)
}

/// The text of each tag of a file as it was read from the file, empty where
/// the file does not have the tag, and the length of the track in seconds.
pub struct TagText {
    pub album_artist: String,
    pub album_title: String,
    pub arranger: String,
    pub catalog_number: String,
    pub comment: String,
    pub composer: String,
    pub conductor: String,
    pub copyright_message: String,
    pub description: String,
    pub director: String,
    pub engineer: String,
    pub genre: String,
    pub involved_people: String,
    pub label: String,
    pub language: String,
    pub length: String,
    pub license: String,
    pub lyricist: String,
    pub lyrics: String,
    pub mix_dj: String,
    pub mix_engineer: String,
    pub mood: String,
    pub movement: String,
    pub movement_number: String,
    pub movement_total: String,
    pub musician_credits: String,
    pub parental_advisory: String,
    pub performer: String,
    pub producer: String,
    pub publisher: String,
    pub recording_date: String,
    pub remixer: String,
    pub track_length: u64,
    pub track_artist: String,
    pub track_number: String,
    pub track_title: String,
    pub track_total: String,
    pub work: String,
    pub writer: String,
}

/// Whether `song` is the record of the file `filename` with the tags `tags`:
/// a tag with one value is kept as it is; a tag that lists values is cut at
/// commas, genres at semicolons, lyrics at empty lines, and empty values are
/// dropped.
pub open spec fn record_of(song: SongData, tags: TagText, filename: Seq<char>) -> bool {
    &&& song.filename@ == filename
    &&& song.track_length == tags.track_length
    &&& song.album_artist@ == tags.album_artist@
    &&& song.album_title@ == tags.album_title@
    &&& song.catalog_number@ == tags.catalog_number@
    &&& song.comment@ == tags.comment@
    &&& song.copyright_message@ == tags.copyright_message@
    &&& song.description@ == tags.description@
    &&& song.label@ == tags.label@
    &&& song.language@ == tags.language@
    &&& song.length@ == tags.length@
    &&& song.license@ == tags.license@
    &&& song.movement@ == tags.movement@
    &&& song.movement_number@ == tags.movement_number@
    &&& song.movement_total@ == tags.movement_total@
    &&& song.parental_advisory@ == tags.parental_advisory@
    &&& song.publisher@ == tags.publisher@
    &&& song.recording_date@ == tags.recording_date@
    &&& song.remixer@ == tags.remixer@
    &&& song.track_artist@ == tags.track_artist@
    &&& song.track_number@ == tags.track_number@
    &&& song.track_title@ == tags.track_title@
    &&& song.track_total@ == tags.track_total@
    &&& song.work@ == tags.work@
    &&& texts(song.arranger@) == nonempty_pieces(tags.arranger@, ","@)
    &&& texts(song.composer@) == nonempty_pieces(tags.composer@, ","@)
    &&& texts(song.conductor@) == nonempty_pieces(tags.conductor@, ","@)
    &&& texts(song.director@) == nonempty_pieces(tags.director@, ","@)
    &&& texts(song.engineer@) == nonempty_pieces(tags.engineer@, ","@)
    &&& texts(song.genre@) == nonempty_pieces(tags.genre@, ";"@)
    &&& texts(song.involved_people@) == nonempty_pieces(tags.involved_people@, ","@)
    &&& texts(song.lyricist@) == nonempty_pieces(tags.lyricist@, ","@)
    &&& texts(song.lyrics@) == nonempty_pieces(tags.lyrics@, "\n\n"@)
    &&& texts(song.mix_dj@) == nonempty_pieces(tags.mix_dj@, ","@)
    &&& texts(song.mix_engineer@) == nonempty_pieces(tags.mix_engineer@, ","@)
    &&& texts(song.mood@) == nonempty_pieces(tags.mood@, ","@)
    &&& texts(song.musician_credits@) == nonempty_pieces(tags.musician_credits@, ","@)
    &&& texts(song.performer@) == nonempty_pieces(tags.performer@, ","@)
    &&& texts(song.producer@) == nonempty_pieces(tags.producer@, ","@)
    &&& texts(song.writer@) == nonempty_pieces(tags.writer@, ","@)
}

/// The record of the file `filename` from the text of its tags.
pub fn load_song_tag(tags: TagText, filename: &String) -> (song: SongData)
    ensures
        record_of(song, tags, filename@),
{
    let arranger = string_to_vec(tags.arranger, ",");
    let composer = string_to_vec(tags.composer, ",");
    let conductor = string_to_vec(tags.conductor, ",");
    let director = string_to_vec(tags.director, ",");
    let engineer = string_to_vec(tags.engineer, ",");
    let genre = string_to_vec(tags.genre, ";");
    let involved_people = string_to_vec(tags.involved_people, ",");
    let lyricist = string_to_vec(tags.lyricist, ",");
    let lyrics = string_to_vec(tags.lyrics, "\n\n");
    let mix_dj = string_to_vec(tags.mix_dj, ",");
    let mix_engineer = string_to_vec(tags.mix_engineer, ",");
    let mood = string_to_vec(tags.mood, ",");
    let musician_credits = string_to_vec(tags.musician_credits, ",");
    let performer = string_to_vec(tags.performer, ",");
    let producer = string_to_vec(tags.producer, ",");
    let writer = string_to_vec(tags.writer, ",");
    SongData {
        album_artist: tags.album_artist,
        album_title: tags.album_title,
        arranger,
        catalog_number: tags.catalog_number,
        comment: tags.comment,
        composer,
        conductor,
        copyright_message: tags.copyright_message,
        description: tags.description,
        director,
        engineer,
        genre,
        involved_people,
        label: tags.label,
        language: tags.language,
        length: tags.length,
        license: tags.license,
        lyricist,
        lyrics,
        mix_dj,
        mix_engineer,
        mood,
        movement: tags.movement,
        movement_number: tags.movement_number,
        movement_total: tags.movement_total,
        musician_credits,
        parental_advisory: tags.parental_advisory,
        performer,
        producer,
        publisher: tags.publisher,
        recording_date: tags.recording_date,
        remixer: tags.remixer,
        track_length: tags.track_length,
        track_artist: tags.track_artist,
        track_number: tags.track_number,
        track_title: tags.track_title,
        track_total: tags.track_total,
        work: tags.work,
        writer,
        filename: filename.clone(),
    }
}

/// The pattern of the files of all tracks below the music directory `dir`:
/// the audio files two directories down, artist and album.
pub fn songs_pattern(dir: &str) -> (out: String)
    ensures
        out@ == dir@ + "/*/*/*[.flac,.mp3,.wav]"@,
{
    let mut pattern = chars_of(dir);
    crate::text::extend_chars(&mut pattern, &chars_of("/*/*/*[.flac,.mp3,.wav]"));
    crate::text::string_of(&pattern)
}

/// The pattern of the files that stand for the albums below the music
/// directory `dir`: the first track of each.
pub fn albums_pattern(dir: &str) -> (out: String)
    ensures
        out@ == dir@ + "/*/*/*01-*[.flac,.mp3,.wav]"@,
{
    let mut pattern = chars_of(dir);
    crate::text::extend_chars(&mut pattern, &chars_of("/*/*/*01-*[.flac,.mp3,.wav]"));
    crate::text::string_of(&pattern)
}

/// Brings the cache up to date with the records that were read for the files
/// it had none for, and hands out every entry that the cache then holds, path
/// and record, in the order in which they came.
pub fn songs_list(cache: CacheData<SongData>, fresh: Vec<(String, SongData)>) -> (out: Vec<(String, SongData)>)
    requires
        cache.wf(),
    ensures
        cached(out@) == absorbed(cache.entries(), cached(fresh@)),
{
    let mut cache = cache;
    cache.absorb(fresh);
    cache.into_entries()
}

/// The records of a sequence of entries.
pub open spec fn paired_records<T>(entries: Seq<(Seq<char>, T)>) -> Seq<T> {
    Seq::new(entries.len(), |i: int| entries[i].1)
}

impl TagText {
    /// Every tag is empty and the length is zero.
    pub open spec fn is_blank(&self) -> bool {
        &&& self.track_length == 0
        &&& self.album_artist@.len() == 0
        &&& self.album_title@.len() == 0
        &&& self.arranger@.len() == 0
        &&& self.catalog_number@.len() == 0
        &&& self.comment@.len() == 0
        &&& self.composer@.len() == 0
        &&& self.conductor@.len() == 0
        &&& self.copyright_message@.len() == 0
        &&& self.description@.len() == 0
        &&& self.director@.len() == 0
        &&& self.engineer@.len() == 0
        &&& self.genre@.len() == 0
        &&& self.involved_people@.len() == 0
        &&& self.label@.len() == 0
        &&& self.language@.len() == 0
        &&& self.length@.len() == 0
        &&& self.license@.len() == 0
        &&& self.lyricist@.len() == 0
        &&& self.lyrics@.len() == 0
        &&& self.mix_dj@.len() == 0
        &&& self.mix_engineer@.len() == 0
        &&& self.mood@.len() == 0
        &&& self.movement@.len() == 0
        &&& self.movement_number@.len() == 0
        &&& self.movement_total@.len() == 0
        &&& self.musician_credits@.len() == 0
        &&& self.parental_advisory@.len() == 0
        &&& self.performer@.len() == 0
        &&& self.producer@.len() == 0
        &&& self.publisher@.len() == 0
        &&& self.recording_date@.len() == 0
        &&& self.remixer@.len() == 0
        &&& self.track_artist@.len() == 0
        &&& self.track_number@.len() == 0
        &&& self.track_title@.len() == 0
        &&& self.track_total@.len() == 0
        &&& self.work@.len() == 0
        &&& self.writer@.len() == 0
    }
}

impl Default for TagText {
    /// The tags of a file without tags.
    fn default() -> (tags: Self)
        ensures
            tags.is_blank(),
    {
        TagText {
            album_artist: String::new(),
            album_title: String::new(),
            arranger: String::new(),
            catalog_number: String::new(),
            comment: String::new(),
            composer: String::new(),
            conductor: String::new(),
            copyright_message: String::new(),
            description: String::new(),
            director: String::new(),
            engineer: String::new(),
            genre: String::new(),
            involved_people: String::new(),
            label: String::new(),
            language: String::new(),
            length: String::new(),
            license: String::new(),
            lyricist: String::new(),
            lyrics: String::new(),
            mix_dj: String::new(),
            mix_engineer: String::new(),
            mood: String::new(),
            movement: String::new(),
            movement_number: String::new(),
            movement_total: String::new(),
            musician_credits: String::new(),
            parental_advisory: String::new(),
            performer: String::new(),
            producer: String::new(),
            publisher: String::new(),
            recording_date: String::new(),
            remixer: String::new(),
            track_length: 0,
            track_artist: String::new(),
            track_number: String::new(),
            track_title: String::new(),
            track_total: String::new(),
            work: String::new(),
            writer: String::new(),
        }
    }
}

impl SongData {
    /// Every text and every list is empty and the length is zero.
    pub open spec fn is_blank(&self) -> bool {
        &&& self.track_length == 0
        &&& self.album_artist@.len() == 0
        &&& self.album_title@.len() == 0
        &&& self.catalog_number@.len() == 0
        &&& self.genre@.len() == 0
        &&& self.length@.len() == 0
        &&& self.lyrics@.len() == 0
        &&& self.mood@.len() == 0
        &&& self.movement@.len() == 0
        &&& self.movement_number@.len() == 0
        &&& self.movement_total@.len() == 0
        &&& self.track_artist@.len() == 0
        &&& self.track_number@.len() == 0
        &&& self.track_title@.len() == 0
        &&& self.track_total@.len() == 0
        &&& self.filename@.len() == 0
        &&& self.recording_date@.len() == 0
        &&& self.comment@.len() == 0
        &&& self.copyright_message@.len() == 0
        &&& self.description@.len() == 0
        &&& self.label@.len() == 0
        &&& self.language@.len() == 0
        &&& self.license@.len() == 0
        &&& self.parental_advisory@.len() == 0
        &&& self.arranger@.len() == 0
        &&& self.composer@.len() == 0
        &&& self.conductor@.len() == 0
        &&& self.director@.len() == 0
        &&& self.engineer@.len() == 0
        &&& self.involved_people@.len() == 0
        &&& self.lyricist@.len() == 0
        &&& self.mix_dj@.len() == 0
        &&& self.mix_engineer@.len() == 0
        &&& self.musician_credits@.len() == 0
        &&& self.performer@.len() == 0
        &&& self.producer@.len() == 0
        &&& self.publisher@.len() == 0
        &&& self.remixer@.len() == 0
        &&& self.work@.len() == 0
        &&& self.writer@.len() == 0
    }
}

impl Default for SongData {
    /// The record without a file and without a tag.
    fn default() -> (song: Self)
        ensures
            song.is_blank(),
    {
        SongData {
            album_artist: String::new(),
            album_title: String::new(),
            catalog_number: String::new(),
            genre: Vec::new(),
            length: String::new(),
            lyrics: Vec::new(),
            mood: Vec::new(),
            movement: String::new(),
            movement_number: String::new(),
            movement_total: String::new(),
            track_artist: String::new(),
            track_length: 0,
            track_number: String::new(),
            track_title: String::new(),
            track_total: String::new(),
            filename: String::new(),
            recording_date: String::new(),
            comment: String::new(),
            copyright_message: String::new(),
            description: String::new(),
            label: String::new(),
            language: String::new(),
            license: String::new(),
            parental_advisory: String::new(),
            arranger: Vec::new(),
            composer: Vec::new(),
            conductor: Vec::new(),
            director: Vec::new(),
            engineer: Vec::new(),
            involved_people: Vec::new(),
            lyricist: Vec::new(),
            mix_dj: Vec::new(),
            mix_engineer: Vec::new(),
            musician_credits: Vec::new(),
            performer: Vec::new(),
            producer: Vec::new(),
            publisher: String::new(),
            remixer: String::new(),
            work: String::new(),
            writer: Vec::new(),
        }
    }
}

impl Default for SongDataFilter {
    fn default() -> (r: Self)
        ensures
            r.is_wildcard(),
    {
        SongDataFilter {
            day: None,
            month: None,
            year: None,
            artist: None,
            album: None,
            genre: None,
            moods: None,
            words: None,
            decade: None,
            track: None,
            week: false,
            instrumental: false,
        }
    }
}

} // verus!
