//! Running times: the shortest, the longest and the average track and album
//! among the records that a filter accepts, and the time of them all.

use vstd::prelude::*;
use crate::cache::{lemma_missing_from, listed};
use crate::count::{count_distinct, distinct, gather, gathered, Field};
use crate::data::{clock_text, convert_sec_to_fmt_time};
use crate::songs::{SongData, SongDataFilter};
use crate::text::same_text;

verus! {

/// Which tracks to measure.
pub struct TimeArgs {
    pub decade: Option<u16>,
    pub year: Option<i32>,
    pub month: Option<u32>,
    pub genre: Option<String>,
    pub artist: Option<String>,
    pub album: Option<String>,
}

/// Running times in seconds.
#[derive(Debug, Clone, Copy, PartialEq, Eq, Structural)]
pub struct TimeReport {
    pub shortest_album: u64,
    pub average_album: u64,
    pub longest_album: u64,
    pub shortest_song: u64,
    pub average_song: u64,
    pub longest_song: u64,
    pub total: u64,
}

/// A time as far as 64 bits can hold it.
pub open spec fn cap64(n: nat) -> u64 {
    if n > u64::MAX {
        u64::MAX
    } else {
        n as u64
    }
}

/// The running time of all of `songs`.
pub open spec fn total_length(songs: Seq<SongData>) -> nat
    decreases songs.len(),
{
    if songs.len() == 0 {
        0
    } else {
        total_length(songs.drop_last()) + songs.last().track_length as nat
    }
}

/// The running time of the tracks of `songs` that are on the album `title`.
pub open spec fn album_length(songs: Seq<SongData>, title: Seq<char>) -> nat
    decreases songs.len(),
{
    if songs.len() == 0 {
        0
    } else {
        album_length(songs.drop_last(), title) + if songs.last().album_title@ == title {
            songs.last().track_length as nat
        } else {
            0nat
        }
    }
}

/// The running time of the album that track `i` of `songs` is on.
pub open spec fn album_time(songs: Seq<SongData>, i: int) -> u64 {
    cap64(album_length(songs, songs[i].album_title@))
}

/// The filter of the report.
pub open spec fn time_filter(args: TimeArgs) -> SongDataFilter {
    SongDataFilter {
        day: None,
        month: args.month,
        year: args.year,
        artist: args.artist,
        album: None,
        genre: args.genre,
        moods: None,
        words: None,
        decade: None,
        track: None,
        week: false,
        instrumental: false,
    }
}

/// Some track of `songs` runs for `t` seconds.
pub open spec fn is_track_time(songs: Seq<SongData>, t: u64) -> bool {
    exists|i: int| 0 <= i < songs.len() && (#[trigger] songs[i]).track_length == t
}

/// Some album of `songs` runs for `t` seconds.
pub open spec fn is_album_time(songs: Seq<SongData>, t: u64) -> bool {
    exists|i: int| 0 <= i < songs.len() && #[trigger] album_time(songs, i) == t
}

/// `report` holds the running times of `songs`, of which there is at least
/// one. An album is the tracks with one album title. The averages are
/// rounded down.
pub open spec fn times_of(report: TimeReport, songs: Seq<SongData>) -> bool {
    &&& songs.len() > 0
    &&& report.total == cap64(total_length(songs))
    &&& is_track_time(songs, report.shortest_song)
    &&& is_track_time(songs, report.longest_song)
    &&& forall|i: int|
        0 <= i < songs.len() ==> report.shortest_song <= (#[trigger] songs[i]).track_length
            <= report.longest_song
    &&& report.average_song == report.total as nat / songs.len()
    &&& is_album_time(songs, report.shortest_album)
    &&& is_album_time(songs, report.longest_album)
    &&& forall|i: int|
        0 <= i < songs.len() ==> report.shortest_album <= #[trigger] album_time(songs, i)
            <= report.longest_album
    &&& distinct(gathered(songs, Field::AlbumTitle)).len() > 0
    &&& report.average_album == report.total as nat / distinct(gathered(songs, Field::AlbumTitle)).len()
}

/// The rows of the report as texts: a name and a time on the clock.
pub open spec fn time_rows(report: TimeReport) -> Seq<(Seq<char>, Seq<char>)> {
    seq![
        ("Shortest album"@, clock_text(report.shortest_album as nat)),
        ("Avg album length"@, clock_text(report.average_album as nat)),
        ("Longest album"@, clock_text(report.longest_album as nat)),
        ("Shortest song"@, clock_text(report.shortest_song as nat)),
        ("Avg song length"@, clock_text(report.average_song as nat)),
        ("Longest song"@, clock_text(report.longest_song as nat)),
        ("Total song length"@, clock_text(report.total as nat)),
    ]
}

/// The sum of two times as far as 64 bits can hold it.
pub fn add_capped(a: u64, b: u64) -> (sum: u64)
    ensures
        sum == cap64((a + b) as nat),
{
    if a > u64::MAX - b {
        u64::MAX
    } else {
        a + b
    }
}

/// The running time of all of `songs`.
pub fn total_time(songs: &Vec<SongData>) -> (total: u64)
    ensures
        total == cap64(total_length(songs@)),
{
    let mut total: u64 = 0;
    let mut k: usize = 0;
    assert(songs@.take(0) =~= Seq::<SongData>::empty());
    while k < songs.len()
        invariant
            k <= songs.len(),
            total == cap64(total_length(songs@.take(k as int))),
        decreases songs.len() - k,
    {
        assert(songs@.take(k + 1).drop_last() =~= songs@.take(k as int));
        total = add_capped(total, songs[k].track_length);
        k += 1;
    }
    assert(songs@.take(k as int) =~= songs@);
    total
}

/// The running time of the album that track `i` is on. `titles` holds the
/// album titles of the tracks.
pub fn album_time_of(songs: &Vec<SongData>, titles: &Vec<Vec<char>>, i: usize) -> (total: u64)
    requires
        i < songs.len(),
        titles.len() == songs.len(),
        forall|j: int| 0 <= j < songs.len() ==> (#[trigger] titles@[j])@ == songs@[j].album_title@,
    ensures
        total == album_time(songs@, i as int),
{
    let ghost title = songs@[i as int].album_title@;
    let mut total: u64 = 0;
    let mut k: usize = 0;
    assert(songs@.take(0) =~= Seq::<SongData>::empty());
    while k < songs.len()
        invariant
            k <= songs.len(),
            i < songs.len(),
            titles.len() == songs.len(),
            forall|j: int| 0 <= j < songs.len() ==> (#[trigger] titles@[j])@ == songs@[j].album_title@,
            title == songs@[i as int].album_title@,
            total == cap64(album_length(songs@.take(k as int), title)),
        decreases songs.len() - k,
    {
        assert(songs@.take(k + 1).drop_last() =~= songs@.take(k as int));
        if same_text(&titles[k], &titles[i]) {
            total = add_capped(total, songs[k].track_length);
        }
        k += 1;
    }
    assert(songs@.take(k as int) =~= songs@);
    total
}

/// The running times of `songs`, if there are any.
pub fn measure(songs: &Vec<SongData>) -> (r: Option<TimeReport>)
    ensures
        r is None <==> songs@.len() == 0,
        r matches Some(report) ==> times_of(report, songs@),
{
    if songs.len() == 0 {
        return None;
    }
    let total = total_time(songs);
    let title_list = gather(songs, Field::AlbumTitle);
    let albums = count_distinct(&title_list);
    proof {
        let items = gathered(songs@, Field::AlbumTitle);
        lemma_gathered_titles(songs@);
        lemma_missing_from(Seq::empty(), items);
        assert(listed(items, items[0]));
        assert(listed(distinct(items), items[0]));
    }
    let mut titles: Vec<Vec<char>> = Vec::new();
    let mut k: usize = 0;
    while k < songs.len()
        invariant
            k <= songs.len(),
            titles.len() == k,
            forall|j: int| 0 <= j < k ==> (#[trigger] titles@[j])@ == songs@[j].album_title@,
        decreases songs.len() - k,
    {
        titles.push(crate::text::chars_of(songs[k].album_title.as_str()));
        k += 1;
    }
    let mut shortest_song = songs[0].track_length;
    let mut longest_song = songs[0].track_length;
    let mut shortest_album = album_time_of(songs, &titles, 0);
    let mut longest_album = shortest_album;
    let mut i: usize = 1;
    while i < songs.len()
        invariant
            1 <= i <= songs.len(),
            titles.len() == songs.len(),
            forall|j: int| 0 <= j < songs.len() ==> (#[trigger] titles@[j])@ == songs@[j].album_title@,
            is_track_time(songs@, shortest_song),
            is_track_time(songs@, longest_song),
            is_album_time(songs@, shortest_album),
            is_album_time(songs@, longest_album),
            forall|j: int| 0 <= j < i ==> shortest_song <= (#[trigger] songs@[j]).track_length <= longest_song,
            forall|j: int| 0 <= j < i ==> shortest_album <= #[trigger] album_time(songs@, j) <= longest_album,
        decreases songs.len() - i,
    {
        let length = songs[i].track_length;
        if length < shortest_song {
            shortest_song = length;
        }
        if length > longest_song {
            longest_song = length;
        }
        let album = album_time_of(songs, &titles, i);
        if album < shortest_album {
            shortest_album = album;
        }
        if album > longest_album {
            longest_album = album;
        }
        i += 1;
    }
    Some(
        TimeReport {
            shortest_album,
            average_album: total / (albums as u64),
            longest_album,
            shortest_song,
            average_song: total / (songs.len() as u64),
            longest_song,
            total,
        },
    )
}

/// The album titles of the records are as many as the records.
pub proof fn lemma_gathered_titles(songs: Seq<SongData>)
    ensures
        gathered(songs, Field::AlbumTitle).len() == songs.len(),
    decreases songs.len(),
{
    if songs.len() > 0 {
        lemma_gathered_titles(songs.drop_last());
    }
}

/// The running times of the tracks of `songs` that `args` asks for, with the
/// week flag going by no week; `None` if it asks for none of them.
pub fn times_of_music(args: TimeArgs, songs: Vec<SongData>) -> (r: Option<TimeReport>)
    ensures
        r is None <==> time_filter(args).accepted(songs@, None).len() == 0,
        r matches Some(report) ==> times_of(report, time_filter(args).accepted(songs@, None)),
{
    let filter = SongDataFilter {
        day: None,
        month: args.month,
        year: args.year,
        artist: args.artist,
        album: None,
        genre: args.genre,
        moods: None,
        words: None,
        decade: None,
        track: None,
        week: false,
        instrumental: false,
    };
    let found = filter.filter_in_week(songs, &None);
    measure(&found)
}

impl TimeReport {
    /// The rows of the report: a name and a time on the clock.
    pub fn rows(&self) -> (out: Vec<(String, String)>)
        ensures
            named_times(out@) == time_rows(*self),
    {
        let mut out: Vec<(String, String)> = Vec::new();
        out.push(("Shortest album".to_string(), convert_sec_to_fmt_time(self.shortest_album)));
        out.push(("Avg album length".to_string(), convert_sec_to_fmt_time(self.average_album)));
        out.push(("Longest album".to_string(), convert_sec_to_fmt_time(self.longest_album)));
        out.push(("Shortest song".to_string(), convert_sec_to_fmt_time(self.shortest_song)));
        out.push(("Avg song length".to_string(), convert_sec_to_fmt_time(self.average_song)));
        out.push(("Longest song".to_string(), convert_sec_to_fmt_time(self.longest_song)));
        out.push(("Total song length".to_string(), convert_sec_to_fmt_time(self.total)));
        assert(named_times(out@) =~= time_rows(*self));
        out
    }
}

/// Rows of two strings as rows of two texts.
pub open spec fn named_times(rows: Seq<(String, String)>) -> Seq<(Seq<char>, Seq<char>)> {
    Seq::new(rows.len(), |i: int| (rows[i].0@, rows[i].1@))
}

} // verus!
