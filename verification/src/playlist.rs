//! Playlists: the files of the records that a filter accepts, in the order of
//! their release within the year or in a random order.

use rand::seq::SliceRandom;
use vstd::prelude::*;
use crate::data::array_truncate;
use crate::date::{current_week, week_around, window_of, Date, WeekWindow};
use crate::count::shown;
use crate::release::{in_playlist_order, sort_for_playlist};
use crate::songs::{SongData, SongDataFilter};
use crate::text::{chars_of, join, joined, replace, replaced, rows, string_of, texts};

verus! {

/// What goes into a playlist.
pub struct PlaylistArgs {
    /// Album title
    pub album: Option<String>,
    /// Name of the artist
    pub artist: Option<String>,
    /// Genres, separated by commas
    pub genre: Option<String>,
    /// Moods, separated by commas
    pub moods: Option<String>,
    /// Day of release
    pub day: Option<u16>,
    /// Decade of release
    pub decade: Option<u16>,
    /// Month of release
    pub month: Option<u32>,
    /// Year of release
    pub year: Option<i32>,
    /// The most entries that the playlist may have
    pub length: Option<usize>,
    /// Track number
    pub track: Option<String>,
    /// Only releases of the current week
    pub week: bool,
    /// Words of the lyrics, separated by commas
    pub words: Option<String>,
    /// Only tracks without lyrics
    pub instrumental: bool,
    /// Random order
    pub random: bool,
    /// Name of the playlist file, without extension
    pub name: Option<String>,
}

/// The directory that the music lies in. File names in a playlist are written
/// without it.
pub open spec fn music_root() -> Seq<char> {
    "/home/andrew/music/"@
}

/// The filter of a playlist.
pub open spec fn playlist_filter(args: PlaylistArgs) -> SongDataFilter {
    SongDataFilter {
        day: None,
        month: args.month,
        year: args.year,
        artist: args.artist,
        album: None,
        genre: args.genre,
        moods: args.moods,
        words: args.words,
        decade: args.decade,
        track: args.track,
        week: args.week,
        instrumental: args.instrumental,
    }
}

/// The file names of `songs` as a playlist writes them.
pub open spec fn playlist_names(songs: Seq<SongData>) -> Seq<Seq<char>> {
    Seq::new(songs.len(), |i: int| replaced(songs[i].filename@, music_root(), Seq::empty()))
}

/// The entries of the playlist of `songs` under `args`, where `week` is the
/// current week and `order` arranges the accepted records: a random order is
/// any order of these records, and the other is the playlist order.
pub open spec fn playlist_of(
    out: Seq<Seq<char>>,
    args: PlaylistArgs,
    songs: Seq<SongData>,
    week: Option<WeekWindow>,
    order: Seq<SongData>,
) -> bool {
    let found = playlist_filter(args).accepted(songs, week);
    &&& if args.random {
        order.to_multiset() == found.to_multiset()
    } else {
        order == in_playlist_order(found)
    }
    &&& out == shown(playlist_names(order), args.length)
}

/// Without the random order a playlist is a function of the criteria, the
/// records and the current week: two runs on the same input give the same
/// entries in the same order.
pub proof fn lemma_playlist_is_determined(
    a: Seq<Seq<char>>,
    b: Seq<Seq<char>>,
    args: PlaylistArgs,
    songs: Seq<SongData>,
    week: Option<WeekWindow>,
    first: Seq<SongData>,
    second: Seq<SongData>,
)
    requires
        !args.random,
        playlist_of(a, args, songs, week, first),
        playlist_of(b, args, songs, week, second),
    ensures
        first == second,
        a == b,
{
}

/// Without the random order a playlist does not go by the order in which the
/// records come. Of records with pairwise different file names, two lists
/// that hold the same records, in whatever order, give the same playlist:
/// the accepted records by release day and, within a day, by file name, cut
/// to the length.
pub proof fn lemma_playlist_ignores_input_order(
    a: Seq<Seq<char>>,
    b: Seq<Seq<char>>,
    args: PlaylistArgs,
    xs: Seq<SongData>,
    ys: Seq<SongData>,
    week: Option<WeekWindow>,
    first: Seq<SongData>,
    second: Seq<SongData>,
)
    requires
        !args.random,
        xs.to_multiset() == ys.to_multiset(),
        forall|i: int, j: int| 0 <= i < j < xs.len() ==> (#[trigger] xs[i]).filename@ != (#[trigger] xs[j]).filename@,
        playlist_of(a, args, xs, week, first),
        playlist_of(b, args, ys, week, second),
    ensures
        first == second,
        a == b,
{
    crate::release::lemma_playlist_order_ignores_input_order(playlist_filter(args), xs, ys, week);
}

/// `rand::seq::SliceRandom::shuffle` on the records, drawing from
/// `rand::thread_rng()`: the same records in another order. Which order it is
/// stays open.
#[verifier::external_body]
fn shuffle_songs(songs: &mut Vec<SongData>)
    ensures
        final(songs)@.to_multiset() == old(songs)@.to_multiset(),
{
    songs.shuffle(&mut rand::thread_rng());
}

/// The file names of `songs` as a playlist writes them: without the
/// directory that the music lies in.
pub fn song_files(songs: &Vec<SongData>) -> (out: Vec<String>)
    ensures
        texts(out@) == playlist_names(songs@),
{
    let root = chars_of("/home/andrew/music/");
    let nothing: Vec<char> = Vec::new();
    proof {
        reveal_strlit("/home/andrew/music/");
    }
    let mut out: Vec<String> = Vec::new();
    let mut k: usize = 0;
    while k < songs.len()
        invariant
            k <= songs.len(),
            root@ == music_root(),
            root@.len() > 0,
            nothing@ == Seq::<char>::empty(),
            out.len() == k,
            forall|j: int| 0 <= j < k ==> (#[trigger] out@[j])@ == playlist_names(songs@)[j],
        decreases songs.len() - k,
    {
        let name = replace(&chars_of(songs[k].filename.as_str()), &root, &nothing);
        out.push(string_of(&name));
        k += 1;
    }
    assert(texts(out@) =~= playlist_names(songs@));
    out
}

/// The entries of the playlist of `songs` under `args`, with the week flag
/// going by `week`.
pub fn generate_playlist_in_week(args: PlaylistArgs, songs: Vec<SongData>, week: &Option<WeekWindow>) -> (out:
    Vec<String>)
    ensures
        exists|order: Seq<SongData>| playlist_of(texts(out@), args, songs@, *week, order),
        !args.random ==> playlist_of(
            texts(out@),
            args,
            songs@,
            *week,
            in_playlist_order(playlist_filter(args).accepted(songs@, *week)),
        ),
{
    let filter = SongDataFilter {
        day: None,
        month: args.month,
        year: args.year,
        artist: args.artist,
        album: None,
        genre: args.genre,
        moods: args.moods,
        words: args.words,
        decade: args.decade,
        track: args.track,
        week: args.week,
        instrumental: args.instrumental,
    };
    let mut found = filter.filter_in_week(songs, week);
    if args.random {
        shuffle_songs(&mut found);
    } else {
        found = sort_for_playlist(found);
    }
    let ghost order = found@;
    let mut files = song_files(&found);
    let ghost names = texts(files@);
    array_truncate(&mut files, args.length);
    assert(texts(files@) =~= shown(names, args.length));
    assert(playlist_of(texts(files@), args, songs@, *week, order));
    files
}

/// The entries of the playlist of `songs` under `args`. With the week flag
/// set the current week is asked of the clock.
pub fn generate_playlist(args: PlaylistArgs, songs: Vec<SongData>) -> (out: Vec<String>)
    ensures
        exists|day: Date, order: Seq<SongData>|
            day.in_calendar() && playlist_of(texts(out@), args, songs@, window_of(week_around(day)), order),
        !args.random && !args.week ==> playlist_of(
            texts(out@),
            args,
            songs@,
            None,
            in_playlist_order(playlist_filter(args).accepted(songs@, None)),
        ),
{
    if args.week {
        let week = current_week();
        let ghost day = choose|day: Date| day.in_calendar() && week == window_of(week_around(day));
        let ghost all = songs@;
        let out = generate_playlist_in_week(args, songs, &week);
        proof {
            let order = choose|order: Seq<SongData>| playlist_of(texts(out@), args, all, week, order);
            assert(playlist_of(texts(out@), args, all, window_of(week_around(day)), order));
        }
        out
    } else {
        let ghost all = songs@;
        let out = generate_playlist_in_week(args, songs, &None);
        proof {
            let day = Date { year: 0, month: 1, day: 1 };
            assert(day.in_calendar());
            let order = choose|order: Seq<SongData>| playlist_of(texts(out@), args, all, None, order);
            playlist_filter(args).lemma_week_unused(all, None, window_of(week_around(day)));
            assert(playlist_of(texts(out@), args, all, window_of(week_around(day)), order));
        }
        out
    }
}

/// The text of a playlist file: its entries, one to the line.
pub fn playlist_text(files: &Vec<String>) -> (out: String)
    ensures
        out@ == joined(texts(files@), seq!['\n']),
{
    let mut lines: Vec<Vec<char>> = Vec::new();
    let mut k: usize = 0;
    while k < files.len()
        invariant
            k <= files.len(),
            lines.len() == k,
            forall|j: int| 0 <= j < k ==> (#[trigger] lines@[j])@ == files@[j]@,
        decreases files.len() - k,
    {
        lines.push(chars_of(files[k].as_str()));
        k += 1;
    }
    assert(rows(lines@) =~= texts(files@));
    let mut sep: Vec<char> = Vec::new();
    sep.push('\n');
    assert(sep@ =~= seq!['\n']);
    string_of(&join(&lines, &sep))
}

/// The path of the playlist file `name`: in the working directory, with the
/// extension `m3u`.
pub fn playlist_path(name: &str) -> (out: String)
    ensures
        out@ == "./"@ + name@ + ".m3u"@,
{
    let mut path = chars_of("./");
    crate::text::extend_chars(&mut path, &chars_of(name));
    crate::text::extend_chars(&mut path, &chars_of(".m3u"));
    string_of(&path)
}

} // verus!
