//! What to play: the albums that a filter accepts, in the order of their
//! release within the year.

use vstd::prelude::*;
use crate::date::{current_week, week_around, window_of, Date, WeekWindow};
use crate::release::{by_release_day, sort_by_release_day};
use crate::songs::{SongData, SongDataFilter};
use crate::text::{chars_of, extend_chars, string_of, texts};

verus! {

/// Which albums to list.
pub struct WtpArgs {
    /// Day of release
    pub day: Option<u16>,
    /// Decade of release
    pub decade: Option<u16>,
    /// Month of release
    pub month: Option<u32>,
    /// Year of release
    pub year: Option<i32>,
    /// Only releases of the current week
    pub week: bool,
}

/// The filter of the list.
pub open spec fn wtp_filter(args: WtpArgs) -> SongDataFilter {
    SongDataFilter {
        day: None,
        month: args.month,
        year: args.year,
        artist: None,
        album: None,
        genre: None,
        moods: None,
        words: None,
        decade: None,
        track: None,
        week: args.week,
        instrumental: false,
    }
}

/// The line of an album: its recording date, its artist and its title.
pub open spec fn release_line(song: SongData) -> Seq<char> {
    song.recording_date@ + " "@ + song.track_artist@ + " - "@ + song.album_title@
}

/// The lines of `songs`, in their order.
pub open spec fn release_lines(songs: Seq<SongData>) -> Seq<Seq<char>> {
    Seq::new(songs.len(), |i: int| release_line(songs[i]))
}

/// The list of `albums` under `args` with `week` as the current week: the
/// lines of the accepted albums in the order of their release days.
pub open spec fn wtp_list(args: WtpArgs, albums: Seq<SongData>, week: Option<WeekWindow>) -> Seq<Seq<char>> {
    release_lines(by_release_day(wtp_filter(args).accepted(albums, week)))
}

/// The line of `song`.
pub fn line_of(song: &SongData) -> (out: String)
    ensures
        out@ == release_line(*song),
{
    let mut line = chars_of(song.recording_date.as_str());
    extend_chars(&mut line, &chars_of(" "));
    extend_chars(&mut line, &chars_of(song.track_artist.as_str()));
    extend_chars(&mut line, &chars_of(" - "));
    extend_chars(&mut line, &chars_of(song.album_title.as_str()));
    string_of(&line)
}

/// The list of `albums` under `args`, with the week flag going by `week`.
pub fn wtpn_in_week(args: WtpArgs, albums: Vec<SongData>, week: &Option<WeekWindow>) -> (out: Vec<String>)
    ensures
        texts(out@) == wtp_list(args, albums@, *week),
{
    let filter = SongDataFilter {
        day: None,
        month: args.month,
        year: args.year,
        artist: None,
        album: None,
        genre: None,
        moods: None,
        words: None,
        decade: None,
        track: None,
        week: args.week,
        instrumental: false,
    };
    let found = sort_by_release_day(filter.filter_in_week(albums, week));
    let mut out: Vec<String> = Vec::new();
    let mut k: usize = 0;
    while k < found.len()
        invariant
            k <= found.len(),
            out.len() == k,
            forall|j: int| 0 <= j < k ==> (#[trigger] out@[j])@ == release_line(found@[j]),
        decreases found.len() - k,
    {
        out.push(line_of(&found[k]));
        k += 1;
    }
    assert(texts(out@) =~= release_lines(found@));
    out
}

/// The list of `albums` under `args`. With the week flag set the current
/// week is asked of the clock.
pub fn wtpn(args: WtpArgs, albums: Vec<SongData>) -> (out: Vec<String>)
    ensures
        !args.week ==> texts(out@) == wtp_list(args, albums@, None),
        exists|day: Date| day.in_calendar() && texts(out@) == wtp_list(args, albums@, window_of(week_around(day))),
{
    if args.week {
        let week = current_week();
        wtpn_in_week(args, albums, &week)
    } else {
        let ghost all = albums@;
        let out = wtpn_in_week(args, albums, &None);
        proof {
            let day = Date { year: 0, month: 1, day: 1 };
            assert(day.in_calendar());
            wtp_filter(args).lemma_week_unused(all, None, window_of(week_around(day)));
        }
        out
    }
}

} // verus!
