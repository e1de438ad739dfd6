//! Records in the order of their release within the year.

use vstd::prelude::*;
use crate::date::{date_of, parse_string_to_datetime, WeekWindow, YearlessDate};
use crate::lexical::{
    lemma_text_before_asymmetric, lemma_text_before_chain, lemma_text_before_total, text_before, text_lt,
};
use crate::songs::{SongData, SongDataFilter};
use crate::sort::{
    decided, items_of, lemma_picked_distinct, lemma_picked_ignores_order, lemma_picked_members,
    lemma_sorted_seq_ignores_order, picked, sort, sorted_seq, strip_keys, Keyed, Ranked,
};
use crate::text::chars_of;

verus! {

/// A day of the year and a file name: the key of a playlist.
pub struct DayAndFile {
    pub day: YearlessDate,
    pub file: String,
}

impl Ranked for DayAndFile {
    open spec fn before(&self, other: &Self) -> bool {
        self.day.earlier(other.day) || (self.day == other.day && text_before(self.file@, other.file@))
    }

    fn is_before(&self, other: &Self) -> (r: bool) {
        self.day.is_earlier(&other.day) || (self.day.month == other.day.month && self.day.day == other.day.day
            && text_lt(&chars_of(self.file.as_str()), &chars_of(other.file.as_str())))
    }

    proof fn lemma_asymmetric(a: &Self, b: &Self) {
        if a.day == b.day {
            lemma_text_before_asymmetric(a.file@, b.file@);
        }
    }

    proof fn lemma_chain(a: &Self, b: &Self, c: &Self) {
        if a.day == b.day && b.day == c.day {
            lemma_text_before_chain(a.file@, b.file@, c.file@);
        }
    }
}

/// The day of the year on which a record was released; the day before the
/// first, month zero and day zero, where its recording date is no date.
pub open spec fn release_day(song: SongData) -> YearlessDate {
    match date_of(song.recording_date@) {
        Some(d) => d.yearless(),
        None => YearlessDate { month: 0, day: 0 },
    }
}

/// The records with their release days as keys.
pub open spec fn keyed_by_day(songs: Seq<SongData>) -> Seq<Keyed<YearlessDate, SongData>> {
    Seq::new(songs.len(), |i: int| Keyed { key: release_day(songs[i]), item: songs[i] })
}

/// The records with their playlist keys, release day and file name.
pub open spec fn keyed_for_playlist(songs: Seq<SongData>) -> Seq<Keyed<DayAndFile, SongData>> {
    Seq::new(
        songs.len(),
        |i: int|
            Keyed { key: DayAndFile { day: release_day(songs[i]), file: songs[i].filename }, item: songs[i] },
    )
}

/// The records in playlist order: by release day, and within a day by file
/// name; records that agree in both keep their order.
pub open spec fn in_playlist_order(songs: Seq<SongData>) -> Seq<SongData> {
    items_of(sorted_seq(keyed_for_playlist(songs)))
}

/// The records in the order of their release days; records of one day keep
/// their order.
pub open spec fn by_release_day(songs: Seq<SongData>) -> Seq<SongData> {
    items_of(sorted_seq(keyed_by_day(songs)))
}

/// What gives a record its playlist key.
pub open spec fn playlist_key() -> spec_fn(SongData) -> Keyed<DayAndFile, SongData> {
    |s: SongData| Keyed { key: DayAndFile { day: release_day(s), file: s.filename }, item: s }
}

/// What tells whether a filter accepts a record.
pub open spec fn accepted_by(filter: SongDataFilter, week: Option<WeekWindow>) -> spec_fn(SongData) -> bool {
    |s: SongData| filter.accepts(&s, week)
}

/// The accepted records with their playlist keys are what is picked of the
/// records by acceptance and made by the key.
proof fn lemma_keyed_accepted_is_picked(filter: SongDataFilter, songs: Seq<SongData>, week: Option<WeekWindow>)
    ensures
        keyed_for_playlist(filter.accepted(songs, week)) == picked(
            songs,
            accepted_by(filter, week),
            playlist_key(),
        ),
    decreases songs.len(),
{
    reveal(Seq::filter);
    if songs.len() == 0 {
        assert(keyed_for_playlist(filter.accepted(songs, week)) =~= Seq::empty());
    } else {
        let front = songs.drop_last();
        let last = songs.last();
        lemma_keyed_accepted_is_picked(filter, front, week);
        filter.lemma_accepted_push(front, last, week);
        assert(front.push(last) =~= songs);
        if filter.accepts(&last, week) {
            assert(keyed_for_playlist(filter.accepted(front, week).push(last)) =~= keyed_for_playlist(
                filter.accepted(front, week),
            ).push(playlist_key()(last)));
        }
    }
}

/// Of two records with different file names one has to stand before the
/// other in a playlist.
pub proof fn lemma_playlist_keys_decide(a: SongData, b: SongData)
    requires
        a.filename@ != b.filename@,
    ensures
        decided(playlist_key()(a), playlist_key()(b)),
{
    let day_a = release_day(a);
    let day_b = release_day(b);
    if !day_a.earlier(day_b) && !day_b.earlier(day_a) {
        assert(day_a == day_b);
        if !text_before(a.filename@, b.filename@) && !text_before(b.filename@, a.filename@) {
            lemma_text_before_total(a.filename@, b.filename@);
        }
    }
}

/// The playlist order does not go by the order of the input. Of records with
/// pairwise different file names, two lists that hold the same records, in
/// whatever order, give the same accepted records in the same playlist order.
pub proof fn lemma_playlist_order_ignores_input_order(
    filter: SongDataFilter,
    xs: Seq<SongData>,
    ys: Seq<SongData>,
    week: Option<WeekWindow>,
)
    requires
        xs.to_multiset() == ys.to_multiset(),
        forall|i: int, j: int| 0 <= i < j < xs.len() ==> (#[trigger] xs[i]).filename@ != (#[trigger] xs[j]).filename@,
    ensures
        in_playlist_order(filter.accepted(xs, week)) == in_playlist_order(filter.accepted(ys, week)),
{
    let keep = accepted_by(filter, week);
    let make = playlist_key();
    lemma_keyed_accepted_is_picked(filter, xs, week);
    lemma_keyed_accepted_is_picked(filter, ys, week);
    let p = picked(xs, keep, make);
    let q = picked(ys, keep, make);
    lemma_picked_ignores_order(xs, ys, keep, make);
    assert(xs.no_duplicates()) by {
        assert forall|i: int, j: int| 0 <= i < xs.len() && 0 <= j < xs.len() && i != j implies xs[i] != xs[j] by {
            if i < j {
                assert(xs[i].filename@ != xs[j].filename@);
            } else {
                assert(xs[j].filename@ != xs[i].filename@);
            }
        }
    }
    assert forall|x: SongData, y: SongData| #[trigger] make(x) == #[trigger] make(y) implies x == y by {
        assert(make(x).item == x && make(y).item == y);
    }
    lemma_picked_distinct(xs, keep, make);
    assert forall|a: Keyed<DayAndFile, SongData>, b: Keyed<DayAndFile, SongData>|
        p.contains(a) && p.contains(b) && a != b implies #[trigger] decided(a, b) by {
        lemma_picked_members(xs, keep, make, a);
        lemma_picked_members(xs, keep, make, b);
        let x = choose|x: SongData| xs.contains(x) && keep(x) && #[trigger] make(x) == a;
        let y = choose|y: SongData| xs.contains(y) && keep(y) && #[trigger] make(y) == b;
        let i = choose|i: int| 0 <= i < xs.len() && xs[i] == x;
        let j = choose|j: int| 0 <= j < xs.len() && xs[j] == y;
        if i < j {
            assert(xs[i].filename@ != xs[j].filename@);
        } else if j < i {
            assert(xs[j].filename@ != xs[i].filename@);
        }
        lemma_playlist_keys_decide(x, y);
    }
    lemma_sorted_seq_ignores_order(p, q);
}

/// The day of the year on which `song` was released.
pub fn release_day_of(song: &SongData) -> (day: YearlessDate)
    ensures
        day == release_day(*song),
{
    match parse_string_to_datetime(song.recording_date.as_str()) {
        Ok(d) => d.without_year(),
        Err(_) => YearlessDate { month: 0, day: 0 },
    }
}

/// Sorts the records by their release days, stably.
pub fn sort_by_release_day(songs: Vec<SongData>) -> (out: Vec<SongData>)
    ensures
        out@ == by_release_day(songs@),
{
    broadcast use vstd::std_specs::vec::axiom_spec_into_iter;

    let ghost all = songs@;
    let mut keyed: Vec<Keyed<YearlessDate, SongData>> = Vec::new();
    for song in it: songs.into_iter()
        invariant
            it.seq() == all,
            keyed.len() == it.index(),
            forall|j: int| 0 <= j < it.index() ==> keyed@[j] == keyed_by_day(all)[j],
    {
        let key = release_day_of(&song);
        keyed.push(Keyed { key, item: song });
    }
    assert(keyed@ =~= keyed_by_day(all));
    sort(&mut keyed);
    strip_keys(keyed)
}

/// Sorts the records for a playlist: by release day, and within a day by file
/// name.
pub fn sort_for_playlist(songs: Vec<SongData>) -> (out: Vec<SongData>)
    ensures
        out@ == in_playlist_order(songs@),
{
    broadcast use vstd::std_specs::vec::axiom_spec_into_iter;

    let ghost all = songs@;
    let mut keyed: Vec<Keyed<DayAndFile, SongData>> = Vec::new();
    for song in it: songs.into_iter()
        invariant
            it.seq() == all,
            keyed.len() == it.index(),
            forall|j: int| 0 <= j < it.index() ==> keyed@[j] == keyed_for_playlist(all)[j],
    {
        let key = DayAndFile { day: release_day_of(&song), file: song.filename.clone() };
        keyed.push(Keyed { key, item: song });
    }
    assert(keyed@ =~= keyed_for_playlist(all));
    sort(&mut keyed);
    strip_keys(keyed)
}

} // verus!
