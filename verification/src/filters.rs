//! The single criteria of a filter. Each is a wildcard when it is absent.

use vstd::prelude::*;
use crate::date::{current_week, date_of, parse_string_to_datetime, today, week_around, window_of, Date, WeekWindow};
use crate::text::{chars_of, contains_text, has_text, rows, same_text, split, split_text, string_of, texts};
use crate::words::{lowercase, to_lowercase};

verus! {

/// The text of an optional string.
pub open spec fn opt_text(o: Option<String>) -> Option<Seq<char>> {
    match o {
        Some(s) => Some(s@),
        None => None,
    }
}

/// The separator of the values in a criterion that lists several.
pub open spec fn comma() -> Seq<char> {
    seq![',']
}

/// Two lists of texts have a member in common.
pub open spec fn share_member(a: Seq<Seq<char>>, b: Seq<Seq<char>>) -> bool {
    exists|i: int, j: int| 0 <= i < a.len() && 0 <= j < b.len() && a[i] == b[j]
}

/// Some text of `pats` is a substring of some text of `blocks`.
pub open spec fn any_within(pats: Seq<Seq<char>>, blocks: Seq<Seq<char>>) -> bool {
    exists|i: int, j: int| 0 <= i < pats.len() && 0 <= j < blocks.len() && contains_text(blocks[j], pats[i])
}

/// Each text of `parts` in lowercase.
pub open spec fn lowered(parts: Seq<Seq<char>>) -> Seq<Seq<char>> {
    Seq::new(parts.len(), |i: int| lowercase(parts[i]))
}

/// A list criterion: absent, or a comma-separated list of values of which at
/// least one is a member of the record's list.
pub open spec fn list_matches(needles: Option<Seq<char>>, haystack: Seq<Seq<char>>) -> bool {
    match needles {
        Some(n) => share_member(split_text(n, comma()), haystack),
        None => true,
    }
}

/// The words criterion: absent, or a comma-separated list of words of which at
/// least one, in lowercase, is a substring of some lyric block in lowercase.
pub open spec fn lyrics_match(words: Option<Seq<char>>, lyrics: Seq<Seq<char>>) -> bool {
    match words {
        Some(w) => any_within(lowered(split_text(w, comma())), lowered(lyrics)),
        None => true,
    }
}

/// The decade of a year: the nearest multiple of ten that is not above it.
pub open spec fn decade_of(year: int) -> int {
    (year / 10) * 10
}

/// The decade criterion: absent, or the decade of the record's year.
pub open spec fn decade_matches(decade: Option<u16>, year: int) -> bool {
    match decade {
        Some(d) => d as int == decade_of(year),
        None => true,
    }
}

/// Whether a date is there and falls into a week that is there.
pub open spec fn week_holds(week: Option<WeekWindow>, day: Option<Date>) -> bool {
    match (week, day) {
        (Some(w), Some(d)) => w.holds(d.yearless()),
        _ => false,
    }
}

/// Whether a date is there and is no earlier day of the year than `today`.
pub open spec fn still_to_come(day: Option<Date>, today: Date) -> bool {
    match day {
        Some(d) => !d.yearless().earlier(today.yearless()),
        None => false,
    }
}

/// Values that an exact criterion can be compared with.
pub trait SameValue {
    /// The two values are the same.
    spec fn same(&self, other: &Self) -> bool;

    /// Decides `same`.
    fn is_same(&self, other: &Self) -> (r: bool)
        ensures
            r == self.same(other),
    ;
}

impl SameValue for i32 {
    open spec fn same(&self, other: &Self) -> bool {
        *self == *other
    }

    fn is_same(&self, other: &Self) -> (r: bool) {
        *self == *other
    }
}

impl SameValue for u32 {
    open spec fn same(&self, other: &Self) -> bool {
        *self == *other
    }

    fn is_same(&self, other: &Self) -> (r: bool) {
        *self == *other
    }
}

impl SameValue for u16 {
    open spec fn same(&self, other: &Self) -> bool {
        *self == *other
    }

    fn is_same(&self, other: &Self) -> (r: bool) {
        *self == *other
    }
}

impl SameValue for u64 {
    open spec fn same(&self, other: &Self) -> bool {
        *self == *other
    }

    fn is_same(&self, other: &Self) -> (r: bool) {
        *self == *other
    }
}

impl SameValue for String {
    open spec fn same(&self, other: &Self) -> bool {
        self@ == other@
    }

    fn is_same(&self, other: &Self) -> (r: bool) {
        *self == *other
    }
}

/// The characters of each string of `v`.
pub fn rows_of(v: &Vec<String>) -> (out: Vec<Vec<char>>)
    ensures
        rows(out@) == texts(v@),
{
    let mut out: Vec<Vec<char>> = Vec::new();
    let mut k: usize = 0;
    while k < v.len()
        invariant
            k <= v.len(),
            out.len() == k,
            forall|j: int| 0 <= j < k ==> out@[j]@ == v@[j]@,
        decreases v.len() - k,
    {
        let row = chars_of(v[k].as_str());
        out.push(row);
        k += 1;
    }
    assert(rows(out@) =~= texts(v@));
    out
}

/// The characters of each row of `v` in lowercase.
pub fn lowered_rows(v: &Vec<Vec<char>>) -> (out: Vec<Vec<char>>)
    ensures
        rows(out@) == lowered(rows(v@)),
{
    let mut out: Vec<Vec<char>> = Vec::new();
    let mut k: usize = 0;
    while k < v.len()
        invariant
            k <= v.len(),
            out.len() == k,
            forall|j: int| 0 <= j < k ==> out@[j]@ == lowercase(v@[j]@),
        decreases v.len() - k,
    {
        let s = string_of(&v[k]);
        let low = to_lowercase(s.as_str());
        let row = chars_of(low.as_str());
        out.push(row);
        k += 1;
    }
    assert(rows(out@) =~= lowered(rows(v@)));
    out
}

/// Whether two lists of texts have a member in common.
pub fn shares(a: &Vec<Vec<char>>, b: &Vec<Vec<char>>) -> (r: bool)
    ensures
        r == share_member(rows(a@), rows(b@)),
{
    let mut i: usize = 0;
    while i < a.len()
        invariant
            i <= a.len(),
            forall|x: int, y: int| 0 <= x < i && 0 <= y < b.len() ==> rows(a@)[x] != rows(b@)[y],
        decreases a.len() - i,
    {
        let mut j: usize = 0;
        while j < b.len()
            invariant
                i < a.len(),
                j <= b.len(),
                forall|y: int| 0 <= y < j ==> rows(a@)[i as int] != rows(b@)[y],
            decreases b.len() - j,
        {
            if same_text(&a[i], &b[j]) {
                assert(rows(a@)[i as int] == rows(b@)[j as int]);
                return true;
            }
            j += 1;
        }
        i += 1;
    }
    false
}

/// Whether some text of `pats` is a substring of some text of `blocks`.
pub fn any_contained(pats: &Vec<Vec<char>>, blocks: &Vec<Vec<char>>) -> (r: bool)
    ensures
        r == any_within(rows(pats@), rows(blocks@)),
{
    let mut i: usize = 0;
    while i < pats.len()
        invariant
            i <= pats.len(),
            forall|x: int, y: int|
                0 <= x < i && 0 <= y < blocks.len() ==> !contains_text(rows(blocks@)[y], rows(pats@)[x]),
        decreases pats.len() - i,
    {
        let mut j: usize = 0;
        while j < blocks.len()
            invariant
                i < pats.len(),
                j <= blocks.len(),
                forall|y: int| 0 <= y < j ==> !contains_text(rows(blocks@)[y], rows(pats@)[i as int]),
            decreases blocks.len() - j,
        {
            if has_text(&blocks[j], &pats[i]) {
                assert(contains_text(rows(blocks@)[j as int], rows(pats@)[i as int]));
                return true;
            }
            j += 1;
        }
        i += 1;
    }
    false
}

/// The values of a comma-separated list.
pub fn comma_separated(list: &str) -> (out: Vec<Vec<char>>)
    ensures
        rows(out@) == split_text(list@, comma()),
{
    let s = chars_of(list);
    let mut sep: Vec<char> = Vec::new();
    sep.push(',');
    assert(sep@ =~= comma());
    split(&s, &sep)
}

/// A list criterion: whether one of the comma-separated `needles` is a member
/// of `haystack`. An absent criterion matches every list.
pub fn contains_list_of_strings(needles: &Option<String>, haystack: &Vec<String>) -> (r: bool)
    ensures
        r == list_matches(opt_text(*needles), texts(haystack@)),
{
    match needles {
        Some(list) => {
            let wanted = comma_separated(list.as_str());
            let have = rows_of(haystack);
            shares(&wanted, &have)
        },
        None => true,
    }
}

/// Whether the release date `release` falls into `week`, by month and day
/// alone. A date that does not read, or a week that is not there, is no
/// match.
pub fn match_week(release: &str, week: &Option<WeekWindow>) -> (r: bool)
    ensures
        r == week_holds(*week, date_of(release@)),
{
    match (week, parse_string_to_datetime(release)) {
        (Some(w), Ok(d)) => w.contains(&d.without_year()),
        _ => false,
    }
}

/// Whether the release date `release` falls into the current week, from
/// Saturday to Friday, by month and day alone. The week is the clock's; the
/// result is that of `match_week` for the week around one date.
pub fn match_current_week(release: &String) -> (r: bool)
    ensures
        date_of(release@) is None ==> !r,
        exists|day: Date| day.in_calendar() && r == week_holds(window_of(week_around(day)), date_of(release@)),
{
    let week = current_week();
    match_week(release.as_str(), &week)
}

/// Whether the date `dt` is no earlier day of the year than `today`.
pub fn match_items_left_on(dt: &str, today: &Date) -> (r: bool)
    ensures
        r == still_to_come(date_of(dt@), *today),
{
    match parse_string_to_datetime(dt) {
        Ok(d) => !d.without_year().is_earlier(&today.without_year()),
        Err(_) => false,
    }
}

/// Whether the date `dt` is today or a later day of the year. Today is the
/// clock's; the result is that of `match_items_left_on` for one date.
pub fn match_items_left(dt: &str) -> (r: bool)
    ensures
        date_of(dt@) is None ==> !r,
        exists|day: Date| day.in_calendar() && r == still_to_come(date_of(dt@), day),
{
    let day = today();
    match_items_left_on(dt, &day)
}

/// The decade criterion: whether `decade` is absent or the decade of `dt`.
pub fn match_decade(dt: Date, decade: &Option<u16>) -> (r: bool)
    ensures
        r == decade_matches(*decade, dt.year as int),
{
    match decade {
        Some(d) => {
            if dt.year < 0 {
                false
            } else {
                let wanted: i32 = *d as i32;
                (dt.year / 10) * 10 == wanted
            }
        },
        None => true,
    }
}

/// Whether a record has no lyrics.
pub fn match_no_lyrics(lyrics: &Vec<String>) -> (r: bool)
    ensures
        r == (lyrics@.len() == 0),
{
    lyrics.len() == 0
}

/// The words criterion: whether one of the comma-separated `words` occurs in
/// one of the lyric blocks, letter case set aside. An absent criterion matches
/// every record.
pub fn match_lyrics_contain_words(words: &Option<String>, lyrics: &Vec<String>) -> (r: bool)
    ensures
        r == lyrics_match(opt_text(*words), texts(lyrics@)),
{
    match words {
        Some(list) => {
            let wanted = lowered_rows(&comma_separated(list.as_str()));
            let blocks = lowered_rows(&rows_of(lyrics));
            any_contained(&wanted, &blocks)
        },
        None => true,
    }
}

/// An exact criterion: whether `needle` is absent or the same as `haystack`.
pub fn equals_same_value<T: SameValue>(needle: &Option<T>, haystack: &T) -> (r: bool)
    ensures
        r == match *needle {
            Some(val) => val.same(haystack),
            None => true,
        },
{
    match needle {
        Some(val) => val.is_same(haystack),
        None => true,
    }
}

} // verus!
