//! Collages of album covers: which covers go into one, in which order, where
//! each tile lies, what the file is called, and the drawing itself.

use chrono::Local;
use vstd::prelude::*;
use crate::covers::{resize_fault, resize_rgb, resized, AlbumCoverData, AlbumCoverDataFilter, Filter};
use crate::data::{image_name_pattern, is_regex, regex_found, sum_rgb, validate_img_filename};
use crate::date::{current_week, week_around, window_of, Date, WeekWindow};
use crate::error::ErrorKind;
use crate::sort::{items_of, sort, sorted_seq, strip_keys, Keyed, Ranked};
use crate::text::{chars_of, extend_chars, string_of};
use crate::words::{lowercase, to_lowercase};

verus! {

/// What goes into a collage.
pub struct AccgArgs {
    /// Name of the artist
    pub artist: Option<String>,
    /// Genres, separated by commas
    pub genre: Option<String>,
    /// Moods, separated by commas
    pub moods: Option<String>,
    /// Day of release
    pub day: Option<u16>,
    /// Decade of release
    pub decade: Option<u16>,
    /// Month of release
    pub month: Option<u32>,
    /// Year of release
    pub year: Option<i32>,
    /// Only releases of the current week
    pub week: bool,
    /// Name of the image file
    pub name: Option<String>,
}

/// The greatest width of a collage.
pub const MAX_WIDTH: u32 = 3840;

/// The height of a collage.
pub const MAX_HEIGHT: u32 = 2160;

/// The grid of a collage: the numbers of its columns and rows, the edge of a
/// tile, and the size of the canvas.
#[derive(Debug, Clone, Copy, PartialEq, Eq, Structural)]
pub struct CollageLayout {
    pub cols: u64,
    pub rows: u64,
    pub size: u32,
    pub width: u32,
    pub height: u32,
}

/// A collage that is ready to be drawn: the name of its file, its covers in
/// the order of their tiles, and its grid.
pub struct CollagePlan {
    pub filename: String,
    pub covers: Vec<AlbumCoverData>,
    pub layout: CollageLayout,
}

/// `c` is the square root of `n`, rounded up.
pub open spec fn is_ceil_sqrt(n: nat, c: nat) -> bool {
    c * c >= n && (c == 0 || (c - 1) * (c - 1) < n)
}

/// `n` divided by `d`, rounded up.
pub open spec fn ceil_div(n: nat, d: nat) -> nat {
    (n + d - 1) as nat / d
}

/// The lesser of two numbers.
pub open spec fn lesser(a: nat, b: nat) -> nat {
    if a <= b {
        a
    } else {
        b
    }
}

/// `layout` is the grid for `count` tiles on a canvas of at most `max_width`
/// by `max_height`: as many columns as the square root of the count, rounded
/// up; as many rows as it takes; square tiles as large as the columns and the
/// rows allow; the canvas as wide as the columns and of the full height.
pub open spec fn is_layout(layout: CollageLayout, count: nat, max_width: u32, max_height: u32) -> bool {
    &&& count > 0
    &&& is_ceil_sqrt(count, layout.cols as nat)
    &&& layout.rows == ceil_div(count, layout.cols as nat)
    &&& layout.size == lesser(max_width as nat / layout.cols as nat, max_height as nat / layout.rows as nat)
    &&& layout.width == layout.cols * layout.size
    &&& layout.height == max_height
}

/// The sum of the channels of the colours of a palette.
pub open spec fn brightness(colors: Seq<(u8, u8, u8)>) -> nat
    decreases colors.len(),
{
    if colors.len() == 0 {
        0
    } else {
        brightness(colors.drop_last()) + colors.last().0 as nat + colors.last().1 as nat
            + colors.last().2 as nat
    }
}

/// The covers with the brightness of their palettes as keys.
pub open spec fn keyed_by_brightness(covers: Seq<AlbumCoverData>) -> Seq<Keyed<u128, AlbumCoverData>> {
    Seq::new(
        covers.len(),
        |i: int| Keyed { key: brightness(covers[i].image.dominant_colors@) as u128, item: covers[i] },
    )
}

/// The covers from the darkest palette to the brightest; covers of equal
/// brightness keep their order.
pub open spec fn by_brightness(covers: Seq<AlbumCoverData>) -> Seq<AlbumCoverData> {
    items_of(sorted_seq(keyed_by_brightness(covers)))
}

/// The filter of a collage.
pub open spec fn collage_filter(args: AccgArgs) -> AlbumCoverDataFilter {
    AlbumCoverDataFilter {
        day: None,
        month: args.month,
        year: args.year,
        artist: args.artist,
        album: None,
        genre: args.genre,
        moods: args.moods,
        words: None,
        decade: args.decade,
        track: None,
        week: args.week,
        instrumental: false,
    }
}

/// What a collage is about: the first criterion that is present, in the
/// order genre, week, moods, artist, year, month, day, decade; `all` if none
/// is.
pub open spec fn collage_subject(args: AccgArgs) -> Seq<char> {
    if args.genre is Some {
        "genre"@
    } else if args.week {
        "week"@
    } else if args.moods is Some {
        "moods"@
    } else if args.artist is Some {
        "artist"@
    } else if args.year is Some {
        "year"@
    } else if args.month is Some {
        "month"@
    } else if args.day is Some {
        "day"@
    } else if args.decade is Some {
        "decade"@
    } else {
        "all"@
    }
}

/// A text with a dash in place of each comma and each blank.
pub open spec fn dashed(s: Seq<char>) -> Seq<char> {
    Seq::new(
        s.len(),
        |i: int|
            if s[i] == ',' || s[i] == ' ' {
                '-'
            } else {
                s[i]
            },
    )
}

/// The name of the image file of a collage at the moment `stamp`: after the
/// genres, else the moods, else the artist, in lowercase and with dashes;
/// without any of them, after the moment and the subject.
pub open spec fn collage_filename(args: AccgArgs, stamp: Seq<char>) -> Seq<char> {
    if args.genre is Some {
        lowercase(dashed(args.genre->0@)) + ".png"@
    } else if args.moods is Some {
        lowercase(dashed(args.moods->0@)) + ".png"@
    } else if args.artist is Some {
        lowercase(dashed(args.artist->0@)) + ".png"@
    } else {
        stamp + "-"@ + collage_subject(args) + ".png"@
    }
}

/// The directory that collages are written to.
pub open spec fn collage_dir() -> Seq<char> {
    "/home/andrew/picx/accg/"@
}

impl Ranked for u128 {
    open spec fn before(&self, other: &Self) -> bool {
        *self < *other
    }

    fn is_before(&self, other: &Self) -> (r: bool) {
        *self < *other
    }

    proof fn lemma_asymmetric(a: &Self, b: &Self) {
    }

    proof fn lemma_chain(a: &Self, b: &Self, c: &Self) {
    }
}

/// The format of the moment in the name of a collage: year, month, day, hour,
/// minute and second in digits.
pub open spec fn stamp_format() -> Seq<char> {
    "%Y%m%d%H%M%S"@
}

/// `chrono::Local::now()`, written by `format` under the format `format`.
/// Nothing is claimed of the text: it is the clock's. The contract is kept to
/// the format of the collage names: `format` fails on what is no format.
#[verifier::external_body]
fn local_timestamp(format: &str) -> (stamp: String)
    requires
        format@ == stamp_format(),
{
    Local::now().format(format).to_string()
}

/// The square of `c`.
pub fn square(c: u64) -> (s: u128)
    ensures
        s == c * c,
{
    assert(c * c <= 0xffff_ffff_ffff_ffff * 0xffff_ffff_ffff_ffff) by (nonlinear_arith)
        requires
            0 <= c <= 0xffff_ffff_ffff_ffff,
    ;
    (c as u128) * (c as u128)
}

/// The square root of `n`, rounded up.
pub fn ceil_sqrt(n: u64) -> (c: u64)
    ensures
        is_ceil_sqrt(n as nat, c as nat),
        c <= 0x1_0000_0000,
{
    let mut c: u64 = 0;
    while square(c) < n as u128
        invariant
            c <= 0x1_0000_0000,
            c == 0 || (c - 1) * (c - 1) < n,
        decreases 0x1_0000_0000 - c,
    {
        assert(c < 0x1_0000_0000) by (nonlinear_arith)
            requires
                c * c < n,
                n <= u64::MAX,
                c <= 0x1_0000_0000,
        ;
        c += 1;
    }
    c
}

/// The grid for `count` tiles on a canvas of at most `max_width` by
/// `max_height`. There is no grid for no tile.
pub fn collage_layout(count: usize, max_width: u32, max_height: u32) -> (r: Option<CollageLayout>)
    ensures
        r is None <==> count == 0,
        r matches Some(layout) ==> is_layout(layout, count as nat, max_width, max_height),
{
    if count == 0 {
        return None;
    }
    let n: u64 = count as u64;
    let cols = ceil_sqrt(n);
    assert(cols > 0);
    let wide: u128 = (n as u128 + cols as u128 - 1) / (cols as u128);
    proof {
        assert(n + cols - 1 <= cols * n) by (nonlinear_arith)
            requires
                n >= 1,
                cols >= 1,
        ;
        vstd::arithmetic::div_mod::lemma_multiply_divide_le(n + cols - 1, cols as int, n as int);
        vstd::arithmetic::div_mod::lemma_div_non_zero(n + cols - 1, cols as int);
    }
    let rows: u64 = wide as u64;
    let across: u64 = max_width as u64 / cols;
    let down: u64 = max_height as u64 / rows;
    let size: u64 = if across <= down {
        across
    } else {
        down
    };
    proof {
        vstd::arithmetic::div_mod::lemma_remainder_lower(max_width as int, cols as int);
        vstd::arithmetic::mul::lemma_mul_inequality(size as int, max_width as int / cols as int, cols as int);
        vstd::arithmetic::mul::lemma_mul_is_commutative(cols as int, size as int);
    }
    let width: u64 = cols * size;
    Some(CollageLayout { cols, rows, size: size as u32, width: width as u32, height: max_height })
}

impl CollageLayout {
    /// Where tile `index` lies, counting the tiles row by row from the upper
    /// left corner.
    pub open spec fn position(self, index: nat) -> (int, int) {
        ((index % self.cols as nat) * self.size, (index / self.cols as nat) * self.size)
    }

    /// Whether tile `index` has a place that can be written down: the grid
    /// has columns, and the place is not beyond what the coordinates hold.
    pub open spec fn places(self, index: nat) -> bool {
        self.cols > 0 && self.position(index).0 <= i64::MAX && self.position(index).1 <= i64::MAX
    }

    /// Where tile `index` lies, if it has a place.
    pub fn tile_position(&self, index: usize) -> (r: Option<(i64, i64)>)
        ensures
            r is Some <==> self.places(index as nat),
            r matches Some(at) ==> (at.0 as int, at.1 as int) == self.position(index as nat),
    {
        if self.cols == 0 {
            return None;
        }
        let column: u64 = index as u64 % self.cols;
        let row: u64 = index as u64 / self.cols;
        assert(column * self.size <= 0xffff_ffff_ffff_ffff * 0xffff_ffff) by (nonlinear_arith)
            requires
                0 <= column <= 0xffff_ffff_ffff_ffff,
                0 <= self.size <= 0xffff_ffff,
        ;
        assert(row * self.size <= 0xffff_ffff_ffff_ffff * 0xffff_ffff) by (nonlinear_arith)
            requires
                0 <= row <= 0xffff_ffff_ffff_ffff,
                0 <= self.size <= 0xffff_ffff,
        ;
        let x: u128 = (column as u128) * (self.size as u128);
        let y: u128 = (row as u128) * (self.size as u128);
        if x > i64::MAX as u128 || y > i64::MAX as u128 {
            None
        } else {
            Some((x as i64, y as i64))
        }
    }
}

/// The brightness of a palette.
pub fn brightness_of(colors: &Vec<(u8, u8, u8)>) -> (sum: u128)
    ensures
        sum == brightness(colors@),
        sum <= 765 * colors@.len(),
{
    let mut sum: u128 = 0;
    let mut k: usize = 0;
    assert(colors@.take(0) =~= Seq::<(u8, u8, u8)>::empty());
    while k < colors.len()
        invariant
            k <= colors.len(),
            sum == brightness(colors@.take(k as int)),
            sum <= 765 * k,
        decreases colors.len() - k,
    {
        assert(colors@.take(k + 1).drop_last() =~= colors@.take(k as int));
        sum = sum + sum_rgb(&colors[k]) as u128;
        k += 1;
    }
    assert(colors@.take(k as int) =~= colors@);
    sum
}

/// Sorts the covers from the darkest palette to the brightest, stably.
pub fn sort_by_brightness(covers: Vec<AlbumCoverData>) -> (out: Vec<AlbumCoverData>)
    ensures
        out@ == by_brightness(covers@),
{
    broadcast use vstd::std_specs::vec::axiom_spec_into_iter;

    let ghost all = covers@;
    let mut keyed: Vec<Keyed<u128, AlbumCoverData>> = Vec::new();
    for cover in it: covers.into_iter()
        invariant
            it.seq() == all,
            keyed.len() == it.index(),
            forall|j: int| 0 <= j < it.index() ==> keyed@[j] == keyed_by_brightness(all)[j],
    {
        let key = brightness_of(&cover.image.dominant_colors);
        keyed.push(Keyed { key, item: cover });
    }
    assert(keyed@ =~= keyed_by_brightness(all));
    sort(&mut keyed);
    strip_keys(keyed)
}

/// What the collage is about.
pub fn generate_collage_name(args: &AccgArgs) -> (out: String)
    ensures
        out@ == collage_subject(*args),
{
    if args.genre.is_some() {
        "genre".to_string()
    } else if args.week {
        "week".to_string()
    } else if args.moods.is_some() {
        "moods".to_string()
    } else if args.artist.is_some() {
        "artist".to_string()
    } else if args.year.is_some() {
        "year".to_string()
    } else if args.month.is_some() {
        "month".to_string()
    } else if args.day.is_some() {
        "day".to_string()
    } else if args.decade.is_some() {
        "decade".to_string()
    } else {
        "all".to_string()
    }
}

/// `text` in lowercase with a dash for each comma and each blank, and the
/// extension of an image file behind it.
pub fn image_name_after(text: &str) -> (out: String)
    ensures
        out@ == lowercase(dashed(text@)) + ".png"@,
{
    let s = chars_of(text);
    let mut with_dashes: Vec<char> = Vec::new();
    let mut k: usize = 0;
    while k < s.len()
        invariant
            k <= s.len(),
            with_dashes.len() == k,
            forall|j: int| 0 <= j < k ==> with_dashes@[j] == dashed(s@)[j],
        decreases s.len() - k,
    {
        let c = s[k];
        with_dashes.push(
            if c == ',' || c == ' ' {
                '-'
            } else {
                c
            },
        );
        k += 1;
    }
    assert(with_dashes@ =~= dashed(text@));
    let low = to_lowercase(string_of(&with_dashes).as_str());
    let mut name = chars_of(low.as_str());
    extend_chars(&mut name, &chars_of(".png"));
    string_of(&name)
}

/// The name of the image file of a collage that is made at the moment
/// `stamp`.
pub fn generate_filename_at(args: &AccgArgs, stamp: &str) -> (out: String)
    ensures
        out@ == collage_filename(*args, stamp@),
{
    match (&args.genre, &args.moods, &args.artist) {
        (Some(genre), _, _) => image_name_after(genre.as_str()),
        (None, Some(moods), _) => image_name_after(moods.as_str()),
        (None, None, Some(artist)) => image_name_after(artist.as_str()),
        (None, None, None) => {
            let mut name = chars_of(stamp);
            extend_chars(&mut name, &chars_of("-"));
            extend_chars(&mut name, &chars_of(generate_collage_name(args).as_str()));
            extend_chars(&mut name, &chars_of(".png"));
            string_of(&name)
        },
    }
}

/// The name of the image file of a collage that is made now. The moment is
/// the clock's; the name is that of `generate_filename_at` for one moment.
pub fn generate_filename(args: &AccgArgs) -> (out: String)
    ensures
        exists|stamp: Seq<char>| out@ == collage_filename(*args, stamp),
{
    let stamp = local_timestamp("%Y%m%d%H%M%S");
    let out = generate_filename_at(args, stamp.as_str());
    assert(out@ == collage_filename(*args, stamp@));
    out
}

/// Whether `plan` is the collage of `covers` under `args`, with `week` as the
/// current week: the accepted covers from the darkest palette to the
/// brightest, on the grid for their number.
pub open spec fn is_collage(plan: CollagePlan, args: AccgArgs, covers: Seq<AlbumCoverData>, week: Option<WeekWindow>) -> bool {
    &&& plan.covers@ == by_brightness(collage_filter(args).accepted(covers, week))
    &&& is_layout(plan.layout, plan.covers@.len(), MAX_WIDTH, MAX_HEIGHT)
    &&& match args.name {
        Some(name) => plan.filename@ == name@,
        None => exists|stamp: Seq<char>| plan.filename@ == collage_dir() + collage_filename(args, stamp),
    }
}

/// Why there is no collage of `covers` under `args` with `week` as the
/// current week, if there is none: the name that was given is not the name of
/// an image file, or no cover is accepted.
pub open spec fn collage_failure(args: AccgArgs, covers: Seq<AlbumCoverData>, week: Option<WeekWindow>) -> Option<
    ErrorKind,
> {
    if args.name is Some && !is_regex(image_name_pattern()) {
        Some(ErrorKind::BadPattern)
    } else if args.name is Some && !regex_found(image_name_pattern(), args.name->0@) {
        Some(ErrorKind::InvalidFileName)
    } else if collage_filter(args).accepted(covers, week).len() == 0 {
        Some(ErrorKind::NoCovers)
    } else {
        None
    }
}

/// A collage as it is drawn: its grid and the pixels of its canvas, three
/// bytes each, row by row.
pub struct Collage {
    pub layout: CollageLayout,
    pub pixels: Vec<u8>,
}

/// A canvas of `width` pixels to the row after an image of `tile_width` by
/// `tile_height` has been laid onto it with its upper left corner at
/// `(x, y)`. Both are given by their pixels, three bytes each, row by row.
/// Where the image lies on the canvas the pixels are the image's; all others
/// are as they were.
pub open spec fn overlaid(
    canvas: Seq<u8>,
    width: u32,
    tile: Seq<u8>,
    tile_width: u32,
    tile_height: u32,
    x: i64,
    y: i64,
) -> Seq<u8> {
    Seq::new(
        canvas.len(),
        |k: int|
            {
                let column = (k / 3) % (width as int);
                let row = (k / 3) / (width as int);
                if x <= column < x + tile_width && y <= row < y + tile_height {
                    tile[3 * ((row - y) * tile_width + (column - x)) + k % 3]
                } else {
                    canvas[k]
                }
            },
    )
}

/// `image::imageops::overlay(bottom, top, x, y)`, with the canvas as the
/// bottom image, made by `image::RgbImage::from_raw` of its bytes and handed
/// back by `into_raw`, and the tile as the top image, made by
/// `image::ImageBuffer::from_raw` of its bytes. It cuts the top image down to
/// what lies on the bottom image and blends each pixel of that part into the
/// pixel below it; for pixels of three bytes to blend is to replace. The
/// canvas keeps its buffer and so its length.
#[verifier::external_body]
fn overlay_bytes(
    canvas: &mut Vec<u8>,
    width: u32,
    height: u32,
    tile: &Vec<u8>,
    tile_width: u32,
    tile_height: u32,
    x: i64,
    y: i64,
)
    requires
        old(canvas)@.len() == 3 * width * height,
        tile@.len() == 3 * tile_width * tile_height,
    ensures
        final(canvas)@ == overlaid(old(canvas)@, width, tile@, tile_width, tile_height, x, y),
{
    let top = image::ImageBuffer::<image::Rgb<u8>, &[u8]>::from_raw(tile_width, tile_height, tile.as_slice());
    let bottom = image::RgbImage::from_raw(width, height, std::mem::take(canvas));
    if let (Some(mut bottom), Some(top)) = (bottom, top) {
        image::imageops::overlay(&mut bottom, &top, x, y);
        *canvas = bottom.into_raw();
    }
}

/// The grid of a collage of `count` covers: the one grid that `is_layout`
/// admits for that number on the largest canvas.
pub open spec fn grid(count: nat) -> CollageLayout {
    choose|layout: CollageLayout| is_layout(layout, count, MAX_WIDTH, MAX_HEIGHT)
}

/// The tile of a cover: the square of the cover's width that its pixels
/// make, brought to the size of a tile with the triangle filter.
pub open spec fn tile_of(cover: AlbumCoverData, size: u32) -> Seq<u8> {
    resized(Filter::Triangle, cover.image.width, cover.image.width, cover.image.pixels@, size, size)
}

/// What keeps a cover from becoming a tile, if anything does.
pub open spec fn cover_fault(cover: AlbumCoverData, size: u32) -> Option<ErrorKind> {
    resize_fault(cover.image.width, cover.image.width, cover.image.pixels@, size, size)
}

/// The fault of the first cover from `from` on that has one.
pub open spec fn first_fault(covers: Seq<AlbumCoverData>, size: u32, from: int) -> Option<ErrorKind>
    decreases covers.len() - from,
{
    if from < 0 || from >= covers.len() {
        None
    } else if cover_fault(covers[from], size) is Some {
        cover_fault(covers[from], size)
    } else {
        first_fault(covers, size, from + 1)
    }
}

/// What keeps a collage of `covers` from being drawn, if anything does:
/// there is no cover, or a cover has a fault.
pub open spec fn collage_fault(covers: Seq<AlbumCoverData>) -> Option<ErrorKind> {
    if covers.len() == 0 {
        Some(ErrorKind::NoCovers)
    } else {
        first_fault(covers, grid(covers.len()).size, 0)
    }
}

/// The canvas after the first `n` covers have been drawn: black, and on it
/// the tile of each of these covers, in their order, laid at the place of its
/// tile on the grid.
pub open spec fn drawn(covers: Seq<AlbumCoverData>, layout: CollageLayout, n: nat) -> Seq<u8>
    decreases n,
{
    if n == 0 {
        Seq::new((3 * layout.width * layout.height) as nat, |k: int| 0u8)
    } else {
        overlaid(
            drawn(covers, layout, (n - 1) as nat),
            layout.width,
            tile_of(covers[n - 1], layout.size),
            layout.size,
            layout.size,
            layout.position((n - 1) as nat).0 as i64,
            layout.position((n - 1) as nat).1 as i64,
        )
    }
}

/// The square root, rounded up, is one number.
pub proof fn lemma_ceil_sqrt_unique(n: nat, a: nat, b: nat)
    requires
        is_ceil_sqrt(n, a),
        is_ceil_sqrt(n, b),
    ensures
        a == b,
{
    if a < b {
        assert(a * a <= (b - 1) * (b - 1)) by (nonlinear_arith)
            requires
                0 <= a <= b - 1,
        ;
    }
    if b < a {
        assert(b * b <= (a - 1) * (a - 1)) by (nonlinear_arith)
            requires
                0 <= b <= a - 1,
        ;
    }
}

/// There is one grid for a number of tiles and a canvas: a grid that
/// `is_layout` admits on the largest canvas is `grid`.
pub proof fn lemma_layout_is_grid(layout: CollageLayout, count: nat)
    requires
        is_layout(layout, count, MAX_WIDTH, MAX_HEIGHT),
    ensures
        layout == grid(count),
{
    let other = grid(count);
    assert(is_layout(other, count, MAX_WIDTH, MAX_HEIGHT));
    lemma_ceil_sqrt_unique(count, layout.cols as nat, other.cols as nat);
}

/// On a grid every tile lies on the canvas. The grid has a column and a row,
/// its columns fill the width of the canvas, its rows fit into the height,
/// and it has a cell for each of the `count` tiles; the tile of each lies
/// within the columns and the rows.
pub proof fn lemma_tile_on_canvas(layout: CollageLayout, count: nat, max_width: u32, max_height: u32, i: nat)
    requires
        is_layout(layout, count, max_width, max_height),
        i < count,
    ensures
        layout.cols > 0 && layout.rows > 0,
        layout.width == layout.cols * layout.size <= max_width,
        layout.rows * layout.size <= max_height,
        0 <= layout.position(i).0 && layout.position(i).0 + layout.size <= layout.width,
        0 <= layout.position(i).1 && layout.position(i).1 + layout.size <= layout.rows * layout.size,
{
    let cols = layout.cols as int;
    let rows = layout.rows as int;
    let size = layout.size as int;
    let n = count as int;
    assert(cols > 0) by (nonlinear_arith)
        requires
            cols * cols >= n,
            n > 0,
            cols >= 0,
    ;
    vstd::arithmetic::div_mod::lemma_div_non_zero(n + cols - 1, cols);
    vstd::arithmetic::div_mod::lemma_fundamental_div_mod(n + cols - 1, cols);
    vstd::arithmetic::div_mod::lemma_mod_pos_bound(n + cols - 1, cols);
    assert(n <= cols * rows);
    vstd::arithmetic::div_mod::lemma_remainder_lower(max_width as int, cols);
    vstd::arithmetic::mul::lemma_mul_inequality(size, max_width as int / cols, cols);
    vstd::arithmetic::mul::lemma_mul_is_commutative(cols, size);
    vstd::arithmetic::div_mod::lemma_remainder_lower(max_height as int, rows);
    vstd::arithmetic::mul::lemma_mul_inequality(size, max_height as int / rows, rows);
    vstd::arithmetic::mul::lemma_mul_is_commutative(rows, size);
    let column = i as int % cols;
    let row = i as int / cols;
    vstd::arithmetic::div_mod::lemma_mod_pos_bound(i as int, cols);
    vstd::arithmetic::div_mod::lemma_div_pos_is_pos(i as int, cols);
    vstd::arithmetic::div_mod::lemma_multiply_divide_lt(i as int, cols, rows);
    assert(0 <= column * size && column * size + size <= cols * size) by (nonlinear_arith)
        requires
            0 <= column <= cols - 1,
            size >= 0,
    ;
    assert(0 <= row * size && row * size + size <= rows * size) by (nonlinear_arith)
        requires
            0 <= row <= rows - 1,
            size >= 0,
    ;
}

/// The cell of a grid, counted row by row, that the pixel in `column` and
/// `row` lies in.
pub open spec fn cell_of(layout: CollageLayout, column: int, row: int) -> int {
    (row / layout.size as int) * layout.cols + column / layout.size as int
}

/// Byte `k` of the collage of the first `n` covers, said pixel by pixel: the
/// byte of a pixel in the cell of one of these covers is the byte of the
/// cover's tile at the same place within the cell, and every other byte is
/// black.
pub open spec fn collage_byte(covers: Seq<AlbumCoverData>, layout: CollageLayout, n: nat, k: int) -> u8 {
    let column = (k / 3) % (layout.width as int);
    let row = (k / 3) / (layout.width as int);
    let cell = cell_of(layout, column, row);
    let size = layout.size as int;
    if cell < n {
        tile_of(covers[cell], layout.size)[3 * ((row % size) * size + column % size) + k % 3]
    } else {
        0u8
    }
}

/// A number lies in stretch `a` of the stretches of length `size` exactly if
/// dividing it by `size` gives `a`; its remainder is then its place in the
/// stretch.
proof fn lemma_stretch(c: int, a: int, size: int)
    requires
        size > 0,
        c >= 0,
    ensures
        (a * size <= c < a * size + size) <==> c / size == a,
        c / size == a ==> c - a * size == c % size,
{
    vstd::arithmetic::div_mod::lemma_fundamental_div_mod(c, size);
    vstd::arithmetic::div_mod::lemma_mod_pos_bound(c, size);
    vstd::arithmetic::mul::lemma_mul_is_commutative(size, c / size);
    if a * size <= c < a * size + size {
        vstd::arithmetic::div_mod::lemma_fundamental_div_mod_converse(c, size, a, c - a * size);
    }
}

/// The tiles of a grid do not overlap, so a collage can be said pixel by
/// pixel: after the first `n` covers have been drawn the canvas has its full
/// length, each byte in the cell of one of these covers is the byte of that
/// cover's tile, and the rest of the canvas, the cells without a cover among
/// them, is black.
pub proof fn lemma_drawn_pixel_by_pixel(
    covers: Seq<AlbumCoverData>,
    layout: CollageLayout,
    max_width: u32,
    max_height: u32,
    n: nat,
    k: int,
)
    requires
        is_layout(layout, covers.len(), max_width, max_height),
        layout.size > 0,
        n <= covers.len(),
        0 <= k < 3 * layout.width * layout.height,
    ensures
        drawn(covers, layout, n).len() == 3 * layout.width * layout.height,
        drawn(covers, layout, n)[k] == collage_byte(covers, layout, n, k),
    decreases n,
{
    let size = layout.size as int;
    let cols = layout.cols as int;
    let width = layout.width as int;
    let column = (k / 3) % width;
    let row = (k / 3) / width;
    lemma_tile_on_canvas(layout, covers.len(), max_width, max_height, 0);
    assert(width > 0) by (nonlinear_arith)
        requires
            width == cols * size,
            cols > 0,
            size > 0,
    ;
    vstd::arithmetic::div_mod::lemma_mod_pos_bound(k / 3, width);
    vstd::arithmetic::div_mod::lemma_div_pos_is_pos(k / 3, width);
    vstd::arithmetic::div_mod::lemma_div_pos_is_pos(column, size);
    vstd::arithmetic::div_mod::lemma_div_pos_is_pos(row, size);
    let across = column / size;
    let down = row / size;
    lemma_stretch(column, across, size);
    assert(across < cols) by (nonlinear_arith)
        requires
            across * size <= column < cols * size,
            size > 0,
    ;
    assert(down * cols >= 0) by (nonlinear_arith)
        requires
            down >= 0,
            cols > 0,
    ;
    if n > 0 {
        let i = (n - 1) as nat;
        lemma_drawn_pixel_by_pixel(covers, layout, max_width, max_height, i, k);
        lemma_tile_on_canvas(layout, covers.len(), max_width, max_height, i);
        let before = drawn(covers, layout, i);
        let x = layout.position(i).0;
        let y = layout.position(i).1;
        lemma_stretch(column, i as int % cols, size);
        lemma_stretch(row, i as int / cols, size);
        vstd::arithmetic::div_mod::lemma_fundamental_div_mod(i as int, cols);
        vstd::arithmetic::mul::lemma_mul_is_commutative(cols, i as int / cols);
        vstd::arithmetic::div_mod::lemma_fundamental_div_mod_converse(cell_of(layout, column, row), cols, down, across);
        let inside = x <= column < x + size && y <= row < y + size;
        assert(inside <==> cell_of(layout, column, row) == i);
        assert(drawn(covers, layout, n) == overlaid(
            before,
            layout.width,
            tile_of(covers[i as int], layout.size),
            layout.size,
            layout.size,
            x as i64,
            y as i64,
        ));
        if inside {
            assert(row - y == row % size);
            assert(column - x == column % size);
        }
    }
}

/// A black canvas of `len` bytes.
pub fn black(len: usize) -> (out: Vec<u8>)
    ensures
        out@ == Seq::new(len as nat, |k: int| 0u8),
{
    let mut out: Vec<u8> = Vec::new();
    let mut k: usize = 0;
    while k < len
        invariant
            k <= len,
            out@.len() == k,
            forall|j: int| 0 <= j < k ==> out@[j] == 0u8,
        decreases len - k,
    {
        out.push(0u8);
        k += 1;
    }
    assert(out@ =~= Seq::new(len as nat, |k: int| 0u8));
    out
}

/// Draws the collage of `covers`: on a black canvas of the size of their
/// grid every cover, brought to the size of a tile, at the place of its tile,
/// in their order. No cover, or a cover with a fault, and nothing is drawn.
pub fn create_collage(covers: &Vec<AlbumCoverData>) -> (r: Result<Collage, ErrorKind>)
    ensures
        match collage_fault(covers@) {
            Some(e) => r == Err::<Collage, ErrorKind>(e),
            None => r matches Ok(collage) && {
                &&& collage.layout == grid(covers@.len())
                &&& is_layout(collage.layout, covers@.len(), MAX_WIDTH, MAX_HEIGHT)
                &&& collage.pixels@.len() == 3 * collage.layout.width * collage.layout.height
                &&& collage.pixels@ == drawn(covers@, collage.layout, covers@.len())
                &&& forall|k: int|
                    0 <= k < collage.pixels@.len() ==> #[trigger] collage.pixels@[k] == collage_byte(
                        covers@,
                        collage.layout,
                        covers@.len(),
                        k,
                    )
            },
        },
{
    let layout = match collage_layout(covers.len(), MAX_WIDTH, MAX_HEIGHT) {
        Some(layout) => layout,
        None => {
            return Err(ErrorKind::NoCovers);
        },
    };
    proof {
        lemma_layout_is_grid(layout, covers@.len());
        lemma_tile_on_canvas(layout, covers@.len(), MAX_WIDTH, MAX_HEIGHT, 0);
        assert(layout.width * layout.height <= 3840 * 2160) by (nonlinear_arith)
            requires
                0 <= layout.width <= 3840,
                layout.height == 2160,
        ;
    }
    let len: usize = 3 * (layout.width as usize) * (layout.height as usize);
    let mut pixels = black(len);
    let mut i: usize = 0;
    while i < covers.len()
        invariant
            i <= covers@.len(),
            is_layout(layout, covers@.len(), MAX_WIDTH, MAX_HEIGHT),
            layout == grid(covers@.len()),
            pixels@.len() == 3 * layout.width * layout.height,
            pixels@ == drawn(covers@, layout, i as nat),
            first_fault(covers@, layout.size, 0) == first_fault(covers@, layout.size, i as int),
        decreases covers@.len() - i,
    {
        let cover = &covers[i];
        let tile = match resize_rgb(cover.image.width, cover.image.width, &cover.image.pixels, layout.size, layout.size) {
            Ok(tile) => tile,
            Err(e) => {
                return Err(e);
            },
        };
        proof {
            lemma_tile_on_canvas(layout, covers@.len(), MAX_WIDTH, MAX_HEIGHT, i as nat);
        }
        match layout.tile_position(i) {
            Some((x, y)) => {
                overlay_bytes(&mut pixels, layout.width, layout.height, &tile, layout.size, layout.size, x, y);
            },
            None => {
                assert(false);
            },
        }
        i += 1;
    }
    proof {
        assert(cover_fault(covers@[0], layout.size) is None);
        assert forall|k: int| 0 <= k < pixels@.len() implies #[trigger] pixels@[k] == collage_byte(
            covers@,
            layout,
            covers@.len(),
            k,
        ) by {
            lemma_drawn_pixel_by_pixel(covers@, layout, MAX_WIDTH, MAX_HEIGHT, covers@.len(), k);
        }
    }
    Ok(Collage { layout, pixels })
}

/// Whether `r` is what planning the collage of `covers` under `args` comes
/// to, with `week` as the current week: the failure, if there is one, and the
/// collage otherwise.
pub open spec fn collage_outcome(
    r: Result<CollagePlan, ErrorKind>,
    args: AccgArgs,
    covers: Seq<AlbumCoverData>,
    week: Option<WeekWindow>,
) -> bool {
    match collage_failure(args, covers, week) {
        Some(e) => r == Err::<CollagePlan, ErrorKind>(e),
        None => r matches Ok(plan) && is_collage(plan, args, covers, week),
    }
}

/// Plans the collage of `covers` under `args`, with the week flag going by
/// `week`.
pub fn accg_in_week(args: AccgArgs, covers: Vec<AlbumCoverData>, week: &Option<WeekWindow>) -> (r: Result<
    CollagePlan,
    ErrorKind,
>)
    ensures
        collage_outcome(r, args, covers@, *week),
{
    let filename = match &args.name {
        Some(name) => {
            match validate_img_filename(name.as_str()) {
                Ok(true) => name.clone(),
                Ok(false) => {
                    return Err(ErrorKind::InvalidFileName);
                },
                Err(e) => {
                    return Err(e);
                },
            }
        },
        None => {
            let mut path = chars_of("/home/andrew/picx/accg/");
            let name = generate_filename(&args);
            extend_chars(&mut path, &chars_of(name.as_str()));
            string_of(&path)
        },
    };
    let filter = AlbumCoverDataFilter {
        day: None,
        month: args.month,
        year: args.year,
        artist: args.artist,
        album: None,
        genre: args.genre,
        moods: args.moods,
        words: None,
        decade: args.decade,
        track: None,
        week: args.week,
        instrumental: false,
    };
    let found = filter.filter_in_week(covers, week);
    let ghost accepted = found@;
    let sorted = sort_by_brightness(found);
    proof {
        crate::sort::lemma_sorted_seq_permutes(keyed_by_brightness(accepted));
    }
    match collage_layout(sorted.len(), MAX_WIDTH, MAX_HEIGHT) {
        Some(layout) => Ok(CollagePlan { filename, covers: sorted, layout }),
        None => Err(ErrorKind::NoCovers),
    }
}

/// Plans the collage of `covers` under `args`. With the week flag set the
/// current week is asked of the clock.
pub fn accg(args: AccgArgs, covers: Vec<AlbumCoverData>) -> (r: Result<CollagePlan, ErrorKind>)
    ensures
        !args.week ==> collage_outcome(r, args, covers@, None),
        exists|day: Date| day.in_calendar() && collage_outcome(r, args, covers@, window_of(week_around(day))),
{
    if args.week {
        let week = current_week();
        accg_in_week(args, covers, &week)
    } else {
        let ghost all = covers@;
        let r = accg_in_week(args, covers, &None);
        proof {
            let day = Date { year: 0, month: 1, day: 1 };
            assert(day.in_calendar());
            collage_filter(args).lemma_week_unused(all, None, window_of(week_around(day)));
        }
        r
    }
}

} // verus!
