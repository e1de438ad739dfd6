//! Album covers: the cached thumbnail with its palette, and the filter over
//! covers.

use vstd::prelude::*;
use crate::data::{pixel_point, points_of};
use crate::date::{current_week, week_around, window_of, Date, WeekWindow};
use crate::error::ErrorKind;
use crate::kmeans::{clusters_after, k_means, lemma_run_keeps_colors, run, Cluster, Point};
use crate::songs::{criteria_accept, SongData, SongDataFilter};
use crate::text::{chars_of, contains_text, has_text, string_of};

verus! {

/// The number of colours in a palette.
pub const PALETTE_SIZE: usize = 5;

/// The number of rounds that the clustering runs.
pub const PALETTE_ROUNDS: usize = 10;

/// The width and the height of a cached thumbnail.
pub const THUMBNAIL_SIZE: u32 = 480;

/// The longest side of an image that is resized. The resampling reckons the
/// places of its samples in floating-point numbers of 24 binary digits, which
/// tell the pixels of a side of this length apart with room to spare.
pub const MAX_SIDE: u32 = 65_535;

/// The thumbnail of a cover: its size, its pixels as three bytes each, red,
/// green and blue, and its palette.
#[derive(Debug, Clone)]
pub struct ImageCache {
    pub width: u32,
    pub height: u32,
    pub pixels: Vec<u8>,
    pub dominant_colors: Vec<(u8, u8, u8)>,
}

/// A cover with the record of its album.
#[derive(Debug, Clone)]
pub struct AlbumCoverData {
    pub image: ImageCache,
    pub album_data: SongData,
    pub cover_name: String,
}

/// The criteria of a query over covers; they are asked of the album's record.
pub struct AlbumCoverDataFilter {
    pub day: Option<u32>,
    pub month: Option<u32>,
    pub year: Option<i32>,
    pub artist: Option<String>,
    pub album: Option<String>,
    pub genre: Option<String>,
    pub moods: Option<String>,
    pub words: Option<String>,
    pub decade: Option<u16>,
    pub track: Option<String>,
    pub week: bool,
    pub instrumental: bool,
}

/// The ways of resampling that the image crate offers for resizing.
#[derive(Debug, Clone, Copy, PartialEq, Eq, Structural)]
pub enum Filter {
    Nearest,
    Triangle,
    CatmullRom,
    Gaussian,
    Lanczos3,
}

/// The pixels that `image::imageops::resize` makes of the image of `width` by
/// `height` whose pixels are `pixels`, three bytes each, when it brings the
/// image to `to_width` by `to_height` with the filter `filter`.
pub uninterp spec fn resized(
    filter: Filter,
    width: u32,
    height: u32,
    pixels: Seq<u8>,
    to_width: u32,
    to_height: u32,
) -> Seq<u8>;

/// `image::RgbImage::from_vec(width, height, pixels)`, which is there exactly
/// if the pixels are enough for that size, and of that image
/// `image::imageops::resize(_, to_width, to_height, filter)`, handed back as
/// bytes by `into_raw`: an image of the size asked for, three bytes to the
/// pixel. Which bytes they are goes by the name `resized`. The sizes in
/// `requires` are those for which the resampling finds a source pixel with
/// weight for every pixel that it makes, and which its buffers can have; the
/// contract is kept to the triangle filter.
#[verifier::external_body]
fn resized_bytes(filter: Filter, width: u32, height: u32, pixels: &Vec<u8>, to_width: u32, to_height: u32) -> (r:
    Option<Vec<u8>>)
    requires
        filter == Filter::Triangle,
        width > 0 && height > 0 && to_width > 0 && to_height > 0,
        width <= MAX_SIDE && height <= MAX_SIDE && to_width <= MAX_SIDE && to_height <= MAX_SIDE,
        32 * width * to_height <= usize::MAX,
        32 * to_width * to_height <= usize::MAX,
    ensures
        r is Some <==> 3 * width * height <= pixels@.len(),
        r matches Some(out) ==> out@ == resized(filter, width, height, pixels@, to_width, to_height) && out@.len()
            == 3 * to_width * to_height,
{
    let source = image::RgbImage::from_vec(width, height, pixels.clone())?;
    let kind = match filter {
        Filter::Nearest => image::imageops::FilterType::Nearest,
        Filter::Triangle => image::imageops::FilterType::Triangle,
        Filter::CatmullRom => image::imageops::FilterType::CatmullRom,
        Filter::Gaussian => image::imageops::FilterType::Gaussian,
        Filter::Lanczos3 => image::imageops::FilterType::Lanczos3,
    };
    Some(image::imageops::resize(&source, to_width, to_height, kind).into_raw())
}

/// Whether an image of `width` by `height` can be brought to `to_width` by
/// `to_height`: no side, before or after, is longer than `MAX_SIDE`, and the
/// buffers of the resizing fit into memory.
pub open spec fn resizable(width: u32, height: u32, to_width: u32, to_height: u32) -> bool {
    &&& width <= MAX_SIDE && height <= MAX_SIDE && to_width <= MAX_SIDE && to_height <= MAX_SIDE
    &&& 32 * width * to_height <= usize::MAX
    &&& 32 * to_width * to_height <= usize::MAX
}

/// Decides `resizable`.
pub fn can_resize(width: u32, height: u32, to_width: u32, to_height: u32) -> (r: bool)
    ensures
        r == resizable(width, height, to_width, to_height),
{
    let limit: u128 = usize::MAX as u128;
    let wide: u128 = width as u128;
    let across: u128 = to_width as u128;
    let down: u128 = to_height as u128;
    assert(wide * down <= 0xffff_ffff * 0xffff_ffff && across * down <= 0xffff_ffff * 0xffff_ffff) by (nonlinear_arith)
        requires
            0 <= wide <= 0xffff_ffff,
            0 <= across <= 0xffff_ffff,
            0 <= down <= 0xffff_ffff,
    ;
    assert(32 * width * to_height == 32 * (wide * down)) by (nonlinear_arith)
        requires
            wide == width,
            down == to_height,
    ;
    assert(32 * to_width * to_height == 32 * (across * down)) by (nonlinear_arith)
        requires
            across == to_width,
            down == to_height,
    ;
    width <= MAX_SIDE && height <= MAX_SIDE && to_width <= MAX_SIDE && to_height <= MAX_SIDE && 32 * (wide * down)
        <= limit && 32 * (across * down) <= limit
}

/// What keeps an image from being resized, if anything does: it has no
/// pixels, it is too large, or it has fewer bytes than its size asks for.
pub open spec fn resize_fault(width: u32, height: u32, pixels: Seq<u8>, to_width: u32, to_height: u32) -> Option<
    ErrorKind,
> {
    if width == 0 || height == 0 || to_width == 0 || to_height == 0 {
        Some(ErrorKind::EmptyImage)
    } else if !resizable(width, height, to_width, to_height) {
        Some(ErrorKind::OversizedCanvas)
    } else if pixels.len() < 3 * width * height {
        Some(ErrorKind::BrokenCover)
    } else {
        None
    }
}

/// Brings the image of `width` by `height` with the pixels `pixels`, three
/// bytes each, to `to_width` by `to_height`, resampling with the triangle
/// filter.
pub fn resize_rgb(width: u32, height: u32, pixels: &Vec<u8>, to_width: u32, to_height: u32) -> (r: Result<
    Vec<u8>,
    ErrorKind,
>)
    ensures
        match resize_fault(width, height, pixels@, to_width, to_height) {
            Some(e) => r == Err::<Vec<u8>, ErrorKind>(e),
            None => r matches Ok(out) && out@ == resized(
                Filter::Triangle,
                width,
                height,
                pixels@,
                to_width,
                to_height,
            ) && out@.len() == 3 * to_width * to_height,
        },
{
    if width == 0 || height == 0 || to_width == 0 || to_height == 0 {
        return Err(ErrorKind::EmptyImage);
    }
    if !can_resize(width, height, to_width, to_height) {
        return Err(ErrorKind::OversizedCanvas);
    }
    match resized_bytes(Filter::Triangle, width, height, pixels, to_width, to_height) {
        Some(out) => Ok(out),
        None => Err(ErrorKind::BrokenCover),
    }
}

/// Every colour of `colors` is the colour of a pixel of the image.
pub open spec fn colors_of_pixels(colors: Seq<(u8, u8, u8)>, pixels: Seq<u8>, width: int) -> bool {
    forall|c: int| 0 <= c < colors.len() ==> is_pixel_color(#[trigger] colors[c], pixels, width)
}

/// `color` is the colour of a pixel of the image.
pub open spec fn is_pixel_color(color: (u8, u8, u8), pixels: Seq<u8>, width: int) -> bool {
    exists|i: int| 0 <= i < pixels.len() / 3 && (#[trigger] pixel_point(pixels, width, i)).color == color
}

/// The position of the last `/` in `name`, or `-1`.
pub open spec fn last_slash(name: Seq<char>) -> int
    decreases name.len(),
{
    if name.len() == 0 {
        -1
    } else if name.last() == '/' {
        name.len() - 1
    } else {
        last_slash(name.drop_last())
    }
}

/// The directory of a file: its path up to the last `/`, empty if it has
/// none.
pub open spec fn dir_of(name: Seq<char>) -> Seq<char> {
    if last_slash(name) < 0 {
        Seq::empty()
    } else {
        name.take(last_slash(name))
    }
}

/// The first of `songs` whose file name holds `dir`, or `-1`.
pub open spec fn first_in_dir(songs: Seq<SongData>, dir: Seq<char>) -> int
    decreases songs.len(),
{
    if songs.len() == 0 {
        -1
    } else {
        let front = first_in_dir(songs.drop_last(), dir);
        if front >= 0 {
            front
        } else if contains_text(songs.last().filename@, dir) {
            songs.len() - 1
        } else {
            -1
        }
    }
}

/// The colours of the centroids of `clusters`.
pub fn centroid_colors(clusters: &Vec<Cluster>) -> (out: Vec<(u8, u8, u8)>)
    ensures
        out@.len() == clusters@.len(),
        forall|c: int| 0 <= c < out@.len() ==> #[trigger] out@[c] == clusters@[c].centroid.color,
{
    let mut out: Vec<(u8, u8, u8)> = Vec::new();
    let mut c: usize = 0;
    while c < clusters.len()
        invariant
            c <= clusters.len(),
            out.len() == c,
            forall|d: int| 0 <= d < c ==> #[trigger] out@[d] == clusters@[d].centroid.color,
        decreases clusters.len() - c,
    {
        out.push(clusters[c].centroid.color);
        c += 1;
    }
    out
}

/// The palette of an image: the colours of the centroids that the clustering
/// of its pixels ends with. Each is the colour of one of the pixels; which
/// ones they are is drawn at random. An image without a pixel has no palette.
pub fn palette_of(pixels: &Vec<u8>, width: u32) -> (r: Result<Vec<(u8, u8, u8)>, ErrorKind>)
    ensures
        r is Err <==> width == 0 || pixels@.len() < 3,
        r matches Err(e) ==> e == ErrorKind::EmptyImage,
        r matches Ok(colors) ==> colors@.len() == PALETTE_SIZE && colors_of_pixels(
            colors@,
            pixels@,
            width as int,
        ),
{
    if width == 0 {
        return Err(ErrorKind::EmptyImage);
    }
    let points = points_of(pixels, width);
    let ghost all = points@;
    match k_means(points, PALETTE_SIZE, PALETTE_ROUNDS) {
        Ok(clusters) => {
            let colors = centroid_colors(&clusters);
            proof {
                let start = choose|start: Seq<Point>|
                    {
                        &&& start.len() == PALETTE_SIZE
                        &&& forall|i: int| 0 <= i < PALETTE_SIZE ==> all.contains(#[trigger] start[i])
                        &&& clusters_after(clusters@, all, start, PALETTE_ROUNDS as nat)
                    };
                lemma_run_keeps_colors(all, start, PALETTE_ROUNDS as nat);
                assert forall|c: int| 0 <= c < colors@.len() implies is_pixel_color(
                    #[trigger] colors@[c],
                    pixels@,
                    width as int,
                ) by {
                    assert(crate::kmeans::centroids(clusters@)[c] == clusters@[c].centroid);
                    assert(run(all, start, PALETTE_ROUNDS as nat)[c].color == start[c].color);
                    assert(all.contains(start[c]));
                    let i = choose|i: int| 0 <= i < all.len() && all[i] == start[c];
                    assert(all[i] == pixel_point(pixels@, width as int, i));
                }
            }
            Ok(colors)
        },
        Err(e) => Err(e),
    }
}

impl ImageCache {
    /// The cache entry of an image that is given by its pixels, three bytes
    /// each, and its size. The pixels are kept as they are.
    pub fn from_pixels(width: u32, height: u32, pixels: Vec<u8>) -> (r: Result<ImageCache, ErrorKind>)
        ensures
            r is Err <==> width == 0 || pixels@.len() < 3,
            r matches Err(e) ==> e == ErrorKind::EmptyImage,
            r matches Ok(cache) ==> {
                &&& cache.width == width
                &&& cache.height == height
                &&& cache.pixels@ == pixels@
                &&& cache.dominant_colors@.len() == PALETTE_SIZE
                &&& colors_of_pixels(cache.dominant_colors@, pixels@, width as int)
            },
    {
        match palette_of(&pixels, width) {
            Ok(dominant_colors) => Ok(ImageCache { width, height, pixels, dominant_colors }),
            Err(e) => Err(e),
        }
    }

    /// The cache entry of a decoded image, given by its size and its pixels,
    /// three bytes each: the image brought to the size of a thumbnail with
    /// the triangle filter, and the palette of the thumbnail. An image that
    /// cannot be resized has no entry.
    pub fn from(width: u32, height: u32, pixels: Vec<u8>) -> (r: Result<ImageCache, ErrorKind>)
        ensures
            match resize_fault(width, height, pixels@, THUMBNAIL_SIZE, THUMBNAIL_SIZE) {
                Some(e) => r == Err::<ImageCache, ErrorKind>(e),
                None => r matches Ok(cache) && {
                    &&& cache.width == THUMBNAIL_SIZE
                    &&& cache.height == THUMBNAIL_SIZE
                    &&& cache.pixels@ == resized(
                        Filter::Triangle,
                        width,
                        height,
                        pixels@,
                        THUMBNAIL_SIZE,
                        THUMBNAIL_SIZE,
                    )
                    &&& cache.pixels@.len() == 3 * THUMBNAIL_SIZE * THUMBNAIL_SIZE
                    &&& cache.dominant_colors@.len() == PALETTE_SIZE
                    &&& colors_of_pixels(cache.dominant_colors@, cache.pixels@, THUMBNAIL_SIZE as int)
                },
            },
    {
        match resize_rgb(width, height, &pixels, THUMBNAIL_SIZE, THUMBNAIL_SIZE) {
            Ok(small) => {
                match ImageCache::from_pixels(THUMBNAIL_SIZE, THUMBNAIL_SIZE, small) {
                    Ok(cache) => Ok(cache),
                    Err(_) => vstd::pervasive::unreached(),
                }
            },
            Err(e) => Err(e),
        }
    }
}

impl AlbumCoverDataFilter {
    /// The same criteria as a filter over records.
    pub open spec fn criteria(&self) -> SongDataFilter {
        SongDataFilter {
            day: self.day,
            month: self.month,
            year: self.year,
            artist: self.artist,
            album: self.album,
            genre: self.genre,
            moods: self.moods,
            words: self.words,
            decade: self.decade,
            track: self.track,
            week: self.week,
            instrumental: self.instrumental,
        }
    }

    /// Whether the filter accepts `cover`: whether its criteria accept the
    /// record of the cover's album.
    pub open spec fn accepts(&self, cover: &AlbumCoverData, week: Option<WeekWindow>) -> bool {
        self.criteria().accepts(&cover.album_data, week)
    }

    /// The covers of `covers` that the filter accepts, in their order.
    pub open spec fn accepted(&self, covers: Seq<AlbumCoverData>, week: Option<WeekWindow>) -> Seq<
        AlbumCoverData,
    > {
        covers.filter(|c: AlbumCoverData| self.accepts(&c, week))
    }

    /// Whether the filter accepts `cover`, with the week flag going by `week`.
    pub fn matches_in_week(&self, cover: &AlbumCoverData, week: &Option<WeekWindow>) -> (r: bool)
        ensures
            r == self.accepts(cover, *week),
    {
        criteria_accept(
            &self.day,
            &self.month,
            &self.year,
            &self.artist,
            &self.album,
            &self.genre,
            &self.moods,
            &self.words,
            &self.decade,
            &self.track,
            self.week,
            self.instrumental,
            &cover.album_data,
            week,
        )
    }

    /// Whether the filter accepts `cover`. With the week flag set the current
    /// week is asked of the clock.
    pub fn matches(&self, cover: &AlbumCoverData) -> (r: bool)
        ensures
            !self.week ==> r == self.accepts(cover, None),
            exists|day: Date| day.in_calendar() && r == self.accepts(cover, window_of(week_around(day))),
    {
        if self.week {
            let week = current_week();
            self.matches_in_week(cover, &week)
        } else {
            let r = self.matches_in_week(cover, &None);
            proof {
                let day = Date { year: 0, month: 1, day: 1 };
                assert(day.in_calendar());
                assert(r == self.accepts(cover, window_of(week_around(day))));
            }
            r
        }
    }

    /// The covers of `covers` that the filter accepts with the week flag
    /// going by `week`, in their order.
    pub fn filter_in_week(&self, covers: Vec<AlbumCoverData>, week: &Option<WeekWindow>) -> (out: Vec<
        AlbumCoverData,
    >)
        ensures
            out@ == self.accepted(covers@, *week),
    {
        broadcast use vstd::std_specs::vec::axiom_spec_into_iter;

        let mut out: Vec<AlbumCoverData> = Vec::new();
        let ghost all = covers@;
        assert(all.take(0) =~= Seq::<AlbumCoverData>::empty());
        for cover in it: covers.into_iter()
            invariant
                it.seq() == all,
                out@ == self.accepted(all.take(it.index()), *week),
        {
            proof {
                all.take(it.index()).lemma_filter_push(cover, |c: AlbumCoverData| self.accepts(&c, *week));
                assert(all.take(it.index() + 1) =~= all.take(it.index()).push(cover));
            }
            if self.matches_in_week(&cover, week) {
                out.push(cover);
            }
        }
        assert(all.take(all.len() as int) =~= all);
        out
    }

    /// The covers of `covers` that the filter accepts, in their order. With
    /// the week flag set the current week is asked of the clock, once.
    pub fn filter(&self, covers: Vec<AlbumCoverData>) -> (out: Vec<AlbumCoverData>)
        ensures
            !self.week ==> out@ == self.accepted(covers@, None),
            exists|day: Date| day.in_calendar() && out@ == self.accepted(covers@, window_of(week_around(day))),
    {
        if self.week {
            let week = current_week();
            self.filter_in_week(covers, &week)
        } else {
            let ghost all = covers@;
            let out = self.filter_in_week(covers, &None);
            proof {
                let day = Date { year: 0, month: 1, day: 1 };
                assert(day.in_calendar());
                self.lemma_week_unused(all, None, window_of(week_around(day)));
            }
            out
        }
    }

    /// A filter without criteria accepts every cover whose album has a
    /// recording date that reads as a date.
    pub proof fn lemma_wildcard_accepts_all(&self, cover: &AlbumCoverData, week: Option<WeekWindow>)
        requires
            self.criteria().is_wildcard(),
            crate::date::date_of(cover.album_data.recording_date@) is Some,
        ensures
            self.accepts(cover, week),
    {
        self.criteria().lemma_wildcard_accepts_all(&cover.album_data, week);
    }

    /// A cover whose album differs from an exact criterion in that field is
    /// rejected, whatever the other criteria say.
    pub proof fn lemma_exact_mismatch_rejects(&self, cover: &AlbumCoverData, week: Option<WeekWindow>)
        requires
            crate::date::date_of(cover.album_data.recording_date@) matches Some(dt) && {
                ||| (self.year matches Some(y) && y != dt.year)
                ||| (self.month matches Some(m) && m != dt.month)
                ||| (self.day matches Some(d) && d != dt.day)
                ||| (self.artist matches Some(a) && a@ != cover.album_data.track_artist@)
                ||| (self.album matches Some(a) && a@ != cover.album_data.album_title@)
                ||| (self.track matches Some(t) && t@ != cover.album_data.track_number@)
            },
        ensures
            !self.accepts(cover, week),
    {
        self.criteria().lemma_exact_mismatch_rejects(&cover.album_data, week);
    }

    /// Without the week flag the window does not matter.
    pub proof fn lemma_week_unused(
        &self,
        covers: Seq<AlbumCoverData>,
        a: Option<WeekWindow>,
        b: Option<WeekWindow>,
    )
        requires
            !self.week,
        ensures
            self.accepted(covers, a) == self.accepted(covers, b),
    {
        assert((|c: AlbumCoverData| self.accepts(&c, a)) =~= (|c: AlbumCoverData| self.accepts(&c, b)));
    }
}

impl Default for AlbumCoverDataFilter {
    fn default() -> (r: Self)
        ensures
            r.criteria().is_wildcard(),
    {
        AlbumCoverDataFilter {
            day: None,
            month: None,
            year: None,
            artist: None,
            album: None,
            genre: None,
            moods: None,
            words: None,
            decade: None,
            track: None,
            week: false,
            instrumental: false,
        }
    }
}

/// The pattern of the cover files below the music directory `dir`: the file
/// `cover` of any extension in each album's directory.
pub fn covers_pattern(dir: &str) -> (out: String)
    ensures
        out@ == dir@ + "/*/*/cover.*"@,
{
    let mut pattern = chars_of(dir);
    crate::text::extend_chars(&mut pattern, &chars_of("/*/*/cover.*"));
    string_of(&pattern)
}

/// The directory of the file `name`.
pub fn parent_dir(name: &str) -> (out: String)
    ensures
        out@ == dir_of(name@),
{
    let s = chars_of(name);
    let mut end: usize = s.len();
    assert(s@.take(end as int) =~= s@);
    while end > 0 && s[end - 1] != '/'
        invariant
            end <= s.len(),
            last_slash(s@) == last_slash(s@.take(end as int)),
        decreases end,
    {
        assert(s@.take(end as int).drop_last() =~= s@.take(end - 1));
        end -= 1;
    }
    let mut dir: Vec<char> = Vec::new();
    if end > 0 {
        assert(s@.take(end as int).last() == '/');
        let stop: usize = end - 1;
        let mut k: usize = 0;
        while k < stop
            invariant
                k <= stop < s.len(),
                dir@ == s@.take(k as int),
            decreases stop - k,
        {
            dir.push(s[k]);
            k += 1;
            assert(dir@ =~= s@.take(k as int));
        }
    } else {
        assert(dir@ =~= Seq::<char>::empty());
    }
    string_of(&dir)
}

/// The album of a cover: the index of the first of `songs` whose file name
/// holds the directory `dir`, if there is one. No record before it holds the
/// directory; without a result none does.
pub fn find_album(songs: &Vec<SongData>, dir: &str) -> (r: Option<usize>)
    ensures
        match r {
            Some(i) => {
                &&& i == first_in_dir(songs@, dir@)
                &&& i < songs@.len()
                &&& contains_text(songs@[i as int].filename@, dir@)
                &&& forall|j: int| 0 <= j < i ==> !contains_text((#[trigger] songs@[j]).filename@, dir@)
            },
            None => {
                &&& first_in_dir(songs@, dir@) == -1
                &&& forall|j: int| 0 <= j < songs@.len() ==> !contains_text((#[trigger] songs@[j]).filename@, dir@)
            },
        },
{
    let wanted = chars_of(dir);
    let mut i: usize = 0;
    assert(songs@.take(0) =~= Seq::<SongData>::empty());
    while i < songs.len()
        invariant
            i <= songs.len(),
            wanted@ == dir@,
            first_in_dir(songs@.take(i as int), dir@) == -1,
            forall|j: int| 0 <= j < i ==> !contains_text((#[trigger] songs@[j]).filename@, dir@),
        decreases songs.len() - i,
    {
        assert(songs@.take(i + 1).drop_last() =~= songs@.take(i as int));
        if has_text(&chars_of(songs[i].filename.as_str()), &wanted) {
            proof {
                lemma_first_in_dir_stays(songs@, dir@, i + 1);
            }
            return Some(i);
        }
        i += 1;
    }
    assert(songs@.take(i as int) =~= songs@);
    None
}

/// Once a record has been found among the first `n`, more records do not
/// change which one is first.
pub proof fn lemma_first_in_dir_stays(songs: Seq<SongData>, dir: Seq<char>, n: int)
    requires
        0 <= n <= songs.len(),
        first_in_dir(songs.take(n), dir) >= 0,
    ensures
        first_in_dir(songs, dir) == first_in_dir(songs.take(n), dir),
    decreases songs.len() - n,
{
    if n < songs.len() {
        assert(songs.take(n + 1).drop_last() =~= songs.take(n));
        lemma_first_in_dir_stays(songs, dir, n + 1);
    } else {
        assert(songs.take(n) =~= songs);
    }
}

} // verus!
