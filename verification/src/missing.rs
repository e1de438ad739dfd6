//! The directories that hold tracks without lyrics.

use vstd::prelude::*;
use crate::cache::CacheData;
use crate::count::distinct;
use crate::covers::{dir_of, parent_dir};
use crate::songs::SongData;
use crate::text::texts;

verus! {

/// Which tag to look for.
pub struct MissingArgs {
    /// Name of the tag
    pub tag: Option<String>,
}

/// The directories of the records of `songs` that have no lyrics, one record
/// after the other.
pub open spec fn dirs_without_lyrics(songs: Seq<SongData>) -> Seq<Seq<char>>
    decreases songs.len(),
{
    if songs.len() == 0 {
        Seq::empty()
    } else {
        let front = dirs_without_lyrics(songs.drop_last());
        if songs.last().lyrics@.len() == 0 {
            front.push(dir_of(songs.last().filename@))
        } else {
            front
        }
    }
}

/// The directories that hold a track without lyrics, each once, in the order
/// in which the tracks stand in `songs`.
pub fn get_missing_tag(args: MissingArgs, songs: &Vec<SongData>) -> (out: Vec<String>)
    ensures
        texts(out@) == distinct(dirs_without_lyrics(songs@)),
{
    let mut dirs: Vec<String> = Vec::new();
    let mut k: usize = 0;
    assert(songs@.take(0) =~= Seq::<SongData>::empty());
    assert(texts(dirs@) =~= Seq::<Seq<char>>::empty());
    while k < songs.len()
        invariant
            k <= songs.len(),
            texts(dirs@) == dirs_without_lyrics(songs@.take(k as int)),
        decreases songs.len() - k,
    {
        assert(songs@.take(k + 1).drop_last() =~= songs@.take(k as int));
        if songs[k].lyrics.len() < 1 {
            let ghost done = texts(dirs@);
            let dir = parent_dir(songs[k].filename.as_str());
            dirs.push(dir);
            assert(texts(dirs@) =~= done.push(dir_of(songs@[k as int].filename@)));
        }
        k += 1;
    }
    assert(songs@.take(k as int) =~= songs@);
    let none: CacheData<u8> = CacheData::new();
    assert(none.keys() =~= Seq::<Seq<char>>::empty());
    none.missing(&dirs)
}

} // verus!
