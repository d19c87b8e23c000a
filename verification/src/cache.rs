//! The cache of extracted regions.
//!
//! An entry is found by the region's name alone. Whether it is rebuilt
//! depends on two things only: whether it exists, and whether the caller
//! forces it. Neither the age nor the contents of the source play a part, so
//! an entry that exists is reused until a rebuild is forced.

use crate::layout::{cache_path, cache_path_of};
use crate::model::{Region, RegionView};
use crate::wire::{
    bincode_decoding, bincode_encoding, decode_region, decoded, encode_region,
    lemma_writing_reads_back, writes_region, WireRegionView,
};
use vstd::prelude::*;

verus! {

/// Why a cache entry could not be written or read.
#[derive(Debug, Clone, Copy, PartialEq, Eq, Structural)]
pub enum CacheError {
    /// The bytes of the entry do not hold a region.
    Corrupt,
    /// The entry could not be read from or written to its file.
    Io,
}

/// What is done about a cache entry.
#[derive(Debug, Clone, Copy, PartialEq, Eq, Structural)]
pub enum CachePlan {
    /// The entry that exists is kept as it is.
    Reuse,
    /// The region is built anew and written over the entry, if there is one.
    Rebuild,
}

/// What is done about an entry: it is rebuilt where that is forced or where
/// it does not exist.
pub open spec fn plan_of(entry_exists: bool, force: bool) -> CachePlan {
    if force || !entry_exists {
        CachePlan::Rebuild
    } else {
        CachePlan::Reuse
    }
}

/// What is done about an entry.
pub fn plan(entry_exists: bool, force: bool) -> (p: CachePlan)
    ensures
        p == plan_of(entry_exists, force),
{
    if force || !entry_exists {
        CachePlan::Rebuild
    } else {
        CachePlan::Reuse
    }
}

/// Whether `bytes` are a cache entry of `region`: they are what bincode
/// writes for some writing of the region, and bincode reads that writing back
/// from them. The writings of a region differ in the order of its nodes only.
pub open spec fn holds_region(bytes: Seq<u8>, region: RegionView) -> bool {
    exists|wire: WireRegionView| #[trigger]
        writes_region(wire, region) && bytes == bincode_encoding(wire) && bincode_decoding(bytes)
            == Some(wire)
}

/// A cache entry by its place. It holds no data: the region is had from it by
/// [`RegionCache::restore`].
#[derive(Debug)]
pub struct RegionCache(String);

impl RegionCache {
    /// The path of the entry's file.
    pub closed spec fn spec_path(&self) -> Seq<char> {
        self.0@
    }

    /// The entry of the region `region`.
    pub fn for_region(region: &str) -> (handle: RegionCache)
        ensures
            handle.spec_path() == cache_path_of(region@),
    {
        RegionCache(cache_path(region))
    }

    /// The path of the entry's file.
    pub fn path(&self) -> (p: &str)
        ensures
            p@ == self.spec_path(),
    {
        self.0.as_str()
    }

    /// The region that the entry holds, given the bytes of its file. Bytes
    /// that do not hold a region are reported as corrupt; no part of a region
    /// is ever returned.
    pub fn restore(self, bytes: &[u8]) -> (r: Result<Region, CacheError>)
        ensures
            match decoded(bytes@) {
                Some(region) => (r matches Ok(restored) && restored@ == region),
                None => r == Err::<Region, CacheError>(CacheError::Corrupt),
            },
    {
        match decode_region(bytes) {
            Some(region) => Ok(region),
            None => Err(CacheError::Corrupt),
        }
    }
}

/// The bytes to write as the cache entry of `region`. Every region has them.
pub fn store(region: &Region) -> (bytes: Vec<u8>)
    ensures
        holds_region(bytes@, region@),
{
    encode_region(region)
}

/// What has come of [`load_or_build`]: the entry, and the bytes to write to
/// its file where the region was rebuilt.
#[derive(Debug)]
pub struct CacheUpdate {
    pub handle: RegionCache,
    pub write: Option<Vec<u8>>,
}

impl CacheUpdate {
    /// The bytes to write, where there are any.
    pub open spec fn spec_write(&self) -> Option<Seq<u8>> {
        match self.write {
            Some(bytes) => Some(bytes@),
            None => None,
        }
    }
}

/// Gives the cache entry of `region_name`, rebuilding it where that is forced
/// or where it does not exist.
///
/// `entry_exists` says whether the entry's file is there. Where the entry is
/// rebuilt, `rebuild` is called, once, and the bytes of the region that it
/// gives are handed back for the caller to write over the entry. Where the
/// entry is reused, `rebuild` is not called: it need not even be fit to be
/// called then, and nothing is handed back.
pub fn load_or_build<F: FnOnce() -> Region>(
    region_name: &str,
    entry_exists: bool,
    force: bool,
    rebuild: F,
) -> (update: CacheUpdate)
    requires
        plan_of(entry_exists, force) == CachePlan::Rebuild ==> rebuild.requires(()),
    ensures
        update.handle.spec_path() == cache_path_of(region_name@),
        writes_when(entry_exists, force, update.spec_write()),
        update.write matches Some(bytes) ==> exists|region: Region|
            rebuild.ensures((), region) && holds_region(bytes@, region@),
{
    let handle = RegionCache::for_region(region_name);
    match plan(entry_exists, force) {
        CachePlan::Reuse => CacheUpdate { handle, write: None },
        CachePlan::Rebuild => {
            let region = rebuild();
            let bytes = store(&region);
            CacheUpdate { handle, write: Some(bytes) }
        },
    }
}

/// The files of the cache directory after an entry was written, or after
/// nothing was.
pub open spec fn directory_after(
    directory: Map<Seq<char>, Seq<u8>>,
    path: Seq<char>,
    write: Option<Seq<u8>>,
) -> Map<Seq<char>, Seq<u8>> {
    match write {
        Some(bytes) => directory.insert(path, bytes),
        None => directory,
    }
}

/// Round trip: what is restored from the bytes that `store` gave for a region
/// is that region, with the same name, the same ways in the same order and the
/// same nodes under the same identifiers, provided that no tag mapping of the
/// region holds a key twice. A region with such a tag mapping is stored too,
/// and its bytes are reported as corrupt.
pub proof fn lemma_round_trip(region: RegionView, bytes: Seq<u8>)
    requires
        holds_region(bytes, region),
    ensures
        region.tags_wf() ==> decoded(bytes) == Some(region),
        !region.tags_wf() ==> decoded(bytes) is None,
{
    let wire = choose|wire: WireRegionView| #[trigger]
        writes_region(wire, region) && bytes == bincode_encoding(wire) && bincode_decoding(bytes)
            == Some(wire);
    lemma_writing_reads_back(wire, region);
}

/// Whether a load hands bytes back for writing: it does so just where the
/// entry is rebuilt.
pub open spec fn writes_when(entry_exists: bool, force: bool, write: Option<Seq<u8>>) -> bool {
    write is Some <==> plan_of(entry_exists, force) == CachePlan::Rebuild
}

/// Idempotence: of two loads of one region in a row that force nothing, with
/// what the first hands back written to the directory and nothing else
/// changed, the second rebuilds nothing and leaves the directory as it is. So
/// the region is rebuilt at most once, and only where the entry was absent.
pub proof fn lemma_second_load_reuses(
    directory: Map<Seq<char>, Seq<u8>>,
    region_name: Seq<char>,
    first: Option<Seq<u8>>,
    second: Option<Seq<u8>>,
)
    requires
        writes_when(directory.contains_key(cache_path_of(region_name)), false, first),
        writes_when(
            directory_after(directory, cache_path_of(region_name), first).contains_key(
                cache_path_of(region_name),
            ),
            false,
            second,
        ),
    ensures
        second is None,
        first is Some ==> !directory.contains_key(cache_path_of(region_name)),
        directory_after(
            directory_after(directory, cache_path_of(region_name), first),
            cache_path_of(region_name),
            second,
        ) == directory_after(directory, cache_path_of(region_name), first),
{
}

/// Forced rebuild: a load that forces always rebuilds, whether the entry
/// exists or not, and what it hands back stands in the directory afterwards in
/// place of the entry that was there.
pub proof fn lemma_force_rebuilds(
    directory: Map<Seq<char>, Seq<u8>>,
    region_name: Seq<char>,
    write: Option<Seq<u8>>,
)
    requires
        writes_when(directory.contains_key(cache_path_of(region_name)), true, write),
    ensures
        plan_of(directory.contains_key(cache_path_of(region_name)), true) == CachePlan::Rebuild,
        write is Some,
        directory_after(directory, cache_path_of(region_name), write)[cache_path_of(region_name)]
            == write->0,
{
}

} // verus!
