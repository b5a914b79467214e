use std::path::PathBuf;
use vstd::hash_map::StringHashMap;
use vstd::prelude::*;

verus! {

/// The standard library's owned path, carried through unchanged.
#[verifier::external_type_specification]
#[verifier::external_body]
pub struct ExPathBuf(PathBuf);

/// Asset reader for the local filesystem, rooted at a directory.
pub struct FileAssetReader {
    root_path: PathBuf,
}

impl FileAssetReader {
    /// The directory the reader is rooted at.
    pub closed spec fn root(self) -> PathBuf {
        self.root_path
    }

    /// A reader rooted at `root_path`, which the caller has resolved and
    /// created.
    pub fn from_root(root_path: PathBuf) -> (r: FileAssetReader)
        ensures
            r.root() == root_path,
    {
        FileAssetReader { root_path }
    }

    pub fn root_path(&self) -> (r: &PathBuf)
        ensures
            *r == self.root(),
    {
        &self.root_path
    }
}

/// Loader state: a cache of decoded images keyed by path.
#[verifier::reject_recursive_types(I)]
pub struct AssetsLoader<I> {
    image_cache: StringHashMap<I>,
}

impl<I> Default for AssetsLoader<I> {
    fn default() -> (r: Self)
        ensures
            r.cache() == Map::<Seq<char>, I>::empty(),
    {
        Self::new()
    }
}

impl<I> AssetsLoader<I> {
    /// The cached images by path.
    pub closed spec fn cache(self) -> Map<Seq<char>, I> {
        self.image_cache@
    }

    pub fn new() -> (r: AssetsLoader<I>)
        ensures
            r.cache() == Map::<Seq<char>, I>::empty(),
    {
        AssetsLoader { image_cache: StringHashMap::new() }
    }
}

} // verus!
