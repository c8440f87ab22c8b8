//! The layout of the local catalog cache: where its registry, its refs and
//! its content-addressed objects live under a base directory.
use vstd::prelude::*;
use vstd::string::*;
use crate::validate::cat;

verus! {

/// `Path::join` on Unix: an absolute path replaces the base; otherwise it
/// is appended, after a `/` when the base is not empty and does not already
/// end with one.
pub open spec fn path_join(base: Seq<char>, path: Seq<char>) -> Seq<char> {
    if path.len() > 0 && path[0] == '/' {
        path
    } else if base.len() > 0 && base.last() != '/' {
        base + "/"@ + path
    } else {
        base + path
    }
}

/// Joins a path onto a base directory, as `Path::join` does on Unix.
pub fn join_path(base: &str, path: &str) -> (r: String)
    ensures
        r@ == path_join(base@, path@),
{
    let b = crate::text::chars_of(base);
    let p = crate::text::chars_of(path);
    if p.len() > 0 && p[0] == '/' {
        return String::from_str(path);
    }
    if b.len() > 0 && b[b.len() - 1] != '/' {
        crate::validate::cat3(base, "/", path)
    } else {
        cat(base, path)
    }
}

/// The local cache rooted at a base directory.
pub struct CacheManager {
    pub base_dir: String,
}

impl CacheManager {
    /// The registry catalog: `catalog.json` under the base directory.
    pub fn registry_path(&self) -> (r: String)
        ensures
            r@ == path_join(self.base_dir@, "catalog.json"@),
    {
        join_path(self.base_dir.as_str(), "catalog.json")
    }

    /// The map from fetched URLs to object hashes: `refs.json` under the
    /// base directory.
    pub fn refs_path(&self) -> (r: String)
        ensures
            r@ == path_join(self.base_dir@, "refs.json"@),
    {
        join_path(self.base_dir.as_str(), "refs.json")
    }

    /// The directory of stored objects: `objects` under the base directory.
    pub fn objects_dir(&self) -> (r: String)
        ensures
            r@ == path_join(self.base_dir@, "objects"@),
    {
        join_path(self.base_dir.as_str(), "objects")
    }

    /// Where the object with a given hash is stored: `<hash>.json` in the
    /// objects directory.
    pub fn object_path(&self, hash: &str) -> (r: String)
        ensures
            r@ == path_join(path_join(self.base_dir@, "objects"@), hash@ + ".json"@),
    {
        let dir = self.objects_dir();
        let name = cat(hash, ".json");
        join_path(dir.as_str(), name.as_str())
    }

    /// The `file://` URL of the object with a given hash.
    pub fn object_file_url(&self, hash: &str) -> (r: String)
        ensures
            r@ == "file://"@ + path_join(path_join(self.base_dir@, "objects"@), hash@ + ".json"@),
    {
        let path = self.object_path(hash);
        cat("file://", path.as_str())
    }
}

} // verus!
