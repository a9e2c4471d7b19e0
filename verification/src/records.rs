//! File metadata records.
//!
//! A [`FileInfo`] describes one regular file: its absolute path (held as
//! bytes), its size in bytes and its modification time as Unix seconds.
//! Records are created by the caller that walks the directory tree; the
//! library only reads them. The path is split with `/` as the separator:
//! the file name is everything after the last separator, the parent
//! directory everything before it.

use vstd::prelude::*;
use crate::bytes::{rfind, lemma_rfind, rfind_byte, prefix_bytes, suffix_bytes};

verus! {

/// The byte that separates path components.
pub const PATH_SEPARATOR: u8 = 47;

/// The byte that marks a hidden name and starts an extension.
pub const DOT: u8 = 46;

/// Metadata of one regular file.
#[derive(Debug, PartialEq, Eq)]
pub struct FileInfo {
    /// Absolute path of the file, as bytes.
    pub path: Vec<u8>,
    /// Size of the file in bytes.
    pub size: u64,
    /// Modification time of the file, in seconds since the Unix epoch.
    pub modified: u64,
}

/// Mathematical image of a [`FileInfo`].
#[verifier::ext_equal]
pub ghost struct FileInfoV {
    pub path: Seq<u8>,
    pub size: u64,
    pub modified: u64,
}

impl View for FileInfo {
    type V = FileInfoV;

    open spec fn view(&self) -> FileInfoV {
        FileInfoV { path: self.path@, size: self.size, modified: self.modified }
    }
}

impl DeepView for FileInfo {
    type V = FileInfoV;

    open spec fn deep_view(&self) -> FileInfoV {
        self@
    }
}

/// The file name part of a path: everything after the last separator,
/// or the whole path when it has no separator.
pub open spec fn name_of(path: Seq<u8>) -> Seq<u8> {
    match rfind(path, PATH_SEPARATOR) {
        Some(i) => path.skip(i + 1),
        None => path,
    }
}

/// The parent directory of a path: everything before the last separator,
/// the separator alone when the path starts with it, and empty when the
/// path has no separator.
pub open spec fn parent_of(path: Seq<u8>) -> Seq<u8> {
    match rfind(path, PATH_SEPARATOR) {
        Some(i) => if i == 0 {
            seq![PATH_SEPARATOR]
        } else {
            path.subrange(0, i)
        },
        None => Seq::empty(),
    }
}

/// A name is hidden when it starts with a dot.
pub open spec fn is_hidden_spec(name: Seq<u8>) -> bool {
    name.len() > 0 && name[0] == DOT
}

impl FileInfo {
    /// Builds a record from its parts.
    pub fn new(path: Vec<u8>, size: u64, modified: u64) -> (r: FileInfo)
        ensures
            r@ == (FileInfoV { path: path@, size, modified }),
    {
        FileInfo { path, size, modified }
    }

    /// The size of the file in bytes.
    pub fn size(&self) -> (r: u64)
        ensures
            r == self@.size,
    {
        self.size
    }

    /// The file name part of the record's path.
    pub fn name(&self) -> (r: Vec<u8>)
        ensures
            r@ == name_of(self@.path),
    {
        file_name(&self.path)
    }

    /// The parent directory of the record's path.
    pub fn parent(&self) -> (r: Vec<u8>)
        ensures
            r@ == parent_of(self@.path),
    {
        parent_dir(&self.path)
    }
}

impl Clone for FileInfo {
    /// A clone carries the same path, size and modification time.
    fn clone(&self) -> (r: Self)
        ensures
            r@ == self@,
    {
        let path = prefix_bytes(&self.path, self.path.len());
        proof {
            assert(path@ =~= self.path@);
        }
        FileInfo { path, size: self.size, modified: self.modified }
    }
}

/// Extracts the file name part of a path.
pub fn file_name(path: &Vec<u8>) -> (r: Vec<u8>)
    ensures
        r@ == name_of(path@),
{
    proof {
        lemma_rfind(path@, PATH_SEPARATOR);
    }
    match rfind_byte(path, PATH_SEPARATOR) {
        Some(i) => {
            proof {
                assert((i as int) < path@.len());
                assert(path@.len() == path.len());
            }
            suffix_bytes(path, i + 1)
        },
        None => {
            let r = prefix_bytes(path, path.len());
            proof {
                assert(r@ =~= path@);
            }
            r
        },
    }
}

/// Extracts the parent directory of a path.
pub fn parent_dir(path: &Vec<u8>) -> (r: Vec<u8>)
    ensures
        r@ == parent_of(path@),
{
    proof {
        lemma_rfind(path@, PATH_SEPARATOR);
    }
    match rfind_byte(path, PATH_SEPARATOR) {
        Some(i) => {
            if i == 0 {
                let mut r: Vec<u8> = Vec::new();
                r.push(PATH_SEPARATOR);
                proof {
                    assert(r@ =~= seq![PATH_SEPARATOR]);
                }
                r
            } else {
                prefix_bytes(path, i)
            }
        },
        None => Vec::new(),
    }
}

/// Copies a vector of records.
pub fn clone_records(v: &Vec<FileInfo>) -> (r: Vec<FileInfo>)
    ensures
        r.deep_view() == v.deep_view(),
{
    let mut out: Vec<FileInfo> = Vec::new();
    let mut i: usize = 0;
    while i < v.len()
        invariant
            i <= v.len(),
            out.deep_view() =~= v.deep_view().take(i as int),
        decreases v.len() - i,
    {
        let ghost pre = out.deep_view();
        out.push(v[i].clone());
        proof {
            assert(pre.len() == i);
            assert(out.deep_view() =~= v.deep_view().take(i + 1));
        }
        i = i + 1;
    }
    proof {
        assert(v.deep_view().take(v.len() as int) =~= v.deep_view());
    }
    out
}

/// Decides whether a file or directory name is hidden.
pub fn is_hidden(name: &Vec<u8>) -> (r: bool)
    ensures
        r == is_hidden_spec(name@),
{
    name.len() > 0 && name[0] == DOT
}

} // verus!
