//! Directory listings: path normalisation before a `List` request, and
//! decoding of the flat `(type, name)` pairs the device answers with.

use vstd::prelude::*;
use crate::request::strings_view;

verus! {

/// Kind of a directory entry.
#[derive(Clone, Copy, Debug, PartialEq, Eq, Structural)]
pub enum FileType {
    File,
    Dir,
}

/// One directory entry.
#[derive(Debug)]
pub struct FileInfo {
    pub ty: FileType,
    pub name: String,
}

/// Why a listing reply could not be decoded.
#[derive(Clone, Copy, Debug, PartialEq, Eq, Structural)]
pub enum ListingError {
    /// The reply held an odd number of strings, so the last pair is cut.
    OddLength,
}

/// `path` with every trailing `/` removed.
pub open spec fn trim_trailing(path: Seq<char>) -> Seq<char>
    decreases path.len(),
{
    if path.len() > 0 && path.last() == '/' {
        trim_trailing(path.drop_last())
    } else {
        path
    }
}

/// The type a marker string stands for: `"0"` is a directory, anything else a file.
pub open spec fn marker_type(marker: Seq<char>) -> FileType {
    if marker == seq!['0'] {
        FileType::Dir
    } else {
        FileType::File
    }
}

/// Entry `i` of the listing that a flat reply encodes.
pub open spec fn entry_of(results: Seq<Seq<char>>, i: int) -> (FileType, Seq<char>) {
    (marker_type(results[2 * i]), results[2 * i + 1])
}

pub open spec fn entries_view(files: Seq<FileInfo>) -> Seq<(FileType, Seq<char>)> {
    files.map_values(|f: FileInfo| (f.ty, f.name@))
}

/// The listing that an even-length flat reply encodes, pair by pair.
pub open spec fn listing_of(results: Seq<Seq<char>>) -> Seq<(FileType, Seq<char>)> {
    Seq::new((results.len() / 2) as nat, |i: int| entry_of(results, i))
}

/// Removes every trailing path separator: the device stalls on a listing
/// request for a path that ends in one.
pub fn normalize_path(path: &str) -> (r: String)
    ensures
        r@ == trim_trailing(path@),
{
    let n = path.unicode_len();
    let mut end: usize = n;
    assert(path@.take(n as int) =~= path@);
    while end > 0 && path.get_char(end - 1) == '/'
        invariant
            end <= n == path@.len(),
            trim_trailing(path@) == trim_trailing(path@.take(end as int)),
        decreases end,
    {
        proof {
            let t = path@.take(end as int);
            assert(t.drop_last() =~= path@.take(end - 1));
        }
        end = end - 1;
    }
    proof {
        let t = path@.take(end as int);
        if end > 0 {
            assert(t.last() == path@[end - 1]);
        }
    }
    let kept = path.substring_char(0, end);
    assert(kept@ =~= path@.take(end as int));
    String::from_str(kept)
}

fn is_dir_marker(marker: &String) -> (r: bool)
    ensures
        r == (marker@ == seq!['0']),
{
    let s = marker.as_str();
    if s.unicode_len() == 1 {
        let c = s.get_char(0);
        assert(c == '0' ==> s@ =~= seq!['0']);
        c == '0'
    } else {
        false
    }
}

/// Decodes a listing reply: consecutive pairs of type marker and name,
/// in the order the device reported them. An odd-length reply is refused.
pub fn decode_file_list(results: &Vec<String>) -> (r: Result<Vec<FileInfo>, ListingError>)
    ensures
        r is Ok <==> results@.len() % 2 == 0,
        r matches Ok(files) ==> entries_view(files@) == listing_of(strings_view(*results)),
        r matches Ok(files) ==> files@.len() == results@.len() / 2,
{
    if results.len() % 2 != 0 {
        return Err(ListingError::OddLength);
    }
    let ghost rs = strings_view(*results);
    let len = results.len();
    let pairs = len / 2;
    let mut files: Vec<FileInfo> = Vec::new();
    let mut i: usize = 0;
    while i < pairs
        invariant
            pairs == results@.len() / 2,
            results@.len() % 2 == 0,
            rs == strings_view(*results),
            i <= pairs,
            2 * pairs == results@.len(),
            len == results@.len(),
            entries_view(files@) =~= listing_of(rs).take(i as int),
        decreases pairs - i,
    {
        assert(2 * i + 1 < results@.len());
        assert(results@.len() <= usize::MAX);
        let ty = if is_dir_marker(&results[2 * i]) {
            FileType::Dir
        } else {
            FileType::File
        };
        let name = results[2 * i + 1].clone();
        files.push(FileInfo { ty, name });
        proof {
            assert(listing_of(rs).take(i as int + 1) =~= listing_of(rs).take(i as int).push(
                entry_of(rs, i as int),
            ));
            assert(entries_view(files@) =~= listing_of(rs).take(i as int + 1));
        }
        i = i + 1;
    }
    assert(listing_of(rs).take(i as int) =~= listing_of(rs));
    assert(files@.len() == entries_view(files@).len());
    Ok(files)
}

/// Normalising a path leaves no trailing separator, and normalising again
/// changes nothing.
pub proof fn lemma_normalize_idempotent(path: Seq<char>)
    ensures
        trim_trailing(path).len() == 0 || trim_trailing(path).last() != '/',
        trim_trailing(trim_trailing(path)) == trim_trailing(path),
    decreases path.len(),
{
    if path.len() > 0 && path.last() == '/' {
        lemma_normalize_idempotent(path.drop_last());
    }
}

} // verus!
