//! Choosing the pair of compiled circuit files.
//!
//! Looking at the file system is the caller's part. What is decided here is
//! which of the things it found is taken: the two paths of the command
//! line, else the first directory of the search order that holds both
//! `main.wasm` and `main.r1cs`, else the first pair of a witness module and
//! a constraint file with the same stem.
use crate::error::ArtifactLoadError;
use vstd::prelude::*;

verus! {

/// The number of directories in the search order.
pub const SEARCH_DEPTH: usize = 10;

/// The directories that are searched, in order.
pub fn search_order() -> (dirs: Vec<&'static str>)
    ensures
        dirs@.len() == SEARCH_DEPTH,
        dirs@[0]@ == "."@,
        dirs@[1]@ == "./main_js"@,
        dirs@[2]@ == "../main_js"@,
        dirs@[3]@ == "./circom"@,
        dirs@[4]@ == "../circom"@,
        dirs@[5]@ == "./circuits"@,
        dirs@[6]@ == "../circuits"@,
        dirs@[7]@ == "./build"@,
        dirs@[8]@ == "../build"@,
        dirs@[9]@ == "../../circom"@,
{
    let mut dirs: Vec<&'static str> = Vec::new();
    dirs.push(".");
    dirs.push("./main_js");
    dirs.push("../main_js");
    dirs.push("./circom");
    dirs.push("../circom");
    dirs.push("./circuits");
    dirs.push("../circuits");
    dirs.push("./build");
    dirs.push("../build");
    dirs.push("../../circom");
    dirs
}

/// The two paths that the command line names: its second and third words,
/// where it has at least three. Whether the files exist is for the caller
/// to find out.
pub fn paths_from_arguments(arguments: &Vec<String>) -> (paths: Option<(String, String)>)
    ensures
        match paths {
            Some((wasm, r1cs)) => arguments@.len() >= 3 && wasm == arguments@[1] && r1cs
                == arguments@[2],
            None => arguments@.len() < 3,
        },
{
    if arguments.len() >= 3 {
        Some((arguments[1].clone(), arguments[2].clone()))
    } else {
        None
    }
}

/// Whether directory number `i` holds both named files.
pub open spec fn complete_at(present: Seq<(bool, bool)>, i: int) -> bool {
    present[i].0 && present[i].1
}

/// The first directory that holds both `main.wasm` and `main.r1cs`, given
/// for each directory of the search order whether it holds the one and
/// whether it holds the other.
pub fn first_complete(present: &Vec<(bool, bool)>) -> (found: Option<usize>)
    ensures
        match found {
            Some(i) => i < present@.len() && complete_at(present@, i as int) && forall|k: int|
                0 <= k < i ==> !#[trigger] complete_at(present@, k),
            None => forall|k: int| 0 <= k < present@.len() ==> !#[trigger] complete_at(present@, k),
        },
{
    let mut i: usize = 0;
    while i < present.len()
        invariant
            i <= present@.len(),
            forall|k: int| 0 <= k < i ==> !#[trigger] complete_at(present@, k),
        decreases present@.len() - i,
    {
        let entry = present[i];
        if entry.0 && entry.1 {
            return Some(i);
        }
        i = i + 1;
    }
    None
}

/// Whether the pair `(i, j)` comes before the pair `(a, b)` when the
/// entries are gone through in order for the witness module and, for each,
/// again in order for the constraint file.
pub open spec fn pair_before(i: int, j: int, a: int, b: int) -> bool {
    i < a || (i == a && j < b)
}

/// A file of a directory: its name without the extension, and the
/// extension.
#[derive(Debug, Clone, PartialEq, Eq)]
pub struct Entry {
    pub stem: String,
    pub extension: String,
}

/// Which pair of files is taken.
#[derive(Debug, Clone, Copy, PartialEq, Eq)]
pub enum Choice {
    /// The two files that the command line names.
    Named,
    /// `main.wasm` and `main.r1cs` of directory number `dir` of the search
    /// order.
    Main { dir: usize },
    /// Entries number `wasm` and `r1cs` of directory number `dir` of the
    /// search order.
    Stems { dir: usize, wasm: usize, r1cs: usize },
}

/// Whether the command line names two files and both exist.
pub open spec fn named_exist(named: Option<(bool, bool)>) -> bool {
    named matches Some(found) && found.0 && found.1
}

/// Whether entry number `i` is a witness module, entry number `j` a
/// constraint file, and both have the same stem.
pub open spec fn pair_at(entries: Seq<Entry>, i: int, j: int) -> bool {
    &&& entries[i].extension@ == "wasm"@
    &&& entries[j].extension@ == "r1cs"@
    &&& entries[i].stem@ == entries[j].stem@
}

/// Whether a directory could be listed and holds such a pair.
pub open spec fn has_pair(listing: Option<Vec<Entry>>) -> bool {
    listing matches Some(entries) && exists|i: int, j: int|
        0 <= i < entries@.len() && 0 <= j < entries@.len() && #[trigger] pair_at(entries@, i, j)
}

/// Whether an extension is the given one.
fn is_extension(extension: &String, wanted: &str) -> (same: bool)
    ensures
        same == (extension@ == wanted@),
{
    let wanted = wanted.to_owned();
    *extension == wanted
}

/// The first pair of a witness module and a constraint file with one stem
/// among the entries of a directory: the witness modules are gone through
/// in the order of the entries and, for each, the constraint files.
pub fn first_pair(entries: &Vec<Entry>) -> (found: Option<(usize, usize)>)
    ensures
        match found {
            Some((i, j)) => {
                &&& i < entries@.len() && j < entries@.len()
                &&& pair_at(entries@, i as int, j as int)
                &&& forall|a: int, b: int|
                    0 <= a < entries@.len() && 0 <= b < entries@.len() && pair_before(
                        a,
                        b,
                        i as int,
                        j as int,
                    ) ==> !#[trigger] pair_at(entries@, a, b)
            },
            None => forall|a: int, b: int|
                0 <= a < entries@.len() && 0 <= b < entries@.len() ==> !#[trigger] pair_at(
                    entries@,
                    a,
                    b,
                ),
        },
{
    let mut i: usize = 0;
    while i < entries.len()
        invariant
            i <= entries@.len(),
            forall|a: int, b: int|
                0 <= a < i && 0 <= b < entries@.len() ==> !#[trigger] pair_at(entries@, a, b),
        decreases entries@.len() - i,
    {
        if is_extension(&entries[i].extension, "wasm") {
            let mut j: usize = 0;
            while j < entries.len()
                invariant
                    i < entries@.len(),
                    j <= entries@.len(),
                    entries@[i as int].extension@ == "wasm"@,
                    forall|a: int, b: int|
                        0 <= a < i && 0 <= b < entries@.len() ==> !#[trigger] pair_at(
                            entries@,
                            a,
                            b,
                        ),
                    forall|b: int| 0 <= b < j ==> !#[trigger] pair_at(entries@, i as int, b),
                decreases entries@.len() - j,
            {
                if is_extension(&entries[j].extension, "r1cs") && entries[i].stem
                    == entries[j].stem {
                    return Some((i, j));
                }
                j = j + 1;
            }
        }
        i = i + 1;
    }
    None
}

/// Chooses the pair of compiled files from what was found on disk.
///
/// `named` says of the two files that the command line names whether each
/// exists, where it names two. `present` says for each directory of the
/// search order whether it holds `main.wasm` and whether it holds
/// `main.r1cs`. `listings` holds for each directory of the search order its
/// entries, where it could be listed.
///
/// The named files are taken where both exist; else the first directory
/// that holds both main files; else the first pair with one stem of the
/// first directory that has such a pair. Where there is none of these, no
/// circuit is found.
pub fn choose_files(
    named: Option<(bool, bool)>,
    present: &Vec<(bool, bool)>,
    listings: &Vec<Option<Vec<Entry>>>,
) -> (result: Result<Choice, ArtifactLoadError>)
    ensures
        match result {
            Ok(Choice::Named) => named_exist(named),
            Ok(Choice::Main { dir }) => {
                &&& !named_exist(named)
                &&& dir < present@.len()
                &&& complete_at(present@, dir as int)
                &&& forall|k: int| 0 <= k < dir ==> !#[trigger] complete_at(present@, k)
            },
            Ok(Choice::Stems { dir, wasm, r1cs }) => {
                &&& !named_exist(named)
                &&& forall|k: int| 0 <= k < present@.len() ==> !#[trigger] complete_at(present@, k)
                &&& dir < listings@.len()
                &&& forall|d: int| 0 <= d < dir ==> !has_pair(#[trigger] listings@[d])
                &&& listings@[dir as int] matches Some(entries)
                &&& wasm < entries@.len() && r1cs < entries@.len()
                &&& pair_at(entries@, wasm as int, r1cs as int)
                &&& forall|a: int, b: int|
                    0 <= a < entries@.len() && 0 <= b < entries@.len() && pair_before(
                        a,
                        b,
                        wasm as int,
                        r1cs as int,
                    ) ==> !#[trigger] pair_at(entries@, a, b)
            },
            Err(e) => {
                &&& e == ArtifactLoadError::NotFound
                &&& !named_exist(named)
                &&& forall|k: int| 0 <= k < present@.len() ==> !#[trigger] complete_at(present@, k)
                &&& forall|d: int| 0 <= d < listings@.len() ==> !has_pair(#[trigger] listings@[d])
            },
        },
{
    match named {
        Some(found) => {
            if found.0 && found.1 {
                return Ok(Choice::Named);
            }
        },
        None => {},
    }
    match first_complete(present) {
        Some(dir) => {
            return Ok(Choice::Main { dir });
        },
        None => {},
    }
    let mut dir: usize = 0;
    while dir < listings.len()
        invariant
            dir <= listings@.len(),
            !named_exist(named),
            forall|k: int| 0 <= k < present@.len() ==> !#[trigger] complete_at(present@, k),
            forall|d: int| 0 <= d < dir ==> !has_pair(#[trigger] listings@[d]),
        decreases listings@.len() - dir,
    {
        match &listings[dir] {
            Some(entries) => {
                match first_pair(entries) {
                    Some((wasm, r1cs)) => {
                        return Ok(Choice::Stems { dir, wasm, r1cs });
                    },
                    None => {},
                }
            },
            None => {},
        }
        dir = dir + 1;
    }
    Err(ArtifactLoadError::NotFound)
}

} // verus!
