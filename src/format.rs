//! The registry of archive formats, keyed by file-name suffix.

use vstd::prelude::*;
use vstd::string::*;
use crate::paths::{file_name, file_name_of};

verus! {

/// Archive format.
#[derive(Clone, Copy, Debug, PartialEq, Eq, Structural)]
#[non_exhaustive]
pub enum ArchiveFormat {
    /// A Zstandard-compressed tarball.
    TarZst,
}

/// A file name that ends in none of the registered suffixes.
#[derive(Clone, Debug)]
pub struct UnknownArchiveFormat {
    /// The file name that was looked at (not the whole path).
    pub file_name: String,
}

/// The registered (suffix, format) pairs, in the order they are tried.
pub open spec fn format_registry() -> Seq<(Seq<char>, ArchiveFormat)> {
    seq![(seq!['.', 't', 'a', 'r', '.', 'z', 's', 't'], ArchiveFormat::TarZst)]
}

/// Whether `s` ends in `suffix`.
pub open spec fn has_suffix(s: Seq<char>, suffix: Seq<char>) -> bool {
    suffix.len() <= s.len() && s.subrange(s.len() - suffix.len(), s.len() as int) == suffix
}

/// The format of the first pair in `registry` whose suffix ends `name`.
pub open spec fn first_match(registry: Seq<(Seq<char>, ArchiveFormat)>, name: Seq<char>) -> Option<
    ArchiveFormat,
>
    decreases registry.len(),
{
    if registry.len() == 0 {
        None
    } else if has_suffix(name, registry[0].0) {
        Some(registry[0].1)
    } else {
        first_match(registry.drop_first(), name)
    }
}

/// The format that a file name selects, if any.
pub open spec fn detect_format(name: Seq<char>) -> Option<ArchiveFormat> {
    first_match(format_registry(), name)
}

/// The file name that detection looks at: the final component of the path,
/// or nothing at all where the path has none.
pub open spec fn detected_name(path: Seq<char>) -> Seq<char> {
    match file_name_of(path) {
        Some(n) => n,
        None => Seq::empty(),
    }
}

/// Whether `s` ends in `suffix`.
pub fn ends_with(s: &str, suffix: &str) -> (r: bool)
    ensures
        r == has_suffix(s@, suffix@),
{
    let n = s.unicode_len();
    let m = suffix.unicode_len();
    if m > n {
        return false;
    }
    let start = n - m;
    let mut i: usize = 0;
    while i < m
        invariant
            n == s@.len(),
            m == suffix@.len(),
            start == n - m,
            i <= m,
            forall|j: int| 0 <= j < i ==> s@[start + j] == suffix@[j],
        decreases m - i,
    {
        if s.get_char(start + i) != suffix.get_char(i) {
            assert(s@.subrange(start as int, n as int)[i as int] != suffix@[i as int]);
            return false;
        }
        i = i + 1;
    }
    assert(s@.subrange(start as int, n as int) =~= suffix@);
    true
}

impl ArchiveFormat {
    /// The list of supported formats as (file-name suffix, format) pairs.
    pub fn supported_formats() -> (r: Vec<(&'static str, ArchiveFormat)>)
        ensures
            r@.len() == format_registry().len(),
            forall|i: int|
                0 <= i < r@.len() ==> r@[i].0@ == format_registry()[i].0 && r@[i].1
                    == format_registry()[i].1,
    {
        proof {
            reveal_strlit(".tar.zst");
            assert(".tar.zst"@ =~= format_registry()[0].0);
        }
        vec![(".tar.zst", ArchiveFormat::TarZst)]
    }

    /// Detects the format from a bare file name: the first registered suffix
    /// that ends it decides; none is an error that carries the name.
    pub fn autodetect_file_name(file_name: &str) -> (r: Result<Self, UnknownArchiveFormat>)
        ensures
            match detect_format(file_name@) {
                Some(f) => r == Ok::<Self, UnknownArchiveFormat>(f),
                None => r matches Err(e) && e.file_name@ == file_name@,
            },
    {
        let formats = Self::supported_formats();
        let mut i: usize = 0;
        assert(format_registry().subrange(0, format_registry().len() as int) =~= format_registry());
        while i < formats.len()
            invariant
                formats@.len() == format_registry().len(),
                forall|k: int|
                    0 <= k < formats@.len() ==> formats@[k].0@ == format_registry()[k].0
                        && formats@[k].1 == format_registry()[k].1,
                i <= formats@.len(),
                detect_format(file_name@) == first_match(
                    format_registry().subrange(i as int, format_registry().len() as int),
                    file_name@,
                ),
            decreases formats@.len() - i,
        {
            let (suffix, format) = formats[i];
            let ghost rest = format_registry().subrange(i as int, format_registry().len() as int);
            if ends_with(file_name, suffix) {
                return Ok(format);
            }
            assert(rest.drop_first() =~= format_registry().subrange(
                i + 1,
                format_registry().len() as int,
            ));
            i = i + 1;
        }
        Err(UnknownArchiveFormat { file_name: String::from_str(file_name) })
    }

    /// Automatically detects an archive format from the file name of a path,
    /// and returns an error if the detection failed.
    pub fn autodetect(archive_file: &str) -> (r: Result<Self, UnknownArchiveFormat>)
        ensures
            match detect_format(detected_name(archive_file@)) {
                Some(f) => r == Ok::<Self, UnknownArchiveFormat>(f),
                None => r matches Err(e) && e.file_name@ == detected_name(archive_file@),
            },
    {
        match file_name(archive_file) {
            Some(name) => Self::autodetect_file_name(name.as_str()),
            None => {
                proof {
                    reveal_strlit("");
                    assert(""@ =~= Seq::<char>::empty());
                }
                Self::autodetect_file_name("")
            },
        }
    }
}

/// Every registered suffix selects its own format: a file name that ends in
/// the suffix of a registry entry is detected as that entry's format, and a
/// file name that ends in no registered suffix is detected as none.
pub proof fn lemma_autodetect_registry(name: Seq<char>)
    ensures
        forall|i: int|
            0 <= i < format_registry().len() && has_suffix(name, #[trigger] format_registry()[i].0)
                ==> detect_format(name) == Some(format_registry()[i].1),
        (forall|i: int|
            0 <= i < format_registry().len() ==> !has_suffix(name, #[trigger] format_registry()[i].0))
            ==> detect_format(name) is None,
{
    reveal_with_fuel(first_match, 2);
    assert(format_registry().drop_first().len() == 0);
    if forall|i: int|
        0 <= i < format_registry().len() ==> !has_suffix(name, #[trigger] format_registry()[i].0) {
        assert(!has_suffix(name, format_registry()[0].0));
    }
}

} // verus!
