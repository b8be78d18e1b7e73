//! Telling the recording to read among the files of a directory.

use crate::constants::{EXTENSION_TXT, EXTENSION_ZIP};
use crate::text::{ends_with, str_ends_with};
use vstd::prelude::*;

verus! {

/// Why no input was found.
#[derive(PartialEq, Eq, Clone, Copy, Debug, Structural)]
pub enum InputDiscoveryError {
    /// No file is a recording.
    NoInputFile,
    /// More than one file is a recording.
    AmbiguousInput,
}

/// What kind of recording a file's name announces: plain text (`false`), a zip archive
/// (`true`), or none.
pub open spec fn kind_of_name(filename: Seq<char>) -> Option<bool> {
    if ends_with(filename, EXTENSION_TXT@) {
        Some(false)
    } else if ends_with(filename, EXTENSION_ZIP@) {
        Some(true)
    } else {
        None
    }
}

/// The file at position `i` of `filenames` is a recording.
pub open spec fn is_candidate(filenames: Seq<Seq<char>>, i: int) -> bool {
    0 <= i < filenames.len() && kind_of_name(filenames[i]) is Some
}

/// What kind of recording the name of a file announces.
pub fn input_kind(filename: &str) -> (kind: Option<bool>)
    ensures
        kind == kind_of_name(filename@),
{
    if str_ends_with(filename, EXTENSION_TXT) {
        Some(false)
    } else if str_ends_with(filename, EXTENSION_ZIP) {
        Some(true)
    } else {
        None
    }
}

/// Finds the one recording among the files of a directory, and tells whether it is a zip
/// archive. It is an error if there is none, and if there is more than one.
pub fn find_input_file(filenames: &[String]) -> (found: Result<(String, bool), InputDiscoveryError>)
    ensures
        match found {
            Ok((name, is_zip)) => exists|i: int|
                {
                    &&& #[trigger] is_candidate(filenames.deep_view(), i)
                    &&& name@ == filenames.deep_view()[i]
                    &&& kind_of_name(name@) == Some(is_zip)
                    &&& forall|j: int| #[trigger]
                        is_candidate(filenames.deep_view(), j) ==> j == i
                },
            Err(InputDiscoveryError::NoInputFile) => forall|j: int|
                !#[trigger] is_candidate(filenames.deep_view(), j),
            Err(InputDiscoveryError::AmbiguousInput) => exists|i: int, j: int|
                {
                    &&& i != j
                    &&& #[trigger] is_candidate(filenames.deep_view(), i)
                    &&& #[trigger] is_candidate(filenames.deep_view(), j)
                },
        },
{
    let ghost names = filenames.deep_view();
    let mut found: Option<(usize, bool)> = None;
    let mut i: usize = 0;
    while i < filenames.len()
        invariant
            names == filenames.deep_view(),
            i <= filenames.len(),
            match found {
                Some((at, is_zip)) => {
                    &&& at < i
                    &&& kind_of_name(names[at as int]) == Some(is_zip)
                    &&& forall|j: int| 0 <= j < i && #[trigger] is_candidate(names, j) ==> j == at
                },
                None => forall|j: int| 0 <= j < i ==> !#[trigger] is_candidate(names, j),
            },
        decreases filenames.len() - i,
    {
        match input_kind(filenames[i].as_str()) {
            Some(is_zip) => {
                match found {
                    Some((at, _)) => {
                        assert(is_candidate(names, at as int) && is_candidate(names, i as int));
                        return Err(InputDiscoveryError::AmbiguousInput);
                    },
                    None => {
                        found = Some((i, is_zip));
                    },
                }
            },
            None => {},
        }
        i = i + 1;
    }
    match found {
        Some((at, is_zip)) => {
            assert(is_candidate(names, at as int));
            Ok((filenames[at].clone(), is_zip))
        },
        None => Err(InputDiscoveryError::NoInputFile),
    }
}

} // verus!
