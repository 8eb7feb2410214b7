//! The decisions behind configuration-file loading.
//!
//! Reading the file, walking the current directory, and deserializing are
//! I/O and live outside the crate.  What is decided here, under contract:
//! which data format a file extension selects, and which directory entry
//! names count as a configuration file.

use vstd::prelude::*;
use vstd::string::*;

verus! {

/// Why a configuration file could not be loaded.
#[derive(Debug)]
pub enum LoadConfigError {
    UnsupportedFileType(String),
    MissingFileType,
    MissingFile,
}

/// The two data formats a configuration file may be written in.
#[derive(Clone, Copy, PartialEq, Eq, Structural, Debug)]
pub enum ConfigFormat {
    Yaml,
    Json,
}

/// The data format selected by a file extension.  `yml`, `yaml`, and a
/// missing or undecodable extension select YAML; `json` selects JSON; any
/// other extension is unsupported.
pub fn config_format_for_extension(ext: Option<String>) -> (r: Result<
    ConfigFormat,
    LoadConfigError,
>)
    ensures
        match ext {
            None => r == Ok::<_, LoadConfigError>(ConfigFormat::Yaml),
            Some(e) => if e@ == "yml"@ || e@ == "yaml"@ {
                r == Ok::<_, LoadConfigError>(ConfigFormat::Yaml)
            } else if e@ == "json"@ {
                r == Ok::<_, LoadConfigError>(ConfigFormat::Json)
            } else {
                (r matches Err(LoadConfigError::UnsupportedFileType(x)) && x@ == e@)
            },
        },
{
    match ext {
        None => Ok(ConfigFormat::Yaml),
        Some(e) => {
            if e == String::from_str("yml") || e == String::from_str("yaml") {
                Ok(ConfigFormat::Yaml)
            } else if e == String::from_str("json") {
                Ok(ConfigFormat::Json)
            } else {
                Err(LoadConfigError::UnsupportedFileType(e))
            }
        },
    }
}

/// Whether `needle` occurs in `hay` starting at position `i`.
pub open spec fn contains_at(hay: Seq<char>, needle: Seq<char>, i: int) -> bool {
    0 <= i && i + needle.len() <= hay.len() && hay.subrange(i, i + needle.len() as int) == needle
}

/// Whether `needle` occurs anywhere in `hay`.
pub open spec fn contains_substring(hay: Seq<char>, needle: Seq<char>) -> bool {
    exists|i: int| contains_at(hay, needle, i)
}

fn match_at(hay: &str, needle: &str, i: usize, h: usize, nl: usize) -> (r: bool)
    requires
        h == hay@.len(),
        nl == needle@.len(),
        i + nl <= h,
    ensures
        r == contains_at(hay@, needle@, i as int),
{
    let mut j: usize = 0;
    while j < nl
        invariant
            j <= nl,
            h == hay@.len(),
            nl == needle@.len(),
            i + nl <= h,
            forall|k: int| 0 <= k < j ==> hay@[i + k] == needle@[k],
        decreases nl - j,
    {
        if hay.get_char(i + j) != needle.get_char(j) {
            proof {
                if contains_at(hay@, needle@, i as int) {
                    assert(hay@.subrange(i as int, i as int + needle@.len() as int)[j as int]
                        == hay@[i as int + j as int]);
                }
            }
            return false;
        }
        j += 1;
    }
    proof {
        assert(hay@.subrange(i as int, i as int + needle@.len() as int) =~= needle@);
    }
    true
}

fn str_contains_str(hay: &str, needle: &str) -> (r: bool)
    ensures
        r == contains_substring(hay@, needle@),
{
    let h = hay.unicode_len();
    let nl = needle.unicode_len();
    if nl > h {
        proof {
            assert(forall|i: int| !contains_at(hay@, needle@, i));
        }
        return false;
    }
    if nl == 0 {
        proof {
            assert(hay@.subrange(0, 0) =~= needle@);
            assert(contains_at(hay@, needle@, 0));
        }
        return true;
    }
    let mut i: usize = 0;
    while i <= h - nl
        invariant
            0 < nl <= h,
            h == hay@.len(),
            nl == needle@.len(),
            i <= h - nl + 1,
            forall|k: int| 0 <= k < i ==> !contains_at(hay@, needle@, k),
        decreases h - nl + 1 - i,
    {
        if match_at(hay, needle, i, h, nl) {
            return true;
        }
        i += 1;
    }
    proof {
        assert forall|k: int| !contains_at(hay@, needle@, k) by {
            if k >= i {
                assert(k + needle@.len() > hay@.len());
            }
        }
    }
    false
}

/// Whether a directory entry name is taken for the configuration file: the
/// discovery heuristic accepts any name in which `ellipsis` occurs.
pub fn is_config_file_name(name: &str) -> (r: bool)
    ensures
        r == contains_substring(name@, "ellipsis"@),
{
    str_contains_str(name, "ellipsis")
}

impl LoadConfigError {
    /// A human-readable description of the error.
    pub fn message(&self) -> (r: String)
        ensures
            match self {
                LoadConfigError::UnsupportedFileType(t) => r@ == "Unsupported file type `"@ + t@
                    + "`"@,
                LoadConfigError::MissingFileType => r@ == "Missing file type"@,
                LoadConfigError::MissingFile => r@ == "Cannot find config file"@,
            },
    {
        match self {
            LoadConfigError::UnsupportedFileType(t) => {
                let mut m = String::from_str("Unsupported file type `");
                m.append(t.as_str());
                m.append("`");
                m
            },
            LoadConfigError::MissingFileType => String::from_str("Missing file type"),
            LoadConfigError::MissingFile => String::from_str("Cannot find config file"),
        }
    }
}

} // verus!
