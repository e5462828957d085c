//! The invocation's plain data: the application configuration and the
//! arguments of the `info`, `add` and `create` commands, with the parsing
//! that belongs to them.

use vstd::prelude::*;
use crate::media::MediaType;
use crate::text::{eq_ignore_ascii_case, spec_eq_ascii_ci};

verus! {

/// The application configuration: where the library lives and what it is
/// called.
#[derive(Debug, Clone, PartialEq, Eq)]
pub struct AppConfig {
    pub version: u8,
    pub library_path: String,
    pub library_name: String,
}

impl AppConfig {
    /// A fresh configuration for a given library path: the current
    /// configuration version and the default library name.
    pub fn with_path(library_path: String) -> (c: AppConfig)
        ensures
            c.version == 1,
            c.library_path == library_path,
            c.library_name@ == "shiro-lib"@,
    {
        AppConfig { version: 1, library_path, library_name: "shiro-lib".to_owned() }
    }
}

/// The `info` command's arguments: an optional query string (absent means
/// report on the library itself) and the detail flag.
#[derive(Debug, Clone, PartialEq, Eq)]
pub struct Info {
    pub media: Option<String>,
    pub detail: bool,
}

/// The `add` command's arguments: either an explicit file list or a
/// manifest file (mutually exclusive), an optional type override, a title
/// and comment applied only to single-file batches, a series intent, and
/// the sorted-binding flag.
#[derive(Debug, Clone, PartialEq, Eq)]
pub struct Add {
    pub _move: bool,
    pub comment: Option<String>,
    pub title: Option<String>,
    pub _type: Option<MediaType>,
    pub file: Vec<String>,
    pub input: Option<String>,
    pub series: Option<String>,
    pub new_series: Option<String>,
    pub sorted: bool,
}

/// What a `create` command creates.
#[derive(Debug, Clone, Copy, PartialEq, Eq, Structural)]
pub enum CreateType {
    Series,
    Tag,
}

/// The `create` command's arguments.
#[derive(Debug, Clone, PartialEq, Eq)]
pub struct Create {
    pub _type: CreateType,
    pub title: String,
    pub comment: Option<String>,
    pub uuid_only: bool,
}

/// Which creation type a user-entered string names: `series` or `s`, and
/// `tag` or `t`, ASCII case-insensitively; any other string names none.
pub open spec fn spec_parse_create_type(s: Seq<char>) -> Option<CreateType> {
    if spec_eq_ascii_ci(s, "series"@) || spec_eq_ascii_ci(s, "s"@) {
        Some(CreateType::Series)
    } else if spec_eq_ascii_ci(s, "tag"@) || spec_eq_ascii_ci(s, "t"@) {
        Some(CreateType::Tag)
    } else {
        None
    }
}

impl CreateType {
    /// Parses a user-entered creation type, reporting the rejected input
    /// in the error.
    pub fn from_text(s: &str) -> (r: Result<CreateType, String>)
        ensures
            spec_parse_create_type(s@) matches Some(t) ==> r == Ok::<CreateType, String>(t),
            spec_parse_create_type(s@) is None ==> (r matches Err(m) && m@ == s@
                + " cannot be parsed into type annotation."@),
    {
        if eq_ignore_ascii_case(s, "series") || eq_ignore_ascii_case(s, "s") {
            Ok(CreateType::Series)
        } else if eq_ignore_ascii_case(s, "tag") || eq_ignore_ascii_case(s, "t") {
            Ok(CreateType::Tag)
        } else {
            Err(s.to_owned().concat(" cannot be parsed into type annotation."))
        }
    }
}

} // verus!
