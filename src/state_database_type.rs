use vstd::prelude::*;

use crate::text::{has_prefix, str_equal, strip_prefix, trim, trimmed_of};

verus! {

/// Where the persisted desired states live.
#[derive(Clone, Debug, PartialEq, Eq)]
pub enum StateDatabaseType {
    /// A file at this absolute path: survives restarts.
    File(String),
    /// A map that lives as long as the process.
    Memory,
}

/// The descriptor of a store, as a mathematical value.
pub enum StateDatabaseTypeView {
    File(Seq<char>),
    Memory,
}

impl StateDatabaseType {
    pub open spec fn view(&self) -> StateDatabaseTypeView {
        match self {
            StateDatabaseType::File(p) => StateDatabaseTypeView::File(p@),
            StateDatabaseType::Memory => StateDatabaseTypeView::Memory,
        }
    }

    /// Whether what is stored survives a restart of the process.
    pub fn is_durable(&self) -> (r: bool)
        ensures
            r == (self.view() is File),
    {
        match self {
            StateDatabaseType::File(_) => true,
            StateDatabaseType::Memory => false,
        }
    }
}

/// Why a store descriptor was refused.
#[derive(Clone, Copy, Debug, PartialEq, Eq, Structural)]
pub enum ConfigError {
    /// The descriptor is not a URL.
    InvalidUrl,
    /// The scheme is `file` but the descriptor does not begin with `file://`.
    InvalidFileUrl,
    /// A `file://` descriptor without a path.
    EmptyFilePath,
    /// A `file://` descriptor whose path is not absolute.
    RelativeFilePath,
    /// A scheme other than `file` and `memory`.
    UnsupportedScheme,
}

/// The name of the scheme that `url::Url::parse` finds in a string, or
/// `None` where it finds no absolute URL.
pub uninterp spec fn url_scheme_of(s: Seq<char>) -> Option<Seq<char>>;

/// Relies on `url::Url::parse`, which either finds an absolute URL in the
/// string or fails, and on `url::Url::scheme`, which returns its scheme
/// (lower-cased, without the ':').
#[verifier::external_body]
fn url_scheme(input: &str) -> (r: Option<String>)
    ensures
        match r {
            Some(s) => url_scheme_of(input@) == Some(s@),
            None => url_scheme_of(input@) is None,
        },
{
    url::Url::parse(input).ok().map(|u| u.scheme().to_string())
}

/// A file store's path must be non-empty and absolute.
pub open spec fn file_path_spec(path: Seq<char>) -> Result<StateDatabaseTypeView, ConfigError> {
    if path.len() == 0 {
        Err(ConfigError::EmptyFilePath)
    } else if path[0] != '/' {
        Err(ConfigError::RelativeFilePath)
    } else {
        Ok(StateDatabaseTypeView::File(path))
    }
}

/// What a descriptor selects, given the scheme that URL parsing found in it.
pub open spec fn descriptor_spec(scheme: Option<Seq<char>>, input: Seq<char>) -> Result<
    StateDatabaseTypeView,
    ConfigError,
> {
    match scheme {
        None => Err(ConfigError::InvalidUrl),
        Some(s) => if s == "memory"@ {
            Ok(StateDatabaseTypeView::Memory)
        } else if s == "file"@ {
            if has_prefix(input, "file://"@) {
                file_path_spec(trimmed_of(input.skip(7)))
            } else {
                Err(ConfigError::InvalidFileUrl)
            }
        } else {
            Err(ConfigError::UnsupportedScheme)
        },
    }
}

pub open spec fn result_view(r: Result<StateDatabaseType, ConfigError>) -> Result<
    StateDatabaseTypeView,
    ConfigError,
> {
    match r {
        Ok(t) => Ok(t.view()),
        Err(e) => Err(e),
    }
}

/// The store kind for an already trimmed file path.
pub fn file_database_type(path: &str) -> (r: Result<StateDatabaseType, ConfigError>)
    ensures
        result_view(r) == file_path_spec(path@),
{
    if path.unicode_len() == 0 {
        Err(ConfigError::EmptyFilePath)
    } else if path.get_char(0) != '/' {
        Err(ConfigError::RelativeFilePath)
    } else {
        Ok(StateDatabaseType::File(path.to_owned()))
    }
}

/// The store kind for a descriptor, given the scheme that URL parsing found
/// in it (`None` where it is no URL).
pub fn database_type_for_scheme(scheme: Option<&str>, input: &str) -> (r: Result<
    StateDatabaseType,
    ConfigError,
>)
    ensures
        result_view(r) == descriptor_spec(
            match scheme {
                Some(s) => Some(s@),
                None => None,
            },
            input@,
        ),
{
    proof {
        reveal_strlit("file://");
    }
    match scheme {
        None => Err(ConfigError::InvalidUrl),
        Some(s) => {
            if str_equal(s, "memory") {
                Ok(StateDatabaseType::Memory)
            } else if str_equal(s, "file") {
                match strip_prefix(input, "file://") {
                    Some(rest) => file_database_type(trim(rest)),
                    None => Err(ConfigError::InvalidFileUrl),
                }
            } else {
                Err(ConfigError::UnsupportedScheme)
            }
        },
    }
}

impl StateDatabaseType {
    /// Reads a store descriptor: `memory://`, or `file://` followed by an
    /// absolute path.
    pub fn from_str(input: &str) -> (r: Result<StateDatabaseType, ConfigError>)
        ensures
            result_view(r) == descriptor_spec(url_scheme_of(input@), input@),
    {
        let scheme = url_scheme(input);
        match &scheme {
            Some(s) => database_type_for_scheme(Some(s.as_str()), input),
            None => database_type_for_scheme(None, input),
        }
    }
}

} // verus!
