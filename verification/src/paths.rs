//! Client-side resolution of configuration and data directories.
//!
//! The rules are pure precedence functions over the relevant environment
//! values, which the caller reads once and passes in as plain options. This
//! keeps the rules testable without mutating real process state: the caller
//! owns the (platform-specific) environment lookup, this module owns the
//! precedence and the resulting path.

use vstd::prelude::*;
use vstd::string::StringExecFns;
use crate::error::ServiceError;

verus! {

/// The view of an optional borrowed string, as an optional character sequence.
pub open spec fn opt_str_view(o: Option<&str>) -> Option<Seq<char>> {
    match o {
        Some(s) => Some(s@),
        None => None,
    }
}

/// The home directory is exactly the platform's home environment variable
/// (`HOME` on POSIX, `USERPROFILE` on Windows); there is no sane default, so
/// an unset variable is a fatal error.
pub open spec fn home_dir_of(home: Option<Seq<char>>) -> Option<Seq<char>> {
    home
}

/// Precedence rule for the configuration directory: an explicit
/// `XDG_CONFIG_HOME` wins over the home-derived default.
pub open spec fn config_dir_of(xdg_config_home: Option<Seq<char>>, home: Option<Seq<char>>) -> Option<
    Seq<char>,
> {
    match xdg_config_home {
        Some(x) => Some(x + "/atuin"@),
        None => match home {
            Some(h) => Some(h + "/.config/atuin"@),
            None => None,
        },
    }
}

/// Precedence rule for the data directory: an explicit `XDG_DATA_HOME` wins
/// over the home-derived default.
pub open spec fn data_dir_of(xdg_data_home: Option<Seq<char>>, home: Option<Seq<char>>) -> Option<
    Seq<char>,
> {
    match xdg_data_home {
        Some(x) => Some(x + "/atuin"@),
        None => match home {
            Some(h) => Some(h + "/.local/share/atuin"@),
            None => None,
        },
    }
}

/// Best-effort working directory: prefer `PWD` (it reflects symlinked
/// directories), fall back to the OS-reported directory, and degrade to the
/// empty string rather than fail.
pub open spec fn current_dir_of(pwd: Option<Seq<char>>, os_dir: Option<Seq<char>>) -> Seq<char> {
    match pwd {
        Some(p) => p,
        None => match os_dir {
            Some(d) => d,
            None => Seq::<char>::empty(),
        },
    }
}

/// Resolves the home directory from the platform's home environment variable,
/// failing fatally when it is unset.
pub fn home_dir(home: Option<&str>) -> (r: Result<String, ServiceError>)
    ensures
        match r {
            Ok(p) => home_dir_of(opt_str_view(home)) == Some(p@),
            Err(e) => home_dir_of(opt_str_view(home)) is None && e == ServiceError::Fatal,
        },
{
    match home {
        Some(h) => Ok(h.to_owned()),
        None => Err(ServiceError::Fatal),
    }
}

/// Resolves the configuration directory: `<XDG_CONFIG_HOME>/atuin` when that
/// variable is set, else `<home>/.config/atuin`, and a fatal error when
/// neither is available.
pub fn config_dir(xdg_config_home: Option<&str>, home: Option<&str>) -> (r: Result<
    String,
    ServiceError,
>)
    ensures
        match r {
            Ok(p) => config_dir_of(opt_str_view(xdg_config_home), opt_str_view(home)) == Some(p@),
            Err(e) => config_dir_of(opt_str_view(xdg_config_home), opt_str_view(home)) is None
                && e == ServiceError::Fatal,
        },
{
    match xdg_config_home {
        Some(x) => Ok(x.to_owned().concat("/atuin")),
        None => match home {
            Some(h) => Ok(h.to_owned().concat("/.config/atuin")),
            None => Err(ServiceError::Fatal),
        },
    }
}

/// Resolves the data directory: `<XDG_DATA_HOME>/atuin` when that variable is
/// set, else `<home>/.local/share/atuin`, and a fatal error when neither is
/// available.
pub fn data_dir(xdg_data_home: Option<&str>, home: Option<&str>) -> (r: Result<
    String,
    ServiceError,
>)
    ensures
        match r {
            Ok(p) => data_dir_of(opt_str_view(xdg_data_home), opt_str_view(home)) == Some(p@),
            Err(e) => data_dir_of(opt_str_view(xdg_data_home), opt_str_view(home)) is None
                && e == ServiceError::Fatal,
        },
{
    match xdg_data_home {
        Some(x) => Ok(x.to_owned().concat("/atuin")),
        None => match home {
            Some(h) => Ok(h.to_owned().concat("/.local/share/atuin")),
            None => Err(ServiceError::Fatal),
        },
    }
}

/// Resolves the working directory from `PWD` and the OS-reported directory;
/// never fails, degrading to the empty string.
pub fn get_current_dir(pwd: Option<&str>, os_dir: Option<&str>) -> (r: String)
    ensures
        r@ == current_dir_of(opt_str_view(pwd), opt_str_view(os_dir)),
{
    match pwd {
        Some(p) => p.to_owned(),
        None => match os_dir {
            Some(d) => d.to_owned(),
            None => String::new(),
        },
    }
}

} // verus!
