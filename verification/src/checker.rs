use vstd::prelude::*;

use crate::cache;
use crate::errors::Error;
use crate::errors::UpdateInfo;
use crate::extract;
use crate::name;
use crate::version;

verus! {

/// The first action of a check, once the crate name has passed validation.
#[derive(Debug)]
pub enum CheckStart {
    /// Read the cache file at this path; a fresh entry supplies the latest
    /// version and no fetch follows.
    ReadCache { path: String },
    /// Fetch the registry response at once.
    Fetch,
}

/// Configuration for one update check against the registry. The checker
/// decides every step of the check — name validation, cache freshness,
/// response extraction and version comparison — while the caller carries out
/// the file reads, the file write and the HTTP fetch the steps ask for.
#[derive(Debug, Clone)]
pub struct UpdateChecker {
    /// The registry package the check asks about.
    pub crate_name: String,
    /// The version the caller is running.
    pub current_version: String,
    /// Seconds a cached value stays fresh; zero disables the cache read path.
    pub cache_duration_secs: u64,
    /// Seconds before the HTTP request times out.
    pub timeout_secs: u64,
    /// Directory holding the cache file; absent disables caching.
    pub cache_dir: Option<String>,
    /// Whether a pre-release latest version may count as an update.
    pub include_prerelease: bool,
}

/// The platform's cache directory as a plain path string, if the
/// environment names one.
///
/// Relies on `dirs::cache_dir`; the result depends on the machine and its
/// environment, so nothing is promised of it.
#[verifier::external_body]
fn default_cache_dir() -> Option<String> {
    dirs::cache_dir().and_then(|p| p.into_os_string().into_string().ok())
}

impl UpdateChecker {
    /// A checker with the defaults: a 24-hour cache window, a 5-second
    /// timeout, the platform cache directory, pre-releases excluded.
    pub fn new(crate_name: &str, current_version: &str) -> (r: UpdateChecker)
        ensures
            r.crate_name@ == crate_name@,
            r.current_version@ == current_version@,
            r.cache_duration_secs == 86400,
            r.timeout_secs == 5,
            r.include_prerelease == false,
    {
        UpdateChecker {
            crate_name: crate_name.to_owned(),
            current_version: current_version.to_owned(),
            cache_duration_secs: 24 * 60 * 60,
            timeout_secs: 5,
            cache_dir: default_cache_dir(),
            include_prerelease: false,
        }
    }

    /// Set the cache duration in seconds. Defaults to 24 hours; zero
    /// disables the cache read path.
    pub fn cache_duration(self, secs: u64) -> (r: UpdateChecker)
        ensures
            r == (UpdateChecker { cache_duration_secs: secs, ..self }),
    {
        UpdateChecker { cache_duration_secs: secs, ..self }
    }

    /// Set the HTTP request timeout in seconds. Defaults to 5 seconds.
    pub fn timeout(self, secs: u64) -> (r: UpdateChecker)
        ensures
            r == (UpdateChecker { timeout_secs: secs, ..self }),
    {
        UpdateChecker { timeout_secs: secs, ..self }
    }

    /// Set a custom cache directory. Defaults to the platform cache
    /// directory; `None` disables caching.
    pub fn cache_dir(self, dir: Option<String>) -> (r: UpdateChecker)
        ensures
            r == (UpdateChecker { cache_dir: dir, ..self }),
    {
        UpdateChecker { cache_dir: dir, ..self }
    }

    /// Let pre-release versions count as updates. Defaults to `false`.
    pub fn include_prerelease(self, enabled: bool) -> (r: UpdateChecker)
        ensures
            r == (UpdateChecker { include_prerelease: enabled, ..self }),
    {
        UpdateChecker { include_prerelease: enabled, ..self }
    }

    /// The cache file's path, `{cache_dir}/{crate_name}-update-check`, if a
    /// cache directory is set.
    pub open spec fn cache_path_spec(&self) -> Option<Seq<char>> {
        match self.cache_dir {
            Option::Some(d) => Option::Some(d@ + "/"@ + self.crate_name@ + "-update-check"@),
            Option::None => Option::None,
        }
    }

    /// The path of this checker's cache file, or nothing when no cache
    /// directory is set.
    pub fn cache_path(&self) -> (r: Option<String>)
        ensures
            match r {
                Some(p) => self.cache_path_spec() == Some(p@),
                None => self.cache_path_spec() is None,
            },
    {
        match &self.cache_dir {
            Option::Some(d) => {
                let mut p = d.clone();
                p.append("/");
                p.append(self.crate_name.as_str());
                p.append("-update-check");
                Some(p)
            },
            Option::None => None,
        }
    }

    /// The registry endpoint queried for this crate.
    pub fn registry_url(&self) -> (r: String)
        ensures
            r@ == "https://crates.io/api/v1/crates/"@ + self.crate_name@,
    {
        String::from_str("https://crates.io/api/v1/crates/").concat(self.crate_name.as_str())
    }

    /// Whether the cache read path is enabled: a positive cache duration and
    /// a cache directory to read from.
    pub open spec fn cache_read_enabled(&self) -> bool {
        self.cache_duration_secs > 0 && self.cache_dir is Some
    }

    /// Begin a check. An invalid crate name fails here, before any I/O is
    /// asked for; a valid one starts at the cache when the read path is
    /// enabled and at the fetch otherwise.
    pub fn check_start(&self) -> (r: Result<CheckStart, Error>)
        ensures
            r is Ok <==> name::valid_crate_name(self.crate_name@),
            r matches Err(e) ==> (e matches Error::InvalidCrateName(m) && m@
                == name::name_failure_text(name::name_failure(self.crate_name@)->0)),
            r matches Ok(s) ==> (if self.cache_read_enabled() {
                s matches CheckStart::ReadCache { path } && self.cache_path_spec() == Some(path@)
            } else {
                s is Fetch
            }),
    {
        match name::validate_crate_name(self.crate_name.as_str()) {
            Result::Err(e) => Err(e),
            Result::Ok(()) => {
                if self.cache_duration_secs > 0 {
                    match self.cache_path() {
                        Option::Some(path) => Ok(CheckStart::ReadCache { path }),
                        Option::None => Ok(CheckStart::Fetch),
                    }
                } else {
                    Ok(CheckStart::Fetch)
                }
            },
        }
    }

    /// Whether a cache entry of this age is still fresh under the configured
    /// window.
    pub fn is_fresh(&self, age_secs: u64) -> (r: bool)
        ensures
            r == (age_secs < self.cache_duration_secs),
    {
        cache::is_fresh(age_secs, self.cache_duration_secs)
    }

    /// Resolve what a fetch brought back: a transport failure becomes an
    /// HTTP error carrying its message, and a response body yields the
    /// extracted newest version or the extraction's parse error.
    pub fn resolve_fetched(&self, fetched: Result<String, String>) -> (r: Result<String, Error>)
        ensures
            fetched matches Err(m) ==> (r matches Err(e) && e matches Error::HttpError(mm) && mm@
                == m@),
            fetched matches Ok(body) ==> ({
                &&& r matches Ok(v) ==> extract::extract_spec(body@) == Ok::<
                    Seq<char>,
                    extract::ExtractFailure,
                >(v@)
                &&& r matches Err(e) ==> ({
                    &&& extract::extract_spec(body@) is Err
                    &&& e matches Error::ParseError(mm) && mm@ == extract::extract_failure_text(
                        extract::extract_spec(body@)->Err_0,
                    )
                })
            }),
    {
        match fetched {
            Result::Ok(body) => extract::extract_newest_version(body.as_str()),
            Result::Err(m) => Err(Error::HttpError(m)),
        }
    }

    /// Judge a resolved latest version against the configured current
    /// version and pre-release policy.
    pub fn evaluate(&self, latest: &str) -> (r: Result<Option<UpdateInfo>, Error>)
        ensures
            version::parse_spec(self.current_version@) is None ==> (r matches Err(e)
                && e matches Error::VersionError(m) && m@ == "invalid current version"@),
            version::parse_spec(self.current_version@) is Some && version::parse_spec(latest@)
                is None ==> (r matches Err(e) && e matches Error::VersionError(m) && m@
                == "invalid latest version"@),
            version::parse_spec(self.current_version@) is Some && version::parse_spec(latest@)
                is Some ==> ({
                let c = version::parse_spec(self.current_version@)->0;
                let l = version::parse_spec(latest@)->0;
                if !self.include_prerelease && l.pre.len() > 0 {
                    r matches Ok(o) && o is None
                } else if version::precedes(c, l) {
                    r matches Ok(o) && o matches Some(u) && u.current@ == self.current_version@
                        && u.latest@ == latest@
                } else {
                    r matches Ok(o) && o is None
                }
            }),
    {
        version::is_update_available(
            self.current_version.as_str(),
            latest,
            self.include_prerelease,
        )
    }
}

/// With the cache duration zero the read path is never enabled, whatever
/// cache directory is set: a check with a valid name then always begins at
/// the fetch.
pub proof fn lemma_zero_duration_disables_cache(c: &UpdateChecker)
    requires
        c.cache_duration_secs == 0,
    ensures
        !c.cache_read_enabled(),
{
}

} // verus!
