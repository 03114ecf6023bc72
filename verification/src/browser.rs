//! The browser record: either a browser discovered on the host or one the
//! orchestrator has acquired, together with its driver.

use vstd::prelude::*;

use crate::errors::{ArchiveError, ResolveError};
use crate::strutil::{ends_with_spec, find_char, str_ends_with, str_eq};
use crate::urls::{parse_for_urls, DownloadLinks, UrlRequest};
use crate::version::{
    first_at, lemma_first_at, lemma_first_at_is, name_of_spec, version_of_spec,
};

verus! {

/// A (browser, driver) pair on a host: where the executables live (or are
/// to be placed), which version is wanted or was resolved, and the host
/// platform names the record was made for.
#[derive(Debug, Clone)]
pub struct Browser {
    pub name: String,
    pub driver_path: String,
    pub browser_path: String,
    pub version: String,
    pub bitness: String,
    pub os: String,
}

/// The browser name portion of `s`: everything before the first `@`.
pub fn name_from(s: &str) -> (r: String)
    ensures
        r@ == name_of_spec(s@),
{
    proof {
        lemma_first_at(s@);
    }
    match find_char(s, '@') {
        Some(i) => {
            proof {
                lemma_first_at_is(s@, i as int);
            }
            let r = s.substring_char(0, i).to_owned();
            proof {
                assert(r@ =~= name_of_spec(s@));
            }
            r
        },
        None => s.to_owned(),
    }
}

/// The version portion of `s`: everything after the first `@`, or the
/// `latest` sentinel when there is none.
pub fn version_from(s: &str) -> (r: String)
    ensures
        r@ == version_of_spec(s@),
{
    proof {
        lemma_first_at(s@);
    }
    let n = s.unicode_len();
    match find_char(s, '@') {
        Some(i) => {
            proof {
                lemma_first_at_is(s@, i as int);
            }
            let r = s.substring_char(i + 1, n).to_owned();
            proof {
                assert(r@ =~= version_of_spec(s@));
            }
            r
        },
        None => "latest".to_owned(),
    }
}

impl Browser {
    /// Builds a record from a `name[@version]` token. The record's name is
    /// the browser name alone: everything before the first `@`. An empty
    /// `version` means "not yet decided": the version is then read from
    /// the token, defaulting to `latest`. The platform names come from the
    /// caller, which reads them from the host environment.
    pub fn new(
        name: String,
        driver_path: String,
        browser_path: String,
        version: String,
        os: String,
        bitness: String,
    ) -> (r: Browser)
        ensures
            r.name@ == name_of_spec(name@),
            r.driver_path@ == driver_path@,
            r.browser_path@ == browser_path@,
            r.os@ == os@,
            r.bitness@ == bitness@,
            r.version@ == if version@.len() > 0 {
                version@
            } else {
                version_of_spec(name@)
            },
    {
        let resolved_version: String = if version.as_str().unicode_len() > 0 {
            version
        } else {
            version_from(name.as_str())
        };
        let parsed_name = name_from(name.as_str());
        Browser {
            name: parsed_name,
            driver_path,
            browser_path,
            version: resolved_version,
            os,
            bitness,
        }
    }

    /// An owned copy with the same fields.
    pub fn duplicate(&self) -> (r: Browser)
        ensures
            r == *self,
    {
        let r = Browser {
            name: self.name.clone(),
            driver_path: self.driver_path.clone(),
            browser_path: self.browser_path.clone(),
            version: self.version.clone(),
            bitness: self.bitness.clone(),
            os: self.os.clone(),
        };
        r
    }

    /// Whether `file` names a browser installer for this record's
    /// platform, judged by its suffix: `.tar.gz` on linux, `.exe` on
    /// windows, `.dmg` elsewhere.
    pub fn _is_installer(&self, file: String) -> (r: Result<bool, ArchiveError>)
        ensures
            r matches Ok(b) && b == if self.os@ == "linux"@ {
                ends_with_spec(file@, ".tar.gz"@)
            } else if self.os@ == "windows"@ {
                ends_with_spec(file@, ".exe"@)
            } else {
                ends_with_spec(file@, ".dmg"@)
            },
    {
        if str_eq(self.os.as_str(), "linux") {
            Ok(str_ends_with(file.as_str(), ".tar.gz"))
        } else if str_eq(self.os.as_str(), "windows") {
            Ok(str_ends_with(file.as_str(), ".exe"))
        } else {
            Ok(str_ends_with(file.as_str(), ".dmg"))
        }
    }

    /// Resolves this record's download URLs. The browser name portion of
    /// `name` is handed to the resolver; `latest_lookup` is the outcome of
    /// the driver "latest version" lookup the caller performed.
    pub fn get_download_urls(&self, latest_lookup: Option<&str>) -> (r: Result<
        DownloadLinks,
        ResolveError,
    >)
        ensures
            ({
                let s = crate::urls::resolve_spec(
                    name_of_spec(self.name@),
                    self.os@,
                    self.bitness@,
                    self.version@,
                    crate::urls::lookup_view(latest_lookup),
                );
                match r {
                    Ok(links) => s matches Ok(t) && links.browser_url@ == t.0 && links.driver_url@
                        == t.1 && links.version@ == t.2 && links.wf(),
                    Err(e) => s matches Err(f) && e == f,
                }
            }),
    {
        let data = UrlRequest {
            application: name_from(self.name.as_str()),
            platform: self.os.clone(),
            bitness: self.bitness.clone(),
            version: self.version.clone(),
        };
        parse_for_urls(&data, latest_lookup)
    }
}

} // verus!
