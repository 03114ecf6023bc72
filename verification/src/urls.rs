//! URL resolver: derives the browser-installer URL and the driver-archive
//! URL for a requested browser, platform and version.
//!
//! The "latest version" network lookups are performed by the caller; their
//! outcome is handed in as a plain optional string. A failed or unusable
//! lookup is surfaced as [`ResolveError::UpstreamLookup`] rather than being
//! interpolated into a malformed URL.

use vstd::prelude::*;

use crate::errors::ResolveError;
use crate::platform::{
    describe, driver_token_spec, installer_token, installer_token_spec, parse_arch,
    parse_arch_spec, parse_browser, parse_browser_spec, parse_os, parse_os_spec, Arch,
    BrowserKind, Os,
};

verus! {

/// A resolution request: browser name, raw platform and architecture
/// names, and the requested version (possibly the `latest` sentinel).
#[derive(Debug)]
pub struct UrlRequest {
    pub application: String,
    pub platform: String,
    pub bitness: String,
    pub version: String,
}

/// The resolver's product: both download URLs and the concrete version
/// obtained from the upstream lookup.
#[derive(Debug, Clone)]
pub struct DownloadLinks {
    pub browser_url: String,
    pub driver_url: String,
    pub version: String,
}

impl DownloadLinks {
    /// The resolved version is always a concrete version string: never
    /// empty and never the literal `latest`.
    pub open spec fn wf(self) -> bool {
        self.version@.len() > 0 && self.version@ != "latest"@
    }
}

/// The Firefox installer URL: the vendor download endpoint parameterized
/// by product name, version, platform token and locale.
pub open spec fn firefox_installer_url_spec(
    application: Seq<char>,
    version: Seq<char>,
    token: Seq<char>,
) -> Seq<char> {
    "https://download.mozilla.org/?product="@ + application + "-"@ + version + "&os="@ + token
        + "&lang=en-US"@
}

/// The geckodriver archive URL under a concrete release tag: a `.zip` on
/// Windows, a `.tar.gz` elsewhere.
pub open spec fn firefox_driver_url_spec(tag: Seq<char>, token: Seq<char>, windows: bool) -> Seq<
    char,
> {
    "https://github.com/mozilla/geckodriver/releases/download/"@ + tag + "/geckodriver-"@ + tag
        + "-"@ + token + (if windows {
        ".zip"@
    } else {
        ".tar.gz"@
    })
}

/// The chromedriver archive URL for a concrete version and platform token.
pub open spec fn chrome_driver_url_spec(version: Seq<char>, token: Seq<char>) -> Seq<char> {
    "https://chromedriver.storage.googleapis.com/"@ + version + "/chromedriver_"@ + token
        + ".zip"@
}

/// The Chrome installer URL: the enterprise-bundle download page. On macOS
/// the page is keyed by a dedicated universal-DMG token instead of the
/// driver bucket's platform token.
pub open spec fn chrome_installer_url_spec(os: Os, token: Seq<char>) -> Seq<char> {
    if os is MacOs {
        "https://chromeenterprise.google/browser/download/thank-you/?platform=UNIVERSAL_MAC_DMG&channel=stable&usagestats=0"@
    } else {
        "https://chromeenterprise.google/browser/download/thank-you/?platform="@ + token
            + "_BUNDLE&channel=stable&usagestats=0"@
    }
}

/// A `latest` lookup outcome is usable only when it produced a non-empty
/// concrete version that is not itself the `latest` sentinel.
pub open spec fn usable_lookup(lookup: Option<Seq<char>>) -> bool {
    lookup matches Some(v) && v.len() > 0 && v != "latest"@
}

/// What the resolver returns for a request and a lookup outcome:
/// `(browser_url, driver_url, resolved_version)`, or the first failure.
pub open spec fn resolve_spec(
    application: Seq<char>,
    platform: Seq<char>,
    bitness: Seq<char>,
    version: Seq<char>,
    lookup: Option<Seq<char>>,
) -> Result<(Seq<char>, Seq<char>, Seq<char>), ResolveError> {
    match parse_browser_spec(application) {
        None => Err(ResolveError::UnsupportedBrowser),
        Some(kind) => match parse_os_spec(platform) {
            None => Err(ResolveError::UnsupportedPlatform),
            Some(os) => if !usable_lookup(lookup) {
                Err(ResolveError::UpstreamLookup)
            } else {
                let tag = lookup->Some_0;
                let arch = parse_arch_spec(bitness);
                let dtoken = driver_token_spec(kind, os, arch);
                match kind {
                    BrowserKind::Firefox => Ok(
                        (
                            firefox_installer_url_spec(
                                application,
                                version,
                                installer_token_spec(os, arch),
                            ),
                            firefox_driver_url_spec(tag, dtoken, os is Windows),
                            tag,
                        ),
                    ),
                    BrowserKind::Chrome => Ok(
                        (
                            chrome_installer_url_spec(os, dtoken),
                            chrome_driver_url_spec(tag, dtoken),
                            tag,
                        ),
                    ),
                }
            },
        },
    }
}

/// Whatever the resolver returns on success, for every request and every
/// lookup outcome: the resolved version is the lookup's concrete value —
/// never empty, never the `latest` sentinel.
pub proof fn lemma_resolved_version_concrete(
    application: Seq<char>,
    platform: Seq<char>,
    bitness: Seq<char>,
    version: Seq<char>,
    lookup: Option<Seq<char>>,
)
    ensures
        resolve_spec(application, platform, bitness, version, lookup) matches Ok(t) ==> (
        lookup matches Some(tag) && t.2 == tag && t.2.len() > 0 && t.2 != "latest"@),
{
}

/// Builds the Firefox installer URL for a request, for any product name.
/// Fails only when the platform name is unknown.
pub fn parse_for_url(data: &UrlRequest) -> (r: Result<String, ResolveError>)
    ensures
        r is Ok <==> parse_os_spec(data.platform@) is Some,
        r matches Ok(u) ==> u@ == firefox_installer_url_spec(
            data.application@,
            data.version@,
            installer_token_spec(
                parse_os_spec(data.platform@)->Some_0,
                parse_arch_spec(data.bitness@),
            ),
        ),
        r matches Err(e) ==> e == ResolveError::UnsupportedPlatform,
{
    let os = match parse_os(data.platform.as_str()) {
        Some(os) => os,
        None => {
            return Err(ResolveError::UnsupportedPlatform);
        },
    };
    let arch = parse_arch(data.bitness.as_str());
    let token = installer_token(os, arch);
    let mut u = String::new();
    u.append("https://download.mozilla.org/?product=");
    u.append(data.application.as_str());
    u.append("-");
    u.append(data.version.as_str());
    u.append("&os=");
    u.append(token);
    u.append("&lang=en-US");
    proof {
        assert(u@ =~= firefox_installer_url_spec(
            data.application@,
            data.version@,
            installer_token_spec(os, arch),
        ));
    }
    Ok(u)
}

/// The view of an optional lookup outcome.
pub open spec fn lookup_view(lookup: Option<&str>) -> Option<Seq<char>> {
    match lookup {
        Some(v) => Some(v@),
        None => None,
    }
}

/// Resolves both download URLs for a request. `latest_lookup` is the
/// outcome of the driver "latest version" network lookup, which the caller
/// performs beforehand: the geckodriver release tag for Firefox, the
/// plain-text latest chromedriver version for Chrome. The lookup is always
/// required, also for an explicit browser version, since the driver tag is
/// independent of the requested browser version; the resolved version is
/// the lookup's value.
pub fn parse_for_urls(data: &UrlRequest, latest_lookup: Option<&str>) -> (r: Result<
    DownloadLinks,
    ResolveError,
>)
    ensures
        ({
            let s = resolve_spec(
                data.application@,
                data.platform@,
                data.bitness@,
                data.version@,
                lookup_view(latest_lookup),
            );
            match r {
                Ok(links) => s matches Ok(t) && links.browser_url@ == t.0 && links.driver_url@
                    == t.1 && links.version@ == t.2 && links.wf(),
                Err(e) => s matches Err(f) && e == f,
            }
        }),
{
    let kind = match parse_browser(data.application.as_str()) {
        Some(kind) => kind,
        None => {
            return Err(ResolveError::UnsupportedBrowser);
        },
    };
    let os = match parse_os(data.platform.as_str()) {
        Some(os) => os,
        None => {
            return Err(ResolveError::UnsupportedPlatform);
        },
    };
    let tag: &str = match latest_lookup {
        Some(v) => {
            if v.unicode_len() == 0 || crate::strutil::str_eq(v, "latest") {
                return Err(ResolveError::UpstreamLookup);
            }
            v
        },
        None => {
            return Err(ResolveError::UpstreamLookup);
        },
    };
    let arch = parse_arch(data.bitness.as_str());
    let dtoken = describe(kind, os, arch);
    match kind {
        BrowserKind::Firefox => {
            let browser_url = match parse_for_url(data) {
                Ok(u) => u,
                Err(_) => {
                    return Err(ResolveError::UnsupportedPlatform);
                },
            };
            let mut d = String::new();
            d.append("https://github.com/mozilla/geckodriver/releases/download/");
            d.append(tag);
            d.append("/geckodriver-");
            d.append(tag);
            d.append("-");
            d.append(dtoken);
            if matches!(os, Os::Windows) {
                d.append(".zip");
            } else {
                d.append(".tar.gz");
            }
            proof {
                assert(d@ =~= firefox_driver_url_spec(tag@, dtoken@, os is Windows));
            }
            Ok(DownloadLinks { browser_url, driver_url: d, version: tag.to_owned() })
        },
        BrowserKind::Chrome => {
            let mut b = String::new();
            if matches!(os, Os::MacOs) {
                b.append(
                    "https://chromeenterprise.google/browser/download/thank-you/?platform=UNIVERSAL_MAC_DMG&channel=stable&usagestats=0",
                );
            } else {
                b.append("https://chromeenterprise.google/browser/download/thank-you/?platform=");
                b.append(dtoken);
                b.append("_BUNDLE&channel=stable&usagestats=0");
            }
            let mut d = String::new();
            d.append("https://chromedriver.storage.googleapis.com/");
            d.append(tag);
            d.append("/chromedriver_");
            d.append(dtoken);
            d.append(".zip");
            proof {
                assert(b@ =~= chrome_installer_url_spec(os, dtoken@));
                assert(d@ =~= chrome_driver_url_spec(tag@, dtoken@));
            }
            Ok(DownloadLinks { browser_url: b, driver_url: d, version: tag.to_owned() })
        },
    }
}

} // verus!
