//! Local discovery: turns the caller's probe of the host (executable
//! search path hits and fixed install locations) into the list of already
//! available (browser, driver) pairs, without any network access.
//!
//! Ordering is fixed: Firefox, then Chrome, then — on macOS only —
//! Safari, which ships with the OS and is always reported there.

use vstd::prelude::*;

use crate::browser::Browser;
use crate::strutil::str_eq;

verus! {

/// What the caller found on the host: search-path hits for the browser
/// and driver executables, whether the fixed OS-conventional install
/// locations hold a browser, and the host platform names. A `None` or
/// `false` means the probe came up empty; none of that is a failure.
#[derive(Debug)]
pub struct DiscoveryProbe {
    pub firefox_path: Option<String>,
    pub chrome_path: Option<String>,
    pub geckodriver_path: Option<String>,
    pub chromedriver_path: Option<String>,
    pub firefox_fallback: bool,
    pub chrome_fallback: bool,
    pub os: String,
    pub bitness: String,
}

/// A probed path, with the empty string standing for "not found".
pub open spec fn opt_path(o: Option<String>) -> Seq<char> {
    match o {
        Some(p) => p@,
        None => Seq::empty(),
    }
}

/// The entries discovery reports, as (name, driver path, browser path)
/// triples: search-path hits first; with none, the fixed install
/// locations; Safari appended on macOS unconditionally.
pub open spec fn entries_spec(p: DiscoveryProbe) -> Seq<(Seq<char>, Seq<char>, Seq<char>)> {
    let on_path = (if p.firefox_path is Some {
        seq![("firefox"@, opt_path(p.geckodriver_path), p.firefox_path->Some_0@)]
    } else {
        Seq::empty()
    }) + (if p.chrome_path is Some {
        seq![("chrome"@, opt_path(p.chromedriver_path), p.chrome_path->Some_0@)]
    } else {
        Seq::empty()
    });
    let base = if on_path.len() == 0 {
        (if p.firefox_fallback {
            seq![
                (
                    "firefox"@,
                    opt_path(p.geckodriver_path),
                    "/Applications/Firefox.app/Contents/MacOS/firefox-bin"@,
                ),
            ]
        } else {
            Seq::empty()
        }) + (if p.chrome_fallback {
            seq![
                (
                    "chrome"@,
                    opt_path(p.chromedriver_path),
                    "/Applications/Google Chrome.app/Contents/MacOS/Google Chrome"@,
                ),
            ]
        } else {
            Seq::empty()
        })
    } else {
        on_path
    };
    base + (if p.os@ == "macos"@ {
        seq![("Safari"@, "/usr/bin/safaridriver"@, "/Applications/Safari.app/Contents/MacOS/Safari"@)]
    } else {
        Seq::empty()
    })
}

/// A discovered record matches an entry triple: paths and name as probed,
/// the version left at the `latest` sentinel, the platform names copied.
pub open spec fn matches_entry(
    b: Browser,
    e: (Seq<char>, Seq<char>, Seq<char>),
    os: Seq<char>,
    bitness: Seq<char>,
) -> bool {
    b.name@ == e.0 && b.driver_path@ == e.1 && b.browser_path@ == e.2 && b.version@ == "latest"@
        && b.os@ == os && b.bitness@ == bitness
}

/// An owned copy of a probed path, the empty string when none was found.
fn unwrap_or_empty(o: &Option<String>) -> (r: String)
    ensures
        r@ == opt_path(*o),
{
    match o {
        Some(p) => p.clone(),
        None => String::new(),
    }
}

/// A record for a browser at a fixed install location, when the location
/// probe found it there.
pub fn check_path(
    name: String,
    path: &str,
    driver_path: String,
    found: bool,
    os: &str,
    bitness: &str,
) -> (r: Option<Browser>)
    ensures
        found <==> r is Some,
        r matches Some(b) ==> b.name@ == crate::version::name_of_spec(name@) && b.driver_path@
            == driver_path@ && b.browser_path@ == path@ && b.version@ == "latest"@ && b.os@ == os@
            && b.bitness@ == bitness@,
{
    proof {
        reveal_strlit("latest");
    }
    if found {
        Some(
            Browser::new(
                name,
                driver_path,
                path.to_owned(),
                "latest".to_owned(),
                os.to_owned(),
                bitness.to_owned(),
            ),
        )
    } else {
        None
    }
}

/// The list of already available (browser, driver) pairs a probe of the
/// host yields, in the fixed order Firefox, Chrome, Safari-on-macOS.
pub fn get_available_browsers(probe: &DiscoveryProbe) -> (r: Vec<Browser>)
    ensures
        r@.len() == entries_spec(*probe).len(),
        forall|i: int| 0 <= i < r@.len() ==> matches_entry(
            r@[i],
            #[trigger] entries_spec(*probe)[i],
            probe.os@,
            probe.bitness@,
        ),
{
    proof {
        reveal_strlit("latest");
        reveal_strlit("firefox");
        reveal_strlit("chrome");
        reveal_strlit("Safari");
        assert forall|j: int| 0 <= j < "firefox"@.len() implies "firefox"@[j] != '@' by {}
        assert forall|j: int| 0 <= j < "chrome"@.len() implies "chrome"@[j] != '@' by {}
        assert forall|j: int| 0 <= j < "Safari"@.len() implies "Safari"@[j] != '@' by {}
        crate::version::lemma_no_at("firefox"@);
        crate::version::lemma_no_at("chrome"@);
        crate::version::lemma_no_at("Safari"@);
    }
    let mut out: Vec<Browser> = Vec::new();
    match &probe.firefox_path {
        Some(p) => {
            out.push(
                Browser::new(
                    "firefox".to_owned(),
                    unwrap_or_empty(&probe.geckodriver_path),
                    p.clone(),
                    "latest".to_owned(),
                    probe.os.clone(),
                    probe.bitness.clone(),
                ),
            );
        },
        None => {},
    }
    match &probe.chrome_path {
        Some(p) => {
            out.push(
                Browser::new(
                    "chrome".to_owned(),
                    unwrap_or_empty(&probe.chromedriver_path),
                    p.clone(),
                    "latest".to_owned(),
                    probe.os.clone(),
                    probe.bitness.clone(),
                ),
            );
        },
        None => {},
    }
    if out.len() == 0 {
        match check_path(
            "firefox".to_owned(),
            "/Applications/Firefox.app/Contents/MacOS/firefox-bin",
            unwrap_or_empty(&probe.geckodriver_path),
            probe.firefox_fallback,
            probe.os.as_str(),
            probe.bitness.as_str(),
        ) {
            Some(b) => {
                out.push(b);
            },
            None => {},
        }
        match check_path(
            "chrome".to_owned(),
            "/Applications/Google Chrome.app/Contents/MacOS/Google Chrome",
            unwrap_or_empty(&probe.chromedriver_path),
            probe.chrome_fallback,
            probe.os.as_str(),
            probe.bitness.as_str(),
        ) {
            Some(b) => {
                out.push(b);
            },
            None => {},
        }
    }
    if str_eq(probe.os.as_str(), "macos") {
        out.push(
            Browser::new(
                "Safari".to_owned(),
                "/usr/bin/safaridriver".to_owned(),
                "/Applications/Safari.app/Contents/MacOS/Safari".to_owned(),
                "latest".to_owned(),
                probe.os.clone(),
                probe.bitness.clone(),
            ),
        );
    }
    out
}

/// Duplicates are impossible by construction: discovery produces at most
/// one entry per browser family, so no two entries share a name.
pub proof fn lemma_discovery_no_duplicates(p: DiscoveryProbe)
    ensures
        forall|i: int, j: int|
            0 <= i < j < entries_spec(p).len() ==> (#[trigger] entries_spec(p)[i]).0 != (
            #[trigger] entries_spec(p)[j]).0,
{
    reveal_strlit("firefox");
    reveal_strlit("chrome");
    reveal_strlit("Safari");
    assert("firefox"@.len() != "chrome"@.len());
    assert("firefox"@.len() != "Safari"@.len());
    assert("chrome"@[0] != "Safari"@[0]);
    assert("chrome"@ != "Safari"@);
}

/// The index of the first record in `s` whose name is `name`, or -1.
pub open spec fn first_match(s: Seq<Browser>, name: Seq<char>) -> int
    decreases s.len(),
{
    if s.len() == 0 {
        -1
    } else if s[0].name@ == name {
        0
    } else {
        let r = first_match(s.skip(1), name);
        if r < 0 {
            -1
        } else {
            r + 1
        }
    }
}

/// `first_match` returns either -1 with no matching record, or the least
/// index of one.
pub proof fn lemma_first_match(s: Seq<Browser>, name: Seq<char>)
    ensures
        first_match(s, name) == -1 ==> forall|j: int|
            0 <= j < s.len() ==> (#[trigger] s[j].name)@ != name,
        first_match(s, name) >= 0 ==> first_match(s, name) < s.len() && s[first_match(
            s,
            name,
        )].name@ == name && forall|j: int|
            0 <= j < first_match(s, name) ==> (#[trigger] s[j].name)@ != name,
    decreases s.len(),
{
    if s.len() > 0 && s[0].name@ != name {
        lemma_first_match(s.skip(1), name);
        let r = first_match(s.skip(1), name);
        if r == -1 {
            assert forall|j: int| 0 <= j < s.len() implies (#[trigger] s[j].name)@ != name by {
                if j > 0 {
                    assert(s.skip(1)[j - 1].name@ != name);
                }
            }
        } else {
            assert(s[r + 1] == s.skip(1)[r]);
            assert forall|j: int| 0 <= j < r + 1 implies (#[trigger] s[j].name)@ != name by {
                if j > 0 {
                    assert(s.skip(1)[j - 1].name@ != name);
                }
            }
        }
    }
}

/// With a match at index `i` and none before it, `first_match` is `i`.
pub proof fn lemma_first_match_is(s: Seq<Browser>, name: Seq<char>, i: int)
    requires
        0 <= i < s.len(),
        s[i].name@ == name,
        forall|j: int| 0 <= j < i ==> (#[trigger] s[j].name)@ != name,
    ensures
        first_match(s, name) == i,
    decreases s.len(),
{
    if i > 0 {
        assert(s.skip(1)[i - 1].name@ == name);
        assert forall|j: int| 0 <= j < i - 1 implies (#[trigger] s.skip(1)[j].name)@ != name by {
            assert(s[j + 1].name@ != name);
        }
        lemma_first_match_is(s.skip(1), name, i - 1);
    }
}

/// The first record named `browser_name` among the available ones, if any.
pub fn find_browser_for(browser_name: String, available: &Vec<Browser>) -> (r: Option<Browser>)
    ensures
        r is Some <==> first_match(available@, browser_name@) >= 0,
        r matches Some(b) ==> b == available@[first_match(available@, browser_name@)],
{
    let n = available.len();
    let mut i: usize = 0;
    while i < n
        invariant
            i <= n,
            n == available@.len(),
            forall|j: int| 0 <= j < i ==> (#[trigger] available@[j].name)@ != browser_name@,
        decreases n - i,
    {
        if str_eq(available[i].name.as_str(), browser_name.as_str()) {
            proof {
                lemma_first_match_is(available@, browser_name@, i as int);
            }
            return Some(available[i].duplicate());
        }
        i = i + 1;
    }
    proof {
        lemma_first_match(available@, browser_name@);
    }
    None
}

/// Safari is reported exactly on macOS: never among the entries on any
/// other platform, and unconditionally (as the last entry) on macOS.
pub proof fn lemma_safari_policy(p: DiscoveryProbe)
    ensures
        p.os@ != "macos"@ ==> forall|i: int|
            0 <= i < entries_spec(p).len() ==> (#[trigger] entries_spec(p)[i]).0 != "Safari"@,
        p.os@ == "macos"@ ==> entries_spec(p).len() > 0 && entries_spec(p)[entries_spec(
            p,
        ).len() - 1].0 == "Safari"@,
{
    reveal_strlit("firefox");
    reveal_strlit("chrome");
    reveal_strlit("Safari");
    assert("firefox"@.len() != "Safari"@.len());
    assert("chrome"@[0] != "Safari"@[0]);
    assert("firefox"@ != "Safari"@);
    assert("chrome"@ != "Safari"@);
}

} // verus!
