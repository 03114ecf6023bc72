//! Acquisition orchestrator: decides, from a requested browser spec and
//! what the host already offers, whether anything must be downloaded, and
//! plans the downloads and the extraction target paths.
//!
//! The caller performs the plan's network and filesystem work; a record
//! found by local discovery is returned unchanged, so a browser is
//! acquired at most once per session.

use vstd::prelude::*;

use crate::browser::Browser;
use crate::discovery::{find_browser_for, first_match, lemma_first_match, lemma_first_match_is};
use crate::errors::ResolveError;
use crate::strutil::{contains_spec, lower_spec, str_contains, to_lowercase};
use crate::urls::{resolve_spec, DownloadLinks};
use crate::version::{name_of_spec, parse_spec, version_of_spec};

verus! {

/// The index of the last `/` in `s`, or -1 when there is none.
pub open spec fn last_slash(s: Seq<char>) -> int
    decreases s.len(),
{
    if s.len() == 0 {
        -1
    } else if s[s.len() - 1] == '/' {
        s.len() - 1
    } else {
        last_slash(s.take(s.len() - 1))
    }
}

/// The final `/`-separated segment of a URL or path: everything after the
/// last `/`, or the whole string when there is none.
pub open spec fn last_segment(s: Seq<char>) -> Seq<char> {
    s.skip(last_slash(s) + 1)
}

/// `last_slash` returns either -1 with no `/` present, or the greatest
/// index holding one.
pub proof fn lemma_last_slash(s: Seq<char>)
    ensures
        last_slash(s) >= -1,
        last_slash(s) == -1 ==> forall|j: int| 0 <= j < s.len() ==> s[j] != '/',
        last_slash(s) >= 0 ==> last_slash(s) < s.len() && s[last_slash(s)] == '/' && forall|j: int|
            last_slash(s) < j < s.len() ==> s[j] != '/',
    decreases s.len(),
{
    if s.len() > 0 && s[s.len() - 1] != '/' {
        let t = s.take(s.len() - 1);
        lemma_last_slash(t);
        if last_slash(t) >= 0 {
            assert(t[last_slash(t)] == s[last_slash(t)]);
            assert forall|j: int| last_slash(s) < j < s.len() implies s[j] != '/' by {
                if j < s.len() - 1 {
                    assert(t[j] != '/');
                }
            }
        } else {
            assert forall|j: int| 0 <= j < s.len() implies s[j] != '/' by {
                if j < s.len() - 1 {
                    assert(t[j] != '/');
                }
            }
        }
    }
}

/// With a `/` at index `i` and none after it, `last_slash` is exactly `i`.
pub proof fn lemma_last_slash_is(s: Seq<char>, i: int)
    requires
        0 <= i < s.len(),
        s[i] == '/',
        forall|j: int| i < j < s.len() ==> s[j] != '/',
    ensures
        last_slash(s) == i,
    decreases s.len(),
{
    if i < s.len() - 1 {
        let t = s.take(s.len() - 1);
        assert(t[i] == '/');
        lemma_last_slash_is(t, i);
    }
}

/// The file-name portion of a URL or path.
pub fn file_name_of(s: &str) -> (r: String)
    ensures
        r@ == last_segment(s@),
{
    let n = s.unicode_len();
    let mut i: usize = n;
    while i > 0
        invariant
            i <= n,
            n == s@.len(),
            forall|j: int| i <= j < n ==> s@[j] != '/',
        decreases i,
    {
        if s.get_char(i - 1) == '/' {
            proof {
                lemma_last_slash_is(s@, i - 1);
            }
            let r = s.substring_char(i, n).to_owned();
            proof {
                assert(r@ =~= last_segment(s@));
            }
            return r;
        }
        i = i - 1;
    }
    proof {
        lemma_last_slash(s@);
        assert(s@.skip(0) =~= s@);
    }
    s.to_owned()
}

/// A planned acquisition: the resolved links, the files the downloads go
/// to, whether the browser installer is wanted at all, and the record to
/// report once the driver archive is extracted.
#[derive(Debug)]
pub struct FetchPlan {
    pub links: DownloadLinks,
    pub browser_download_needed: bool,
    pub browser_archive_path: String,
    pub driver_archive_path: String,
    pub record: Browser,
}

/// What `plan_acquire` decides: the browser is already on the host, or it
/// must be fetched as planned.
#[derive(Debug)]
pub enum AcquirePlan {
    UseExisting(Browser),
    Fetch(FetchPlan),
}

/// `dir` and `file` joined with a `/` separator.
pub open spec fn joined(dir: Seq<char>, file: Seq<char>) -> Seq<char> {
    dir + seq!['/'] + file
}

fn join_path(dir: &str, file: &str) -> (r: String)
    ensures
        r@ == joined(dir@, file@),
{
    proof {
        reveal_strlit("/");
    }
    let mut r = dir.to_owned();
    r.append("/");
    r.append(file);
    proof {
        assert(r@ =~= joined(dir@, file@));
    }
    r
}

/// Plans the acquisition of the browser requested by `spec_str` into
/// `target_dir`. A record of that name among the `available` ones (what
/// local discovery reported) is returned unchanged: nothing is fetched
/// twice. On a miss the spec is parsed, the URLs are resolved with the
/// caller's `latest_lookup` outcome, and the plan names the archive paths
/// under `target_dir` and the record to report afterwards; the browser
/// installer is wanted only when `target_dir` does not already name the
/// browser. Every failure of a sub-step is propagated; no partial record
/// is produced.
pub fn plan_acquire(
    spec_str: &str,
    target_dir: &str,
    available: &Vec<Browser>,
    latest_lookup: Option<&str>,
    os: &str,
    bitness: &str,
) -> (r: Result<AcquirePlan, ResolveError>)
    ensures
        ({
            let name = name_of_spec(spec_str@);
            let hit = first_match(available@, name);
            let s = resolve_spec(
                name,
                os@,
                bitness@,
                version_of_spec(spec_str@),
                crate::urls::lookup_view(latest_lookup),
            );
            match r {
                Err(e) => if name.len() == 0 {
                    e == ResolveError::Parse
                } else {
                    hit == -1 && (s matches Err(f) && e == f)
                },
                Ok(AcquirePlan::UseExisting(b)) => name.len() > 0 && hit >= 0 && b == available@[hit],
                Ok(AcquirePlan::Fetch(fp)) => name.len() > 0 && hit == -1 && (s matches Ok(t)
                    && fp.links.browser_url@ == t.0 && fp.links.driver_url@ == t.1
                    && fp.links.version@ == t.2 && fp.links.wf()
                    && fp.browser_download_needed == !contains_spec(lower_spec(target_dir@), name)
                    && fp.browser_archive_path@ == joined(target_dir@, name + "_browser.zip"@)
                    && fp.driver_archive_path@ == joined(target_dir@, last_segment(t.1))
                    && fp.record.name@ == name && fp.record.driver_path@ == target_dir@
                    && fp.record.browser_path@ == target_dir@ && fp.record.version@ == t.2
                    && fp.record.os@ == os@ && fp.record.bitness@ == bitness@),
            }
        }),
{
    proof {
        crate::version::lemma_name_of_idempotent(spec_str@);
    }
    let req = match parse_spec(spec_str) {
        Ok(req) => req,
        Err(e) => {
            return Err(e);
        },
    };
    match find_browser_for(req.name.clone(), available) {
        Some(b) => Ok(AcquirePlan::UseExisting(b)),
        None => {
            let requested = Browser::new(
                spec_str.to_owned(),
                target_dir.to_owned(),
                target_dir.to_owned(),
                String::new(),
                os.to_owned(),
                bitness.to_owned(),
            );
            let links = match requested.get_download_urls(latest_lookup) {
                Ok(links) => links,
                Err(e) => {
                    return Err(e);
                },
            };
            let browser_download_needed = !str_contains(
                to_lowercase(target_dir).as_str(),
                req.name.as_str(),
            );
            let mut browser_file = req.name.clone();
            browser_file.append("_browser.zip");
            let browser_archive_path = join_path(target_dir, browser_file.as_str());
            let driver_file = file_name_of(links.driver_url.as_str());
            let driver_archive_path = join_path(target_dir, driver_file.as_str());
            let record = Browser::new(
                req.name,
                target_dir.to_owned(),
                target_dir.to_owned(),
                links.version.clone(),
                os.to_owned(),
                bitness.to_owned(),
            );
            Ok(
                AcquirePlan::Fetch(
                    FetchPlan {
                        links,
                        browser_download_needed,
                        browser_archive_path,
                        driver_archive_path,
                        record,
                    },
                ),
            )
        },
    }
}

/// Acquisition is at-most-once per session: once a successful acquisition
/// has added its record to what discovery reports, a second request for
/// the same name finds that very record, and `plan_acquire` then returns
/// it unchanged instead of planning another fetch.
pub proof fn lemma_acquire_idempotent(record: Browser, available: Seq<Browser>, name: Seq<char>)
    requires
        first_match(available, name) == -1,
        record.name@ == name,
    ensures
        first_match(available.push(record), name) == available.len(),
        available.push(record)[first_match(available.push(record), name)] == record,
{
    lemma_first_match(available, name);
    assert forall|j: int|
        0 <= j < available.len() implies (#[trigger] available.push(record)[j].name)@ != name by {
        assert(available.push(record)[j] == available[j]);
    }
    lemma_first_match_is(available.push(record), name, available.len() as int);
}

} // verus!
