//! Archive extractor: turns the bytes of a downloaded driver archive into
//! a plan of directories to create and files to write, with their POSIX
//! permission bits where the archive stores them.
//!
//! The container format is decided purely by file-name suffix: `.tar.gz`
//! means a gzip-compressed tar, anything else is attempted as a zip. Entry
//! names are sanitized before they may be joined to a destination
//! directory: empty, `.` and `..` components are dropped, so a crafted
//! entry cannot escape the extraction directory (path traversal).
//!
//! Reading and writing the actual files is the caller's part: it hands the
//! archive bytes in (`None` when the archive path does not exist) and
//! executes the returned actions, restoring the permission bits on unix.

use std::io::Read;

use vstd::prelude::*;

use crate::errors::ArchiveError;
use crate::strutil::{ends_with_spec, str_eq, str_ends_with};

verus! {

/// One entry of an archive, as the container crates hand it out: its
/// stored name, its unix permission bits if stored, and its bytes.
#[derive(Debug)]
pub struct ArchiveEntry {
    pub name: String,
    pub mode: Option<u32>,
    pub data: Vec<u8>,
}

impl View for ArchiveEntry {
    type V = (Seq<char>, Option<u32>, Seq<u8>);

    open spec fn view(&self) -> (Seq<char>, Option<u32>, Seq<u8>) {
        (self.name@, self.mode, self.data@)
    }
}

/// One step of an extraction plan: create a directory, or write a file
/// with the given bytes; `mode` holds permission bits to restore on unix.
/// `path` is relative to the extraction directory and already sanitized.
#[derive(Debug)]
pub struct ExtractAction {
    pub is_dir: bool,
    pub path: String,
    pub mode: Option<u32>,
    pub data: Vec<u8>,
}

impl View for ExtractAction {
    type V = (bool, Seq<char>, Option<u32>, Seq<u8>);

    open spec fn view(&self) -> (bool, Seq<char>, Option<u32>, Seq<u8>) {
        (self.is_dir, self.path@, self.mode, self.data@)
    }
}

pub open spec fn views_of_strings(v: Seq<String>) -> Seq<Seq<char>> {
    v.map_values(|t: String| t@)
}

pub open spec fn views_of_entries(v: Seq<ArchiveEntry>) -> Seq<(Seq<char>, Option<u32>, Seq<u8>)> {
    v.map_values(|e: ArchiveEntry| e@)
}

pub open spec fn views_of_actions(v: Seq<ExtractAction>) -> Seq<
    (bool, Seq<char>, Option<u32>, Seq<u8>),
> {
    v.map_values(|a: ExtractAction| a@)
}

/// The `/`-separated components of a name; splitting never yields an
/// empty sequence (an empty name has one empty component).
pub open spec fn split_slash(s: Seq<char>) -> Seq<Seq<char>>
    decreases s.len(),
{
    if s.len() == 0 {
        seq![Seq::empty()]
    } else if s[0] == '/' {
        seq![Seq::<char>::empty()] + split_slash(s.skip(1))
    } else {
        let r = split_slash(s.skip(1));
        seq![seq![s[0]] + r[0]] + r.skip(1)
    }
}

pub proof fn lemma_split_len(s: Seq<char>)
    ensures
        split_slash(s).len() >= 1,
    decreases s.len(),
{
    if s.len() > 0 {
        lemma_split_len(s.skip(1));
    }
}

/// A path component is kept only when it is neither empty nor a relative
/// reference: this is what defuses `..` traversal and absolute names.
pub open spec fn keep_component(c: Seq<char>) -> bool {
    c.len() > 0 && c != seq!['.'] && c != seq!['.', '.']
}

pub open spec fn filter_components(cs: Seq<Seq<char>>) -> Seq<Seq<char>>
    decreases cs.len(),
{
    if cs.len() == 0 {
        Seq::empty()
    } else if keep_component(cs[0]) {
        seq![cs[0]] + filter_components(cs.skip(1))
    } else {
        filter_components(cs.skip(1))
    }
}

/// Components joined back with `/` separators.
pub open spec fn join_slash(cs: Seq<Seq<char>>) -> Seq<char>
    decreases cs.len(),
{
    if cs.len() == 0 {
        Seq::empty()
    } else if cs.len() == 1 {
        cs[0]
    } else {
        cs[0] + seq!['/'] + join_slash(cs.skip(1))
    }
}

/// A sanitized entry name: its components with every empty, `.` and `..`
/// component dropped, rejoined with `/`.
pub open spec fn sanitize_spec(s: Seq<char>) -> Seq<char> {
    join_slash(filter_components(split_slash(s)))
}

/// Every component surviving the filter is a safe one.
pub proof fn lemma_filter_keeps(cs: Seq<Seq<char>>)
    ensures
        forall|j: int|
            0 <= j < filter_components(cs).len() ==> keep_component(
                #[trigger] filter_components(cs)[j],
            ),
    decreases cs.len(),
{
    if cs.len() > 0 {
        lemma_filter_keeps(cs.skip(1));
        if keep_component(cs[0]) {
            assert forall|j: int|
                0 <= j < filter_components(cs).len() implies keep_component(
                #[trigger] filter_components(cs)[j],
            ) by {
                if j > 0 {
                    assert(filter_components(cs)[j] == filter_components(cs.skip(1))[j - 1]);
                }
            }
        }
    }
}

/// No component produced by splitting contains a `/`.
pub proof fn lemma_split_slash_free(s: Seq<char>)
    ensures
        forall|j: int, k: int|
            0 <= j < split_slash(s).len() && 0 <= k < split_slash(s)[j].len() ==> (
            #[trigger] split_slash(s)[j][k]) != '/',
    decreases s.len(),
{
    if s.len() > 0 {
        lemma_split_slash_free(s.skip(1));
        let r = split_slash(s.skip(1));
        if s[0] != '/' {
            lemma_split_len(s.skip(1));
            assert forall|j: int, k: int|
                0 <= j < split_slash(s).len() && 0 <= k < split_slash(s)[j].len() implies (
            #[trigger] split_slash(s)[j][k]) != '/' by {
                if j == 0 {
                    if k > 0 {
                        assert(split_slash(s)[0][k] == r[0][k - 1]);
                    }
                } else {
                    assert(split_slash(s)[j] == r[j]);
                }
            }
        }
    }
}

/// Filtering keeps only existing components, so it preserves their
/// slash-freeness.
pub proof fn lemma_filter_slash_free(cs: Seq<Seq<char>>)
    requires
        forall|j: int, k: int|
            0 <= j < cs.len() && 0 <= k < cs[j].len() ==> (#[trigger] cs[j][k]) != '/',
    ensures
        forall|j: int, k: int|
            0 <= j < filter_components(cs).len() && 0 <= k < filter_components(cs)[j].len() ==> (
            #[trigger] filter_components(cs)[j][k]) != '/',
    decreases cs.len(),
{
    if cs.len() > 0 {
        assert forall|j: int, k: int|
            0 <= j < cs.skip(1).len() && 0 <= k < cs.skip(1)[j].len() implies (
        #[trigger] cs.skip(1)[j][k]) != '/' by {
            assert(cs.skip(1)[j] == cs[j + 1]);
        }
        lemma_filter_slash_free(cs.skip(1));
        if keep_component(cs[0]) {
            assert forall|j: int, k: int|
                0 <= j < filter_components(cs).len() && 0 <= k < filter_components(
                cs,
            )[j].len() implies (#[trigger] filter_components(cs)[j][k]) != '/' by {
                if j > 0 {
                    assert(filter_components(cs)[j] == filter_components(cs.skip(1))[j - 1]);
                }
            }
        }
    }
}

/// Splitting a slash-free string gives back that one component.
proof fn lemma_split_single(c: Seq<char>)
    requires
        forall|k: int| 0 <= k < c.len() ==> c[k] != '/',
    ensures
        split_slash(c) == seq![c],
    decreases c.len(),
{
    if c.len() == 0 {
        assert(c =~= Seq::<char>::empty());
        assert(split_slash(c) =~= seq![c]);
    } else {
        assert(c[0] != '/');
        lemma_split_single(c.skip(1));
        assert(seq![c[0]] + c.skip(1) =~= c);
        assert(split_slash(c) =~= seq![c]);
    }
}

/// Splitting `c + "/" + t` peels off `c` when `c` is slash-free.
proof fn lemma_split_prepend(c: Seq<char>, t: Seq<char>)
    requires
        forall|k: int| 0 <= k < c.len() ==> c[k] != '/',
    ensures
        split_slash(c + seq!['/'] + t) == seq![c] + split_slash(t),
    decreases c.len(),
{
    let s = c + seq!['/'] + t;
    if c.len() == 0 {
        assert(c =~= Seq::<char>::empty());
        assert(s[0] == '/');
        assert(s.skip(1) =~= t);
        assert(split_slash(s) =~= seq![c] + split_slash(t));
    } else {
        assert(c[0] != '/');
        lemma_split_prepend(c.skip(1), t);
        assert(s[0] == c[0] && s[0] != '/');
        assert(s.skip(1) =~= c.skip(1) + seq!['/'] + t);
        let r = split_slash(s.skip(1));
        assert(r == seq![c.skip(1)] + split_slash(t));
        assert(seq![c[0]] + r[0] =~= c);
        assert(r.skip(1) =~= split_slash(t));
        assert(split_slash(s) =~= seq![c] + split_slash(t));
    }
}

/// Joining nonempty, slash-free components and splitting again is the
/// identity.
pub proof fn lemma_join_split(cs: Seq<Seq<char>>)
    requires
        cs.len() >= 1,
        forall|j: int| 0 <= j < cs.len() ==> (#[trigger] cs[j]).len() > 0,
        forall|j: int, k: int|
            0 <= j < cs.len() && 0 <= k < cs[j].len() ==> (#[trigger] cs[j][k]) != '/',
    ensures
        split_slash(join_slash(cs)) == cs,
    decreases cs.len(),
{
    if cs.len() == 1 {
        lemma_split_single(cs[0]);
        assert(split_slash(join_slash(cs)) =~= cs);
    } else {
        assert forall|j: int, k: int|
            0 <= j < cs.skip(1).len() && 0 <= k < cs.skip(1)[j].len() implies (
        #[trigger] cs.skip(1)[j][k]) != '/' by {
            assert(cs.skip(1)[j] == cs[j + 1]);
        }
        assert forall|j: int| 0 <= j < cs.skip(1).len() implies (#[trigger] cs.skip(1)[j]).len()
            > 0 by {
            assert(cs.skip(1)[j] == cs[j + 1]);
        }
        lemma_join_split(cs.skip(1));
        lemma_split_prepend(cs[0], join_slash(cs.skip(1)));
        assert(join_slash(cs) == cs[0] + seq!['/'] + join_slash(cs.skip(1)));
        assert(split_slash(join_slash(cs)) =~= cs);
    }
}

/// The path-traversal guard: a non-empty sanitized name re-splits into
/// exactly its surviving components, each of which is safe — so no `..`
/// or `.` component survives sanitization, and the name never starts
/// with `/` (it cannot name anything outside the extraction directory).
pub proof fn lemma_sanitize_traversal_guard(s: Seq<char>)
    ensures
        sanitize_spec(s).len() > 0 ==> forall|j: int|
            0 <= j < split_slash(sanitize_spec(s)).len() ==> keep_component(
                #[trigger] split_slash(sanitize_spec(s))[j],
            ),
        sanitize_spec(s).len() > 0 ==> sanitize_spec(s)[0] != '/',
{
    let parts = filter_components(split_slash(s));
    lemma_split_slash_free(s);
    lemma_filter_slash_free(split_slash(s));
    lemma_filter_keeps(split_slash(s));
    if sanitize_spec(s).len() > 0 {
        if parts.len() >= 1 {
            lemma_join_split(parts);
            assert(split_slash(sanitize_spec(s)) == parts);
            if parts.len() == 1 {
                assert(sanitize_spec(s)[0] == parts[0][0]);
            } else {
                assert(sanitize_spec(s) == parts[0] + seq!['/'] + join_slash(parts.skip(1)));
                assert(sanitize_spec(s)[0] == parts[0][0]);
            }
        }
    }
}

fn split_slash_exec(s: &str) -> (r: Vec<String>)
    ensures
        views_of_strings(r@) == split_slash(s@),
        r@.len() >= 1,
    decreases s@.len(),
{
    let n = s.unicode_len();
    if n == 0 {
        let mut r: Vec<String> = Vec::new();
        r.push(String::new());
        proof {
            assert(views_of_strings(r@) =~= split_slash(s@));
        }
        r
    } else {
        let c = s.get_char(0);
        let rest = s.substring_char(1, n);
        proof {
            assert(rest@ =~= s@.skip(1));
        }
        let mut r = split_slash_exec(rest);
        if c == '/' {
            r.insert(0, String::new());
            proof {
                assert(views_of_strings(r@) =~= split_slash(s@));
            }
            r
        } else {
            let head = s.substring_char(0, 1);
            let first = r.remove(0);
            let new_first = head.to_owned().concat(first.as_str());
            r.insert(0, new_first);
            proof {
                assert(head@ =~= seq![s@[0]]);
                assert(views_of_strings(r@) =~= split_slash(s@));
            }
            r
        }
    }
}

fn filter_components_exec(mut v: Vec<String>) -> (r: Vec<String>)
    ensures
        views_of_strings(r@) == filter_components(views_of_strings(v@)),
    decreases v@.len(),
{
    proof {
        reveal_strlit(".");
        reveal_strlit("..");
    }
    if v.len() == 0 {
        let r: Vec<String> = Vec::new();
        proof {
            assert(views_of_strings(r@) =~= filter_components(views_of_strings(v@)));
        }
        r
    } else {
        let ghost all = views_of_strings(v@);
        let first = v.remove(0);
        let keep = first.as_str().unicode_len() > 0 && !str_eq(first.as_str(), ".") && !str_eq(
            first.as_str(),
            "..",
        );
        proof {
            assert("."@ =~= seq!['.']);
            assert(".."@ =~= seq!['.', '.']);
            assert(views_of_strings(v@) =~= all.skip(1));
        }
        let mut r = filter_components_exec(v);
        if keep {
            r.insert(0, first);
            proof {
                assert(views_of_strings(r@) =~= filter_components(all));
            }
            r
        } else {
            r
        }
    }
}

fn join_slash_exec(mut v: Vec<String>) -> (r: String)
    ensures
        r@ == join_slash(views_of_strings(v@)),
    decreases v@.len(),
{
    proof {
        reveal_strlit("/");
    }
    if v.len() == 0 {
        String::new()
    } else {
        let ghost all = views_of_strings(v@);
        let first = v.remove(0);
        if v.len() == 0 {
            first
        } else {
            proof {
                assert(views_of_strings(v@) =~= all.skip(1));
            }
            let rest = join_slash_exec(v);
            let mut r = first;
            r.append("/");
            r.append(rest.as_str());
            proof {
                assert("/"@ =~= seq!['/']);
                assert(r@ =~= join_slash(all));
            }
            r
        }
    }
}

/// The sanitized form of an archive entry name: empty, `.` and `..`
/// components dropped, the rest rejoined with `/`. The result never names
/// anything outside the directory it is resolved against.
pub fn sanitize_entry_name(name: &str) -> (r: String)
    ensures
        r@ == sanitize_spec(name@),
{
    let parts = split_slash_exec(name);
    let kept = filter_components_exec(parts);
    join_slash_exec(kept)
}

/// What an archive entry contributes to the plan: a directory when its
/// stored name ends in `/`, else a file with the entry's bytes.
pub open spec fn action_of(e: (Seq<char>, Option<u32>, Seq<u8>)) -> (
    bool,
    Seq<char>,
    Option<u32>,
    Seq<u8>,
) {
    let dir = e.0.len() > 0 && e.0[e.0.len() - 1] == '/';
    (
        dir,
        sanitize_spec(e.0),
        e.1,
        if dir {
            Seq::empty()
        } else {
            e.2
        },
    )
}

/// The extraction plan for a list of entries, in order; entries whose
/// sanitized name is empty (nothing but unsafe components) are skipped.
pub open spec fn plan_of(es: Seq<(Seq<char>, Option<u32>, Seq<u8>)>) -> Seq<
    (bool, Seq<char>, Option<u32>, Seq<u8>),
>
    decreases es.len(),
{
    if es.len() == 0 {
        Seq::empty()
    } else if sanitize_spec(es[0].0).len() > 0 {
        seq![action_of(es[0])] + plan_of(es.skip(1))
    } else {
        plan_of(es.skip(1))
    }
}

fn plan_entries(mut entries: Vec<ArchiveEntry>) -> (r: Vec<ExtractAction>)
    ensures
        views_of_actions(r@) == plan_of(views_of_entries(entries@)),
    decreases entries@.len(),
{
    if entries.len() == 0 {
        let r: Vec<ExtractAction> = Vec::new();
        proof {
            assert(views_of_actions(r@) =~= plan_of(views_of_entries(entries@)));
        }
        r
    } else {
        let ghost all = views_of_entries(entries@);
        let e = entries.remove(0);
        proof {
            assert(views_of_entries(entries@) =~= all.skip(1));
        }
        let path = sanitize_entry_name(e.name.as_str());
        let mut r = plan_entries(entries);
        if path.as_str().unicode_len() > 0 {
            let n = e.name.as_str().unicode_len();
            let is_dir = n > 0 && e.name.as_str().get_char(n - 1) == '/';
            let data = if is_dir {
                Vec::new()
            } else {
                e.data
            };
            r.insert(0, ExtractAction { is_dir, path, mode: e.mode, data });
            proof {
                assert(views_of_actions(r@) =~= plan_of(all));
            }
            r
        } else {
            r
        }
    }
}

/// What zip reading yields on given bytes: the entries (name, unix mode,
/// contents) in archive order, or nothing when the bytes are not a valid
/// zip archive. A pure function of the bytes.
pub uninterp spec fn zip_entries_of(bytes: Seq<u8>) -> Option<
    Seq<(Seq<char>, Option<u32>, Seq<u8>)>,
>;

/// What gzip decompression yields on given bytes, or nothing when they
/// are not a valid gzip stream. A pure function of the bytes.
pub uninterp spec fn gunzip_of(bytes: Seq<u8>) -> Option<Seq<u8>>;

/// What tar reading yields on given bytes: the entries (path, mode,
/// contents) in archive order, or nothing when the bytes are not a valid
/// tar stream. A pure function of the bytes.
pub uninterp spec fn tar_entries_of(bytes: Seq<u8>) -> Option<
    Seq<(Seq<char>, Option<u32>, Seq<u8>)>,
>;

/// Relies on zip's ZipArchive over an in-memory reader: `new` validates
/// the central directory, `by_index` hands out each entry's name, stored
/// unix mode and decompressed bytes; all of it a function of the archive
/// bytes alone.
#[verifier::external_body]
fn zip_entries(bytes: &Vec<u8>) -> (r: Option<Vec<ArchiveEntry>>)
    ensures
        r is Some <==> zip_entries_of(bytes@) is Some,
        r matches Some(v) ==> Some(views_of_entries(v@)) == zip_entries_of(bytes@),
{
    let mut archive = zip::ZipArchive::new(std::io::Cursor::new(bytes.as_slice())).ok()?;
    let mut out: Vec<ArchiveEntry> = Vec::new();
    for i in 0..archive.len() {
        let mut f = archive.by_index(i).ok()?;
        let (name, mode) = (f.name().to_string(), f.unix_mode());
        let mut data: Vec<u8> = Vec::new();
        f.read_to_end(&mut data).ok()?;
        out.push(ArchiveEntry { name, mode, data });
    }
    Some(out)
}

/// Relies on flate2's GzDecoder: decompressing a gzip stream is a
/// function of the bytes alone; reading fails on invalid gzip data.
#[verifier::external_body]
fn gunzip(bytes: &Vec<u8>) -> (r: Option<Vec<u8>>)
    ensures
        r is Some <==> gunzip_of(bytes@) is Some,
        r matches Some(v) ==> Some(v@) == gunzip_of(bytes@),
{
    let mut decoder = flate2::read::GzDecoder::new(bytes.as_slice());
    let mut out: Vec<u8> = Vec::new();
    match decoder.read_to_end(&mut out) {
        Ok(_) => Some(out),
        Err(_) => None,
    }
}

/// Relies on tar's Archive over an in-memory reader: `entries` walks the
/// stream in order and hands out each entry's path, stored mode and
/// bytes; all of it a function of the tar bytes alone. Entry names are
/// decoded per compilation target: a name that is not valid UTF-8 is
/// read lossily (replacement characters) on unix and fails on Windows,
/// so the named result is fixed within one build target, not across
/// targets.
#[verifier::external_body]
fn tar_entries(bytes: &Vec<u8>) -> (r: Option<Vec<ArchiveEntry>>)
    ensures
        r is Some <==> tar_entries_of(bytes@) is Some,
        r matches Some(v) ==> Some(views_of_entries(v@)) == tar_entries_of(bytes@),
{
    let mut archive = tar::Archive::new(bytes.as_slice());
    let mut out: Vec<ArchiveEntry> = Vec::new();
    for entry in archive.entries().ok()? {
        let mut entry = entry.ok()?;
        let name = entry.path().ok()?.to_string_lossy().into_owned();
        let mode = entry.header().mode().ok();
        let mut data: Vec<u8> = Vec::new();
        entry.read_to_end(&mut data).ok()?;
        out.push(ArchiveEntry { name, mode, data });
    }
    Some(out)
}

/// What extraction planning returns for an archive's name and bytes: the
/// plan of the detected container's entries, or the distinct "not a valid
/// archive" error of that container format.
pub open spec fn extract_outcome(name: Seq<char>, bytes: Seq<u8>) -> Result<
    Seq<(bool, Seq<char>, Option<u32>, Seq<u8>)>,
    ArchiveError,
> {
    if ends_with_spec(name, ".tar.gz"@) {
        match gunzip_of(bytes) {
            Some(t) => match tar_entries_of(t) {
                Some(es) => Ok(plan_of(es)),
                None => Err(ArchiveError::UnsupportedFormat),
            },
            None => Err(ArchiveError::UnsupportedFormat),
        }
    } else {
        match zip_entries_of(bytes) {
            Some(es) => Ok(plan_of(es)),
            None => Err(ArchiveError::Other),
        }
    }
}

/// Plans the extraction of the archive at `file_name`, whose bytes the
/// caller read (`None` when the path does not exist). Format is decided
/// by the `.tar.gz` suffix, anything else being attempted as a zip; bytes
/// that do not form a valid archive of the detected format surface as the
/// distinct errors of [`extract_outcome`], so callers can decide to
/// re-download.
pub fn extract_plan(file_name: &str, contents: Option<Vec<u8>>) -> (r: Result<
    Vec<ExtractAction>,
    ArchiveError,
>)
    ensures
        contents is None <==> r == Err::<Vec<ExtractAction>, ArchiveError>(ArchiveError::NotFound),
        contents matches Some(b) ==> match extract_outcome(file_name@, b@) {
            Ok(p) => r matches Ok(acts) && views_of_actions(acts@) == p,
            Err(e) => r == Err::<Vec<ExtractAction>, ArchiveError>(e),
        },
{
    let bytes = match contents {
        Some(b) => b,
        None => {
            return Err(ArchiveError::NotFound);
        },
    };
    if str_ends_with(file_name, ".tar.gz") {
        match gunzip(&bytes) {
            Some(tar_bytes) => match tar_entries(&tar_bytes) {
                Some(entries) => Ok(plan_entries(entries)),
                None => Err(ArchiveError::UnsupportedFormat),
            },
            None => Err(ArchiveError::UnsupportedFormat),
        }
    } else {
        match zip_entries(&bytes) {
            Some(entries) => Ok(plan_entries(entries)),
            None => Err(ArchiveError::Other),
        }
    }
}

} // verus!
