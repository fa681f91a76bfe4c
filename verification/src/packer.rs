use vstd::prelude::*;
use vstd::string::StrSliceExecFns;
use vstd::string::StringExecFns;

use crate::errors::PackError;
use crate::globs::{glob_match, glob_matches, glob_pattern_ok};
use crate::manifest::FxManifest;
use crate::strutil::str_eq;

verus! {

// The archive packer's decisions: which walked paths are excluded by the
// manifest's glob patterns, which path is the archive itself, and which
// project-relative entry names the archive receives. The traversal and the
// archive writing themselves are I/O and live outside the library; they hand
// in the walked paths and carry out the returned plan.

/// A filesystem entry seen while walking the project tree.
pub struct WalkEntry {
    pub path: String,
    pub is_file: bool,
}

pub open spec fn is_sep_char(c: char) -> bool {
    c == '/' || c == '\\'
}

/// The built-web-output fragment (a `dist` directory under a `web`
/// directory) stands at position `i` of `p`; either path separator is
/// accepted so the rule behaves identically across platforms.
pub open spec fn web_dist_at(p: Seq<char>, i: int) -> bool {
    &&& 0 <= i
    &&& i + 8 <= p.len()
    &&& p[i] == 'w'
    &&& p[i + 1] == 'e'
    &&& p[i + 2] == 'b'
    &&& is_sep_char(p[i + 3])
    &&& p[i + 4] == 'd'
    &&& p[i + 5] == 'i'
    &&& p[i + 6] == 's'
    &&& p[i + 7] == 't'
}

/// A path containing the built-web-output fragment is never excluded, so
/// built UI assets always ship in the archive.
pub open spec fn contains_web_dist(p: Seq<char>) -> bool {
    exists|i: int| web_dist_at(p, i)
}

/// Whether the path holds the built-web-output fragment.
pub fn path_contains_web_dist(path: &str) -> (b: bool)
    ensures
        b == contains_web_dist(path@),
{
    let n = path.unicode_len();
    if n < 8 {
        return false;
    }
    let mut i: usize = 0;
    while i <= n - 8
        invariant
            8 <= n,
            n == path@.len(),
            i <= n,
            forall|j: int| 0 <= j < i ==> !web_dist_at(path@, j),
        decreases n - i,
    {
        let hit = path.get_char(i) == 'w' && path.get_char(i + 1) == 'e' && path.get_char(i + 2)
            == 'b' && (path.get_char(i + 3) == '/' || path.get_char(i + 3) == '\\')
            && path.get_char(i + 4) == 'd' && path.get_char(i + 5) == 'i' && path.get_char(i + 6)
            == 's' && path.get_char(i + 7) == 't';
        if hit {
            assert(web_dist_at(path@, i as int));
            return true;
        }
        assert(!web_dist_at(path@, i as int));
        i += 1;
    }
    proof {
        assert forall|j: int| !web_dist_at(path@, j) by {
            if 0 <= j && j + 8 <= n as int {
                assert(j < i as int);
            }
        }
    }
    false
}

/// A manifest pattern is matched at any directory depth: it is implicitly
/// prefixed so any path suffix can match it.
pub open spec fn any_depth(pattern: Seq<char>) -> Seq<char> {
    "**/"@ + pattern
}

/// The exclusion decision for one path, taking the patterns in order:
/// `None` when a pattern is not a valid glob, `Some(true)` when some pattern
/// matches and the override does not apply, `Some(false)` otherwise.
pub open spec fn spec_exclude(patterns: Seq<Seq<char>>, path: Seq<char>) -> Option<bool>
    decreases patterns.len(),
{
    if patterns.len() == 0 {
        Some(false)
    } else if !glob_pattern_ok(any_depth(patterns[0])) {
        None
    } else if glob_matches(any_depth(patterns[0]), path) && !contains_web_dist(path) {
        Some(true)
    } else {
        spec_exclude(patterns.drop_first(), path)
    }
}

/// Tests one walked path against every ignore pattern of the manifest, with
/// the built-web-output override carved out.
pub fn is_excluded(path: &str, manifest: &FxManifest) -> (r: Result<bool, PackError>)
    ensures
        (r is Ok) == (spec_exclude(manifest@.ignored_paths, path@) is Some),
        r matches Ok(b) ==> Some(b) == spec_exclude(manifest@.ignored_paths, path@),
        r is Err ==> r->Err_0 == PackError::InvalidPattern,
{
    let ghost pats = manifest@.ignored_paths;
    let over = path_contains_web_dist(path);
    let k = manifest.ignored_paths.len();
    proof {
        assert(pats.skip(0) =~= pats);
    }
    let mut idx: usize = 0;
    while idx < k
        invariant
            k == manifest.ignored_paths@.len(),
            pats == manifest@.ignored_paths,
            idx <= k,
            over == contains_web_dist(path@),
            spec_exclude(pats, path@) == spec_exclude(pats.skip(idx as int), path@),
        decreases k - idx,
    {
        let ghost sub = pats.skip(idx as int);
        proof {
            assert(sub[0] == pats[idx as int]);
            assert(sub.drop_first() =~= pats.skip(idx as int + 1));
        }
        let full = String::from_str("**/").concat(manifest.ignored_paths[idx].as_str());
        proof {
            assert(full@ == any_depth(pats[idx as int]));
        }
        match glob_match(full.as_str(), path) {
            Err(_) => {
                proof {
                    assert(spec_exclude(sub, path@) is None);
                }
                return Err(PackError::InvalidPattern);
            },
            Ok(hit) => {
                if hit && !over {
                    proof {
                        assert(spec_exclude(sub, path@) == Some(true));
                    }
                    return Ok(true);
                }
                proof {
                    assert(spec_exclude(sub, path@) == spec_exclude(
                        pats.skip(idx as int + 1),
                        path@,
                    ));
                }
                idx += 1;
            },
        }
    }
    proof {
        assert(pats.skip(k as int) =~= Seq::<Seq<char>>::empty());
        assert(spec_exclude(pats.skip(k as int), path@) == Some(false));
    }
    Ok(false)
}

/// Exclusion override law, inclusion side: a path containing the
/// built-web-output fragment is never excluded, whatever the patterns say,
/// as long as every pattern is a valid glob.
pub proof fn lemma_override_included(patterns: Seq<Seq<char>>, path: Seq<char>)
    requires
        contains_web_dist(path),
        forall|i: int| 0 <= i < patterns.len() ==> glob_pattern_ok(any_depth(patterns[i])),
    ensures
        spec_exclude(patterns, path) == Some(false),
    decreases patterns.len(),
{
    if patterns.len() > 0 {
        assert(glob_pattern_ok(any_depth(patterns[0])));
        assert(forall|i: int|
            0 <= i < patterns.drop_first().len() ==> glob_pattern_ok(
                any_depth(patterns.drop_first()[i]),
            ));
        lemma_override_included(patterns.drop_first(), path);
    }
}

/// Exclusion override law, exclusion side: a path matched by some ignore
/// pattern and not containing the built-web-output fragment is excluded.
pub proof fn lemma_ignored_excluded(patterns: Seq<Seq<char>>, path: Seq<char>, w: int)
    requires
        0 <= w < patterns.len(),
        glob_matches(any_depth(patterns[w]), path),
        !contains_web_dist(path),
        forall|i: int| 0 <= i < patterns.len() ==> glob_pattern_ok(any_depth(patterns[i])),
    ensures
        spec_exclude(patterns, path) == Some(true),
    decreases patterns.len(),
{
    assert(glob_pattern_ok(any_depth(patterns[0])));
    if glob_matches(any_depth(patterns[0]), path) {
    } else {
        assert(w != 0);
        assert(patterns.drop_first()[w - 1] == patterns[w]);
        assert(forall|i: int|
            0 <= i < patterns.drop_first().len() ==> glob_pattern_ok(
                any_depth(patterns.drop_first()[i]),
            ));
        lemma_ignored_excluded(patterns.drop_first(), path, w - 1);
    }
}

/// Largest index below `i` holding a path separator, or `-1`.
pub open spec fn spec_last_sep(s: Seq<char>, i: int) -> int
    decreases i,
{
    if i <= 0 {
        -1
    } else if is_sep_char(s[i - 1]) {
        i - 1
    } else {
        spec_last_sep(s, i - 1)
    }
}

/// The root's length once trailing separators are trimmed away, scanning
/// backward from `i`.
pub open spec fn spec_trim_seps(s: Seq<char>, i: int) -> int
    decreases i,
{
    if i <= 0 {
        0
    } else if is_sep_char(s[i - 1]) {
        spec_trim_seps(s, i - 1)
    } else {
        i
    }
}

/// `<project-directory-name>.zip`: the name of the output archive, derived
/// from the last component of the project root path; trailing separators on
/// the root do not count as a component.
pub open spec fn spec_archive_name(root: Seq<char>) -> Seq<char> {
    let e = spec_trim_seps(root, root.len() as int);
    root.subrange(spec_last_sep(root, e) + 1, e) + ".zip"@
}

fn trimmed_len(root: &str, n: usize) -> (e: usize)
    requires
        n == root@.len(),
    ensures
        e as int == spec_trim_seps(root@, n as int),
        e <= n,
{
    let mut e = n;
    while e > 0
        invariant
            n == root@.len(),
            e <= n,
            spec_trim_seps(root@, n as int) == spec_trim_seps(root@, e as int),
        decreases e,
    {
        let c = root.get_char(e - 1);
        if c == '/' || c == '\\' {
            assert(spec_trim_seps(root@, e as int) == spec_trim_seps(root@, e as int - 1));
            e -= 1;
        } else {
            assert(spec_trim_seps(root@, e as int) == e as int);
            return e;
        }
    }
    assert(spec_trim_seps(root@, e as int) == 0);
    e
}

/// The archive file's name for a project root.
pub fn archive_file_name(root: &str) -> (r: String)
    ensures
        r@ == spec_archive_name(root@),
{
    let n = root.unicode_len();
    let e = trimmed_len(root, n);
    let mut i = e;
    while i > 0
        invariant
            n == root@.len(),
            i <= e,
            e <= n,
            e as int == spec_trim_seps(root@, n as int),
            spec_last_sep(root@, e as int) == spec_last_sep(root@, i as int),
        decreases i,
    {
        let c = root.get_char(i - 1);
        if c == '/' || c == '\\' {
            assert(spec_last_sep(root@, i as int) == i - 1);
            let base = root.substring_char(i, e);
            return String::from_str(base).concat(".zip");
        }
        assert(spec_last_sep(root@, i as int) == spec_last_sep(root@, i as int - 1));
        i -= 1;
    }
    assert(spec_last_sep(root@, i as int) == -1);
    let base = root.substring_char(0, e);
    String::from_str(base).concat(".zip")
}

/// A walked path as the traversal hands it in: the project root itself, or
/// the root followed by one separator and a non-empty remainder.
pub open spec fn entry_under_root(root: Seq<char>, path: Seq<char>) -> bool {
    ||| path == root
    ||| (path.len() > root.len() + 1 && path.subrange(0, root.len() as int) == root && is_sep_char(
        path[root.len() as int],
    ))
}

/// A walked path relative to the project root.
pub open spec fn spec_rel(root: Seq<char>, path: Seq<char>) -> Seq<char> {
    path.subrange(root.len() as int + 1, path.len() as int)
}

/// The views of a sequence of owned entry names.
pub open spec fn names_view(v: Seq<String>) -> Seq<Seq<char>> {
    Seq::new(v.len(), |i: int| v[i]@)
}

/// The archive plan: the project-relative names of the files to add, in
/// traversal order. The entry equal to the archive's own location is
/// skipped first; every other entry runs through the exclusion decision
/// (`None` when a pattern is invalid); directories produce no entry.
pub open spec fn spec_plan(
    root: Seq<char>,
    entries: Seq<WalkEntry>,
    patterns: Seq<Seq<char>>,
) -> Option<Seq<Seq<char>>>
    decreases entries.len(),
{
    if entries.len() == 0 {
        Some(Seq::empty())
    } else {
        let p = entries[0].path@;
        let rest = entries.drop_first();
        if p != root && spec_rel(root, p) == spec_archive_name(root) {
            spec_plan(root, rest, patterns)
        } else {
            match spec_exclude(patterns, p) {
                None => None,
                Some(true) => spec_plan(root, rest, patterns),
                Some(false) => if entries[0].is_file && p != root {
                    match spec_plan(root, rest, patterns) {
                        None => None::<Seq<Seq<char>>>,
                        Some(tail) => Some(seq![spec_rel(root, p)] + tail),
                    }
                } else {
                    spec_plan(root, rest, patterns)
                },
            }
        }
    }
}

/// Walks the handed-in entries in order and returns the archive plan: the
/// project-relative names of every file to add, with the archive's own
/// location and the excluded paths left out.
pub fn plan_archive(root: &str, entries: &Vec<WalkEntry>, manifest: &FxManifest) -> (r: Result<
    Vec<String>,
    PackError,
>)
    requires
        forall|j: int| 0 <= j < entries@.len() ==> entry_under_root(root@, entries@[j].path@),
    ensures
        (r is Ok) == (spec_plan(root@, entries@, manifest@.ignored_paths) is Some),
        r matches Ok(v) ==> names_view(v@) == spec_plan(
            root@,
            entries@,
            manifest@.ignored_paths,
        )->Some_0,
        r is Err ==> r->Err_0 == PackError::InvalidPattern,
{
    let ghost pats = manifest@.ignored_paths;
    let aname = archive_file_name(root);
    let rl = root.unicode_len();
    let mut out: Vec<String> = Vec::new();
    proof {
        assert(entries@.skip(0) =~= entries@);
        if spec_plan(root@, entries@, pats) is Some {
            assert(names_view(out@) + spec_plan(root@, entries@, pats)->Some_0 =~= spec_plan(
                root@,
                entries@,
                pats,
            )->Some_0);
        }
    }
    let mut i: usize = 0;
    while i < entries.len()
        invariant
            rl == root@.len(),
            aname@ == spec_archive_name(root@),
            pats == manifest@.ignored_paths,
            i <= entries@.len(),
            forall|j: int| 0 <= j < entries@.len() ==> entry_under_root(root@, entries@[j].path@),
            spec_plan(root@, entries@, pats) == (match spec_plan(
                root@,
                entries@.skip(i as int),
                pats,
            ) {
                Option::None => Option::<Seq<Seq<char>>>::None,
                Option::Some(rest) => Option::Some(names_view(out@) + rest),
            }),
        decreases entries@.len() - i,
    {
        let ghost sub = entries@.skip(i as int);
        proof {
            assert(sub[0] == entries@[i as int]);
            assert(sub.drop_first() =~= entries@.skip(i as int + 1));
            assert(entry_under_root(root@, entries@[i as int].path@));
        }
        let is_root = str_eq(entries[i].path.as_str(), root);
        let mut self_entry = false;
        if !is_root {
            let plen = entries[i].path.as_str().unicode_len();
            let rel = entries[i].path.as_str().substring_char(rl + 1, plen);
            proof {
                assert(rel@ == spec_rel(root@, entries@[i as int].path@));
            }
            if str_eq(rel, aname.as_str()) {
                self_entry = true;
            }
        }
        if self_entry {
            proof {
                assert(spec_plan(root@, sub, pats) == spec_plan(
                    root@,
                    entries@.skip(i as int + 1),
                    pats,
                ));
            }
        } else {
            match is_excluded(entries[i].path.as_str(), manifest) {
                Err(er) => {
                    proof {
                        assert(spec_plan(root@, sub, pats) is None);
                    }
                    return Err(er);
                },
                Ok(excl) => {
                    if !excl && entries[i].is_file && !is_root {
                        let plen = entries[i].path.as_str().unicode_len();
                        let rel = String::from_str(
                            entries[i].path.as_str().substring_char(rl + 1, plen),
                        );
                        proof {
                            let rest_next = spec_plan(root@, entries@.skip(i as int + 1), pats);
                            assert(rest_next is None ==> spec_plan(root@, sub, pats) is None);
                            assert(rest_next matches Some(rest) ==> spec_plan(root@, sub, pats)
                                == Some(seq![spec_rel(root@, entries@[i as int].path@)] + rest));
                            if rest_next is Some {
                                let rest = rest_next->Some_0;
                                assert(names_view(out@.push(rel)) =~= names_view(out@).push(rel@));
                                assert(names_view(out@) + (seq![
                                    spec_rel(root@, entries@[i as int].path@),
                                ] + rest) =~= names_view(out@.push(rel)) + rest);
                            }
                        }
                        out.push(rel);
                    } else {
                        proof {
                            assert(spec_plan(root@, sub, pats) == spec_plan(
                                root@,
                                entries@.skip(i as int + 1),
                                pats,
                            ));
                        }
                    }
                },
            }
        }
        i += 1;
    }
    proof {
        assert(entries@.skip(entries@.len() as int) =~= Seq::<WalkEntry>::empty());
        assert(spec_plan(root@, entries@.skip(i as int), pats) == Some(Seq::<Seq<char>>::empty()));
        assert(names_view(out@) + Seq::<Seq<char>>::empty() =~= names_view(out@));
    }
    Ok(out)
}

/// A walked file that the exclusion decision lets through, and that is not
/// the archive's own location, always appears in the archive plan under its
/// project-relative name. Together with the exclusion-override laws: a file
/// matching an ignore pattern ships exactly when its path contains the
/// built-web-output fragment.
pub proof fn lemma_included_file_in_plan(
    root: Seq<char>,
    entries: Seq<WalkEntry>,
    patterns: Seq<Seq<char>>,
    k: int,
)
    requires
        0 <= k < entries.len(),
        entries[k].is_file,
        entries[k].path@ != root,
        spec_rel(root, entries[k].path@) != spec_archive_name(root),
        spec_exclude(patterns, entries[k].path@) == Some(false),
        spec_plan(root, entries, patterns) is Some,
    ensures
        spec_plan(root, entries, patterns)->Some_0.contains(spec_rel(root, entries[k].path@)),
    decreases entries.len(),
{
    let aname = spec_archive_name(root);
    let p = entries[0].path@;
    let rest = entries.drop_first();
    let plan = spec_plan(root, entries, patterns)->Some_0;
    if k == 0 {
        let tail = spec_plan(root, rest, patterns)->Some_0;
        assert(plan == seq![spec_rel(root, p)] + tail);
        assert(plan[0] == spec_rel(root, p));
        assert(plan.contains(spec_rel(root, p)));
    } else {
        assert(rest[k - 1] == entries[k]);
        let restplan = spec_plan(root, rest, patterns);
        assert(restplan is Some);
        lemma_included_file_in_plan(root, rest, patterns, k - 1);
        let x = spec_rel(root, entries[k].path@);
        let j = choose|j: int| 0 <= j < restplan->Some_0.len() && restplan->Some_0[j] == x;
        if !(p != root && spec_rel(root, p) == aname) && spec_exclude(patterns, p) == Some(false)
            && entries[0].is_file && p != root {
            assert(plan == seq![spec_rel(root, p)] + restplan->Some_0);
            assert(plan[j + 1] == x);
            assert(plan.contains(x));
        } else {
            assert(plan == restplan->Some_0);
        }
    }
}

/// Self-exclusion: the produced archive file is never itself an entry in
/// the archive it is part of.
pub proof fn lemma_archive_never_self_entry(
    root: Seq<char>,
    entries: Seq<WalkEntry>,
    patterns: Seq<Seq<char>>,
)
    ensures
        spec_plan(root, entries, patterns) matches Some(plan) ==> !plan.contains(
            spec_archive_name(root),
        ),
    decreases entries.len(),
{
    let aname = spec_archive_name(root);
    if entries.len() > 0 {
        let p = entries[0].path@;
        let rest = entries.drop_first();
        lemma_archive_never_self_entry(root, rest, patterns);
        let rp = spec_plan(root, rest, patterns);
        if spec_plan(root, entries, patterns) is Some {
            let plan = spec_plan(root, entries, patterns)->Some_0;
            if !(p != root && spec_rel(root, p) == aname) && spec_exclude(patterns, p) == Some(
                false,
            ) && entries[0].is_file && p != root {
                let tail = rp->Some_0;
                assert(plan == seq![spec_rel(root, p)] + tail);
                assert(spec_rel(root, p) != aname);
                assert forall|j: int| 0 <= j < plan.len() implies plan[j] != aname by {
                    if j == 0 {
                        assert(plan[0] == spec_rel(root, p));
                    } else {
                        assert(plan[j] == tail[j - 1]);
                        assert(!tail.contains(aname));
                    }
                }
            } else {
                assert(plan == rp->Some_0);
            }
        }
    }
}

/// A stale archive left over from an earlier run changes nothing: walking
/// the tree with the archive's own file present, at any position, yields
/// the same plan as walking it without. Packing twice therefore gives the
/// same entry set whether or not the first archive was deleted in between.
pub proof fn lemma_stale_archive_changes_nothing(
    root: Seq<char>,
    entries: Seq<WalkEntry>,
    patterns: Seq<Seq<char>>,
    k: int,
    e: WalkEntry,
)
    requires
        0 <= k <= entries.len(),
        e.path@ != root,
        spec_rel(root, e.path@) == spec_archive_name(root),
    ensures
        spec_plan(root, entries.insert(k, e), patterns) == spec_plan(root, entries, patterns),
    decreases k,
{
    if k == 0 {
        assert(entries.insert(0, e)[0] == e);
        assert(entries.insert(0, e).drop_first() =~= entries);
    } else {
        assert(entries.insert(k, e)[0] == entries[0]);
        assert(entries.insert(k, e).drop_first() =~= entries.drop_first().insert(k - 1, e));
        lemma_stale_archive_changes_nothing(root, entries.drop_first(), patterns, k - 1, e);
    }
}

/// Idempotence of the packing decision: the archive plan is a function of
/// the project root, the walked entries and the manifest alone, so packing
/// the same unmodified tree twice yields identical entry sets.
pub proof fn lemma_plan_deterministic(
    root1: Seq<char>,
    entries1: Seq<WalkEntry>,
    patterns1: Seq<Seq<char>>,
    root2: Seq<char>,
    entries2: Seq<WalkEntry>,
    patterns2: Seq<Seq<char>>,
)
    requires
        root1 == root2,
        entries1 == entries2,
        patterns1 == patterns2,
    ensures
        spec_plan(root1, entries1, patterns1) == spec_plan(root2, entries2, patterns2),
{
}

} // verus!
