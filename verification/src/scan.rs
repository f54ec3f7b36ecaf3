use vstd::prelude::*;

use crate::rules::{matcher_says_ignore, verdict_ignores, MatcherModel, MatcherRegistry};
use crate::tree::{clone_path, is_strict_prefix_of, join_from, spec_is_strict_prefix, spec_join, Node};

verus! {

/// One matcher decides against a path when its base is a strict ancestor of
/// the path and its rules give an ignore verdict for the path relative to
/// that base.
pub open spec fn matcher_hits(m: MatcherModel, path: Seq<Seq<char>>, is_dir: bool) -> bool {
    spec_is_strict_prefix(m.base, path) && verdict_ignores(
        m.rules,
        spec_join(path.skip(m.base.len() as int)),
        is_dir,
    )
}

/// A path is ignored when the matcher of any strict ancestor directory gives
/// an ignore verdict for it. The walk outward does not stop at a nearer
/// matcher that merely fails to match — deliberately so, for compatibility:
/// a farther ancestor's rules can still ignore a path that a nearer ignore
/// rule file re-includes.
pub open spec fn spec_path_ignored(ms: Seq<MatcherModel>, path: Seq<Seq<char>>, is_dir: bool) -> bool {
    exists|i: int| 0 <= i < ms.len() && #[trigger] matcher_hits(ms[i], path, is_dir)
}

/// Decides whether the entry at `path` (components relative to the scanned
/// root) is ignored, consulting every matcher whose base directory is a
/// strict ancestor of the path.
pub fn is_path_ignored(path: &Vec<String>, is_dir: bool, registry: &MatcherRegistry) -> (r: bool)
    ensures
        r == spec_path_ignored(registry@, path.deep_view(), is_dir),
{
    let mut i: usize = 0;
    while i < registry.entries.len()
        invariant
            0 <= i <= registry.entries.len(),
            registry@.len() == registry.entries.len(),
            forall|j: int| 0 <= j < i ==> !matcher_hits(registry@[j], path.deep_view(), is_dir),
        decreases registry.entries.len() - i,
    {
        let m = &registry.entries[i];
        proof {
            assert(registry@[i as int] == m@);
        }
        if is_strict_prefix_of(&m.base, path) {
            let rel = join_from(path, m.base.len());
            if matcher_says_ignore(&m.inner, rel.as_str(), is_dir) {
                proof {
                    assert(matcher_hits(registry@[i as int], path.deep_view(), is_dir));
                }
                return true;
            }
        }
        i = i + 1;
    }
    false
}

/// What scanning a (not ignored, not version-control metadata) directory
/// node reports, in depth-first discovery order.
pub open spec fn spec_scan_node(n: Node, path: Seq<Seq<char>>, ms: Seq<MatcherModel>) -> Seq<
    Seq<Seq<char>>,
>
    decreases n,
{
    match n {
        Node::File { .. } => Seq::empty(),
        Node::Dir { entries, .. } => spec_scan_entries(entries@, path, ms),
    }
}

/// What scanning the entries of a directory at `dir_path` reports: an entry
/// named ".git" is never reported and never descended into; an ignored entry
/// is reported and, even as a directory, not descended into; any other
/// directory is descended into.
pub open spec fn spec_scan_entries(
    s: Seq<Node>,
    dir_path: Seq<Seq<char>>,
    ms: Seq<MatcherModel>,
) -> Seq<Seq<Seq<char>>>
    decreases s,
{
    if s.len() == 0 {
        Seq::empty()
    } else {
        let n = s.last();
        let p = dir_path.push(n.spec_name());
        spec_scan_entries(s.drop_last(), dir_path, ms) + if n.spec_name() == ".git"@ {
            Seq::empty()
        } else if spec_path_ignored(ms, p, n is Dir) {
            seq![p]
        } else {
            spec_scan_node(n, p, ms)
        }
    }
}

fn scan_rec(n: &Node, path: &mut Vec<String>, registry: &MatcherRegistry, out: &mut Vec<Vec<String>>)
    ensures
        final(path)@ == old(path)@,
        final(out).deep_view() == old(out).deep_view() + spec_scan_node(
            *n,
            old(path).deep_view(),
            registry@,
        ),
    decreases *n,
{
    let ghost pre = out.deep_view();
    let ghost here = path.deep_view();
    match n {
        Node::File { .. } => {
            proof {
                assert(pre + spec_scan_node(*n, here, registry@) =~= pre);
            }
        },
        Node::Dir { entries, .. } => {
            let dotgit: String = ".git".to_owned();
            let mut i: usize = 0;
            while i < entries.len()
                invariant
                    0 <= i <= entries.len(),
                    n is Dir,
                    *entries == n->entries,
                    dotgit@ == ".git"@,
                    path@ == old(path)@,
                    path.deep_view() == here,
                    out.deep_view() == pre + spec_scan_entries(
                        entries@.take(i as int),
                        here,
                        registry@,
                    ),
                decreases entries.len() - i,
            {
                proof {
                    assert(entries@.take(i + 1 as int).drop_last() =~= entries@.take(i as int));
                    assert(entries@.take(i + 1 as int).last() == entries@[i as int]);
                }
                let ghost before = out.deep_view();
                let child = &entries[i];
                let ghost p = here.push(child.spec_name());
                let name = child.name();
                if !(*name == dotgit) {
                    let is_dir = child.is_dir();
                    path.push(name.clone());
                    proof {
                        assert(path.deep_view() =~= p);
                    }
                    if is_path_ignored(path, is_dir, registry) {
                        let reported = clone_path(path);
                        proof {
                            assert(reported.deep_view() =~= p);
                        }
                        out.push(reported);
                        proof {
                            assert(out.deep_view() =~= before + seq![p]);
                        }
                    } else if is_dir {
                        proof {
                            assert(decreases_to!(*n => n->entries));
                            vstd::std_specs::vec::axiom_vec_index_decreases(*entries, i as int);
                        }
                        scan_rec(child, path, registry, out);
                    }
                    let _ = path.pop();
                    proof {
                        assert(path@ =~= old(path)@);
                        assert(path.deep_view() =~= here);
                    }
                }
                proof {
                    let s1 = entries@.take(i + 1 as int);
                    assert(s1.last() == *child);
                    assert(s1.drop_last() == entries@.take(i as int));
                    let contribution = if child.spec_name() == ".git"@ {
                        Seq::<Seq<Seq<char>>>::empty()
                    } else if spec_path_ignored(registry@, p, *child is Dir) {
                        seq![p]
                    } else {
                        spec_scan_node(*child, p, registry@)
                    };
                    assert(spec_scan_entries(s1, here, registry@) == spec_scan_entries(
                        entries@.take(i as int),
                        here,
                        registry@,
                    ) + contribution);
                    assert(out.deep_view() =~~= before + contribution);
                    assert(out.deep_view() =~~= pre + spec_scan_entries(
                        entries@.take(i + 1 as int),
                        here,
                        registry@,
                    ));
                }
                i = i + 1;
            }
            proof {
                assert(entries@.take(entries.len() as int) =~= entries@);
            }
        },
    }
}

/// Scans the tree under `root` and reports every ignored entry, as component
/// paths relative to the root, in depth-first discovery order. Reported
/// directories are not descended into, so no reported path is an ancestor of
/// another; nothing under a directory named ".git" is ever reported.
pub fn scan_ignored_files(root: &Node, registry: &MatcherRegistry) -> (r: Vec<Vec<String>>)
    ensures
        r.deep_view() == spec_scan_node(*root, Seq::empty(), registry@),
{
    let mut out: Vec<Vec<String>> = Vec::new();
    let mut path: Vec<String> = Vec::new();
    proof {
        assert(out.deep_view() =~= Seq::<Seq<Seq<char>>>::empty());
        assert(path.deep_view() =~= Seq::<Seq<char>>::empty());
    }
    scan_rec(root, &mut path, registry, &mut out);
    out
}

// ---------------------------------------------------------------------------
// The guarantees of resolution and scanning.
// ---------------------------------------------------------------------------
/// Protected patterns win everywhere. Take a registry gathered from a tree
/// with the default catalog and some tame extra patterns, and a pattern `p`
/// of the catalog (or of the extras) whose negation line the glob parser
/// accepts. A path that `p`'s glob applies to — from the viewpoint of every
/// ancestor directory — is never resolved as ignored, whatever any ignore
/// rule file in the tree says.
pub proof fn lemma_catalog_protection(
    root: Node,
    extras: Seq<Seq<char>>,
    path: Seq<Seq<char>>,
    is_dir: bool,
    p: Seq<char>,
)
    requires
        crate::rules::all_tame(extras),
        crate::patterns::default_catalog().contains(p) || extras.contains(p),
        crate::rules::line_ok(crate::rules::negation_line(p)),
        forall|b: int|
            0 <= b < path.len() ==> crate::rules::glob_matches(
                p,
                #[trigger] spec_join(path.skip(b)),
                is_dir,
            ),
    ensures
        !spec_path_ignored(
            crate::rules::spec_gather_node(
                root,
                Seq::empty(),
                crate::patterns::default_catalog(),
                extras,
            ),
            path,
            is_dir,
        ),
{
    let defaults = crate::patterns::default_catalog();
    let ms = crate::rules::spec_gather_node(root, Seq::empty(), defaults, extras);
    crate::patterns::lemma_catalog_tame();
    crate::rules::lemma_gather_shape(root, Seq::empty(), defaults, extras);
    if spec_path_ignored(ms, path, is_dir) {
        let i = choose|i: int| 0 <= i < ms.len() && #[trigger] matcher_hits(ms[i], path, is_dir);
        let m = ms[i];
        assert(crate::rules::matcher_compiled_with(m, defaults, extras));
        let lines = choose|lines: Seq<Seq<char>>|
            m.rules == #[trigger] crate::rules::compiled_rules(lines, defaults, extras);
        let b = m.base.len() as int;
        assert(0 <= b < path.len());
        crate::rules::lemma_matcher_protection(
            lines,
            defaults,
            extras,
            p,
            spec_join(path.skip(b)),
            is_dir,
        );
        assert(false);
    }
}

pub open spec fn no_git_component(p: Seq<Seq<char>>) -> bool {
    forall|k: int| 0 <= k < p.len() ==> p[k] != ".git"@
}

/// The scan never reports anything at or under a directory named ".git":
/// started at a path free of that name, every reported path is free of it.
pub proof fn lemma_scan_skips_git(n: Node, path: Seq<Seq<char>>, ms: Seq<MatcherModel>)
    requires
        no_git_component(path),
    ensures
        forall|j: int|
            0 <= j < spec_scan_node(n, path, ms).len() ==> no_git_component(
                #[trigger] spec_scan_node(n, path, ms)[j],
            ),
    decreases n,
{
    let out = spec_scan_node(n, path, ms);
    match n {
        Node::File { .. } => {
            assert(out =~= Seq::<Seq<Seq<char>>>::empty());
        },
        Node::Dir { entries, .. } => {
            lemma_scan_entries_skips_git(entries@, path, ms);
            let rest = spec_scan_entries(entries@, path, ms);
            assert forall|j: int| 0 <= j < out.len() implies no_git_component(
                #[trigger] out[j],
            ) by {
                assert(out[j] == rest[j]);
            }
        },
    }
}

pub proof fn lemma_scan_entries_skips_git(
    s: Seq<Node>,
    dir_path: Seq<Seq<char>>,
    ms: Seq<MatcherModel>,
)
    requires
        no_git_component(dir_path),
    ensures
        forall|j: int|
            0 <= j < spec_scan_entries(s, dir_path, ms).len() ==> no_git_component(
                #[trigger] spec_scan_entries(s, dir_path, ms)[j],
            ),
    decreases s,
{
    if s.len() > 0 {
        let whole = spec_scan_entries(s, dir_path, ms);
        let prefix = spec_scan_entries(s.drop_last(), dir_path, ms);
        lemma_scan_entries_skips_git(s.drop_last(), dir_path, ms);
        let n = s.last();
        let p = dir_path.push(n.spec_name());
        let tail = if n.spec_name() == ".git"@ {
            Seq::<Seq<Seq<char>>>::empty()
        } else if spec_path_ignored(ms, p, n is Dir) {
            seq![p]
        } else {
            spec_scan_node(n, p, ms)
        };
        assert(whole == prefix + tail);
        if n.spec_name() != ".git"@ {
            assert(no_git_component(p)) by {
                assert(forall|k: int| 0 <= k < dir_path.len() ==> p[k] == dir_path[k]);
                assert(p[p.len() - 1] == n.spec_name());
            }
            if !spec_path_ignored(ms, p, n is Dir) {
                lemma_scan_skips_git(n, p, ms);
            }
        }
        assert forall|j: int| 0 <= j < whole.len() implies no_git_component(
            #[trigger] whole[j],
        ) by {
            if j < prefix.len() {
                assert(whole[j] == prefix[j]);
            } else {
                assert(whole[j] == tail[j - prefix.len()]);
            }
        }
    }
}

/// Everything the scan reports was resolved as ignored: each reported path
/// got an ignore verdict from some ancestor matcher, as a file or as a
/// directory.
pub proof fn lemma_scan_reports_ignored(n: Node, path: Seq<Seq<char>>, ms: Seq<MatcherModel>)
    ensures
        forall|j: int|
            0 <= j < spec_scan_node(n, path, ms).len() ==> spec_path_ignored(
                ms,
                #[trigger] spec_scan_node(n, path, ms)[j],
                true,
            ) || spec_path_ignored(ms, spec_scan_node(n, path, ms)[j], false),
    decreases n,
{
    let out = spec_scan_node(n, path, ms);
    match n {
        Node::File { .. } => {
            assert(out =~= Seq::<Seq<Seq<char>>>::empty());
        },
        Node::Dir { entries, .. } => {
            lemma_scan_entries_reports_ignored(entries@, path, ms);
            let rest = spec_scan_entries(entries@, path, ms);
            assert forall|j: int| 0 <= j < out.len() implies spec_path_ignored(
                ms,
                #[trigger] out[j],
                true,
            ) || spec_path_ignored(ms, out[j], false) by {
                assert(out[j] == rest[j]);
            }
        },
    }
}

pub proof fn lemma_scan_entries_reports_ignored(
    s: Seq<Node>,
    dir_path: Seq<Seq<char>>,
    ms: Seq<MatcherModel>,
)
    ensures
        forall|j: int|
            0 <= j < spec_scan_entries(s, dir_path, ms).len() ==> spec_path_ignored(
                ms,
                #[trigger] spec_scan_entries(s, dir_path, ms)[j],
                true,
            ) || spec_path_ignored(ms, spec_scan_entries(s, dir_path, ms)[j], false),
    decreases s,
{
    if s.len() > 0 {
        let whole = spec_scan_entries(s, dir_path, ms);
        let prefix = spec_scan_entries(s.drop_last(), dir_path, ms);
        lemma_scan_entries_reports_ignored(s.drop_last(), dir_path, ms);
        let n = s.last();
        let p = dir_path.push(n.spec_name());
        let tail = if n.spec_name() == ".git"@ {
            Seq::<Seq<Seq<char>>>::empty()
        } else if spec_path_ignored(ms, p, n is Dir) {
            seq![p]
        } else {
            spec_scan_node(n, p, ms)
        };
        assert(whole == prefix + tail);
        if n.spec_name() != ".git"@ && !spec_path_ignored(ms, p, n is Dir) {
            lemma_scan_reports_ignored(n, p, ms);
        }
        assert forall|j: int| 0 <= j < whole.len() implies spec_path_ignored(
            ms,
            #[trigger] whole[j],
            true,
        ) || spec_path_ignored(ms, whole[j], false) by {
            if j < prefix.len() {
                assert(whole[j] == prefix[j]);
            } else {
                assert(whole[j] == tail[j - prefix.len()]);
            }
        }
    }
}

/// Every reported path strictly extends the path of the directory being
/// scanned, and its first new component is the name of one of its entries.
pub open spec fn extends_into(q: Seq<Seq<char>>, dir_path: Seq<Seq<char>>) -> bool {
    q.len() > dir_path.len() && q.take(dir_path.len() as int) == dir_path
}

/// Distinct names within each directory of the tree: what a real filesystem
/// guarantees.
pub open spec fn wf_names_node(n: Node) -> bool
    decreases n,
{
    match n {
        Node::File { .. } => true,
        Node::Dir { entries, .. } => wf_names_entries(entries@),
    }
}

pub open spec fn wf_names_entries(s: Seq<Node>) -> bool
    decreases s,
{
    if s.len() == 0 {
        true
    } else {
        wf_names_entries(s.drop_last()) && wf_names_node(s.last()) && (forall|k: int|
            0 <= k < s.len() - 1 ==> (#[trigger] s[k].spec_name()) != s.last().spec_name())
    }
}

/// Candidates are mutually exclusive: in a tree whose directories hold no
/// duplicate names, no reported path is a strict ancestor of another — an
/// ignored directory is reported once and never descended into.
pub proof fn lemma_scan_candidates_disjoint(n: Node, path: Seq<Seq<char>>, ms: Seq<MatcherModel>)
    requires
        wf_names_node(n),
    ensures
        forall|j: int|
            0 <= j < spec_scan_node(n, path, ms).len() ==> extends_into(
                #[trigger] spec_scan_node(n, path, ms)[j],
                path,
            ),
        forall|i: int, j: int|
            0 <= i < spec_scan_node(n, path, ms).len() && 0 <= j < spec_scan_node(
                n,
                path,
                ms,
            ).len() && i != j ==> !spec_is_strict_prefix(
                spec_scan_node(n, path, ms)[i],
                spec_scan_node(n, path, ms)[j],
            ),
    decreases n,
{
    let out = spec_scan_node(n, path, ms);
    match n {
        Node::File { .. } => {
            assert(out =~= Seq::<Seq<Seq<char>>>::empty());
        },
        Node::Dir { entries, .. } => {
            lemma_scan_entries_disjoint(entries@, path, ms);
            let rest = spec_scan_entries(entries@, path, ms);
            assert(out == rest);
            assert forall|j: int| 0 <= j < out.len() implies extends_into(
                #[trigger] out[j],
                path,
            ) by {
                assert(out[j] == rest[j]);
            }
            assert forall|i: int, j: int|
                0 <= i < out.len() && 0 <= j < out.len() && i != j implies !spec_is_strict_prefix(
                out[i],
                out[j],
            ) by {
                assert(out[i] == rest[i] && out[j] == rest[j]);
            }
        },
    }
}

pub proof fn lemma_scan_entries_disjoint(
    s: Seq<Node>,
    dir_path: Seq<Seq<char>>,
    ms: Seq<MatcherModel>,
)
    requires
        wf_names_entries(s),
    ensures
        forall|j: int|
            0 <= j < spec_scan_entries(s, dir_path, ms).len() ==> extends_into(
                #[trigger] spec_scan_entries(s, dir_path, ms)[j],
                dir_path,
            ),
        forall|j: int|
            0 <= j < spec_scan_entries(s, dir_path, ms).len() ==> exists|k: int|
                0 <= k < s.len() && (#[trigger] spec_scan_entries(s, dir_path, ms)[j])[dir_path.len() as int]
                    == s[k].spec_name(),
        forall|i: int, j: int|
            0 <= i < spec_scan_entries(s, dir_path, ms).len() && 0 <= j < spec_scan_entries(
                s,
                dir_path,
                ms,
            ).len() && i != j ==> !spec_is_strict_prefix(
                spec_scan_entries(s, dir_path, ms)[i],
                spec_scan_entries(s, dir_path, ms)[j],
            ),
    decreases s,
{
    if s.len() > 0 {
        let whole = spec_scan_entries(s, dir_path, ms);
        let prefix = spec_scan_entries(s.drop_last(), dir_path, ms);
        lemma_scan_entries_disjoint(s.drop_last(), dir_path, ms);
        let n = s.last();
        let p = dir_path.push(n.spec_name());
        let b = dir_path.len() as int;
        assert(p[b] == n.spec_name());
        let tail = if n.spec_name() == ".git"@ {
            Seq::<Seq<Seq<char>>>::empty()
        } else if spec_path_ignored(ms, p, n is Dir) {
            seq![p]
        } else {
            spec_scan_node(n, p, ms)
        };
        assert(whole == prefix + tail);
        assert(p.take(b) =~= dir_path);
        // Every path of the tail extends dir_path, with the last entry's
        // name as its first new component.
        if n.spec_name() != ".git"@ && !spec_path_ignored(ms, p, n is Dir) {
            lemma_scan_candidates_disjoint(n, p, ms);
        }
        assert forall|j: int| 0 <= j < tail.len() implies extends_into(
            #[trigger] tail[j],
            dir_path,
        ) && tail[j][b] == n.spec_name() by {
            if n.spec_name() != ".git"@ && spec_path_ignored(ms, p, n is Dir) {
                assert(tail[j] == p);
                assert(p.take(b) == dir_path);
                assert(p[b] == n.spec_name());
            } else {
                assert(extends_into(tail[j], p));
                assert(tail[j].take(b + 1) == p);
                assert(tail[j].take(b + 1).take(b) =~= tail[j].take(b));
                assert(tail[j][b] == tail[j].take(b + 1)[b]);
            }
        }
        // Prefix paths carry an earlier entry's name at position b; the wf
        // hypothesis makes that name distinct from the last entry's, so no
        // prefix path and tail path are related by the strict-prefix order.
        assert forall|j: int| 0 <= j < whole.len() implies extends_into(
            #[trigger] whole[j],
            dir_path,
        ) by {
            if j < prefix.len() {
                assert(whole[j] == prefix[j]);
            } else {
                assert(whole[j] == tail[j - prefix.len()]);
            }
        }
        assert forall|j: int| 0 <= j < whole.len() implies exists|k: int|
            0 <= k < s.len() && (#[trigger] whole[j])[b] == s[k].spec_name() by {
            if j < prefix.len() {
                assert(whole[j] == prefix[j]);
                let k = choose|k: int|
                    0 <= k < s.drop_last().len() && prefix[j][b] == s.drop_last()[k].spec_name();
                assert(s.drop_last()[k] == s[k]);
                assert(whole[j][b] == s[k].spec_name());
            } else {
                assert(whole[j] == tail[j - prefix.len()]);
                assert(whole[j][b] == s[s.len() - 1].spec_name());
            }
        }
        assert forall|i: int, j: int|
            0 <= i < whole.len() && 0 <= j < whole.len() && i != j implies !spec_is_strict_prefix(
            whole[i],
            whole[j],
        ) by {
            if i < prefix.len() && j < prefix.len() {
                assert(whole[i] == prefix[i] && whole[j] == prefix[j]);
                assert(!spec_is_strict_prefix(prefix[i], prefix[j]));
            } else if i >= prefix.len() && j >= prefix.len() {
                assert(whole[i] == tail[i - prefix.len()] && whole[j] == tail[j - prefix.len()]);
                if n.spec_name() != ".git"@ && spec_path_ignored(ms, p, n is Dir) {
                    assert(whole[i] == p && whole[j] == p);
                    assert(!spec_is_strict_prefix(p, p));
                } else if n.spec_name() != ".git"@ {
                    assert(!spec_is_strict_prefix(tail[i - prefix.len()], tail[j - prefix.len()]));
                }
            } else {
                let a = if i < prefix.len() {
                    i
                } else {
                    j
                };
                let t = if i < prefix.len() {
                    j
                } else {
                    i
                };
                let qa = whole[a];
                let qt = whole[t];
                let k = choose|k: int|
                    0 <= k < s.drop_last().len() && prefix[a][b] == s.drop_last()[k].spec_name();
                assert(qa == prefix[a]);
                assert(qa[b] == s[k].spec_name());
                assert(s[k].spec_name() != s.last().spec_name());
                assert(qt == tail[t - prefix.len()]);
                assert(qt[b] == n.spec_name());
                assert(qa[b] != qt[b]);
                if spec_is_strict_prefix(qa, qt) {
                    assert(qa == qt.take(qa.len() as int));
                    assert(qa[b] == qt[b]);
                }
                if spec_is_strict_prefix(qt, qa) {
                    assert(qt == qa.take(qt.len() as int));
                    assert(qt[b] == qa[b]);
                }
            }
        }
    }
}

} // verus!
