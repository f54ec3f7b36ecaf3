use vstd::prelude::*;

use crate::tree::{clone_path, Node};
use crate::types::ItemWithSize;

verus! {

/// The byte size of a node: a file contributes its length, a directory the
/// sum over every file transitively beneath it.
pub open spec fn spec_node_size(n: Node) -> nat
    decreases n,
{
    match n {
        Node::File { size, .. } => size as nat,
        Node::Dir { entries, .. } => spec_entries_size(entries@),
    }
}

pub open spec fn spec_entries_size(s: Seq<Node>) -> nat
    decreases s,
{
    if s.len() == 0 {
        0
    } else {
        spec_entries_size(s.drop_last()) + spec_node_size(s.last())
    }
}

/// Saturation at the largest representable byte count.
pub open spec fn sat64(x: int) -> int {
    if x > u64::MAX {
        u64::MAX as int
    } else {
        x
    }
}

/// The total byte size of the subtree at `n`, saturating at `u64::MAX`.
/// The sum is the same whatever order the files are visited in.
pub fn calculate_path_size_parallel(n: &Node) -> (r: u64)
    ensures
        r == sat64(spec_node_size(*n) as int),
    decreases *n,
{
    match n {
        Node::File { size, .. } => *size,
        Node::Dir { entries, .. } => {
            let mut acc: u64 = 0;
            let mut i: usize = 0;
            while i < entries.len()
                invariant
                    0 <= i <= entries.len(),
                    n is Dir,
                    *entries == n->entries,
                    acc == sat64(spec_entries_size(entries@.take(i as int)) as int),
                decreases entries.len() - i,
            {
                proof {
                    assert(entries@.take(i + 1 as int).drop_last() =~= entries@.take(i as int));
                    assert(entries@.take(i + 1 as int).last() == entries@[i as int]);
                    assert(decreases_to!(*n => n->entries));
                    vstd::std_specs::vec::axiom_vec_index_decreases(*entries, i as int);
                }
                let child_size = calculate_path_size_parallel(&entries[i]);
                if u64::MAX - acc < child_size {
                    acc = u64::MAX;
                } else {
                    acc = acc + child_size;
                }
                i = i + 1;
            }
            proof {
                assert(entries@.take(entries.len() as int) =~= entries@);
            }
            acc
        },
    }
}

proof fn lemma_entries_size_remove(s: Seq<Node>, j: int)
    requires
        0 <= j < s.len(),
    ensures
        spec_entries_size(s) == spec_entries_size(s.remove(j)) + spec_node_size(s[j]),
    decreases s.len(),
{
    if j == s.len() - 1 {
        assert(s.remove(j) =~= s.drop_last());
    } else {
        lemma_entries_size_remove(s.drop_last(), j);
        assert(s.remove(j).drop_last() =~= s.drop_last().remove(j));
        assert(s.remove(j).last() == s.last());
        assert(s.drop_last()[j] == s[j]);
    }
}

/// The subtree sum does not depend on the order the entries are visited in:
/// any two arrangements of the same entries have the same total size.
pub proof fn lemma_size_order_independent(a: Seq<Node>, b: Seq<Node>)
    requires
        a.to_multiset() == b.to_multiset(),
    ensures
        spec_entries_size(a) == spec_entries_size(b),
    decreases a.len(),
{
    broadcast use vstd::seq_lib::group_to_multiset_ensures;

    if a.len() == 0 {
        assert(b.to_multiset().len() == 0);
    } else {
        let x = a.last();
        assert(a.contains(x));
        assert(b.to_multiset().count(x) > 0);
        assert(b.contains(x));
        let j = choose|j: int| 0 <= j < b.len() && b[j] == x;
        assert(a.remove(a.len() - 1) =~= a.drop_last());
        assert(a.drop_last().to_multiset() =~= a.to_multiset().remove(x));
        assert(b.remove(j).to_multiset() =~= b.to_multiset().remove(x));
        lemma_size_order_independent(a.drop_last(), b.remove(j));
        lemma_entries_size_remove(b, j);
    }
}

/// The first entry with the given name, if any.
pub open spec fn spec_child(s: Seq<Node>, name: Seq<char>) -> Option<Node>
    decreases s.len(),
{
    if s.len() == 0 {
        None
    } else if s[0].spec_name() == name {
        Some(s[0])
    } else {
        spec_child(s.skip(1), name)
    }
}

/// The node that a component path leads to from `n`, if any.
pub open spec fn spec_lookup(n: Node, path: Seq<Seq<char>>) -> Option<Node>
    decreases path.len(),
{
    if path.len() == 0 {
        Some(n)
    } else {
        match n {
            Node::File { .. } => None,
            Node::Dir { entries, .. } => match spec_child(entries@, path[0]) {
                None => None,
                Some(c) => spec_lookup(c, path.skip(1)),
            },
        }
    }
}

fn find_child<'a>(entries: &'a Vec<Node>, name: &String) -> (r: Option<&'a Node>)
    ensures
        match r {
            Some(c) => spec_child(entries@, name@) == Some(*c),
            None => spec_child(entries@, name@) is None,
        },
{
    let mut i: usize = 0;
    proof {
        assert(entries@.skip(0) =~= entries@);
    }
    while i < entries.len()
        invariant
            0 <= i <= entries.len(),
            spec_child(entries@.skip(i as int), name@) == spec_child(entries@, name@),
        decreases entries.len() - i,
    {
        proof {
            assert(entries@.skip(i as int)[0] == entries@[i as int]);
            assert(entries@.skip(i as int).skip(1) =~= entries@.skip(i + 1 as int));
        }
        let cname = entries[i].name();
        if *cname == *name {
            return Some(&entries[i]);
        }
        i = i + 1;
    }
    None
}

fn lookup_node<'a>(n: &'a Node, path: &Vec<String>, from: usize) -> (r: Option<&'a Node>)
    requires
        from <= path.len(),
    ensures
        match r {
            Some(c) => spec_lookup(*n, path.deep_view().skip(from as int)) == Some(*c),
            None => spec_lookup(*n, path.deep_view().skip(from as int)) is None,
        },
    decreases path.len() - from,
{
    if from == path.len() {
        proof {
            assert(path.deep_view().skip(from as int) =~= Seq::<Seq<char>>::empty());
        }
        return Some(n);
    }
    proof {
        assert(path.deep_view().skip(from as int)[0] == path.deep_view()[from as int]);
        assert(path.deep_view().skip(from as int).skip(1) =~= path.deep_view().skip(
            from + 1 as int,
        ));
    }
    match n {
        Node::File { .. } => None,
        Node::Dir { entries, .. } => match find_child(entries, &path[from]) {
            None => None,
            Some(c) => lookup_node(c, path, from + 1),
        },
    }
}

/// The size that is reported for a candidate path: the saturated subtree sum
/// of the node it leads to, or zero when the path leads nowhere (an entry
/// that vanished between discovery and measurement).
pub open spec fn spec_item_size(root: Node, p: Seq<Seq<char>>) -> int {
    match spec_lookup(root, p) {
        None => 0,
        Some(m) => sat64(spec_node_size(m) as int),
    }
}

/// Measures every candidate independently: each path is resolved in the
/// tree and its subtree size computed; a path that resolves to nothing
/// contributes zero rather than an error.
pub fn calculate_sizes(paths: &Vec<Vec<String>>, root: &Node) -> (r: Vec<ItemWithSize>)
    ensures
        r@.len() == paths@.len(),
        forall|i: int|
            0 <= i < r@.len() ==> (#[trigger] r@[i])@ == (
                paths.deep_view()[i],
                spec_item_size(*root, paths.deep_view()[i]) as u64,
            ),
{
    let mut r: Vec<ItemWithSize> = Vec::new();
    let mut i: usize = 0;
    while i < paths.len()
        invariant
            0 <= i <= paths.len(),
            r@.len() == i,
            forall|j: int|
                0 <= j < i ==> (#[trigger] r@[j])@ == (
                    paths.deep_view()[j],
                    spec_item_size(*root, paths.deep_view()[j]) as u64,
                ),
        decreases paths.len() - i,
    {
        let p = &paths[i];
        let size: u64 = match lookup_node(root, p, 0) {
            Some(node) => calculate_path_size_parallel(node),
            None => 0,
        };
        proof {
            assert(p.deep_view() =~= paths.deep_view()[i as int].skip(0));
            assert(p.deep_view() =~= paths.deep_view()[i as int]);
        }
        let item = ItemWithSize { path: clone_path(p), size };
        proof {
            assert(item.path.deep_view() =~= paths.deep_view()[i as int]);
        }
        r.push(item);
        i = i + 1;
    }
    r
}

/// Where an item lands when inserted into a list already sorted by
/// descending size: after every item at least as large, before the rest, so
/// that earlier items keep priority among equals.
pub open spec fn spec_insert_desc(s: Seq<ItemWithSize>, x: ItemWithSize) -> Seq<ItemWithSize>
    decreases s.len(),
{
    if s.len() == 0 {
        seq![x]
    } else if s.last().size >= x.size {
        s.push(x)
    } else {
        spec_insert_desc(s.drop_last(), x).push(s.last())
    }
}

/// The stable descending order of a list: each item inserted in turn.
pub open spec fn spec_sort_desc(s: Seq<ItemWithSize>) -> Seq<ItemWithSize>
    decreases s.len(),
{
    if s.len() == 0 {
        Seq::empty()
    } else {
        spec_insert_desc(spec_sort_desc(s.drop_last()), s.last())
    }
}

/// Sizes never increase along the list.
pub open spec fn sorted_desc(s: Seq<ItemWithSize>) -> bool {
    forall|i: int, j: int| 0 <= i <= j < s.len() ==> s[i].size >= s[j].size
}

proof fn lemma_insert_desc_elems(s: Seq<ItemWithSize>, x: ItemWithSize)
    ensures
        spec_insert_desc(s, x).len() == s.len() + 1,
        forall|i: int|
            0 <= i < spec_insert_desc(s, x).len() ==> s.contains(
                #[trigger] spec_insert_desc(s, x)[i],
            ) || spec_insert_desc(s, x)[i] == x,
    decreases s.len(),
{
    let out = spec_insert_desc(s, x);
    if s.len() == 0 {
    } else if s.last().size >= x.size {
        assert forall|i: int| 0 <= i < out.len() implies s.contains(#[trigger] out[i]) || out[i]
            == x by {
            if i < s.len() {
                assert(out[i] == s[i]);
            }
        }
    } else {
        lemma_insert_desc_elems(s.drop_last(), x);
        let inner = spec_insert_desc(s.drop_last(), x);
        assert(out == inner.push(s.last()));
        assert forall|i: int| 0 <= i < out.len() implies s.contains(#[trigger] out[i]) || out[i]
            == x by {
            if i < inner.len() {
                assert(out[i] == inner[i]);
                if s.drop_last().contains(inner[i]) {
                    let k = choose|k: int|
                        0 <= k < s.drop_last().len() && s.drop_last()[k] == inner[i];
                    assert(s[k] == inner[i]);
                }
            } else {
                assert(out[i] == s.last());
                assert(s[s.len() - 1] == s.last());
            }
        }
    }
}

proof fn lemma_insert_desc_sorted(s: Seq<ItemWithSize>, x: ItemWithSize)
    requires
        sorted_desc(s),
    ensures
        sorted_desc(spec_insert_desc(s, x)),
    decreases s.len(),
{
    let out = spec_insert_desc(s, x);
    if s.len() == 0 {
    } else if s.last().size >= x.size {
        assert forall|i: int, j: int| 0 <= i <= j < out.len() implies out[i].size
            >= out[j].size by {
            if j < s.len() {
                assert(out[i] == s[i] && out[j] == s[j]);
            } else if i < s.len() {
                assert(out[i] == s[i] && out[j] == x);
                assert(s[i].size >= s.last().size);
            }
        }
    } else {
        assert(sorted_desc(s.drop_last())) by {
            assert(forall|i: int, j: int|
                0 <= i <= j < s.len() - 1 ==> s.drop_last()[i] == s[i] && s.drop_last()[j]
                    == s[j]);
        }
        lemma_insert_desc_sorted(s.drop_last(), x);
        lemma_insert_desc_elems(s.drop_last(), x);
        let inner = spec_insert_desc(s.drop_last(), x);
        assert(out == inner.push(s.last()));
        assert forall|i: int, j: int| 0 <= i <= j < out.len() implies out[i].size
            >= out[j].size by {
            if j < inner.len() {
                assert(out[i] == inner[i] && out[j] == inner[j]);
            } else if i < inner.len() {
                assert(out[i] == inner[i] && out[j] == s.last());
                if s.drop_last().contains(inner[i]) {
                    let k = choose|k: int|
                        0 <= k < s.drop_last().len() && s.drop_last()[k] == inner[i];
                    assert(s[k] == inner[i]);
                    assert(s[k].size >= s.last().size);
                }
            }
        }
    }
}

/// The ordering law of the size report: the stable sort leaves the sizes
/// descending from the first item to the last.
pub proof fn lemma_sort_desc_sorted(s: Seq<ItemWithSize>)
    ensures
        sorted_desc(spec_sort_desc(s)),
    decreases s.len(),
{
    if s.len() > 0 {
        lemma_sort_desc_sorted(s.drop_last());
        lemma_insert_desc_sorted(spec_sort_desc(s.drop_last()), s.last());
    }
}

proof fn lemma_insert_desc_permutes(s: Seq<ItemWithSize>, x: ItemWithSize)
    ensures
        spec_insert_desc(s, x).to_multiset() == s.to_multiset().insert(x),
    decreases s.len(),
{
    broadcast use vstd::seq_lib::group_to_multiset_ensures;

    if s.len() == 0 {
        assert(seq![x] =~= Seq::<ItemWithSize>::empty().push(x));
    } else if s.last().size >= x.size {
    } else {
        lemma_insert_desc_permutes(s.drop_last(), x);
        assert(s =~= s.drop_last().push(s.last()));
        assert(s.to_multiset().insert(x) =~= s.drop_last().to_multiset().insert(s.last()).insert(
            x,
        ));
        assert(s.drop_last().to_multiset().insert(s.last()).insert(x)
            =~= s.drop_last().to_multiset().insert(x).insert(s.last()));
    }
}

/// The stable sort rearranges the items and nothing more: sorted and
/// unsorted lists hold the same items, with multiplicity.
pub proof fn lemma_sort_desc_permutes(s: Seq<ItemWithSize>)
    ensures
        spec_sort_desc(s).to_multiset() == s.to_multiset(),
    decreases s.len(),
{
    broadcast use vstd::seq_lib::group_to_multiset_ensures;

    if s.len() > 0 {
        lemma_sort_desc_permutes(s.drop_last());
        lemma_insert_desc_permutes(spec_sort_desc(s.drop_last()), s.last());
        assert(s =~= s.drop_last().push(s.last()));
        assert(s.to_multiset() =~= s.drop_last().to_multiset().insert(s.last()));
    }
}

fn insert_desc(out: &mut Vec<ItemWithSize>, x: ItemWithSize)
    ensures
        final(out)@ == spec_insert_desc(old(out)@, x),
{
    let ghost s = out@;
    let mut pos: usize = out.len();
    proof {
        assert(s.take(pos as int) =~= s);
        assert(s.skip(pos as int) =~= Seq::<ItemWithSize>::empty());
        assert(spec_insert_desc(s.take(pos as int), x) + s.skip(pos as int) =~= spec_insert_desc(
            s,
            x,
        ));
    }
    while pos > 0 && out[pos - 1].size < x.size
        invariant
            0 <= pos <= out.len(),
            out@ == s,
            spec_insert_desc(s, x) == spec_insert_desc(s.take(pos as int), x) + s.skip(pos as int),
        decreases pos,
    {
        proof {
            assert(s.take(pos as int).last() == s[pos - 1]);
            assert(s.take(pos as int).drop_last() =~= s.take(pos - 1));
            assert(seq![s[pos - 1]] + s.skip(pos as int) =~= s.skip(pos - 1));
            assert(spec_insert_desc(s.take(pos - 1), x).push(s[pos - 1]) + s.skip(pos as int)
                =~= spec_insert_desc(s.take(pos - 1), x) + s.skip(pos - 1));
        }
        pos = pos - 1;
    }
    proof {
        if pos > 0 {
            assert(s.take(pos as int).last() == s[pos - 1]);
            assert(spec_insert_desc(s.take(pos as int), x) == s.take(pos as int).push(x));
        } else {
            assert(s.take(0).len() == 0);
        }
        assert(s.take(pos as int).push(x) + s.skip(pos as int) =~= s.insert(pos as int, x));
    }
    out.insert(pos, x);
}

/// Orders items by size, largest first; items of equal size keep their
/// discovery order.
pub fn sort_items_by_size(items: Vec<ItemWithSize>) -> (r: Vec<ItemWithSize>)
    ensures
        r@ == spec_sort_desc(items@),
{
    let ghost orig = items@;
    let mut rest = items;
    let total = rest.len();
    proof {
        assert(orig.len() == total);
    }
    let mut out: Vec<ItemWithSize> = Vec::new();
    let mut k: usize = 0;
    while rest.len() > 0
        invariant
            0 <= k <= orig.len(),
            orig.len() <= usize::MAX,
            rest@ == orig.skip(k as int),
            out@ == spec_sort_desc(orig.take(k as int)),
        decreases rest.len(),
    {
        let x = rest.remove(0);
        proof {
            assert(orig.skip(k as int).remove(0) =~= orig.skip(k + 1 as int));
            assert(x == orig[k as int]);
            assert(orig.take(k + 1 as int).drop_last() =~= orig.take(k as int));
            assert(orig.take(k + 1 as int).last() == orig[k as int]);
        }
        insert_desc(&mut out, x);
        k = k + 1;
    }
    proof {
        assert(orig.take(k as int) =~= orig);
    }
    out
}

} // verus!
