use vstd::prelude::*;

verus! {

/// An in-memory picture of a directory tree: what the scan reads of the real
/// filesystem. A directory carries the lines of its own ignore rule file,
/// when it has one, and its entries in discovery order.
pub enum Node {
    File { name: String, size: u64 },
    Dir { name: String, gitignore: Option<Vec<String>>, entries: Vec<Node> },
}

impl Node {
    pub open spec fn spec_name(&self) -> Seq<char> {
        match self {
            Node::File { name, .. } => name@,
            Node::Dir { name, .. } => name@,
        }
    }

    pub open spec fn spec_is_dir(&self) -> bool {
        self is Dir
    }

    /// The entry's own name.
    pub fn name(&self) -> (r: &String)
        ensures
            r@ == self.spec_name(),
    {
        match self {
            Node::File { name, .. } => name,
            Node::Dir { name, .. } => name,
        }
    }

    pub fn is_dir(&self) -> (r: bool)
        ensures
            r == self.spec_is_dir(),
    {
        match self {
            Node::File { .. } => false,
            Node::Dir { .. } => true,
        }
    }
}

/// Copies a component path.
pub fn clone_path(v: &Vec<String>) -> (r: Vec<String>)
    ensures
        r@ == v@,
{
    let mut r: Vec<String> = Vec::new();
    let mut i: usize = 0;
    while i < v.len()
        invariant
            0 <= i <= v.len(),
            r@ =~= v@.take(i as int),
        decreases v.len() - i,
    {
        r.push(v[i].clone());
        i = i + 1;
    }
    proof {
        assert(v@.take(v.len() as int) =~= v@);
    }
    r
}

/// Path components joined with '/' separators.
pub open spec fn spec_join(parts: Seq<Seq<char>>) -> Seq<char>
    decreases parts.len(),
{
    if parts.len() == 0 {
        Seq::empty()
    } else if parts.len() == 1 {
        parts[0]
    } else {
        spec_join(parts.drop_last()) + seq!['/'] + parts.last()
    }
}

/// Joins the components of `path` from position `from` on with '/' separators.
pub fn join_from(path: &Vec<String>, from: usize) -> (r: String)
    requires
        from <= path.len(),
    ensures
        r@ == spec_join(path.deep_view().skip(from as int)),
{
    let ghost whole = path.deep_view().skip(from as int);
    let mut s = String::new();
    let mut i = from;
    while i < path.len()
        invariant
            from <= i <= path.len(),
            whole == path.deep_view().skip(from as int),
            s@ == spec_join(path.deep_view().subrange(from as int, i as int)),
        decreases path.len() - i,
    {
        if i > from {
            s.push('/');
        }
        s.append(path[i].as_str());
        proof {
            let prev = path.deep_view().subrange(from as int, i as int);
            let cur = path.deep_view().subrange(from as int, i + 1 as int);
            assert(cur.drop_last() =~= prev);
            assert(cur.last() == path.deep_view()[i as int]);
            if i == from {
                assert(s@ =~= spec_join(cur));
            } else {
                assert(s@ =~= spec_join(prev) + seq!['/'] + cur.last());
            }
        }
        i = i + 1;
    }
    proof {
        assert(path.deep_view().subrange(from as int, path.len() as int) =~= whole);
    }
    s
}

/// Whether `base` names a strict ancestor of `path` (a proper prefix of its
/// components).
pub open spec fn spec_is_strict_prefix(base: Seq<Seq<char>>, path: Seq<Seq<char>>) -> bool {
    base.len() < path.len() && base == path.take(base.len() as int)
}

/// Tests whether `base` is a strict ancestor path of `path`.
pub fn is_strict_prefix_of(base: &Vec<String>, path: &Vec<String>) -> (r: bool)
    ensures
        r == spec_is_strict_prefix(base.deep_view(), path.deep_view()),
{
    if base.len() >= path.len() {
        return false;
    }
    let mut i: usize = 0;
    while i < base.len()
        invariant
            0 <= i <= base.len(),
            base.len() < path.len(),
            forall|j: int| 0 <= j < i ==> base.deep_view()[j] == path.deep_view()[j],
        decreases base.len() - i,
    {
        if !(base[i] == path[i]) {
            proof {
                assert(base.deep_view()[i as int] != path.deep_view()[i as int]);
                assert(base.deep_view()[i as int] != path.deep_view().take(
                    base.len() as int,
                )[i as int]);
            }
            return false;
        }
        i = i + 1;
    }
    proof {
        assert(base.deep_view() =~= path.deep_view().take(base.len() as int));
    }
    true
}

} // verus!
