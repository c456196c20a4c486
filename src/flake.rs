//! The lock file of a flake: its input nodes, and the resolution of an input
//! reference, which either names a node or follows a path of input names from
//! the root node.
use std::collections::HashMap;

use vstd::prelude::*;

verus! {

/// A flake lock file.
#[derive(Clone, Debug, PartialEq)]
pub struct FlakeLock {
    pub nodes: HashMap<String, InputNode>,
    pub root: String,
    pub version: u32,
}

/// One node of the lock file.
#[derive(Clone, Debug, PartialEq, Default)]
pub struct InputNode {
    pub flake: bool,
    pub inputs: Option<HashMap<String, InputNodeRef>>,
    pub locked: Option<LockedInput>,
    pub original: Option<FlakeRef>,
}

/// The locked form of an input.
#[derive(Clone, Debug, PartialEq)]
pub struct LockedInput {
    pub last_modified: usize,
    pub nar_hash: String,
    pub flake_ref: FlakeRef,
}

/// How a node refers to one of its inputs: by the name of a node, or by a path
/// of input names starting at the root node.
#[derive(Clone, Debug, PartialEq)]
pub enum InputNodeRef {
    Name(String),
    Follows(Vec<String>),
}

/// Where an input comes from.
#[derive(Clone, Debug, PartialEq)]
pub enum FlakeRef {
    Indirect { id: String, rev: Option<String> },
    Tarball { url: String },
    Git { url: String, git_ref: Option<String>, rev: Option<String>, submodules: bool },
    Github {
        owner: String,
        repo: String,
        git_ref: Option<String>,
        rev: Option<String>,
        dir: Option<String>,
    },
}

/// The value stored under the key whose text is `k`.
pub open spec fn lookup<V>(m: Map<String, V>, k: Seq<char>) -> Option<V> {
    if exists|s: String| #[trigger] m.contains_key(s) && s@ == k {
        Some(m[choose|s: String| #[trigger] m.contains_key(s) && s@ == k])
    } else {
        None
    }
}

/// Relies on `HashMap::get` with a `&str` key: `String` keys compare by their
/// text, so the value found is the one stored under the key with that text.
#[verifier::external_body]
fn map_get<'a, V>(m: &'a HashMap<String, V>, k: &str) -> (r: Option<&'a V>)
    ensures
        match r {
            Some(v) => lookup(m@, k@) == Some(*v),
            None => lookup(m@, k@) is None,
        },
{
    m.get(k)
}

/// `r` refers to the node `n`, or both are absent.
pub open spec fn same_node(r: Option<&InputNode>, n: Option<InputNode>) -> bool {
    match r {
        Some(x) => n == Some(*x),
        None => n is None,
    }
}

/// The mathematical form of an [`InputNodeRef`].
pub enum RefView {
    Name(Seq<char>),
    Follows(Seq<Seq<char>>),
}

pub open spec fn ref_view(r: InputNodeRef) -> RefView {
    match r {
        InputNodeRef::Name(n) => RefView::Name(n@),
        InputNodeRef::Follows(p) => RefView::Follows(p@.map_values(|s: String| s@)),
    }
}

pub open spec fn chain_view(c: Seq<&InputNodeRef>) -> Seq<RefView> {
    c.map_values(|r: &InputNodeRef| ref_view(*r))
}

/// The input `name` of the root node. `chain` holds the `follows` references
/// being resolved around this lookup; `fuel` only bounds the recursion formally.
pub open spec fn root_input_of(lock: FlakeLock, name: Seq<char>, chain: Seq<RefView>, fuel: nat) -> Option<
    InputNode,
>
    decreases fuel, 1nat, 0nat,
{
    match lookup(lock.nodes@, lock.root@) {
        Some(root) => match root.inputs {
            Some(ins) => match lookup(ins@, name) {
                Some(r) => input_of_ref(lock, r, chain, fuel),
                None => None,
            },
            None => None,
        },
        None => None,
    }
}

/// The node that a reference resolves to. A `follows` reference met again while
/// it is being resolved would be resolved without end: it resolves to nothing.
pub open spec fn input_of_ref(lock: FlakeLock, r: InputNodeRef, chain: Seq<RefView>, fuel: nat) -> Option<
    InputNode,
>
    decreases fuel, 0nat, 0nat,
{
    match r {
        InputNodeRef::Name(n) => lookup(lock.nodes@, n@),
        InputNodeRef::Follows(path) => if fuel == 0 || path@.len() == 0 || chain.contains(ref_view(r)) {
            None
        } else {
            let inner = chain.push(ref_view(r));
            walk(
                lock,
                root_input_of(lock, path@[0]@, inner, (fuel - 1) as nat),
                path@.skip(1),
                inner,
                (fuel - 1) as nat,
            )
        },
    }
}

/// From the node `cur`, follows the input `names` in turn.
pub open spec fn walk(
    lock: FlakeLock,
    cur: Option<InputNode>,
    names: Seq<String>,
    chain: Seq<RefView>,
    fuel: nat,
) -> Option<InputNode>
    decreases fuel, 1nat, names.len(),
{
    match cur {
        None => None,
        Some(c) => if names.len() == 0 {
            Some(c)
        } else {
            match c.inputs {
                Some(ins) => match lookup(ins@, names[0]@) {
                    Some(r) => walk(lock, input_of_ref(lock, r, chain, fuel), names.drop_first(), chain, fuel),
                    None => None,
                },
                None => None,
            }
        },
    }
}

/// Whether two references are the same.
fn ref_eq(a: &InputNodeRef, b: &InputNodeRef) -> (r: bool)
    ensures
        r == (ref_view(*a) == ref_view(*b)),
{
    match (a, b) {
        (InputNodeRef::Name(x), InputNodeRef::Name(y)) => {
            let same = *x == *y;
            assert(same == (x@ == y@));
            assert(ref_view(*a) == RefView::Name(x@));
            assert(ref_view(*b) == RefView::Name(y@));
            same
        },
        (InputNodeRef::Follows(p), InputNodeRef::Follows(q)) => {
            let ghost pv = p@.map_values(|s: String| s@);
            let ghost qv = q@.map_values(|s: String| s@);
            assert(ref_view(*a) == RefView::Follows(pv));
            assert(ref_view(*b) == RefView::Follows(qv));
            if p.len() != q.len() {
                assert(pv.len() != qv.len());
                return false;
            }
            let mut i: usize = 0;
            while i < p.len()
                invariant
                    p.len() == q.len(),
                    0 <= i <= p.len(),
                    pv == p@.map_values(|s: String| s@),
                    qv == q@.map_values(|s: String| s@),
                    ref_view(*a) == RefView::Follows(pv),
                    ref_view(*b) == RefView::Follows(qv),
                    forall|k: int| 0 <= k < i ==> pv[k] == qv[k],
                decreases p.len() - i,
            {
                if p[i] != q[i] {
                    assert(pv[i as int] != qv[i as int]);
                    return false;
                }
                i = i + 1;
            }
            assert(pv =~= qv);
            true
        },
        _ => {
            assert(ref_view(*a) != ref_view(*b));
            false
        },
    }
}

/// Whether `r` is in `chain`.
fn chain_contains(chain: &Vec<&InputNodeRef>, r: &InputNodeRef) -> (b: bool)
    ensures
        b == chain_view(chain@).contains(ref_view(*r)),
{
    let mut i: usize = 0;
    while i < chain.len()
        invariant
            0 <= i <= chain.len(),
            forall|k: int| 0 <= k < i ==> chain_view(chain@)[k] != ref_view(*r),
        decreases chain.len() - i,
    {
        if ref_eq(chain[i], r) {
            assert(chain_view(chain@)[i as int] == ref_view(*r));
            return true;
        }
        i = i + 1;
    }
    false
}

impl FlakeLock {
    /// The node of the root's input `name`; nothing where resolving it meets a
    /// `follows` reference that is already being resolved.
    pub fn get_root_input(&self, name: &str) -> (r: Option<&InputNode>)
        ensures
            same_node(r, root_input_of(*self, name@, Seq::empty(), usize::MAX as nat)),
    {
        let mut chain: Vec<&InputNodeRef> = Vec::new();
        proof {
            assert(chain_view(chain@) =~= Seq::<RefView>::empty());
        }
        self.root_input_within(name, &mut chain, usize::MAX)
    }

    /// The node that `input_ref` refers to; nothing where resolving it meets a
    /// `follows` reference that is already being resolved.
    pub fn get_input_by_ref(&self, input_ref: &InputNodeRef) -> (r: Option<&InputNode>)
        ensures
            same_node(r, input_of_ref(*self, *input_ref, Seq::empty(), usize::MAX as nat)),
    {
        let mut chain: Vec<&InputNodeRef> = Vec::new();
        proof {
            assert(chain_view(chain@) =~= Seq::<RefView>::empty());
        }
        self.input_by_ref_within(input_ref, &mut chain, usize::MAX)
    }

    fn root_input_within<'a: 'c, 'c>(
        &'a self,
        name: &str,
        chain: &mut Vec<&'c InputNodeRef>,
        fuel: usize,
    ) -> (r: Option<&'a InputNode>)
        ensures
            same_node(r, root_input_of(*self, name@, chain_view(old(chain)@), fuel as nat)),
            final(chain)@ == old(chain)@,
        decreases fuel, 1nat,
    {
        let root = match map_get(&self.nodes, self.root.as_str()) {
            Some(n) => n,
            None => {
                return None;
            },
        };
        let inputs = match &root.inputs {
            Some(ins) => ins,
            None => {
                return None;
            },
        };
        match map_get(inputs, name) {
            Some(input_ref) => self.input_by_ref_within(input_ref, chain, fuel),
            None => None,
        }
    }

    fn input_by_ref_within<'a: 'c, 'c>(
        &'a self,
        input_ref: &'c InputNodeRef,
        chain: &mut Vec<&'c InputNodeRef>,
        fuel: usize,
    ) -> (r: Option<&'a InputNode>)
        ensures
            same_node(r, input_of_ref(*self, *input_ref, chain_view(old(chain)@), fuel as nat)),
            final(chain)@ == old(chain)@,
        decreases fuel, 0nat,
    {
        match input_ref {
            InputNodeRef::Name(name) => map_get(&self.nodes, name.as_str()),
            InputNodeRef::Follows(path) => {
                if fuel == 0 || path.len() == 0 || chain_contains(chain, input_ref) {
                    return None;
                }
                let ghost before = chain@;
                chain.push(input_ref);
                proof {
                    assert(chain_view(chain@) =~= chain_view(before).push(ref_view(*input_ref)));
                }
                let r = self.follow_path(path, chain, fuel - 1);
                chain.pop();
                proof {
                    assert(chain@ =~= before);
                }
                r
            },
        }
    }

    /// Resolves the first name of `path` from the root, then follows the rest.
    fn follow_path<'a: 'c, 'c>(
        &'a self,
        path: &'c Vec<String>,
        chain: &mut Vec<&'c InputNodeRef>,
        f: usize,
    ) -> (r: Option<&'a InputNode>)
        requires
            path.len() > 0,
        ensures
            same_node(
                r,
                walk(
                    *self,
                    root_input_of(*self, path@[0]@, chain_view(old(chain)@), f as nat),
                    path@.skip(1),
                    chain_view(old(chain)@),
                    f as nat,
                ),
            ),
            final(chain)@ == old(chain)@,
        decreases f, 2nat,
    {
        let ghost c = chain_view(chain@);
        let ghost start = root_input_of(*self, path@[0]@, c, f as nat);
        let mut curr = match self.root_input_within(path[0].as_str(), chain, f) {
            Some(n) => n,
            None => {
                return None;
            },
        };
        let mut i: usize = 1;
        while i < path.len()
            invariant
                1 <= i <= path.len(),
                chain@ == old(chain)@,
                c == chain_view(old(chain)@),
                start == root_input_of(*self, path@[0]@, c, f as nat),
                walk(*self, start, path@.skip(1), c, f as nat) == walk(
                    *self,
                    Some(*curr),
                    path@.skip(i as int),
                    c,
                    f as nat,
                ),
            decreases path.len() - i,
        {
            assert(path@.skip(i as int)[0] == path@[i as int]);
            assert(path@.skip(i as int).drop_first() =~= path@.skip(i as int + 1));
            let ghost rest = path@.skip(i as int);
            let inputs = match &curr.inputs {
                Some(ins) => ins,
                None => {
                    assert(walk(*self, Some(*curr), rest, c, f as nat) is None);
                    return None;
                },
            };
            let next_ref = match map_get(inputs, path[i].as_str()) {
                Some(nr) => nr,
                None => {
                    assert(walk(*self, Some(*curr), rest, c, f as nat) is None);
                    return None;
                },
            };
            curr = match self.input_by_ref_within(next_ref, chain, f) {
                Some(n) => n,
                None => {
                    proof {
                        lemma_walk_none(*self, path@.skip(i as int + 1), c, f as nat);
                    }
                    return None;
                },
            };
            i = i + 1;
        }
        assert(path@.skip(i as int).len() == 0);
        Some(curr)
    }
}

/// Nothing is found from no node.
proof fn lemma_walk_none(lock: FlakeLock, names: Seq<String>, chain: Seq<RefView>, fuel: nat)
    ensures
        walk(lock, None, names, chain, fuel) is None,
{
}

} // verus!
