//! The branch tree: how tracked branches are arranged under trunk, and how a view of it is narrowed.
use vstd::prelude::*;

use crate::error::{message3, DigError, ErrorKind};
use crate::store::{BranchNode, DigState, NodeId, ParentRef};
use crate::text::{str_eq, trim, trim_str};

verus! {

#[derive(Debug, Clone, Default, PartialEq, Eq)]
pub struct TreeOptions {
    pub branch_name: Option<String>,
}

/// The command-line arguments of `dig tree`.
#[derive(Debug, Clone, Default, PartialEq, Eq)]
pub struct TreeArgs {
    pub branch_name: Option<String>,
}

impl From<TreeArgs> for TreeOptions {
    fn from(args: TreeArgs) -> (r: TreeOptions) {
        TreeOptions { branch_name: args.branch_name }
    }
}

impl vstd::std_specs::convert::FromSpecImpl<TreeArgs> for TreeOptions {
    open spec fn obeys_from_spec() -> bool {
        true
    }

    open spec fn from_spec(args: TreeArgs) -> TreeOptions {
        TreeOptions { branch_name: args.branch_name }
    }
}

#[derive(Debug, Clone, PartialEq, Eq)]
pub struct TreeLabel {
    pub branch_name: String,
    pub is_current: bool,
}

#[derive(Debug, PartialEq, Eq)]
pub struct TreeNode {
    pub branch_name: String,
    pub is_current: bool,
    pub children: Vec<TreeNode>,
}

#[derive(Debug, PartialEq, Eq)]
pub struct TreeView {
    pub root_label: Option<TreeLabel>,
    pub roots: Vec<TreeNode>,
}

/// The mathematical content of a `TreeNode`.
pub struct TreeNodeV {
    pub name: Seq<char>,
    pub is_current: bool,
    pub children: Seq<TreeNodeV>,
}

pub struct LabelV {
    pub name: Seq<char>,
    pub is_current: bool,
}

pub struct TreeViewV {
    pub root_label: Option<LabelV>,
    pub roots: Seq<TreeNodeV>,
}

pub open spec fn node_v(t: TreeNode) -> TreeNodeV
    decreases t,
{
    TreeNodeV {
        name: t.branch_name@,
        is_current: t.is_current,
        children: Seq::new(
            t.children@.len(),
            |i: int|
                if 0 <= i < t.children@.len() {
                    node_v(t.children@[i])
                } else {
                    arbitrary()
                },
        ),
    }
}

pub open spec fn nodes_v(s: Seq<TreeNode>) -> Seq<TreeNodeV> {
    Seq::new(s.len(), |i: int| node_v(s[i]))
}

pub open spec fn label_v(l: TreeLabel) -> LabelV {
    LabelV { name: l.branch_name@, is_current: l.is_current }
}

pub open spec fn view_v(v: TreeView) -> TreeViewV {
    TreeViewV {
        root_label: match v.root_label {
            Some(l) => Some(label_v(l)),
            None => None,
        },
        roots: nodes_v(v.roots@),
    }
}

pub open spec fn opt_str_v(s: Option<&str>) -> Option<Seq<char>> {
    match s {
        Some(x) => Some(x@),
        None => None,
    }
}

// ---------------------------------------------------------------------------
// How the tree is built from the tracked branches.
/// The non-archived nodes, in store order.
pub open spec fn active_nodes(nodes: Seq<BranchNode>) -> Seq<BranchNode>
    decreases nodes.len(),
{
    if nodes.len() == 0 {
        seq![]
    } else {
        let rest = active_nodes(nodes.drop_last());
        if nodes.last().archived {
            rest
        } else {
            rest.push(nodes.last())
        }
    }
}

/// The last position in `act` of a node with id `id`, or -1.
pub open spec fn last_index(act: Seq<BranchNode>, id: NodeId) -> int
    decreases act.len(),
{
    if act.len() == 0 {
        -1
    } else if act.last().id == id {
        act.len() - 1
    } else {
        last_index(act.drop_last(), id)
    }
}

/// A node is a root of the tree when it hangs on trunk or on a branch that is not tracked.
pub open spec fn is_root(act: Seq<BranchNode>, n: BranchNode) -> bool {
    match n.parent {
        ParentRef::Trunk => true,
        ParentRef::Branch { node_id } => last_index(act, node_id) < 0,
    }
}

/// The positions below `n` that satisfy `pred`, in increasing order.
pub open spec fn positions(n: nat, pred: spec_fn(nat) -> bool) -> Seq<usize>
    decreases n,
{
    if n == 0 {
        seq![]
    } else {
        let r = positions((n - 1) as nat, pred);
        if pred((n - 1) as nat) {
            r.push((n - 1) as usize)
        } else {
            r
        }
    }
}

/// Every position lists is below `n` and satisfies `pred`.
pub proof fn lemma_positions(n: nat, pred: spec_fn(nat) -> bool)
    requires
        n <= usize::MAX,
    ensures
        forall|k: int| 0 <= k < positions(n, pred).len() ==> #[trigger] positions(n, pred)[k] < n && pred(
            positions(n, pred)[k] as nat,
        ),
    decreases n,
{
    if n > 0 {
        lemma_positions((n - 1) as nat, pred);
        let r = positions((n - 1) as nat, pred);
        assert forall|k: int| 0 <= k < positions(n, pred).len() implies #[trigger] positions(n, pred)[k] < n
            && pred(positions(n, pred)[k] as nat) by {
            if k < r.len() {
                assert(positions(n, pred)[k] == r[k]);
            } else {
                assert(pred((n - 1) as nat));
                assert(positions(n, pred) == r.push((n - 1) as usize));
                assert(positions(n, pred)[k] == (n - 1) as usize);
            }
        }
    }
}

pub open spec fn root_positions(act: Seq<BranchNode>) -> Seq<usize> {
    positions(act.len(), |p: nat| is_root(act, act[p as int]))
}

pub open spec fn child_positions(act: Seq<BranchNode>, id: NodeId) -> Seq<usize> {
    positions(act.len(), |p: nat| act[p as int].parent == ParentRef::Branch { node_id: id })
}

/// Strict lexicographic order of strings by code point (the order of their UTF-8 bytes).
pub open spec fn lex_lt(a: Seq<char>, b: Seq<char>) -> bool
    decreases a.len(),
{
    if a.len() == 0 {
        b.len() > 0
    } else if b.len() == 0 {
        false
    } else if a[0] != b[0] {
        (a[0] as int) < (b[0] as int)
    } else {
        lex_lt(a.drop_first(), b.drop_first())
    }
}

/// Whether the node at position `p` sorts strictly before the one at `q`: by creation time,
/// then by the last position of its id, then by name.
pub open spec fn before(act: Seq<BranchNode>, p: usize, q: usize) -> bool {
    let x = act[p as int];
    let y = act[q as int];
    ||| x.created_at_unix_secs < y.created_at_unix_secs
    ||| x.created_at_unix_secs == y.created_at_unix_secs && last_index(act, x.id) < last_index(
        act,
        y.id,
    )
    ||| x.created_at_unix_secs == y.created_at_unix_secs && last_index(act, x.id) == last_index(
        act,
        y.id,
    ) && lex_lt(x.branch_name@, y.branch_name@)
}

/// Where a stable insertion puts `x` into `t`: after the last element that does not sort after it.
pub open spec fn insert_pos(act: Seq<BranchNode>, t: Seq<usize>, x: usize) -> int
    decreases t.len(),
{
    if t.len() == 0 {
        0
    } else if before(act, x, t.last()) {
        insert_pos(act, t.drop_last(), x)
    } else {
        t.len() as int
    }
}

/// The stable sort of positions by `before`.
pub open spec fn sorted_positions(act: Seq<BranchNode>, s: Seq<usize>) -> Seq<usize>
    decreases s.len(),
{
    if s.len() == 0 {
        seq![]
    } else {
        let t = sorted_positions(act, s.drop_last());
        t.insert(insert_pos(act, t, s.last()), s.last())
    }
}

/// The subtree rooted at the node at position `p`, unfolded at most `fuel` levels below it.
pub open spec fn tree_of(act: Seq<BranchNode>, cur: Option<Seq<char>>, p: usize, fuel: nat) -> TreeNodeV
    decreases fuel,
{
    let n = act[p as int];
    TreeNodeV {
        name: n.branch_name@,
        is_current: cur == Some(n.branch_name@),
        children: if fuel == 0 {
            seq![]
        } else {
            let cs = sorted_positions(act, child_positions(act, n.id));
            Seq::new(cs.len(), |i: int| tree_of(act, cur, cs[i], (fuel - 1) as nat))
        },
    }
}

/// The tree view of a state: trunk as the label, and the roots sorted, each with its subtree.
/// Subtrees are unfolded as deep as there are tracked branches, which is as deep as a tree
/// without a cycle of shared ids goes.
pub open spec fn spec_tree_view(nodes: Seq<BranchNode>, trunk: Seq<char>, cur: Option<Seq<char>>) -> TreeViewV {
    let act = active_nodes(nodes);
    let rs = sorted_positions(act, root_positions(act));
    TreeViewV {
        root_label: Some(LabelV { name: trunk, is_current: cur == Some(trunk) }),
        roots: Seq::new(rs.len(), |i: int| tree_of(act, cur, rs[i], act.len())),
    }
}

// ---------------------------------------------------------------------------
// Building the tree.
proof fn lemma_last_index(act: Seq<BranchNode>, id: NodeId)
    ensures
        -1 <= last_index(act, id) < act.len(),
        last_index(act, id) >= 0 ==> act[last_index(act, id)].id == id,
        forall|j: int| last_index(act, id) < j < act.len() ==> (#[trigger] act[j]).id != id,
    decreases act.len(),
{
    if act.len() > 0 {
        let d = act.drop_last();
        lemma_last_index(d, id);
        assert forall|j: int| 0 <= j < d.len() implies #[trigger] d[j] == act[j] by {}
        if act.last().id != id {
            assert forall|j: int| last_index(act, id) < j < act.len() implies (#[trigger] act[j]).id
                != id by {
                if j < d.len() {
                    assert(d[j] == act[j]);
                }
            }
        }
    }
}

fn active_copy(nodes: &Vec<BranchNode>) -> (act: Vec<BranchNode>)
    ensures
        act@ == active_nodes(nodes@),
{
    let mut act: Vec<BranchNode> = Vec::new();
    let mut i: usize = 0;
    while i < nodes.len()
        invariant
            i <= nodes@.len(),
            act@ == active_nodes(nodes@.take(i as int)),
        decreases nodes@.len() - i,
    {
        proof {
            let t = nodes@.take(i as int + 1);
            assert(t.drop_last() =~= nodes@.take(i as int));
        }
        if !nodes[i].archived {
            act.push(nodes[i].duplicate());
        }
        i = i + 1;
    }
    assert(nodes@.take(nodes@.len() as int) =~= nodes@);
    act
}

fn find_last(act: &Vec<BranchNode>, id: NodeId) -> (r: Option<usize>)
    ensures
        match r {
            Some(k) => k as int == last_index(act@, id),
            None => last_index(act@, id) == -1,
        },
{
    let mut i: usize = act.len();
    assert(act@.take(i as int) =~= act@);
    while i > 0
        invariant
            i <= act@.len(),
            last_index(act@, id) == last_index(act@.take(i as int), id),
        decreases i,
    {
        let ghost t = act@.take(i as int);
        assert(t.drop_last() =~= act@.take(i as int - 1));
        if act[i - 1].id == id {
            return Some(i - 1);
        }
        i = i - 1;
    }
    None
}

fn last_indices(act: &Vec<BranchNode>) -> (li: Vec<usize>)
    ensures
        li@.len() == act@.len(),
        forall|p: int| 0 <= p < act@.len() ==> #[trigger] li@[p] as int == last_index(act@, act@[p].id),
{
    let mut li: Vec<usize> = Vec::new();
    let mut p: usize = 0;
    while p < act.len()
        invariant
            p <= act@.len(),
            li@.len() == p,
            forall|q: int| 0 <= q < p ==> #[trigger] li@[q] as int == last_index(act@, act@[q].id),
        decreases act@.len() - p,
    {
        let r = find_last(act, act[p].id);
        proof {
            lemma_last_index(act@, act@[p as int].id);
        }
        match r {
            Some(k) => li.push(k),
            None => {
                proof {
                    assert(act@[p as int].id == act@[p as int].id);
                }
                li.push(0);
            },
        }
        p = p + 1;
    }
    li
}

proof fn lemma_lex_step(a: Seq<char>, b: Seq<char>, i: int)
    requires
        0 <= i < a.len(),
        i < b.len(),
        a[i] == b[i],
    ensures
        lex_lt(a.skip(i), b.skip(i)) == lex_lt(a.skip(i + 1), b.skip(i + 1)),
{
    assert(a.skip(i).drop_first() =~= a.skip(i + 1));
    assert(b.skip(i).drop_first() =~= b.skip(i + 1));
}

/// Whether `a` sorts strictly before `b`.
pub fn str_lt(a: &str, b: &str) -> (r: bool)
    ensures
        r == lex_lt(a@, b@),
{
    let x = crate::text::chars_of(a);
    let y = crate::text::chars_of(b);
    let mut i: usize = 0;
    assert(x@.skip(0) =~= x@);
    assert(y@.skip(0) =~= y@);
    loop
        invariant
            x@ == a@,
            y@ == b@,
            i <= x@.len(),
            i <= y@.len(),
            lex_lt(a@, b@) == lex_lt(x@.skip(i as int), y@.skip(i as int)),
        decreases x@.len() - i,
    {
        if i == x.len() {
            assert(x@.skip(i as int).len() == 0);
            return i < y.len();
        }
        if i == y.len() {
            assert(y@.skip(i as int).len() == 0);
            return false;
        }
        assert(x@.skip(i as int)[0] == x@[i as int]);
        assert(y@.skip(i as int)[0] == y@[i as int]);
        if x[i] != y[i] {
            return x[i] < y[i];
        }
        proof {
            lemma_lex_step(x@, y@, i as int);
        }
        i = i + 1;
    }
}

fn before_exec(act: &Vec<BranchNode>, li: &Vec<usize>, p: usize, q: usize) -> (r: bool)
    requires
        p < act@.len(),
        q < act@.len(),
        li@.len() == act@.len(),
        forall|k: int| 0 <= k < act@.len() ==> #[trigger] li@[k] as int == last_index(act@, act@[k].id),
    ensures
        r == before(act@, p, q),
{
    let x = &act[p];
    let y = &act[q];
    if x.created_at_unix_secs < y.created_at_unix_secs {
        return true;
    }
    if x.created_at_unix_secs > y.created_at_unix_secs {
        return false;
    }
    let lp = li[p];
    let lq = li[q];
    assert(lp as int == last_index(act@, act@[p as int].id));
    assert(lq as int == last_index(act@, act@[q as int].id));
    if lp < lq {
        return true;
    }
    if lp > lq {
        return false;
    }
    str_lt(x.branch_name.as_str(), y.branch_name.as_str())
}

fn root_positions_exec(act: &Vec<BranchNode>) -> (r: Vec<usize>)
    ensures
        r@ == root_positions(act@),
        forall|k: int| 0 <= k < r@.len() ==> #[trigger] r@[k] < act@.len(),
{
    let ghost pred = |p: nat| is_root(act@, act@[p as int]);
    let mut r: Vec<usize> = Vec::new();
    let mut p: usize = 0;
    while p < act.len()
        invariant
            p <= act@.len(),
            pred == (|p: nat| is_root(act@, act@[p as int])),
            r@ == positions(p as nat, pred),
            forall|k: int| 0 <= k < r@.len() ==> #[trigger] r@[k] < p,
        decreases act@.len() - p,
    {
        let root = match act[p].parent {
            ParentRef::Trunk => true,
            ParentRef::Branch { node_id } => find_last(act, node_id).is_none(),
        };
        assert(root == pred(p as nat));
        if root {
            r.push(p);
        }
        p = p + 1;
    }
    r
}

fn child_positions_exec(act: &Vec<BranchNode>, id: NodeId) -> (r: Vec<usize>)
    ensures
        r@ == child_positions(act@, id),
        forall|k: int| 0 <= k < r@.len() ==> #[trigger] r@[k] < act@.len(),
{
    let ghost pred = |p: nat| act@[p as int].parent == ParentRef::Branch { node_id: id };
    let mut r: Vec<usize> = Vec::new();
    let mut p: usize = 0;
    while p < act.len()
        invariant
            p <= act@.len(),
            pred == (|p: nat| act@[p as int].parent == ParentRef::Branch { node_id: id }),
            r@ == positions(p as nat, pred),
            forall|k: int| 0 <= k < r@.len() ==> #[trigger] r@[k] < p,
        decreases act@.len() - p,
    {
        let child = act[p].parent == ParentRef::Branch { node_id: id };
        assert(child == pred(p as nat));
        if child {
            r.push(p);
        }
        p = p + 1;
    }
    r
}

/// Stable insertion sort of positions by `before`.
fn sort_positions(act: &Vec<BranchNode>, li: &Vec<usize>, s: &Vec<usize>) -> (r: Vec<usize>)
    requires
        li@.len() == act@.len(),
        forall|k: int| 0 <= k < act@.len() ==> #[trigger] li@[k] as int == last_index(act@, act@[k].id),
        forall|k: int| 0 <= k < s@.len() ==> #[trigger] s@[k] < act@.len(),
    ensures
        r@ == sorted_positions(act@, s@),
        forall|k: int| 0 <= k < r@.len() ==> #[trigger] r@[k] < act@.len(),
{
    let mut out: Vec<usize> = Vec::new();
    let mut i: usize = 0;
    while i < s.len()
        invariant
            i <= s@.len(),
            li@.len() == act@.len(),
            forall|k: int| 0 <= k < act@.len() ==> #[trigger] li@[k] as int == last_index(act@, act@[k].id),
            forall|k: int| 0 <= k < s@.len() ==> #[trigger] s@[k] < act@.len(),
            out@ == sorted_positions(act@, s@.take(i as int)),
            out@.len() == i,
            forall|k: int| 0 <= k < out@.len() ==> #[trigger] out@[k] < act@.len(),
        decreases s@.len() - i,
    {
        let x = s[i];
        let mut j: usize = out.len();
        assert(out@.take(j as int) =~= out@);
        while j > 0 && before_exec(act, li, x, out[j - 1])
            invariant
                j <= out@.len(),
                x < act@.len(),
                li@.len() == act@.len(),
                forall|k: int| 0 <= k < act@.len() ==> #[trigger] li@[k] as int == last_index(act@, act@[k].id),
                forall|k: int| 0 <= k < out@.len() ==> #[trigger] out@[k] < act@.len(),
                insert_pos(act@, out@, x) == insert_pos(act@, out@.take(j as int), x),
            decreases j,
        {
            assert(out@.take(j as int).drop_last() =~= out@.take(j as int - 1));
            j = j - 1;
        }
        proof {
            if j > 0 {
                assert(out@.take(j as int).last() == out@[j - 1]);
            }
            let t = s@.take(i as int + 1);
            assert(t.drop_last() =~= s@.take(i as int));
            assert(t.last() == x);
        }
        out.insert(j, x);
        i = i + 1;
    }
    assert(s@.take(s@.len() as int) =~= s@);
    out
}

fn build_node(act: &Vec<BranchNode>, li: &Vec<usize>, cur: Option<&str>, p: usize, fuel: usize) -> (t:
    TreeNode)
    requires
        p < act@.len(),
        li@.len() == act@.len(),
        forall|k: int| 0 <= k < act@.len() ==> #[trigger] li@[k] as int == last_index(act@, act@[k].id),
    ensures
        node_v(t) == tree_of(act@, opt_str_v(cur), p, fuel as nat),
    decreases fuel,
{
    let n = &act[p];
    let is_current = match cur {
        Some(c) => str_eq(c, n.branch_name.as_str()),
        None => false,
    };
    let mut children: Vec<TreeNode> = Vec::new();
    if fuel > 0 {
        let cs = sort_positions(act, li, &child_positions_exec(act, n.id));
        let mut i: usize = 0;
        while i < cs.len()
            invariant
                i <= cs@.len(),
                fuel > 0,
                li@.len() == act@.len(),
                forall|k: int| 0 <= k < act@.len() ==> #[trigger] li@[k] as int == last_index(act@, act@[k].id),
                forall|k: int| 0 <= k < cs@.len() ==> #[trigger] cs@[k] < act@.len(),
                children@.len() == i,
                forall|k: int|
                    0 <= k < i ==> #[trigger] node_v(children@[k]) == tree_of(
                        act@,
                        opt_str_v(cur),
                        cs@[k],
                        (fuel - 1) as nat,
                    ),
            decreases cs@.len() - i,
        {
            children.push(build_node(act, li, cur, cs[i], fuel - 1));
            i = i + 1;
        }
        let t = TreeNode { branch_name: n.branch_name.clone(), is_current, children };
        proof {
            let cs2 = sorted_positions(act@, child_positions(act@, act@[p as int].id));
            assert(cs@ == cs2);
            let want = tree_of(act@, opt_str_v(cur), p, fuel as nat);
            assert(want.children.len() == cs@.len());
            assert forall|k: int| 0 <= k < cs@.len() implies #[trigger] node_v(t).children[k]
                == want.children[k] by {
                assert(node_v(t).children[k] == node_v(t.children@[k]));
                assert(want.children[k] == tree_of(act@, opt_str_v(cur), cs2[k], (fuel - 1) as nat));
            }
            assert(node_v(t).children =~= want.children);
        }
        return t;
    }
    let t = TreeNode { branch_name: n.branch_name.clone(), is_current, children };
    assert(node_v(t).children =~= tree_of(act@, opt_str_v(cur), p, fuel as nat).children);
    t
}

/// Arranges the tracked, non-archived branches as a tree under `trunk_branch`.
pub fn build_tree_view(state: &DigState, trunk_branch: &str, current_branch: Option<&str>) -> (v: TreeView)
    ensures
        view_v(v) == spec_tree_view(state.nodes@, trunk_branch@, opt_str_v(current_branch)),
        view_v(v).root_label is Some && view_v(v).root_label->Some_0.is_current == (opt_str_v(current_branch)
            == Some(trunk_branch@)),
        forall|i: int| 0 <= i < view_v(v).roots.len() ==> marks_current(#[trigger] view_v(v).roots[i], opt_str_v(current_branch)),
{
    let act = active_copy(&state.nodes);
    let li = last_indices(&act);
    let rs = sort_positions(&act, &li, &root_positions_exec(&act));
    let mut roots: Vec<TreeNode> = Vec::new();
    let mut i: usize = 0;
    while i < rs.len()
        invariant
            i <= rs@.len(),
            act@ == active_nodes(state.nodes@),
            li@.len() == act@.len(),
            forall|k: int| 0 <= k < act@.len() ==> #[trigger] li@[k] as int == last_index(act@, act@[k].id),
            forall|k: int| 0 <= k < rs@.len() ==> #[trigger] rs@[k] < act@.len(),
            roots@.len() == i,
            forall|k: int|
                0 <= k < i ==> #[trigger] node_v(roots@[k]) == tree_of(
                    act@,
                    opt_str_v(current_branch),
                    rs@[k],
                    act@.len(),
                ),
        decreases rs@.len() - i,
    {
        roots.push(build_node(&act, &li, current_branch, rs[i], act.len()));
        i = i + 1;
    }
    let is_current = match current_branch {
        Some(c) => str_eq(c, trunk_branch),
        None => false,
    };
    let v = TreeView {
        root_label: Some(TreeLabel { branch_name: crate::text::to_owned_string(trunk_branch), is_current }),
        roots,
    };
    assert(view_v(v).roots =~= spec_tree_view(state.nodes@, trunk_branch@, opt_str_v(current_branch)).roots);
    proof {
        law_view_marks_the_current_branch(state.nodes@, trunk_branch@, opt_str_v(current_branch));
    }
    v
}

// ---------------------------------------------------------------------------
// Searching and narrowing a view.
/// The first node named `name` in a preorder walk of `t`.
pub open spec fn find_in_node(t: TreeNodeV, name: Seq<char>) -> Option<TreeNodeV>
    decreases t,
{
    if t.name == name {
        Some(t)
    } else {
        find_in_seq(t.children, name)
    }
}

/// The first node named `name` in a preorder walk of the trees `s`, in order.
pub open spec fn find_in_seq(s: Seq<TreeNodeV>, name: Seq<char>) -> Option<TreeNodeV>
    decreases s,
{
    if s.len() == 0 {
        None
    } else {
        match find_in_node(s[0], name) {
            Some(x) => Some(x),
            None => find_in_seq(s.subrange(1, s.len() as int), name),
        }
    }
}

/// The node that a preorder search finds carries the name searched for.
proof fn lemma_found_in_node_has_name(t: TreeNodeV, name: Seq<char>)
    ensures
        find_in_node(t, name) matches Some(x) ==> x.name == name,
    decreases t, 1nat,
{
    if t.name != name {
        law_narrowed_view_top_is_request(t.children, name);
    }
}

/// Narrowing a view to a branch puts that very branch on top: whatever node a preorder search
/// of the trees finds for a name carries that name.
pub proof fn law_narrowed_view_top_is_request(s: Seq<TreeNodeV>, name: Seq<char>)
    ensures
        find_in_seq(s, name) matches Some(x) ==> x.name == name,
    decreases s, 0nat,
{
    if s.len() > 0 {
        lemma_found_in_node_has_name(s[0], name);
        law_narrowed_view_top_is_request(s.subrange(1, s.len() as int), name);
    }
}

proof fn lemma_children_v(t: TreeNode)
    ensures
        node_v(t).children == nodes_v(t.children@),
{
    assert(node_v(t).children =~= nodes_v(t.children@));
}

proof fn lemma_find_in_seq_skip(s: Seq<TreeNodeV>, name: Seq<char>, i: int)
    requires
        0 <= i < s.len(),
    ensures
        find_in_seq(s.skip(i), name) == match find_in_node(s[i], name) {
            Some(x) => Some(x),
            None => find_in_seq(s.skip(i + 1), name),
        },
{
    let t = s.skip(i);
    assert(t[0] == s[i]);
    assert(t.subrange(1, t.len() as int) =~= s.skip(i + 1));
}

/// The first node named `branch_name` in a preorder walk of `node`.
pub fn find_tree_node<'a>(node: &'a TreeNode, branch_name: &str) -> (r: Option<&'a TreeNode>)
    ensures
        match find_in_node(node_v(*node), branch_name@) {
            Some(v) => r is Some && node_v(*r.unwrap()) == v,
            None => r is None,
        },
    decreases node,
{
    if str_eq(node.branch_name.as_str(), branch_name) {
        return Some(node);
    }
    proof {
        lemma_children_v(*node);
    }
    find_in_trees(&node.children, branch_name)
}

/// The first node named `branch_name` in a preorder walk of the trees `nodes`, in order.
pub fn find_in_trees<'a>(nodes: &'a Vec<TreeNode>, branch_name: &str) -> (r: Option<&'a TreeNode>)
    ensures
        match find_in_seq(nodes_v(nodes@), branch_name@) {
            Some(v) => r is Some && node_v(*r.unwrap()) == v,
            None => r is None,
        },
    decreases nodes,
{
    let ghost sv = nodes_v(nodes@);
    let mut i: usize = 0;
    assert(sv.skip(0) =~= sv);
    while i < nodes.len()
        invariant
            i <= nodes@.len(),
            sv == nodes_v(nodes@),
            find_in_seq(sv, branch_name@) == find_in_seq(sv.skip(i as int), branch_name@),
        decreases nodes@.len() - i,
    {
        proof {
            lemma_find_in_seq_skip(sv, branch_name@, i as int);
        }
        assert(sv[i as int] == node_v(nodes@[i as int]));
        let found = find_tree_node(&nodes[i], branch_name);
        if found.is_some() {
            return found;
        }
        i = i + 1;
    }
    assert(sv.skip(i as int).len() == 0);
    None
}

/// A copy of `t` with the same content.
pub fn copy_tree_node(t: &TreeNode) -> (r: TreeNode)
    ensures
        node_v(r) == node_v(*t),
    decreases t,
{
    let children = copy_trees(&t.children);
    let r = TreeNode { branch_name: t.branch_name.clone(), is_current: t.is_current, children };
    proof {
        lemma_children_v(r);
        lemma_children_v(*t);
    }
    r
}

/// Copies of the trees `v`, in order.
pub fn copy_trees(v: &Vec<TreeNode>) -> (r: Vec<TreeNode>)
    ensures
        nodes_v(r@) == nodes_v(v@),
    decreases v,
{
    let mut r: Vec<TreeNode> = Vec::new();
    let mut i: usize = 0;
    while i < v.len()
        invariant
            i <= v@.len(),
            r@.len() == i,
            forall|k: int| 0 <= k < i ==> #[trigger] node_v(r@[k]) == node_v(v@[k]),
        decreases v@.len() - i,
    {
        r.push(copy_tree_node(&v[i]));
        i = i + 1;
    }
    assert(nodes_v(r@) =~= nodes_v(v@));
    r
}

/// The branch a narrowing request names: trimmed, and none when it is blank.
pub open spec fn requested_v(requested: Option<&str>) -> Option<Seq<char>> {
    match requested {
        Some(r) => if trim(r@).len() > 0 {
            Some(trim(r@))
        } else {
            None
        },
        None => None,
    }
}

pub open spec fn not_in_tree_message(name: Seq<char>) -> Seq<char> {
    "tracked branch '"@ + name + "' was not found in dig tree"@
}

/// Narrows a view to the subtree below the requested branch.
pub fn filter_tree_view(view: TreeView, requested_branch: Option<&str>) -> (r: Result<TreeView, DigError>)
    ensures
        match requested_v(requested_branch) {
            None => r == Ok::<TreeView, DigError>(view),
            Some(req) => match view.root_label {
                None => r == Ok::<TreeView, DigError>(view),
                Some(label) => if label.branch_name@ == req {
                    r == Ok::<TreeView, DigError>(TreeView { root_label: None, roots: view.roots })
                } else {
                    match find_in_seq(nodes_v(view.roots@), req) {
                        Some(sel) => r is Ok && view_v(r.unwrap()) == TreeViewV {
                            root_label: Some(LabelV { name: sel.name, is_current: sel.is_current }),
                            roots: sel.children,
                        },
                        None => r is Err && r->Err_0.kind == ErrorKind::NotFound
                            && r->Err_0.message@ == not_in_tree_message(req),
                    }
                },
            },
        },
{
    let req = match requested_branch {
        None => {
            return Ok(view);
        },
        Some(r) => trim_str(r),
    };
    if req.as_str().is_empty() {
        return Ok(view);
    }
    let is_root = match &view.root_label {
        None => {
            return Ok(view);
        },
        Some(label) => str_eq(req.as_str(), label.branch_name.as_str()),
    };
    if is_root {
        return Ok(TreeView { root_label: None, roots: view.roots });
    }
    match find_in_trees(&view.roots, req.as_str()) {
        None => Err(
            DigError::new(
                ErrorKind::NotFound,
                message3("tracked branch '", req.as_str(), "' was not found in dig tree"),
            ),
        ),
        Some(selected) => {
            proof {
                lemma_children_v(*selected);
            }
            let roots = copy_trees(&selected.children);
            let v = TreeView {
                root_label: Some(
                    TreeLabel { branch_name: selected.branch_name.clone(), is_current: selected.is_current },
                ),
                roots,
            };
            Ok(v)
        },
    }
}

// ---------------------------------------------------------------------------
// The order of siblings.
proof fn lemma_lex_irreflexive(a: Seq<char>)
    ensures
        !lex_lt(a, a),
    decreases a.len(),
{
    if a.len() > 0 {
        lemma_lex_irreflexive(a.drop_first());
    }
}

proof fn lemma_lex_transitive(a: Seq<char>, b: Seq<char>, c: Seq<char>)
    requires
        lex_lt(a, b),
        lex_lt(b, c),
    ensures
        lex_lt(a, c),
    decreases a.len(),
{
    if a.len() > 0 && b.len() > 0 && c.len() > 0 && a[0] == b[0] && b[0] == c[0] {
        lemma_lex_transitive(a.drop_first(), b.drop_first(), c.drop_first());
    }
}

proof fn lemma_lex_total(a: Seq<char>, b: Seq<char>)
    requires
        a != b,
    ensures
        lex_lt(a, b) || lex_lt(b, a),
    decreases a.len(),
{
    if a.len() > 0 && b.len() > 0 && a[0] == b[0] {
        if a.drop_first() == b.drop_first() {
            assert(a =~= seq![a[0]] + a.drop_first());
            assert(b =~= seq![b[0]] + b.drop_first());
        }
        lemma_lex_total(a.drop_first(), b.drop_first());
    } else if a.len() > 0 && b.len() > 0 {
        assert((a[0] as int) != (b[0] as int));
    } else if a.len() == 0 && b.len() == 0 {
        assert(a =~= b);
    }
}

/// `before` is a strict weak order: irreflexive, asymmetric, and "not before" is transitive.
proof fn lemma_before_order(act: Seq<BranchNode>, x: usize, y: usize, z: usize)
    ensures
        !before(act, x, x),
        before(act, x, y) ==> !before(act, y, x),
        !before(act, x, y) && !before(act, y, z) ==> !before(act, x, z),
{
    let (a, b, c) = (act[x as int].branch_name@, act[y as int].branch_name@, act[z as int].branch_name@);
    lemma_lex_irreflexive(a);
    if lex_lt(a, b) && lex_lt(b, a) {
        lemma_lex_transitive(a, b, a);
    }
    if a != b {
        lemma_lex_total(a, b);
    }
    if b != c {
        lemma_lex_total(b, c);
    }
    if a != c {
        lemma_lex_total(a, c);
    }
    if lex_lt(c, b) && lex_lt(b, a) {
        lemma_lex_transitive(c, b, a);
    }
    if lex_lt(a, c) && lex_lt(c, b) {
        lemma_lex_transitive(a, c, b);
    }
    if lex_lt(b, a) && lex_lt(a, c) {
        lemma_lex_transitive(b, a, c);
    }
}

/// No later element sorts strictly before an earlier one.
pub open spec fn sorted_by_before(act: Seq<BranchNode>, t: Seq<usize>) -> bool {
    forall|i: int, j: int| 0 <= i < j < t.len() ==> !before(act, #[trigger] t[j], #[trigger] t[i])
}

proof fn lemma_insert_pos(act: Seq<BranchNode>, t: Seq<usize>, x: usize)
    ensures
        0 <= insert_pos(act, t, x) <= t.len(),
        forall|j: int| insert_pos(act, t, x) <= j < t.len() ==> before(act, x, #[trigger] t[j]),
        insert_pos(act, t, x) > 0 ==> !before(act, x, t[insert_pos(act, t, x) - 1]),
    decreases t.len(),
{
    if t.len() > 0 && before(act, x, t.last()) {
        let d = t.drop_last();
        lemma_insert_pos(act, d, x);
        assert forall|j: int| insert_pos(act, t, x) <= j < t.len() implies before(act, x, #[trigger] t[j]) by {
            if j < d.len() {
                assert(t[j] == d[j]);
            }
        }
        if insert_pos(act, d, x) > 0 {
            assert(t[insert_pos(act, d, x) - 1] == d[insert_pos(act, d, x) - 1]);
        }
    }
}

#[verifier::spinoff_prover]
proof fn lemma_insert_keeps_sorted(act: Seq<BranchNode>, t: Seq<usize>, x: usize)
    requires
        sorted_by_before(act, t),
    ensures
        sorted_by_before(act, t.insert(insert_pos(act, t, x), x)),
{
    let k = insert_pos(act, t, x);
    lemma_insert_pos(act, t, x);
    let r = t.insert(k, x);
    t.insert_ensures(k, x);
    assert forall|i: int, j: int| 0 <= i < j < r.len() implies !before(act, #[trigger] r[j], #[trigger] r[i]) by {
        if j < k {
            assert(r[i] == t[i] && r[j] == t[j]);
        } else if j == k {
            assert(r[i] == t[i]);
            lemma_before_order(act, x, t[k - 1], t[i]);
            if i < k - 1 {
                assert(!before(act, t[k - 1], t[i]));
            }
        } else if i == k {
            assert(r[j] == t[j - 1]);
            lemma_before_order(act, x, t[j - 1], x);
        } else if i < k {
            assert(r[i] == t[i] && r[j] == t[j - 1]);
        } else {
            assert(r[i] == t[i - 1] && r[j] == t[j - 1]);
        }
    }
}

/// The order in which siblings are shown is a sort: it sorts by `before` and keeps exactly the
/// positions it was given.
pub proof fn law_sorted_positions_sorts(act: Seq<BranchNode>, s: Seq<usize>)
    ensures
        sorted_by_before(act, sorted_positions(act, s)),
        sorted_positions(act, s).to_multiset() == s.to_multiset(),
    decreases s.len(),
{
    broadcast use vstd::seq_lib::to_multiset_build, vstd::seq_lib::to_multiset_insert;

    if s.len() > 0 {
        let d = s.drop_last();
        law_sorted_positions_sorts(act, d);
        let t = sorted_positions(act, d);
        lemma_insert_keeps_sorted(act, t, s.last());
        lemma_insert_pos(act, t, s.last());
        assert(s =~= d.push(s.last()));
    } else {
        assert(sorted_positions(act, s) =~= s);
    }
}

/// The view draws each branch under the branch it is tracked on: every child drawn below the node
/// at position `p` is the subtree of an active node whose parent is that node.
pub proof fn law_children_hang_on_their_parent(
    act: Seq<BranchNode>,
    cur: Option<Seq<char>>,
    p: usize,
    fuel: nat,
    i: int,
)
    requires
        act.len() <= usize::MAX,
        fuel > 0,
        0 <= i < tree_of(act, cur, p, fuel).children.len(),
    ensures
        exists|q: usize|
            q < act.len() && act[q as int].parent == (ParentRef::Branch { node_id: act[p as int].id })
                && #[trigger] tree_of(act, cur, q, (fuel - 1) as nat) == tree_of(act, cur, p, fuel).children[i],
{
    let id = act[p as int].id;
    let pred = |x: nat| act[x as int].parent == ParentRef::Branch { node_id: id };
    let s = child_positions(act, id);
    let cs = sorted_positions(act, s);
    law_sorted_positions_sorts(act, s);
    lemma_positions(act.len(), pred);
    let q = cs[i];
    assert(cs.contains(q));
    vstd::seq_lib::to_multiset_contains(cs, q);
    vstd::seq_lib::to_multiset_contains(s, q);
    let k = choose|k: int| 0 <= k < s.len() && s[k] == q;
    assert(s[k] < act.len() && pred(s[k] as nat));
    assert(tree_of(act, cur, p, fuel).children[i] == tree_of(act, cur, q, (fuel - 1) as nat));
}

/// The view's top level holds exactly the branches that hang on trunk or on an untracked branch:
/// every root drawn is the subtree of such an active node.
pub proof fn law_roots_hang_on_trunk(nodes: Seq<BranchNode>, trunk: Seq<char>, cur: Option<Seq<char>>, i: int)
    requires
        active_nodes(nodes).len() <= usize::MAX,
        0 <= i < spec_tree_view(nodes, trunk, cur).roots.len(),
    ensures
        ({
            let act = active_nodes(nodes);
            exists|q: usize|
                q < act.len() && is_root(act, act[q as int]) && #[trigger] tree_of(act, cur, q, act.len())
                    == spec_tree_view(nodes, trunk, cur).roots[i]
        }),
{
    let act = active_nodes(nodes);
    let pred = |x: nat| is_root(act, act[x as int]);
    let s = root_positions(act);
    let rs = sorted_positions(act, s);
    law_sorted_positions_sorts(act, s);
    lemma_positions(act.len(), pred);
    let q = rs[i];
    assert(rs.contains(q));
    vstd::seq_lib::to_multiset_contains(rs, q);
    vstd::seq_lib::to_multiset_contains(s, q);
    let k = choose|k: int| 0 <= k < s.len() && s[k] == q;
    assert(s[k] < act.len() && pred(s[k] as nat));
    assert(spec_tree_view(nodes, trunk, cur).roots[i] == tree_of(act, cur, q, act.len()));
}

/// Every position below `n` that satisfies `pred` is listed.
proof fn lemma_positions_complete(n: nat, pred: spec_fn(nat) -> bool, x: nat)
    requires
        n <= usize::MAX,
        x < n,
        pred(x),
    ensures
        positions(n, pred).contains(x as usize),
    decreases n,
{
    let r = positions((n - 1) as nat, pred);
    if x < n - 1 {
        lemma_positions_complete((n - 1) as nat, pred, x);
        let k = choose|k: int| 0 <= k < r.len() && r[k] == x as usize;
        if pred((n - 1) as nat) {
            assert(positions(n, pred)[k] == r[k]);
        } else {
            assert(positions(n, pred)[k] == r[k]);
        }
    } else {
        assert(positions(n, pred)[r.len() as int] == x as usize);
    }
}

/// Nothing tracked goes missing from the view: every active node that hangs on trunk or on an
/// untracked branch is drawn at the top level, and every active node that hangs on a drawn node is
/// drawn below it.
pub proof fn law_every_branch_is_drawn(
    nodes: Seq<BranchNode>,
    trunk: Seq<char>,
    cur: Option<Seq<char>>,
    p: usize,
    fuel: nat,
    q: usize,
)
    requires
        active_nodes(nodes).len() <= usize::MAX,
        q < active_nodes(nodes).len(),
    ensures
        ({
            let act = active_nodes(nodes);
            &&& is_root(act, act[q as int]) ==> exists|i: int|
                0 <= i < spec_tree_view(nodes, trunk, cur).roots.len()
                    && #[trigger] spec_tree_view(nodes, trunk, cur).roots[i] == tree_of(act, cur, q, act.len())
            &&& fuel > 0 && act[q as int].parent == (ParentRef::Branch { node_id: act[p as int].id })
                ==> exists|i: int|
                0 <= i < tree_of(act, cur, p, fuel).children.len() && #[trigger] tree_of(
                    act,
                    cur,
                    p,
                    fuel,
                ).children[i] == tree_of(act, cur, q, (fuel - 1) as nat)
        }),
{
    let act = active_nodes(nodes);
    if is_root(act, act[q as int]) {
        let pred = |x: nat| is_root(act, act[x as int]);
        let s = root_positions(act);
        let rs = sorted_positions(act, s);
        law_sorted_positions_sorts(act, s);
        lemma_positions_complete(act.len(), pred, q as nat);
        vstd::seq_lib::to_multiset_contains(s, q);
        vstd::seq_lib::to_multiset_contains(rs, q);
        let i = choose|i: int| 0 <= i < rs.len() && rs[i] == q;
        assert(spec_tree_view(nodes, trunk, cur).roots[i] == tree_of(act, cur, q, act.len()));
    }
    if fuel > 0 && act[q as int].parent == (ParentRef::Branch { node_id: act[p as int].id }) {
        let id = act[p as int].id;
        let pred = |x: nat| act[x as int].parent == ParentRef::Branch { node_id: id };
        let s = child_positions(act, id);
        let cs = sorted_positions(act, s);
        law_sorted_positions_sorts(act, s);
        lemma_positions_complete(act.len(), pred, q as nat);
        vstd::seq_lib::to_multiset_contains(s, q);
        vstd::seq_lib::to_multiset_contains(cs, q);
        let i = choose|i: int| 0 <= i < cs.len() && cs[i] == q;
        assert(tree_of(act, cur, p, fuel).children[i] == tree_of(act, cur, q, (fuel - 1) as nat));
    }
}

/// Every node of `t` is marked current exactly when its branch is the current branch, whatever
/// sits below it.
pub open spec fn marks_current(t: TreeNodeV, cur: Option<Seq<char>>) -> bool
    decreases t,
{
    &&& t.is_current == (cur == Some(t.name))
    &&& forall|i: int| 0 <= i < t.children.len() ==> marks_current(#[trigger] t.children[i], cur)
}

proof fn lemma_tree_of_marks_current(act: Seq<BranchNode>, cur: Option<Seq<char>>, p: usize, fuel: nat)
    ensures
        marks_current(tree_of(act, cur, p, fuel), cur),
        tree_of(act, cur, p, fuel).name == act[p as int].branch_name@,
    decreases fuel,
{
    let t = tree_of(act, cur, p, fuel);
    if fuel > 0 {
        let cs = sorted_positions(act, child_positions(act, act[p as int].id));
        assert forall|i: int| 0 <= i < t.children.len() implies marks_current(#[trigger] t.children[i], cur) by {
            assert(t.children[i] == tree_of(act, cur, cs[i], (fuel - 1) as nat));
            lemma_tree_of_marks_current(act, cur, cs[i], (fuel - 1) as nat);
        }
    }
}

/// The view marks the current branch and nothing else: the trunk label is current exactly when
/// trunk is the current branch, and every branch drawn, at any depth, is current exactly when its
/// name is the current branch's, whether or not branches are stacked on it.
pub proof fn law_view_marks_the_current_branch(nodes: Seq<BranchNode>, trunk: Seq<char>, cur: Option<Seq<char>>)
    ensures
        ({
            let v = spec_tree_view(nodes, trunk, cur);
            &&& v.root_label is Some
            &&& v.root_label->Some_0.name == trunk
            &&& v.root_label->Some_0.is_current == (cur == Some(trunk))
            &&& forall|i: int| 0 <= i < v.roots.len() ==> marks_current(#[trigger] v.roots[i], cur)
        }),
{
    let v = spec_tree_view(nodes, trunk, cur);
    let act = active_nodes(nodes);
    let rs = sorted_positions(act, root_positions(act));
    assert forall|i: int| 0 <= i < v.roots.len() implies marks_current(#[trigger] v.roots[i], cur) by {
        lemma_tree_of_marks_current(act, cur, rs[i], act.len());
    }
}

} // verus!
