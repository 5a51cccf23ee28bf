//! Live drawing of an operation's branch trees: each branch with its status, redrawn in place.
use vstd::prelude::*;

use crate::render::{
    append_tree_nodes, displays_v, join, join_strings, lines_from, node_lines, render_tree_node,
    strs_v, DisplayNode, DisplayV,
};
use crate::text::{chars_of, decimal, push_decimal};
use crate::ui::{paint, paint_struck, throbber_frame, throbber_frame_v, Accent, THROBBER_FRAME_COUNT};

verus! {

pub const ANSI_HIDE_CURSOR: &'static str = "\x1b[?25l";

pub const ANSI_SHOW_CURSOR: &'static str = "\x1b[?25h";

pub const ANSI_CLEAR_TO_END: &'static str = "\x1b[J";

/// Where a branch is in an operation.
#[derive(Debug, Clone, Copy, PartialEq, Eq, Structural)]
pub enum BranchStatus {
    Pending,
    InFlight { frame_index: usize, current_commit: Option<usize>, total_commits: Option<usize> },
    Succeeded,
    Deleted,
}

impl BranchStatus {
    pub fn start_in_flight() -> (s: BranchStatus)
        ensures
            s == (BranchStatus::InFlight { frame_index: 0, current_commit: None, total_commits: None }),
    {
        BranchStatus::InFlight { frame_index: 0, current_commit: None, total_commits: None }
    }

    /// The next spinner frame, with the rebase progress recorded.
    pub fn advance_progress(&self, current_commit: usize, total_commits: usize) -> (s: BranchStatus)
        ensures
            s == (BranchStatus::InFlight {
                frame_index: match *self {
                    BranchStatus::InFlight { frame_index, .. } => ((frame_index + 1) % (
                    THROBBER_FRAME_COUNT as int)) as usize,
                    _ => 0,
                },
                current_commit: Some(current_commit),
                total_commits: Some(total_commits),
            }),
    {
        let frame_index = match self {
            BranchStatus::InFlight { frame_index, .. } => {
                let f = *frame_index;
                let r = (f % THROBBER_FRAME_COUNT + 1) % THROBBER_FRAME_COUNT;
                assert(r == (f + 1) % 10) by (nonlinear_arith)
                    requires
                        r == (f % 10 + 1) % 10,
                ;
                r
            },
            _ => 0,
        };
        BranchStatus::InFlight {
            frame_index,
            current_commit: Some(current_commit),
            total_commits: Some(total_commits),
        }
    }
}

/// A branch drawn in an operation, with its status and the branches stacked on it.
#[derive(Debug, PartialEq, Eq)]
pub struct VisualNode {
    pub branch_name: String,
    pub status: BranchStatus,
    pub children: Vec<VisualNode>,
}

pub struct VisualV {
    pub name: Seq<char>,
    pub status: BranchStatus,
    pub children: Seq<VisualV>,
}

pub open spec fn visual_v(t: VisualNode) -> VisualV
    decreases t,
{
    VisualV {
        name: t.branch_name@,
        status: t.status,
        children: Seq::new(
            t.children@.len(),
            |i: int|
                if 0 <= i < t.children@.len() {
                    visual_v(t.children@[i])
                } else {
                    arbitrary()
                },
        ),
    }
}

pub open spec fn visuals_v(s: Seq<VisualNode>) -> Seq<VisualV> {
    Seq::new(s.len(), |i: int| visual_v(s[i]))
}

pub proof fn lemma_visual_children(t: VisualNode)
    ensures
        visual_v(t).children == visuals_v(t.children@),
{
    assert(visual_v(t).children =~= visuals_v(t.children@));
}

/// A change of status that an operation's progress brings to one branch.
#[derive(Debug, Clone, Copy, PartialEq, Eq, Structural)]
pub enum StatusChange {
    Start,
    Progress { current_commit: usize, total_commits: usize },
    Succeed,
}

pub open spec fn changed(s: BranchStatus, c: StatusChange) -> BranchStatus {
    match c {
        StatusChange::Start => BranchStatus::InFlight {
            frame_index: 0,
            current_commit: None,
            total_commits: None,
        },
        StatusChange::Progress { current_commit, total_commits } => BranchStatus::InFlight {
            frame_index: match s {
                BranchStatus::InFlight { frame_index, .. } => ((frame_index + 1) % (
                THROBBER_FRAME_COUNT as int)) as usize,
                _ => 0,
            },
            current_commit: Some(current_commit),
            total_commits: Some(total_commits),
        },
        StatusChange::Succeed => BranchStatus::Succeeded,
    }
}

/// `t` with the change applied to its first node named `name` in preorder; none when there is no such node.
pub open spec fn update_node(t: VisualV, name: Seq<char>, c: StatusChange) -> Option<VisualV>
    decreases t,
{
    if t.name == name {
        Some(VisualV { status: changed(t.status, c), ..t })
    } else {
        match update_seq(t.children, name, c) {
            Some(cs) => Some(VisualV { children: cs, ..t }),
            None => None,
        }
    }
}

/// The trees `s` with the change applied to the first node named `name` in preorder.
pub open spec fn update_seq(s: Seq<VisualV>, name: Seq<char>, c: StatusChange) -> Option<Seq<VisualV>>
    decreases s,
{
    if s.len() == 0 {
        None
    } else {
        match update_node(s[0], name, c) {
            Some(x) => Some(s.update(0, x)),
            None => match update_seq(s.subrange(1, s.len() as int), name, c) {
                Some(rest) => Some(seq![s[0]] + rest),
                None => None,
            },
        }
    }
}

/// `update_seq` from position `i` on.
pub proof fn lemma_update_seq_skip(s: Seq<VisualV>, name: Seq<char>, c: StatusChange, i: int)
    requires
        0 <= i < s.len(),
    ensures
        update_seq(s.skip(i), name, c) == match update_node(s[i], name, c) {
            Some(x) => Some(s.skip(i).update(0, x)),
            None => match update_seq(s.skip(i + 1), name, c) {
                Some(rest) => Some(seq![s[i]] + rest),
                None => None,
            },
        },
{
    let t = s.skip(i);
    assert(t[0] == s[i]);
    assert(t.subrange(1, t.len() as int) =~= s.skip(i + 1));
}

/// Two drawn trees with the same branches in the same places; statuses may differ.
pub open spec fn same_shape(a: VisualV, b: VisualV) -> bool
    decreases a,
{
    &&& a.name == b.name
    &&& a.children.len() == b.children.len()
    &&& forall|i: int| 0 <= i < a.children.len() ==> same_shape(#[trigger] a.children[i], b.children[i])
}

pub open spec fn same_shapes(a: Seq<VisualV>, b: Seq<VisualV>) -> bool {
    a.len() == b.len() && forall|i: int| 0 <= i < a.len() ==> same_shape(#[trigger] a[i], b[i])
}

proof fn lemma_same_shape_refl(a: VisualV)
    ensures
        same_shape(a, a),
    decreases a,
{
    assert forall|i: int| 0 <= i < a.children.len() implies same_shape(#[trigger] a.children[i], a.children[i]) by {
        lemma_same_shape_refl(a.children[i]);
    }
}

proof fn lemma_update_node_shape(t: VisualV, name: Seq<char>, c: StatusChange)
    ensures
        update_node(t, name, c) matches Some(u) ==> same_shape(t, u),
    decreases t, 1nat,
{
    if t.name == name {
        lemma_same_shape_refl(t);
    } else {
        law_status_change_keeps_shape(t.children, name, c);
    }
}

/// Reporting progress never redraws the tree: applying a status change to the trees gives
/// back trees with the same branches, in the same places.
pub proof fn law_status_change_keeps_shape(s: Seq<VisualV>, name: Seq<char>, c: StatusChange)
    ensures
        update_seq(s, name, c) matches Some(r) ==> same_shapes(s, r),
    decreases s, 0nat,
{
    if s.len() > 0 {
        lemma_update_node_shape(s[0], name, c);
        let rest = s.subrange(1, s.len() as int);
        law_status_change_keeps_shape(rest, name, c);
        match update_node(s[0], name, c) {
            Some(x) => {
                let r = s.update(0, x);
                assert forall|i: int| 0 <= i < s.len() implies same_shape(#[trigger] s[i], r[i]) by {
                    if i != 0 {
                        lemma_same_shape_refl(s[i]);
                    }
                }
            },
            None => {
                match update_seq(rest, name, c) {
                    Some(tail) => {
                        let r = seq![s[0]] + tail;
                        lemma_same_shape_refl(s[0]);
                        assert forall|i: int| 0 <= i < s.len() implies same_shape(#[trigger] s[i], r[i]) by {
                            if i > 0 {
                                assert(s[i] == rest[i - 1]);
                                assert(r[i] == tail[i - 1]);
                            }
                        }
                    },
                    None => {},
                }
            },
        }
    }
}

/// No tree in `s` has its root marked deleted.
pub open spec fn no_deleted_root(s: Seq<VisualV>) -> bool {
    forall|i: int| 0 <= i < s.len() ==> (#[trigger] s[i]).status != BranchStatus::Deleted
}

/// A status change never marks a branch deleted, so applying one to trees whose roots are not
/// deleted leaves their roots not deleted.
pub proof fn lemma_update_keeps_roots_undeleted(s: Seq<VisualV>, name: Seq<char>, c: StatusChange)
    ensures
        no_deleted_root(s) && update_seq(s, name, c) is Some ==> no_deleted_root(
            update_seq(s, name, c).unwrap(),
        ),
    decreases s.len(),
{
    if s.len() > 0 && no_deleted_root(s) {
        let rest = s.subrange(1, s.len() as int);
        assert(s[0].status != BranchStatus::Deleted);
        match update_node(s[0], name, c) {
            Some(x) => {
                assert(x.status != BranchStatus::Deleted);
                let r = s.update(0, x);
                assert forall|i: int| 0 <= i < r.len() implies (#[trigger] r[i]).status != BranchStatus::Deleted by {
                    if i > 0 {
                        assert(r[i] == s[i]);
                    }
                }
            },
            None => {
                assert forall|i: int| 0 <= i < rest.len() implies (#[trigger] rest[i]).status
                    != BranchStatus::Deleted by {
                    assert(rest[i] == s[i + 1]);
                }
                lemma_update_keeps_roots_undeleted(rest, name, c);
                match update_seq(rest, name, c) {
                    Some(tail) => {
                        let r = seq![s[0]] + tail;
                        assert forall|i: int| 0 <= i < r.len() implies (#[trigger] r[i]).status
                            != BranchStatus::Deleted by {
                            if i > 0 {
                                assert(r[i] == tail[i - 1]);
                            }
                        }
                    },
                    None => {},
                }
            },
        }
    }
}

/// The final view of an operation draws exactly what the active view draws as long as no section's
/// root is marked deleted: only a deleted root is ever left out of the final view.
pub proof fn law_final_view_is_active_view(sections: Seq<OperationSection>)
    requires
        forall|i: int| 0 <= i < sections.len() ==> (#[trigger] sections[i]).root.status != BranchStatus::Deleted,
    ensures
        sections_text(sections, true) == sections_text(sections, false),
{
    assert(Seq::new(sections.len(), |i: int| join(section_lines(sections[i], true), "\n"@)) =~= Seq::new(
        sections.len(),
        |i: int| join(section_lines(sections[i], false), "\n"@),
    ));
}

/// The first node named `name` in a preorder walk of `t`.
pub open spec fn find_visual(t: VisualV, name: Seq<char>) -> Option<VisualV>
    decreases t,
{
    if t.name == name {
        Some(t)
    } else {
        find_visuals(t.children, name)
    }
}

/// The first node named `name` in a preorder walk of the trees `s`, in order.
pub open spec fn find_visuals(s: Seq<VisualV>, name: Seq<char>) -> Option<VisualV>
    decreases s,
{
    if s.len() == 0 {
        None
    } else {
        match find_visual(s[0], name) {
            Some(x) => Some(x),
            None => find_visuals(s.subrange(1, s.len() as int), name),
        }
    }
}

proof fn lemma_find_visuals_skip(s: Seq<VisualV>, name: Seq<char>, i: int)
    requires
        0 <= i < s.len(),
    ensures
        find_visuals(s.skip(i), name) == match find_visual(s[i], name) {
            Some(x) => Some(x),
            None => find_visuals(s.skip(i + 1), name),
        },
{
    let t = s.skip(i);
    assert(t[0] == s[i]);
    assert(t.subrange(1, t.len() as int) =~= s.skip(i + 1));
}

/// The first node named `branch_name` in a preorder walk of the trees `nodes`, in order.
pub fn find_in_visuals<'a>(nodes: &'a Vec<VisualNode>, branch_name: &str) -> (r: Option<&'a VisualNode>)
    ensures
        match find_visuals(visuals_v(nodes@), branch_name@) {
            Some(v) => r is Some && visual_v(*r.unwrap()) == v,
            None => r is None,
        },
    decreases nodes,
{
    let ghost sv = visuals_v(nodes@);
    let mut i: usize = 0;
    assert(sv.skip(0) =~= sv);
    while i < nodes.len()
        invariant
            i <= nodes@.len(),
            sv == visuals_v(nodes@),
            find_visuals(sv, branch_name@) == find_visuals(sv.skip(i as int), branch_name@),
        decreases nodes@.len() - i,
    {
        proof {
            lemma_find_visuals_skip(sv, branch_name@, i as int);
        }
        assert(sv[i as int] == visual_v(nodes@[i as int]));
        let found = nodes[i].find(branch_name);
        if found.is_some() {
            return found;
        }
        i = i + 1;
    }
    assert(sv.skip(i as int).len() == 0);
    None
}

proof fn lemma_update_node_finds(t: VisualV, name: Seq<char>, c: StatusChange)
    ensures
        update_node(t, name, c) is Some <==> find_visual(t, name) is Some,
    decreases t, 1nat,
{
    if t.name != name {
        law_status_update_finds_what_find_finds(t.children, name, c);
    }
}

/// A status update changes a branch exactly when a lookup finds that branch: both walk the trees
/// in preorder for the first node of that name.
pub proof fn law_status_update_finds_what_find_finds(s: Seq<VisualV>, name: Seq<char>, c: StatusChange)
    ensures
        update_seq(s, name, c) is Some <==> find_visuals(s, name) is Some,
    decreases s, 0nat,
{
    if s.len() > 0 {
        lemma_update_node_finds(s[0], name, c);
        law_status_update_finds_what_find_finds(s.subrange(1, s.len() as int), name, c);
    }
}

impl VisualNode {
    /// The first node named `branch_name` in a preorder walk of this tree.
    pub fn find(&self, branch_name: &str) -> (r: Option<&VisualNode>)
        ensures
            match find_visual(visual_v(*self), branch_name@) {
                Some(v) => r is Some && visual_v(*r.unwrap()) == v,
                None => r is None,
            },
        decreases self,
    {
        if crate::text::str_eq(self.branch_name.as_str(), branch_name) {
            return Some(self);
        }
        proof {
            lemma_visual_children(*self);
        }
        find_in_visuals(&self.children, branch_name)
    }

    pub fn new(branch_name: String, children: Vec<VisualNode>) -> (n: VisualNode)
        ensures
            n.branch_name == branch_name,
            n.status == BranchStatus::Pending,
            n.children == children,
    {
        VisualNode { branch_name, status: BranchStatus::Pending, children }
    }

    /// Applies the change to the first node named `branch_name` in a preorder walk; tells whether there was one.
    pub fn update_status(&mut self, branch_name: &str, change: StatusChange) -> (found: bool)
        ensures
            match update_node(visual_v(*old(self)), branch_name@, change) {
                Some(v) => found && visual_v(*final(self)) == v,
                None => !found && visual_v(*final(self)) == visual_v(*old(self)),
            },
        decreases *old(self),
    {
        proof {
            lemma_visual_children(*self);
        }
        if crate::text::str_eq(self.branch_name.as_str(), branch_name) {
            self.status = match change {
                StatusChange::Start => BranchStatus::start_in_flight(),
                StatusChange::Progress { current_commit, total_commits } => self.status.advance_progress(
                    current_commit,
                    total_commits,
                ),
                StatusChange::Succeed => BranchStatus::Succeeded,
            };
            proof {
                lemma_visual_children(*self);
                assert(visual_v(*self).children == visual_v(*old(self)).children);
            }
            return true;
        }
        let ghost orig = visuals_v(old(self).children@);
        let mut i: usize = 0;
        assert(orig.skip(0) =~= orig);
        while i < self.children.len()
            invariant
                i <= self.children@.len(),
                self.children@.len() == old(self).children@.len(),
                self.branch_name == old(self).branch_name,
                self.status == old(self).status,
                orig == visuals_v(old(self).children@),
                orig == visual_v(*old(self)).children,
                old(self).branch_name@ != branch_name@,
                forall|k: int| i <= k < self.children@.len() ==> #[trigger] self.children@[k] == old(
                    self,
                ).children@[k],
                forall|k: int|
                    0 <= k < i ==> #[trigger] visual_v(self.children@[k]) == visual_v(old(self).children@[k]),
                update_seq(orig, branch_name@, change) == match update_seq(orig.skip(i as int), branch_name@, change) {
                    Some(rest) => Some(orig.take(i as int) + rest),
                    None => None,
                },
            decreases self.children@.len() - i,
        {
            proof {
                lemma_update_seq_skip(orig, branch_name@, change, i as int);
                assert(orig[i as int] == visual_v(old(self).children@[i as int]));
            }
            let found = self.children[i].update_status(branch_name, change);
            if found {
                proof {
                    lemma_visual_children(*self);
                    let nv = visuals_v(self.children@);
                    let x = update_node(orig[i as int], branch_name@, change).unwrap();
                    let want = orig.take(i as int) + orig.skip(i as int).update(0, x);
                    assert(want.len() == nv.len());
                    assert forall|k: int| 0 <= k < nv.len() implies #[trigger] nv[k] == want[k] by {
                        if k < i {
                            assert(nv[k] == visual_v(self.children@[k]));
                        } else if k == i {
                            assert(nv[k] == visual_v(self.children@[k]));
                        } else {
                            assert(self.children@[k] == old(self).children@[k]);
                            assert(nv[k] == visual_v(self.children@[k]));
                        }
                    }
                    assert(want =~= nv);
                    let ov = visual_v(*old(self));
                    assert(update_node(ov, branch_name@, change) == Some(VisualV { children: want, ..ov }));
                    assert(visual_v(*self) =~= VisualV { children: want, ..ov });
                }
                return true;
            }
            proof {
                assert(orig.take(i as int) + seq![orig[i as int]] =~= orig.take(i as int + 1));
                assert forall|rest: Seq<VisualV>| true implies orig.take(i as int) + (seq![orig[i as int]] + rest)
                    =~= orig.take(i as int + 1) + rest by {}
            }
            i = i + 1;
        }
        proof {
            lemma_visual_children(*self);
            assert(orig.skip(i as int).len() == 0);
            assert(visuals_v(self.children@) =~= orig);
        }
        false
    }
}

// ---------------------------------------------------------------------------
// Labels and drawings.
pub open spec fn progress_v(current_commit: Option<usize>, total_commits: Option<usize>) -> Seq<char> {
    match (current_commit, total_commits) {
        (Some(c), Some(t)) => " ["@ + decimal(c as nat) + "/"@ + decimal(t as nat) + "]"@,
        _ => seq![],
    }
}

/// The label of a branch: its name, with the marker of its status.
pub open spec fn branch_label(name: Seq<char>, status: BranchStatus) -> Seq<char> {
    match status {
        BranchStatus::Pending => name,
        BranchStatus::InFlight { frame_index, current_commit, total_commits } => paint(
            Accent::InFlight,
            throbber_frame_v((frame_index % THROBBER_FRAME_COUNT) as nat),
        ) + " "@ + name + progress_v(current_commit, total_commits),
        BranchStatus::Succeeded => paint(Accent::Success, "✓"@) + " "@ + name,
        BranchStatus::Deleted => paint(Accent::Failure, "✗"@) + " "@ + paint_struck(Accent::Failure, name),
    }
}

pub fn format_branch_label(node: &VisualNode) -> (s: String)
    ensures
        s@ == branch_label(node.branch_name@, node.status),
{
    match node.status {
        BranchStatus::Pending => node.branch_name.clone(),
        BranchStatus::InFlight { frame_index, current_commit, total_commits } => {
            let mut s = Accent::InFlight.paint_ansi(throbber_frame(frame_index % THROBBER_FRAME_COUNT));
            s.append(" ");
            s.append(node.branch_name.as_str());
            match (current_commit, total_commits) {
                (Some(c), Some(t)) => {
                    s.append(" [");
                    push_decimal(&mut s, c);
                    s.append("/");
                    push_decimal(&mut s, t);
                    s.append("]");
                },
                _ => {},
            }
            s
        },
        BranchStatus::Succeeded => {
            let mut s = Accent::Success.paint_ansi("✓");
            s.append(" ");
            s.append(node.branch_name.as_str());
            s
        },
        BranchStatus::Deleted => {
            let mut s = Accent::Failure.paint_ansi("✗");
            s.append(" ");
            let struck = Accent::Failure.paint_struck_ansi(node.branch_name.as_str());
            s.append(struck.as_str());
            s
        },
    }
}

/// The drawing of a branch: its label, and its children drawn the same way.
pub open spec fn labeled(t: VisualV) -> DisplayV
    decreases t,
{
    DisplayV {
        label: branch_label(t.name, t.status),
        children: Seq::new(
            t.children.len(),
            |i: int|
                if 0 <= i < t.children.len() {
                    labeled(t.children[i])
                } else {
                    arbitrary()
                },
        ),
    }
}

pub open spec fn labeled_seq(s: Seq<VisualV>) -> Seq<DisplayV> {
    Seq::new(s.len(), |i: int| labeled(s[i]))
}

/// The display tree of a branch and its children, each labeled with its status.
pub fn to_display(node: &VisualNode) -> (d: DisplayNode)
    ensures
        crate::render::display_v(d) == labeled(visual_v(*node)),
    decreases node,
{
    let label = format_branch_label(node);
    let children = to_displays(&node.children);
    let d = DisplayNode { label, children };
    proof {
        lemma_visual_children(*node);
        assert(crate::render::display_v(d).children =~= displays_v(d.children@));
        assert(labeled(visual_v(*node)).children =~= labeled_seq(visuals_v(node.children@)));
    }
    d
}

pub fn to_displays(nodes: &Vec<VisualNode>) -> (d: Vec<DisplayNode>)
    ensures
        displays_v(d@) == labeled_seq(visuals_v(nodes@)),
    decreases nodes,
{
    let mut d: Vec<DisplayNode> = Vec::new();
    let mut i: usize = 0;
    while i < nodes.len()
        invariant
            i <= nodes@.len(),
            d@.len() == i,
            forall|k: int| 0 <= k < i ==> #[trigger] crate::render::display_v(d@[k]) == labeled(
                visual_v(nodes@[k]),
            ),
        decreases nodes@.len() - i,
    {
        d.push(to_display(&nodes[i]));
        i = i + 1;
    }
    assert(displays_v(d@) =~= labeled_seq(visuals_v(nodes@)));
    d
}

/// Appends the lines drawing `node` and its subtree below `prefix`.
pub fn render_node(node: &VisualNode, prefix: &str, is_last: bool, lines: &mut Vec<String>)
    ensures
        strs_v(final(lines)@) == strs_v(old(lines)@) + node_lines(labeled(visual_v(*node)), prefix@, is_last),
{
    let d = to_display(node);
    render_tree_node(&d, prefix, is_last, lines);
}

/// One tree of an operation, under the label of the branch it hangs on.
#[derive(Debug)]
pub struct OperationSection {
    pub root_label: String,
    pub root: VisualNode,
    pub promote_children_on_deleted_root: bool,
}

/// The lines of a section: its label, then its tree; in the final view a deleted root that asks
/// for it is left out and its children are drawn in its place.
pub open spec fn section_lines(s: OperationSection, final_view: bool) -> Seq<Seq<char>> {
    seq![s.root_label@] + if final_view && s.promote_children_on_deleted_root && s.root.status
        == BranchStatus::Deleted {
        lines_from(labeled_seq(visuals_v(s.root.children@)), seq![], 0)
    } else {
        node_lines(labeled(visual_v(s.root)), seq![], true)
    }
}

pub fn render_section(section: &OperationSection, final_view: bool) -> (r: String)
    ensures
        r@ == join(section_lines(*section, final_view), "\n"@),
{
    let mut lines: Vec<String> = Vec::new();
    lines.push(section.root_label.clone());
    let ghost start = strs_v(lines@);
    assert(start =~= seq![section.root_label@]);
    proof {
        reveal_strlit("");
        assert(""@ =~= Seq::<char>::empty());
    }
    if final_view && section.promote_children_on_deleted_root && section.root.status
        == BranchStatus::Deleted {
        let children = to_displays(&section.root.children);
        append_tree_nodes(&mut lines, &children);
    } else {
        render_node(&section.root, "", true, &mut lines);
    }
    join_strings(&lines, "\n")
}

pub open spec fn sections_text(sections: Seq<OperationSection>, final_view: bool) -> Seq<char> {
    join(Seq::new(sections.len(), |i: int| join(section_lines(sections[i], final_view), "\n"@)), "\n\n"@)
}

/// All sections, separated by blank lines.
pub fn render_sections(sections: &Vec<OperationSection>, final_view: bool) -> (r: String)
    ensures
        r@ == sections_text(sections@, final_view),
{
    let mut parts: Vec<String> = Vec::new();
    let mut i: usize = 0;
    while i < sections.len()
        invariant
            i <= sections@.len(),
            parts@.len() == i,
            forall|k: int| 0 <= k < i ==> #[trigger] parts@[k]@ == join(section_lines(sections@[k], final_view), "\n"@),
        decreases sections@.len() - i,
    {
        parts.push(render_section(&sections[i], final_view));
        i = i + 1;
    }
    assert(strs_v(parts@) =~= Seq::new(sections@.len(), |i: int| join(section_lines(sections@[i], final_view), "\n"@)));
    join_strings(&parts, "\n\n")
}

// ---------------------------------------------------------------------------
// Redrawing in place.
/// How many newlines `s` holds.
pub open spec fn newline_count(s: Seq<char>) -> nat
    decreases s.len(),
{
    if s.len() == 0 {
        0
    } else {
        newline_count(s.drop_last()) + if s.last() == '\n' {
            1nat
        } else {
            0nat
        }
    }
}

proof fn lemma_newline_count_le(s: Seq<char>)
    ensures
        newline_count(s) <= s.len(),
    decreases s.len(),
{
    if s.len() > 0 {
        lemma_newline_count_le(s.drop_last());
    }
}

/// How many lines `str::lines` yields for `s`: one per newline, plus an unterminated last line.
pub open spec fn line_count(s: Seq<char>) -> nat {
    if s.len() == 0 {
        0
    } else if s.last() == '\n' {
        newline_count(s)
    } else {
        newline_count(s) + 1
    }
}

/// How many terminal lines a drawn frame takes: its line count, at least one.
pub fn frame_line_count(frame: &str) -> (n: usize)
    ensures
        n as nat == if line_count(frame@) > 1 {
            line_count(frame@)
        } else {
            1
        },
{
    let v = chars_of(frame);
    let mut count: usize = 0;
    let mut i: usize = 0;
    while i < v.len()
        invariant
            v@ == frame@,
            i <= v@.len(),
            count as nat == newline_count(v@.take(i as int)),
            count <= i,
        decreases v@.len() - i,
    {
        assert(v@.take(i as int + 1).drop_last() =~= v@.take(i as int));
        if v[i] == '\n' {
            count = count + 1;
        }
        i = i + 1;
    }
    assert(v@.take(v@.len() as int) =~= v@);
    proof {
        if v@.len() > 0 {
            lemma_newline_count_le(v@.drop_last());
        }
    }
    let lines = if v.len() == 0 {
        0
    } else if v[v.len() - 1] == '\n' {
        count
    } else {
        count + 1
    };
    if lines > 1 {
        lines
    } else {
        1
    }
}

/// What an animation has drawn so far: whether it still hides the cursor, and how many lines its last frame took.
#[derive(Debug)]
pub struct AnimationTerminal {
    pub active: bool,
    pub rendered_line_count: usize,
}

/// The text that redraws `frame` over a previous frame of `prev` lines.
pub open spec fn redraw_text(prev: usize, frame: Seq<char>) -> Seq<char> {
    (if prev > 0 {
        "\r"@ + if prev > 1 {
            "\x1b["@ + decimal((prev - 1) as nat) + "A"@
        } else {
            seq![]
        }
    } else {
        seq![]
    }) + "\x1b[J"@ + frame
}

impl AnimationTerminal {
    /// The state right after the cursor was hidden (`ANSI_HIDE_CURSOR` written).
    pub fn started() -> (t: AnimationTerminal)
        ensures
            t.active,
            t.rendered_line_count == 0,
    {
        AnimationTerminal { active: true, rendered_line_count: 0 }
    }

    /// The text to write to draw `frame` in place of the previous one; records the frame's line count.
    pub fn render(&mut self, frame: &str) -> (out: String)
        ensures
            out@ == redraw_text(old(self).rendered_line_count, frame@),
            final(self).active == old(self).active,
            final(self).rendered_line_count as nat == if line_count(frame@) > 1 {
                line_count(frame@)
            } else {
                1
            },
    {
        let mut out = String::new();
        if self.rendered_line_count > 0 {
            out.append("\r");
            if self.rendered_line_count > 1 {
                out.append("\x1b[");
                push_decimal(&mut out, self.rendered_line_count - 1);
                out.append("A");
            }
        }
        out.append("\x1b[J");
        out.append(frame);
        self.rendered_line_count = frame_line_count(frame);
        out
    }

    /// The text to write to draw the last frame and show the cursor again; the animation is over.
    pub fn finish(&mut self, frame: &str) -> (out: String)
        ensures
            out@ == redraw_text(old(self).rendered_line_count, frame@) + "\x1b[?25h\n"@,
            !final(self).active,
            final(self).rendered_line_count as nat == if line_count(frame@) > 1 {
                line_count(frame@)
            } else {
                1
            },
    {
        let mut out = self.render(frame);
        out.append("\x1b[?25h\n");
        self.active = false;
        out
    }

    /// What to write when the animation is dropped: the cursor is shown again if it is still hidden.
    pub fn cursor_restore(&self) -> (out: Option<&'static str>)
        ensures
            match out {
                Some(s) => self.active && s@ == "\x1b[?25h"@,
                None => !self.active,
            },
    {
        if self.active {
            Some(ANSI_SHOW_CURSOR)
        } else {
            None
        }
    }
}

} // verus!
