//! Text layouts shared by the commands: sections, restack summaries and tree drawings.
use vstd::prelude::*;

use crate::text::{trim, trim_str};

verus! {

/// The views of a sequence of strings.
pub open spec fn strs_v(v: Seq<String>) -> Seq<Seq<char>> {
    Seq::new(v.len(), |i: int| v[i]@)
}

pub proof fn lemma_strs_push(v: Seq<String>, s: String)
    ensures
        strs_v(v.push(s)) == strs_v(v).push(s@),
{
    assert(strs_v(v.push(s)) =~= strs_v(v).push(s@));
}

/// The pieces joined with `sep` between each two.
pub open spec fn join(pieces: Seq<Seq<char>>, sep: Seq<char>) -> Seq<char>
    decreases pieces.len(),
{
    if pieces.len() == 0 {
        seq![]
    } else if pieces.len() == 1 {
        pieces[0]
    } else {
        join(pieces.drop_last(), sep) + sep + pieces.last()
    }
}

/// `pieces.join(sep)`.
pub fn join_strings(pieces: &Vec<String>, sep: &str) -> (r: String)
    ensures
        r@ == join(strs_v(pieces@), sep@),
{
    let ghost pv = strs_v(pieces@);
    let mut r = String::new();
    let mut i: usize = 0;
    while i < pieces.len()
        invariant
            i <= pieces@.len(),
            pv == strs_v(pieces@),
            r@ == join(pv.take(i as int), sep@),
        decreases pieces@.len() - i,
    {
        proof {
            let t = pv.take(i as int + 1);
            assert(t.drop_last() =~= pv.take(i as int));
            assert(t.last() == pieces@[i as int]@);
        }
        if i > 0 {
            r.append(sep);
        }
        r.append(pieces[i].as_str());
        proof {
            if i == 0 {
                assert(pv.take(1)[0] == pieces@[0]@);
                assert(r@ =~= pieces@[0]@);
            }
        }
        i = i + 1;
    }
    assert(pv.take(pieces@.len() as int) =~= pv);
    r
}

/// Sections of output separated by a blank line.
pub fn join_sections(sections: &Vec<String>) -> (r: String)
    ensures
        r@ == join(strs_v(sections@), "\n\n"@),
{
    join_strings(sections, "\n\n")
}

/// What of a command's error output is worth showing: the output trimmed, unless nothing is left.
pub open spec fn shown_output(output: Option<Seq<char>>) -> Option<Seq<char>> {
    match output {
        Some(o) => if trim(o).len() > 0 {
            Some(trim(o))
        } else {
            None
        },
        None => None,
    }
}

pub open spec fn opt_view(output: Option<&str>) -> Option<Seq<char>> {
    match output {
        Some(o) => Some(o@),
        None => None,
    }
}

/// The error output to show, trimmed; none when there is nothing but whitespace.
pub fn trimmed_output(output: Option<&str>) -> (r: Option<String>)
    ensures
        match shown_output(opt_view(output)) {
            Some(t) => r is Some && r->Some_0@ == t,
            None => r is None,
        },
{
    match output {
        None => None,
        Some(o) => {
            let t = trim_str(o);
            if t.as_str().is_empty() {
                None
            } else {
                Some(t)
            }
        },
    }
}

pub const RESOLVE_GUIDANCE: &'static str =
    "Resolve the rebase conflicts, stage the changes, and run 'dgr sync --continue'.";

pub const RERUN_GUIDANCE: &'static str = "If you abort the rebase, rerun the original dgr command from the start.";

/// The lines shown when a restack pauses on conflicts: the rebase's error output, if any, then
/// how to go on.
pub fn restack_pause_lines(output: Option<&str>) -> (r: Vec<String>)
    ensures
        strs_v(r@) == match shown_output(opt_view(output)) {
            Some(t) => seq![t],
            None => Seq::<Seq<char>>::empty(),
        } + seq![RESOLVE_GUIDANCE@, RERUN_GUIDANCE@],
{
    let mut lines: Vec<String> = Vec::new();
    match trimmed_output(output) {
        Some(t) => lines.push(t),
        None => {},
    }
    let ghost before = lines@;
    lines.push(String::from_str(RESOLVE_GUIDANCE));
    lines.push(String::from_str(RERUN_GUIDANCE));
    proof {
        assert(strs_v(lines@) =~= strs_v(before) + seq![RESOLVE_GUIDANCE@, RERUN_GUIDANCE@]);
        assert(strs_v(before) =~= match shown_output(opt_view(output)) {
            Some(t) => seq![t],
            None => Seq::<Seq<char>>::empty(),
        });
    }
    lines
}

/// One branch that a restack moved, and the branch it now sits on.
#[derive(Debug, Clone, PartialEq, Eq)]
pub struct RestackPreview {
    pub branch_name: String,
    pub onto_branch: String,
    pub parent_changed: bool,
}

pub open spec fn restack_line(b: RestackPreview) -> Seq<char> {
    "- "@ + b.branch_name@ + " onto "@ + b.onto_branch@
}

pub open spec fn restacked_lines(branches: Seq<RestackPreview>) -> Seq<Seq<char>> {
    seq!["Restacked:"@] + Seq::new(branches.len(), |i: int| restack_line(branches[i]))
}

/// The "Restacked:" section, one line per branch.
pub fn format_restacked_branches(branches: &Vec<RestackPreview>) -> (r: String)
    ensures
        r@ == join(restacked_lines(branches@), "\n"@),
{
    let mut lines: Vec<String> = Vec::new();
    lines.push(String::from_str("Restacked:"));
    let mut i: usize = 0;
    while i < branches.len()
        invariant
            i <= branches@.len(),
            strs_v(lines@) == restacked_lines(branches@.take(i as int)),
            lines@.len() == i + 1,
        decreases branches@.len() - i,
    {
        let mut line = String::from_str("- ");
        line.append(branches[i].branch_name.as_str());
        line.append(" onto ");
        line.append(branches[i].onto_branch.as_str());
        let ghost prev = strs_v(lines@);
        lines.push(line);
        proof {
            let t = branches@.take(i as int + 1);
            let want = restacked_lines(t);
            let old_want = restacked_lines(branches@.take(i as int));
            assert(want.len() == strs_v(lines@).len());
            assert forall|k: int| 0 <= k < want.len() implies #[trigger] strs_v(lines@)[k] == want[k] by {
                if k == 0 {
                    assert(want[0] == "Restacked:"@);
                    assert(old_want[0] == "Restacked:"@);
                } else if k < want.len() - 1 {
                    assert(t[k - 1] == branches@[k - 1]);
                    assert(old_want[k] == restack_line(branches@.take(i as int)[k - 1]));
                    assert(strs_v(lines@)[k] == prev[k]);
                } else {
                    assert(t[k - 1] == branches@[i as int]);
                }
            }
        }
        i = i + 1;
        assert(strs_v(lines@) =~= restacked_lines(branches@.take(i as int)));
    }
    assert(branches@.take(branches@.len() as int) =~= branches@);
    join_strings(&lines, "\n")
}

/// A node of a drawn tree: its label and its children.
#[derive(Debug, PartialEq, Eq)]
pub struct DisplayNode {
    pub label: String,
    pub children: Vec<DisplayNode>,
}

pub struct DisplayV {
    pub label: Seq<char>,
    pub children: Seq<DisplayV>,
}

pub open spec fn display_v(t: DisplayNode) -> DisplayV
    decreases t,
{
    DisplayV {
        label: t.label@,
        children: Seq::new(
            t.children@.len(),
            |i: int|
                if 0 <= i < t.children@.len() {
                    display_v(t.children@[i])
                } else {
                    arbitrary()
                },
        ),
    }
}

pub open spec fn displays_v(s: Seq<DisplayNode>) -> Seq<DisplayV> {
    Seq::new(s.len(), |i: int| display_v(s[i]))
}

pub open spec fn connector(is_last: bool) -> Seq<char> {
    if is_last {
        "└──"@
    } else {
        "├──"@
    }
}

pub open spec fn child_pad(is_last: bool) -> Seq<char> {
    if is_last {
        "    "@
    } else {
        "│   "@
    }
}

/// The lines that draw `t` and its subtree below `prefix`.
pub open spec fn node_lines(t: DisplayV, prefix: Seq<char>, is_last: bool) -> Seq<Seq<char>>
    decreases t, 0int,
{
    seq![prefix + connector(is_last) + " "@ + t.label] + lines_from(
        t.children,
        prefix + child_pad(is_last),
        0,
    )
}

/// The lines that draw the trees `cs[i..]` below `prefix`; the last of `cs` gets the closing connector.
pub open spec fn lines_from(cs: Seq<DisplayV>, prefix: Seq<char>, i: int) -> Seq<Seq<char>>
    decreases cs, cs.len() - i,
{
    if i < 0 || i >= cs.len() {
        seq![]
    } else {
        node_lines(cs[i], prefix, i + 1 == cs.len()) + lines_from(cs, prefix, i + 1)
    }
}

/// The lines of a whole drawing: the label, if any, then the roots.
pub open spec fn tree_lines(root_label: Option<Seq<char>>, roots: Seq<DisplayV>) -> Seq<Seq<char>> {
    match root_label {
        Some(l) => seq![l] + lines_from(roots, seq![], 0),
        None => lines_from(roots, seq![], 0),
    }
}

/// How many branches a drawn tree holds.
pub open spec fn display_size(t: DisplayV) -> nat
    decreases t, 0int,
{
    1 + display_sizes(t.children, 0)
}

/// How many branches the trees `cs[i..]` hold.
pub open spec fn display_sizes(cs: Seq<DisplayV>, i: int) -> nat
    decreases cs, cs.len() - i,
{
    if i < 0 || i >= cs.len() {
        0
    } else {
        display_size(cs[i]) + display_sizes(cs, i + 1)
    }
}

proof fn lemma_node_lines_len(t: DisplayV, prefix: Seq<char>, is_last: bool)
    ensures
        node_lines(t, prefix, is_last).len() == display_size(t),
    decreases t, 0int,
{
    lemma_lines_from_len(t.children, prefix + child_pad(is_last), 0);
}

proof fn lemma_lines_from_len(cs: Seq<DisplayV>, prefix: Seq<char>, i: int)
    ensures
        lines_from(cs, prefix, i).len() == display_sizes(cs, i),
    decreases cs, cs.len() - i,
{
    if 0 <= i < cs.len() {
        lemma_node_lines_len(cs[i], prefix, i + 1 == cs.len());
        lemma_lines_from_len(cs, prefix, i + 1);
    }
}

/// A drawing gives each branch exactly one line, and one more to the label when there is one.
pub proof fn law_one_line_per_branch(root_label: Option<Seq<char>>, roots: Seq<DisplayV>)
    ensures
        tree_lines(root_label, roots).len() == display_sizes(roots, 0) + if root_label is Some {
            1int
        } else {
            0int
        },
{
    lemma_lines_from_len(roots, seq![], 0);
}

proof fn lemma_display_children(t: DisplayNode)
    ensures
        display_v(t).children == displays_v(t.children@),
{
    assert(display_v(t).children =~= displays_v(t.children@));
}

proof fn lemma_lines_from_split(cs: Seq<DisplayV>, prefix: Seq<char>, i: int)
    requires
        0 <= i <= cs.len(),
    ensures
        lines_from(cs, prefix, 0) == lines_from_upto(cs, prefix, i) + lines_from(cs, prefix, i),
    decreases i,
{
    if i > 0 {
        lemma_lines_from_split(cs, prefix, i - 1);
        assert(lines_from_upto(cs, prefix, i) =~= lines_from_upto(cs, prefix, i - 1) + node_lines(
            cs[i - 1],
            prefix,
            i == cs.len(),
        ));
    } else {
        assert(lines_from_upto(cs, prefix, 0) =~= seq![]);
    }
}

/// The lines of the first `i` trees of `cs`.
pub open spec fn lines_from_upto(cs: Seq<DisplayV>, prefix: Seq<char>, i: int) -> Seq<Seq<char>>
    decreases i,
{
    if i <= 0 {
        seq![]
    } else {
        lines_from_upto(cs, prefix, i - 1) + node_lines(cs[i - 1], prefix, i == cs.len())
    }
}

/// Appends the lines drawing `node` and its subtree below `prefix`.
pub fn render_tree_node(node: &DisplayNode, prefix: &str, is_last: bool, lines: &mut Vec<String>)
    ensures
        strs_v(final(lines)@) == strs_v(old(lines)@) + node_lines(display_v(*node), prefix@, is_last),
    decreases node,
{
    let mut line = String::from_str(prefix);
    if is_last {
        line.append("└──");
    } else {
        line.append("├──");
    }
    line.append(" ");
    line.append(node.label.as_str());
    let ghost before = strs_v(lines@);
    lines.push(line);
    assert(strs_v(lines@) =~= before + seq![prefix@ + connector(is_last) + " "@ + node.label@]);
    let mut child_prefix = String::from_str(prefix);
    if is_last {
        child_prefix.append("    ");
    } else {
        child_prefix.append("│   ");
    }
    proof {
        lemma_display_children(*node);
    }
    append_nodes_with_prefix(lines, &node.children, child_prefix.as_str());
    proof {
        let dv = display_v(*node);
        assert(node_lines(dv, prefix@, is_last) == seq![prefix@ + connector(is_last) + " "@
            + node.label@] + lines_from(dv.children, prefix@ + child_pad(is_last), 0));
        assert(strs_v(lines@) =~= before + node_lines(dv, prefix@, is_last));
    }
}

/// Appends the lines drawing the trees `nodes` below `prefix`.
pub fn append_nodes_with_prefix(lines: &mut Vec<String>, nodes: &Vec<DisplayNode>, prefix: &str)
    ensures
        strs_v(final(lines)@) == strs_v(old(lines)@) + lines_from(displays_v(nodes@), prefix@, 0),
    decreases nodes,
{
    let ghost cs = displays_v(nodes@);
    let ghost start = strs_v(lines@);
    let mut i: usize = 0;
    while i < nodes.len()
        invariant
            i <= nodes@.len(),
            cs == displays_v(nodes@),
            strs_v(lines@) == start + lines_from_upto(cs, prefix@, i as int),
        decreases nodes@.len() - i,
    {
        let ghost mid = strs_v(lines@);
        render_tree_node(&nodes[i], prefix, i + 1 == nodes.len(), lines);
        assert(cs[i as int] == display_v(nodes@[i as int]));
        i = i + 1;
        assert(strs_v(lines@) =~= start + lines_from_upto(cs, prefix@, i as int));
    }
    proof {
        lemma_lines_from_split(cs, prefix@, cs.len() as int);
        assert(lines_from(cs, prefix@, cs.len() as int) =~= seq![]);
        assert(lines_from_upto(cs, prefix@, cs.len() as int) + seq![] =~= lines_from_upto(cs, prefix@, cs.len() as int));
    }
}

/// Appends the lines drawing the trees `nodes` at the top level.
pub fn append_tree_nodes(lines: &mut Vec<String>, nodes: &Vec<DisplayNode>)
    ensures
        strs_v(final(lines)@) == strs_v(old(lines)@) + lines_from(displays_v(nodes@), seq![], 0),
{
    proof {
        reveal_strlit("");
        assert(""@ =~= Seq::<char>::empty());
    }
    append_nodes_with_prefix(lines, nodes, "");
}

/// Draws a tree: the label on the first line, if any, then each root with its subtree.
pub fn render_tree(root_label: Option<String>, roots: &Vec<DisplayNode>) -> (r: String)
    ensures
        r@ == join(
            tree_lines(
                match root_label {
                    Some(l) => Some(l@),
                    None => None,
                },
                displays_v(roots@),
            ),
            "\n"@,
        ),
{
    let mut lines: Vec<String> = Vec::new();
    let ghost lv = match &root_label {
        Some(l) => Some(l@),
        None => None::<Seq<char>>,
    };
    match root_label {
        Some(l) => lines.push(l),
        None => {},
    }
    let ghost start = strs_v(lines@);
    append_tree_nodes(&mut lines, roots);
    assert(strs_v(lines@) =~= tree_lines(lv, displays_v(roots@)));
    join_strings(&lines, "\n")
}

} // verus!
