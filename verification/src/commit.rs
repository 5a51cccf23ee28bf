//! `dig commit`: the git command line it runs, the recent log it reads back, and how it is shown.
use vstd::prelude::*;

use crate::error::CommandStatus;
use crate::render::{join, join_strings, lemma_strs_push, strs_v};
use crate::text::{chars_of, push_char, starts_with, string_from_chars, trim, trim_bounds};
use crate::ui::{paint, Accent};

verus! {

/// How many commits are listed after a successful commit.
pub const RECENT_COMMITS_LIMIT: usize = 5;

#[derive(Debug, Clone, Default, PartialEq, Eq)]
pub struct CommitOptions {
    pub all: bool,
    pub messages: Vec<String>,
    pub no_edit: bool,
    pub amend: bool,
}

/// The command-line arguments of `dig commit`.
#[derive(Debug, Clone, PartialEq, Eq)]
pub struct CommitArgs {
    pub all: bool,
    pub messages: Vec<String>,
    pub no_edit: bool,
    pub amend: bool,
}

impl From<CommitArgs> for CommitOptions {
    fn from(args: CommitArgs) -> (r: CommitOptions) {
        CommitOptions { all: args.all, messages: args.messages, no_edit: args.no_edit, amend: args.amend }
    }
}

impl vstd::std_specs::convert::FromSpecImpl<CommitArgs> for CommitOptions {
    open spec fn obeys_from_spec() -> bool {
        true
    }

    open spec fn from_spec(args: CommitArgs) -> CommitOptions {
        CommitOptions { all: args.all, messages: args.messages, no_edit: args.no_edit, amend: args.amend }
    }
}

/// One line of the recent log.
#[derive(Debug, Clone, PartialEq, Eq)]
pub struct CommitEntry {
    pub hash: String,
    pub refs: Vec<String>,
    pub is_head: bool,
    pub title: String,
}

#[derive(Debug, Clone, PartialEq, Eq)]
pub struct CommitOutcome {
    pub status: CommandStatus,
    pub summary_line: Option<String>,
    pub recent_commits: Vec<CommitEntry>,
}

/// The arguments of `git` for a commit with the given options.
pub open spec fn commit_args(o: CommitOptions) -> Seq<Seq<char>> {
    seq!["commit"@] + (if o.all {
        seq!["-a"@]
    } else {
        seq![]
    }) + message_args(strs_v(o.messages@)) + (if o.no_edit {
        seq!["--no-edit"@]
    } else {
        seq![]
    }) + (if o.amend {
        seq!["--amend"@]
    } else {
        seq![]
    })
}

/// `-m` before each message.
pub open spec fn message_args(ms: Seq<Seq<char>>) -> Seq<Seq<char>>
    decreases ms.len(),
{
    if ms.len() == 0 {
        seq![]
    } else {
        message_args(ms.drop_last()) + seq!["-m"@, ms.last()]
    }
}

/// Each message takes two arguments: `-m`, then the message.
proof fn lemma_message_args_len(ms: Seq<Seq<char>>)
    ensures
        message_args(ms).len() == 2 * ms.len(),
    decreases ms.len(),
{
    if ms.len() > 0 {
        lemma_message_args_len(ms.drop_last());
    }
}

/// The `i`-th message comes right after its own `-m`.
proof fn lemma_message_arg_at(ms: Seq<Seq<char>>, i: int)
    requires
        0 <= i < ms.len(),
    ensures
        message_args(ms)[2 * i] == "-m"@,
        message_args(ms)[2 * i + 1] == ms[i],
    decreases ms.len(),
{
    let d = ms.drop_last();
    lemma_message_args_len(d);
    let prefix = message_args(d);
    let t = seq!["-m"@, ms.last()];
    assert(message_args(ms) == prefix + t);
    if i < d.len() {
        lemma_message_arg_at(d, i);
        assert((prefix + t)[2 * i] == prefix[2 * i]);
        assert((prefix + t)[2 * i + 1] == prefix[2 * i + 1]);
    } else {
        assert((prefix + t)[2 * i] == t[0]);
        assert((prefix + t)[2 * i + 1] == t[1]);
    }
}

/// The command line of a commit follows the options: `commit`, then `-a` exactly when `all` is set
/// (whatever the other options), then `-m` and each message in order, then `--no-edit` when
/// `no_edit` is set, then `--amend` when `amend` is set, and nothing else.
pub proof fn law_commit_args_follow_the_options(o: CommitOptions)
    ensures
        ({
            let a = commit_args(o);
            let n = o.messages@.len();
            let k: int = if o.all {
                2
            } else {
                1
            };
            &&& a.len() == k + 2 * n + (if o.no_edit {
                1int
            } else {
                0
            }) + (if o.amend {
                1int
            } else {
                0
            })
            &&& a[0] == "commit"@
            &&& (a.len() > 1 && a[1] == "-a"@) <==> o.all
            &&& forall|i: int| 0 <= i < n ==> #[trigger] a[k + 2 * i + 1] == o.messages@[i]@
            &&& forall|i: int| 0 <= i < n ==> #[trigger] a[k + 2 * i] == "-m"@
            &&& o.no_edit ==> a[k + 2 * n] == "--no-edit"@
            &&& o.amend ==> a[a.len() - 1] == "--amend"@
            &&& !o.amend && !o.no_edit ==> a.len() == k + 2 * n
        }),
{
    reveal_strlit("-a");
    reveal_strlit("-m");
    reveal_strlit("--no-edit");
    reveal_strlit("--amend");
    reveal_strlit("commit");
    let ms = strs_v(o.messages@);
    lemma_message_args_len(ms);
    let a = commit_args(o);
    let k: int = if o.all {
        2
    } else {
        1
    };
    let head = seq!["commit"@] + (if o.all {
        seq!["-a"@]
    } else {
        seq![]
    });
    let mid = head + message_args(ms);
    let mid2 = mid + (if o.no_edit {
        seq!["--no-edit"@]
    } else {
        seq![]
    });
    assert(a == mid2 + (if o.amend {
        seq!["--amend"@]
    } else {
        seq![]
    }));
    assert forall|i: int| 0 <= i < o.messages@.len() implies #[trigger] a[k + 2 * i + 1] == o.messages@[i]@ by {
        lemma_message_arg_at(ms, i);
        assert(a[k + 2 * i + 1] == message_args(ms)[2 * i + 1]);
        assert(ms[i] == o.messages@[i]@);
    }
    assert forall|i: int| 0 <= i < o.messages@.len() implies #[trigger] a[k + 2 * i] == "-m"@ by {
        lemma_message_arg_at(ms, i);
        assert(a[k + 2 * i] == message_args(ms)[2 * i]);
        assert(a[k + 2 * i + 1] == message_args(ms)[2 * i + 1]);
        assert(ms[i] == o.messages@[i]@);
    }
    if !o.all && a.len() > 1 {
        if ms.len() > 0 {
            lemma_message_arg_at(ms, 0);
            assert(a[1] == message_args(ms)[0int]);
            assert(a[1] == "-m"@);
        } else if o.no_edit {
            assert(a[1] == "--no-edit"@);
        } else {
            assert(a[1] == "--amend"@);
        }
        assert("-m"@[1] != "-a"@[1]);
        assert("--no-edit"@.len() != "-a"@.len());
        assert("--amend"@.len() != "-a"@.len());
        assert(a[1] != "-a"@);
    }
}

pub fn build_git_commit_args(options: &CommitOptions) -> (r: Vec<String>)
    ensures
        strs_v(r@) == commit_args(*options),
        r@[0]@ == "commit"@,
        (r@.len() > 1 && r@[1]@ == "-a"@) <==> options.all,
        options.amend ==> r@[r@.len() - 1]@ == "--amend"@,
{
    let mut git_args: Vec<String> = Vec::new();
    let c = String::from_str("commit");
    git_args.push(c);
    proof {
        lemma_strs_push(Seq::empty(), c);
        assert(Seq::<String>::empty().push(c) =~= git_args@);
    }
    if options.all {
        let ghost g = git_args@;
        let a = String::from_str("-a");
        git_args.push(a);
        proof {
            lemma_strs_push(g, a);
        }
    }
    let ghost head = strs_v(git_args@);
    let ghost ms = strs_v(options.messages@);
    let mut i: usize = 0;
    while i < options.messages.len()
        invariant
            i <= options.messages@.len(),
            ms == strs_v(options.messages@),
            strs_v(git_args@) == head + message_args(ms.take(i as int)),
        decreases options.messages@.len() - i,
    {
        proof {
            let t = ms.take(i as int + 1);
            assert(t.drop_last() =~= ms.take(i as int));
            assert(t.last() == options.messages@[i as int]@);
        }
        let ghost g0 = git_args@;
        let m = String::from_str("-m");
        git_args.push(m);
        let ghost g1 = git_args@;
        let msg = options.messages[i].clone();
        git_args.push(msg);
        proof {
            lemma_strs_push(g0, m);
            lemma_strs_push(g1, msg);
            assert(message_args(ms.take(i as int + 1)) =~= message_args(ms.take(i as int)) + seq!["-m"@, ms[i as int]]);
        }
        i = i + 1;
        assert(strs_v(git_args@) =~= head + message_args(ms.take(i as int)));
    }
    assert(ms.take(ms.len() as int) =~= ms);
    let ghost mid = strs_v(git_args@);
    if options.no_edit {
        let ghost g = git_args@;
        let a = String::from_str("--no-edit");
        git_args.push(a);
        proof {
            lemma_strs_push(g, a);
        }
    }
    let ghost mid2 = strs_v(git_args@);
    if options.amend {
        let ghost g = git_args@;
        let a = String::from_str("--amend");
        git_args.push(a);
        proof {
            lemma_strs_push(g, a);
        }
    }
    assert(strs_v(git_args@) =~= commit_args(*options));
    proof {
        law_commit_args_follow_the_options(*options);
        assert(strs_v(git_args@)[0] == git_args@[0]@);
        if git_args@.len() > 1 {
            assert(strs_v(git_args@)[1] == git_args@[1]@);
        }
        assert(strs_v(git_args@)[git_args@.len() - 1] == git_args@[git_args@.len() - 1]@);
    }
    git_args
}

// ---------------------------------------------------------------------------
// Reading `git log --oneline` output.
/// The text split at each newline; the last piece is what follows the last newline.
pub open spec fn segments(s: Seq<char>) -> Seq<Seq<char>>
    decreases s.len(),
{
    if s.len() == 0 {
        seq![seq![]]
    } else {
        let prev = segments(s.drop_last());
        if s.last() == '\n' {
            prev.push(seq![])
        } else {
            prev.update(prev.len() - 1, prev.last().push(s.last()))
        }
    }
}

proof fn lemma_join_extend_last(p: Seq<Seq<char>>, sep: Seq<char>, c: char)
    requires
        p.len() > 0,
    ensures
        join(p.update(p.len() - 1, p.last().push(c)), sep) == join(p, sep).push(c),
{
    let q = p.update(p.len() - 1, p.last().push(c));
    if p.len() == 1 {
        assert(q[0] == p[0].push(c));
    } else {
        assert(q.drop_last() =~= p.drop_last());
        assert(join(q, sep) == join(q.drop_last(), sep) + sep + q.last());
        assert(join(q, sep) =~= join(p, sep).push(c));
    }
}

/// Splitting text at its newlines loses nothing: no piece holds a newline, and joining the pieces
/// with newlines gives the text back.
pub proof fn law_lines_rejoin_to_the_text(s: Seq<char>)
    ensures
        segments(s).len() >= 1,
        join(segments(s), seq!['\n']) == s,
        forall|i: int| 0 <= i < segments(s).len() ==> !(#[trigger] segments(s)[i]).contains('\n'),
    decreases s.len(),
{
    if s.len() == 0 {
        assert(join(segments(s), seq!['\n']) =~= s);
        assert(!segments(s)[0].contains('\n'));
    } else {
        let d = s.drop_last();
        law_lines_rejoin_to_the_text(d);
        let prev = segments(d);
        if s.last() == '\n' {
            assert(segments(s) == prev.push(seq![]));
            assert(prev.push(seq![]).drop_last() =~= prev);
            assert(join(segments(s), seq!['\n']) =~= s);
            assert forall|i: int| 0 <= i < segments(s).len() implies !(#[trigger] segments(s)[i]).contains('\n') by {
                if i < prev.len() {
                    assert(segments(s)[i] == prev[i]);
                } else {
                    assert(segments(s)[i] =~= Seq::<char>::empty());
                }
            }
        } else {
            lemma_join_extend_last(prev, seq!['\n'], s.last());
            assert(d.push(s.last()) =~= s);
            assert forall|i: int| 0 <= i < segments(s).len() implies !(#[trigger] segments(s)[i]).contains('\n') by {
                if i < prev.len() - 1 {
                    assert(segments(s)[i] == prev[i]);
                } else {
                    let l = prev.last().push(s.last());
                    assert(segments(s)[i] == l);
                    assert(!prev[prev.len() - 1].contains('\n'));
                    if l.contains('\n') {
                        let k = choose|k: int| 0 <= k < l.len() && l[k] == '\n';
                        if k < prev.last().len() {
                            assert(prev.last()[k] == '\n');
                        }
                    }
                }
            }
        }
    }
}

/// Position of the first space in `t`, or its length.
pub open spec fn first_space(t: Seq<char>) -> int
    decreases t.len(),
{
    if t.len() == 0 {
        0
    } else if t[0] == ' ' {
        0
    } else {
        1 + first_space(t.drop_first())
    }
}

/// The hash and title that a log line holds: the line trimmed, split at its first space.
pub open spec fn log_entry(line: Seq<char>) -> Option<(Seq<char>, Seq<char>)> {
    let t = trim(line);
    if t.len() == 0 {
        None
    } else {
        let k = first_space(t);
        Some(
            (
                t.take(k),
                if k < t.len() {
                    t.skip(k + 1)
                } else {
                    seq![]
                },
            ),
        )
    }
}

/// The entries of the non-blank lines, in order.
pub open spec fn log_entries(lines: Seq<Seq<char>>) -> Seq<(Seq<char>, Seq<char>)>
    decreases lines.len(),
{
    if lines.len() == 0 {
        seq![]
    } else {
        log_entries(lines.drop_last()) + match log_entry(lines.last()) {
            Some(e) => seq![e],
            None => seq![],
        }
    }
}

pub open spec fn entry_matches(c: CommitEntry, e: (Seq<char>, Seq<char>)) -> bool {
    &&& c.hash@ == e.0
    &&& c.title@ == e.1
    &&& c.refs@.len() == 0
    &&& !c.is_head
}

proof fn lemma_first_space(t: Seq<char>)
    ensures
        0 <= first_space(t) <= t.len(),
        forall|j: int| 0 <= j < first_space(t) ==> t[j] != ' ',
        first_space(t) < t.len() ==> t[first_space(t)] == ' ',
    decreases t.len(),
{
    if t.len() > 0 && t[0] != ' ' {
        let d = t.drop_first();
        lemma_first_space(d);
        assert forall|j: int| 0 <= j < first_space(t) implies t[j] != ' ' by {
            if j > 0 {
                assert(t[j] == d[j - 1]);
            }
        }
    }
}

/// The entry of one line, if it is not blank.
fn parse_line(line: &Vec<char>) -> (r: Option<CommitEntry>)
    ensures
        match log_entry(line@) {
            Some(e) => r is Some && entry_matches(r.unwrap(), e),
            None => r is None,
        },
{
    let (a, b) = trim_bounds(line);
    if a == b {
        return None;
    }
    let ghost t = trim(line@);
    let mut k = a;
    while k < b && line[k] != ' '
        invariant
            a <= k <= b <= line@.len(),
            t == line@.subrange(a as int, b as int),
            forall|j: int| a <= j < k ==> line@[j] != ' ',
        decreases b - k,
    {
        k = k + 1;
    }
    proof {
        lemma_first_space(t);
        let f = first_space(t);
        if f < k - a {
            assert(t[f] == line@[a + f]);
        }
        if k - a < f {
            assert(t[k - a] == line@[k as int]);
        }
        assert(f == k - a);
    }
    let hash = string_from_chars(line, a, k);
    let title = if k < b {
        string_from_chars(line, k + 1, b)
    } else {
        String::new()
    };
    proof {
        assert(hash@ =~= t.take(k - a));
        if k < b {
            assert(title@ =~= t.skip(k - a + 1));
        }
    }
    Some(CommitEntry { hash, refs: Vec::new(), is_head: false, title })
}

/// The commits that `git log --oneline` printed, one per non-blank line.
/// A log line gives an entry exactly when it is not blank, and the entry splits the trimmed line at
/// its first space: the hash is the non-empty part before it, with no space in it, and the title
/// is all that follows that space (empty when the line has no space).
pub proof fn law_log_line_splits_at_first_space(line: Seq<char>)
    ensures
        log_entry(line) is None <==> trim(line).len() == 0,
        log_entry(line) is Some ==> {
            let h = log_entry(line)->Some_0.0;
            let t = log_entry(line)->Some_0.1;
            &&& h.len() > 0
            &&& forall|j: int| 0 <= j < h.len() ==> #[trigger] h[j] != ' '
            &&& trim(line) == h + seq![' '] + t || (trim(line) == h && t.len() == 0)
        },
{
    let t = trim(line);
    crate::text::law_trim_cuts_whitespace_at_both_ends(line);
    lemma_first_space(t);
    if t.len() > 0 {
        let k = first_space(t);
        assert(t[0] != ' ');
        assert(k > 0);
        assert forall|j: int| 0 <= j < k implies #[trigger] t.take(k)[j] != ' ' by {
            assert(t.take(k)[j] == t[j]);
        }
        if k < t.len() {
            assert(t =~= t.take(k) + seq![' '] + t.skip(k + 1));
        } else {
            assert(t =~= t.take(k));
        }
    }
}

pub fn parse_git_log_output(stdout: &str) -> (r: Vec<CommitEntry>)
    ensures
        r@.len() == log_entries(segments(stdout@)).len(),
        forall|i: int| 0 <= i < r@.len() ==> #[trigger] entry_matches(r@[i], log_entries(segments(stdout@))[i]),
{
    let chars = chars_of(stdout);
    let mut out: Vec<CommitEntry> = Vec::new();
    let mut cur: Vec<char> = Vec::new();
    let mut i: usize = 0;
    assert(chars@.take(0) =~= Seq::<char>::empty());
    while i < chars.len()
        invariant
            chars@ == stdout@,
            i <= chars@.len(),
            segments(chars@.take(i as int)).len() >= 1,
            cur@ == segments(chars@.take(i as int)).last(),
            out@.len() == log_entries(segments(chars@.take(i as int)).drop_last()).len(),
            forall|j: int|
                0 <= j < out@.len() ==> #[trigger] entry_matches(
                    out@[j],
                    log_entries(segments(chars@.take(i as int)).drop_last())[j],
                ),
        decreases chars@.len() - i,
    {
        let ghost segs = segments(chars@.take(i as int));
        let ghost t = chars@.take(i as int + 1);
        assert(t.drop_last() =~= chars@.take(i as int));
        assert(t.last() == chars@[i as int]);
        let c = chars[i];
        if c == '\n' {
            let ghost old_out = out@;
            let e = parse_line(&cur);
            proof {
                let ns = segments(t);
                assert(ns == segs.push(seq![]));
                assert(ns.drop_last() =~= segs);
                assert(segs.drop_last() =~= segs.drop_last());
            }
            match e {
                Some(entry) => {
                    out.push(entry);
                },
                None => {},
            }
            proof {
                let ns = segments(t);
                let le = log_entries(ns.drop_last());
                assert(ns.drop_last() == segs);
                assert(le == log_entries(segs.drop_last()) + match log_entry(segs.last()) {
                    Some(x) => seq![x],
                    None => seq![],
                });
                assert forall|j: int| 0 <= j < out@.len() implies #[trigger] entry_matches(out@[j], le[j]) by {
                    if j < old_out.len() {
                        assert(out@[j] == old_out[j]);
                    }
                }
            }
            cur = Vec::new();
            proof {
                assert(cur@ =~= segments(t).last());
            }
        } else {
            cur.push(c);
            proof {
                let ns = segments(t);
                assert(ns == segs.update(segs.len() - 1, segs.last().push(c)));
                assert(ns.drop_last() =~= segs.drop_last());
                assert(cur@ =~= ns.last());
            }
        }
        i = i + 1;
    }
    assert(chars@.take(chars@.len() as int) =~= chars@);
    let ghost segs = segments(stdout@);
    let ghost old_out = out@;
    let e = parse_line(&cur);
    match e {
        Some(entry) => {
            out.push(entry);
        },
        None => {},
    }
    proof {
        assert(segs =~= segs.drop_last().push(segs.last()));
        let le = log_entries(segs);
        assert(segs.drop_last().push(segs.last()).drop_last() =~= segs.drop_last());
        assert(le == log_entries(segs.drop_last()) + match log_entry(segs.last()) {
            Some(x) => seq![x],
            None => seq![],
        });
        assert forall|j: int| 0 <= j < out@.len() implies #[trigger] entry_matches(out@[j], le[j]) by {
            if j < old_out.len() {
                assert(out@[j] == old_out[j]);
            }
        }
    }
    out
}

// ---------------------------------------------------------------------------
// Showing the outcome.
/// How one ref decoration is colored: tags one way, branches another.
pub open spec fn reference_v(r: Seq<char>) -> Seq<char> {
    if crate::text::has_prefix(r, "tag: "@) {
        paint(Accent::TagRef, r)
    } else {
        paint(Accent::BranchRef, r)
    }
}

pub fn format_reference(reference: &str) -> (r: String)
    ensures
        r@ == reference_v(reference@),
{
    if starts_with(reference, "tag: ") {
        Accent::TagRef.paint_ansi(reference)
    } else {
        Accent::BranchRef.paint_ansi(reference)
    }
}

pub open spec fn refs_v(refs: Seq<Seq<char>>) -> Seq<char> {
    if refs.len() == 0 {
        seq![]
    } else {
        " ("@ + join(Seq::new(refs.len(), |i: int| reference_v(refs[i])), ", "@) + ")"@
    }
}

pub fn format_commit_refs(commit: &CommitEntry) -> (r: String)
    ensures
        r@ == refs_v(strs_v(commit.refs@)),
{
    if commit.refs.len() == 0 {
        return String::new();
    }
    let mut parts: Vec<String> = Vec::new();
    let mut i: usize = 0;
    while i < commit.refs.len()
        invariant
            i <= commit.refs@.len(),
            parts@.len() == i,
            forall|j: int| 0 <= j < i ==> #[trigger] parts@[j]@ == reference_v(commit.refs@[j]@),
        decreases commit.refs@.len() - i,
    {
        parts.push(format_reference(commit.refs[i].as_str()));
        i = i + 1;
    }
    let mut r = String::from_str(" (");
    let joined = join_strings(&parts, ", ");
    r.append(joined.as_str());
    r.append(")");
    proof {
        let rv = strs_v(commit.refs@);
        assert(strs_v(parts@) =~= Seq::new(rv.len(), |i: int| reference_v(rv[i])));
    }
    r
}

pub open spec fn commit_line(c: CommitEntry) -> Seq<char> {
    (if c.is_head {
        paint(Accent::HeadMarker, "→"@)
    } else {
        "*"@
    }) + " "@ + paint(Accent::CommitHash, c.hash@) + refs_v(strs_v(c.refs@)) + ": "@ + c.title@
}

pub fn format_recent_commits(commits: &Vec<CommitEntry>) -> (r: String)
    ensures
        r@ == join(Seq::new(commits@.len(), |i: int| commit_line(commits@[i])), "\n"@),
{
    let mut lines: Vec<String> = Vec::new();
    let mut i: usize = 0;
    while i < commits.len()
        invariant
            i <= commits@.len(),
            lines@.len() == i,
            forall|j: int| 0 <= j < i ==> #[trigger] lines@[j]@ == commit_line(commits@[j]),
        decreases commits@.len() - i,
    {
        let commit = &commits[i];
        let mut line = if commit.is_head {
            Accent::HeadMarker.paint_ansi("→")
        } else {
            String::from_str("*")
        };
        line.append(" ");
        let hash = Accent::CommitHash.paint_ansi(commit.hash.as_str());
        line.append(hash.as_str());
        let refs = format_commit_refs(commit);
        line.append(refs.as_str());
        line.append(": ");
        line.append(commit.title.as_str());
        lines.push(line);
        i = i + 1;
    }
    assert(strs_v(lines@) =~= Seq::new(commits@.len(), |i: int| commit_line(commits@[i])));
    join_strings(&lines, "\n")
}

/// The sections printed after a successful commit: the summary line and the recent log.
pub open spec fn commit_sections(o: CommitOutcome) -> Seq<Seq<char>> {
    (match o.summary_line {
        Some(s) => seq![s@],
        None => seq![],
    }) + (if o.recent_commits@.len() > 0 {
        seq![join(Seq::new(o.recent_commits@.len(), |i: int| commit_line(o.recent_commits@[i])), "\n"@)]
    } else {
        seq![]
    })
}

pub fn format_commit_success_output(outcome: &CommitOutcome) -> (r: String)
    ensures
        r@ == join(commit_sections(*outcome), "\n\n"@),
{
    let mut sections: Vec<String> = Vec::new();
    match &outcome.summary_line {
        Some(s) => sections.push(s.clone()),
        None => {},
    }
    if outcome.recent_commits.len() > 0 {
        sections.push(format_recent_commits(&outcome.recent_commits));
    }
    assert(strs_v(sections@) =~= commit_sections(*outcome));
    join_strings(&sections, "\n\n")
}

} // verus!
