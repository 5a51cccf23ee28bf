//! The tracked-branch store: configuration, state, and the events it records.
use vstd::prelude::*;

use crate::error::{message3, DigError, ErrorKind};
use crate::text::str_eq;

verus! {

pub const DIG_STATE_VERSION: u32 = 1;

pub const DIG_CONFIG_VERSION: u32 = 1;

/// Identifier of a tracked branch node (the 128-bit value of its UUID).
pub type NodeId = u128;

/// Where a tracked branch hangs in the stack: directly on trunk, or on another tracked branch.
#[derive(Debug, Clone, Copy, PartialEq, Eq, Structural)]
pub enum ParentRef {
    Trunk,
    Branch { node_id: NodeId },
}

#[derive(Debug, Clone, PartialEq, Eq)]
pub struct DigConfig {
    pub version: u32,
    pub trunk_branch: String,
}

impl DigConfig {
    pub fn new(trunk_branch: String) -> (c: DigConfig)
        ensures
            c.version == DIG_CONFIG_VERSION,
            c.trunk_branch@ == trunk_branch@,
    {
        DigConfig { version: DIG_CONFIG_VERSION, trunk_branch }
    }
}

/// One tracked branch.
#[derive(Debug, Clone, PartialEq, Eq)]
pub struct BranchNode {
    pub id: NodeId,
    pub branch_name: String,
    pub parent: ParentRef,
    pub base_ref: String,
    pub fork_point_oid: String,
    pub head_oid_at_creation: String,
    pub created_at_unix_secs: u64,
    pub archived: bool,
}

impl BranchNode {
    /// A field-by-field copy.
    pub fn duplicate(&self) -> (r: BranchNode)
        ensures
            r == *self,
    {
        BranchNode {
            id: self.id,
            branch_name: self.branch_name.clone(),
            parent: self.parent,
            base_ref: self.base_ref.clone(),
            fork_point_oid: self.fork_point_oid.clone(),
            head_oid_at_creation: self.head_oid_at_creation.clone(),
            created_at_unix_secs: self.created_at_unix_secs,
            archived: self.archived,
        }
    }
}

/// The whole set of tracked branches, archived ones included.
#[derive(Debug, Clone, PartialEq, Eq)]
pub struct DigState {
    pub version: u32,
    pub nodes: Vec<BranchNode>,
}

/// Index of the first node that is not archived and satisfies `p`.
pub open spec fn first_active(nodes: Seq<BranchNode>, p: spec_fn(BranchNode) -> bool) -> Option<int>
    decreases nodes.len(),
{
    if nodes.len() == 0 {
        None
    } else {
        match first_active(nodes.drop_last(), p) {
            Some(i) => Some(i),
            None => if !nodes.last().archived && p(nodes.last()) {
                Some(nodes.len() - 1)
            } else {
                None
            },
        }
    }
}

pub open spec fn named(name: Seq<char>) -> spec_fn(BranchNode) -> bool {
    |n: BranchNode| n.branch_name@ == name
}

pub open spec fn with_id(id: NodeId) -> spec_fn(BranchNode) -> bool {
    |n: BranchNode| n.id == id
}

/// What `first_active` is, stated by its index.
pub proof fn lemma_first_active(nodes: Seq<BranchNode>, p: spec_fn(BranchNode) -> bool)
    ensures
        match first_active(nodes, p) {
            Some(i) => 0 <= i < nodes.len() && !nodes[i].archived && p(nodes[i]) && forall|j: int|
                0 <= j < i ==> !(!(#[trigger] nodes[j]).archived && p(nodes[j])),
            None => forall|j: int|
                0 <= j < nodes.len() ==> !(!(#[trigger] nodes[j]).archived && p(nodes[j])),
        },
    decreases nodes.len(),
{
    if nodes.len() > 0 {
        let d = nodes.drop_last();
        lemma_first_active(d, p);
        assert forall|j: int| 0 <= j < d.len() implies #[trigger] d[j] == nodes[j] by {}
        match first_active(d, p) {
            Some(i) => {
                assert(d[i] == nodes[i]);
                assert forall|j: int| 0 <= j < i implies !(!(#[trigger] nodes[j]).archived && p(
                    nodes[j],
                )) by {
                    assert(d[j] == nodes[j]);
                }
            },
            None => {
                assert forall|j: int| 0 <= j < d.len() implies !(!(#[trigger] nodes[j]).archived
                    && p(nodes[j])) by {
                    assert(d[j] == nodes[j]);
                }
            },
        }
    }
}

/// The node with a given name, if a non-archived one exists.
pub open spec fn spec_find_by_name(nodes: Seq<BranchNode>, name: Seq<char>) -> Option<BranchNode> {
    match first_active(nodes, named(name)) {
        Some(i) => Some(nodes[i]),
        None => None,
    }
}

/// The message of the error that refuses to track a name twice.
pub open spec fn already_tracked_message(name: Seq<char>) -> Seq<char> {
    "branch '"@ + name + "' is already tracked by dig"@
}

pub open spec fn node_not_found_message() -> Seq<char> {
    "tracked branch was not found"@
}

/// `n` with a new parent and base ref, everything else kept.
pub open spec fn with_parent(n: BranchNode, parent: ParentRef, base_ref: String) -> BranchNode {
    BranchNode { parent: parent, base_ref: base_ref, ..n }
}

/// `first_active` only looks at the archived flag and the predicate.
proof fn lemma_first_active_update(nodes: Seq<BranchNode>, p: spec_fn(BranchNode) -> bool, i: int, x: BranchNode)
    requires
        0 <= i < nodes.len(),
        x.archived == nodes[i].archived,
        p(x) == p(nodes[i]),
    ensures
        first_active(nodes.update(i, x), p) == first_active(nodes, p),
{
    let u = nodes.update(i, x);
    lemma_first_active(nodes, p);
    lemma_first_active(u, p);
    assert forall|j: int| 0 <= j < nodes.len() implies (!(#[trigger] u[j]).archived && p(u[j])) == (
    !nodes[j].archived && p(nodes[j])) by {
        if j != i {
            assert(u[j] == nodes[j]);
        }
    }
    match first_active(nodes, p) {
        Some(k) => {
            assert(!u[k].archived && p(u[k]));
            match first_active(u, p) {
                Some(m) => {
                    if m < k {
                        assert(!nodes[m].archived && p(nodes[m]));
                    }
                    if k < m {
                        assert(!u[k].archived && p(u[k]));
                    }
                },
                None => {},
            }
        },
        None => {
            match first_active(u, p) {
                Some(m) => {
                    assert(!nodes[m].archived && p(nodes[m]));
                },
                None => {},
            }
        },
    }
}

/// Once a node is tracked under a name that no other tracked node had, looking that name up finds it.
pub proof fn law_insert_then_find(nodes: Seq<BranchNode>, node: BranchNode)
    requires
        first_active(nodes, named(node.branch_name@)) is None,
        !node.archived,
    ensures
        first_active(nodes.push(node), named(node.branch_name@)) == Some(nodes.len() as int),
        spec_find_by_name(nodes.push(node), node.branch_name@) == Some(node),
{
    let s = nodes.push(node);
    assert(s.drop_last() =~= nodes);
}

/// Moving a node under a new parent and then back under the parent and base ref that the move
/// gave back restores the state exactly.
pub proof fn law_reparent_then_restore(nodes: Seq<BranchNode>, id: NodeId, parent: ParentRef, base_ref: String)
    requires
        first_active(nodes, with_id(id)) is Some,
    ensures
        ({
            let i = first_active(nodes, with_id(id)).unwrap();
            let moved = nodes.update(i, with_parent(nodes[i], parent, base_ref));
            &&& first_active(moved, with_id(id)) == Some(i)
            &&& moved.update(i, with_parent(moved[i], nodes[i].parent, nodes[i].base_ref)) == nodes
        }),
{
    let i = first_active(nodes, with_id(id)).unwrap();
    lemma_first_active(nodes, with_id(id));
    let x = with_parent(nodes[i], parent, base_ref);
    lemma_first_active_update(nodes, with_id(id), i, x);
    let moved = nodes.update(i, x);
    assert(moved.update(i, with_parent(moved[i], nodes[i].parent, nodes[i].base_ref)) =~= nodes);
}

/// Archiving a node whose id no other tracked node shares stops it from being found by id.
pub proof fn law_archive_then_not_found(nodes: Seq<BranchNode>, id: NodeId)
    requires
        first_active(nodes, with_id(id)) is Some,
        forall|j: int, k: int|
            0 <= j < nodes.len() && 0 <= k < nodes.len() && !(#[trigger] nodes[j]).archived
                && !(#[trigger] nodes[k]).archived && nodes[j].id == id && nodes[k].id == id ==> j == k,
    ensures
        ({
            let i = first_active(nodes, with_id(id)).unwrap();
            let archived = nodes.update(i, BranchNode { archived: true, ..nodes[i] });
            first_active(archived, with_id(id)) is None
        }),
{
    let i = first_active(nodes, with_id(id)).unwrap();
    lemma_first_active(nodes, with_id(id));
    let archived = nodes.update(i, BranchNode { archived: true, ..nodes[i] });
    lemma_first_active(archived, with_id(id));
    match first_active(archived, with_id(id)) {
        Some(m) => {
            assert(archived[m] == nodes[m]);
            assert(!nodes[m].archived && !nodes[i].archived);
        },
        None => {},
    }
}

/// No two tracked (non-archived) nodes share a branch name.
pub open spec fn names_unique(nodes: Seq<BranchNode>) -> bool {
    forall|j: int, k: int|
        0 <= j < nodes.len() && 0 <= k < nodes.len() && !(#[trigger] nodes[j]).archived
            && !(#[trigger] nodes[k]).archived && nodes[j].branch_name@ == nodes[k].branch_name@ ==> j == k
}

/// The store never tracks one name twice: it starts empty, and each change that `insert_branch`,
/// `archive_branch` and `reparent_branch` make keeps the tracked names unique.
pub proof fn law_store_keeps_names_unique(
    nodes: Seq<BranchNode>,
    node: BranchNode,
    id: NodeId,
    parent: ParentRef,
    base_ref: String,
)
    requires
        names_unique(nodes),
    ensures
        names_unique(Seq::<BranchNode>::empty()),
        first_active(nodes, named(node.branch_name@)) is None ==> names_unique(nodes.push(node)),
        first_active(nodes, with_id(id)) matches Some(i) ==> names_unique(
            nodes.update(i, BranchNode { archived: true, ..nodes[i] }),
        ),
        first_active(nodes, with_id(id)) matches Some(i) ==> names_unique(
            nodes.update(i, with_parent(nodes[i], parent, base_ref)),
        ),
{
    lemma_first_active(nodes, named(node.branch_name@));
    lemma_first_active(nodes, with_id(id));
    if first_active(nodes, named(node.branch_name@)) is None {
        let s = nodes.push(node);
        assert forall|j: int, k: int|
            0 <= j < s.len() && 0 <= k < s.len() && !(#[trigger] s[j]).archived && !(#[trigger] s[k]).archived
                && s[j].branch_name@ == s[k].branch_name@ implies j == k by {
            if j < nodes.len() && k < nodes.len() {
                assert(s[j] == nodes[j] && s[k] == nodes[k]);
            } else if j < nodes.len() {
                assert(s[j] == nodes[j]);
                assert(!(!nodes[j].archived && named(node.branch_name@)(nodes[j])));
            } else if k < nodes.len() {
                assert(s[k] == nodes[k]);
                assert(!(!nodes[k].archived && named(node.branch_name@)(nodes[k])));
            }
        }
    }
    if first_active(nodes, with_id(id)) is Some {
        let i = first_active(nodes, with_id(id)).unwrap();
        let a = nodes.update(i, BranchNode { archived: true, ..nodes[i] });
        assert forall|j: int, k: int|
            0 <= j < a.len() && 0 <= k < a.len() && !(#[trigger] a[j]).archived && !(#[trigger] a[k]).archived
                && a[j].branch_name@ == a[k].branch_name@ implies j == k by {
            assert(a[j] == nodes[j] && a[k] == nodes[k]);
        }
        let m = nodes.update(i, with_parent(nodes[i], parent, base_ref));
        assert forall|j: int, k: int|
            0 <= j < m.len() && 0 <= k < m.len() && !(#[trigger] m[j]).archived && !(#[trigger] m[k]).archived
                && m[j].branch_name@ == m[k].branch_name@ implies j == k by {
            assert(m[j].archived == nodes[j].archived && m[j].branch_name == nodes[j].branch_name);
            assert(m[k].archived == nodes[k].archived && m[k].branch_name == nodes[k].branch_name);
            assert(!nodes[j].archived && !nodes[k].archived);
        }
    }
}

impl Default for DigState {
    fn default() -> (s: DigState)
        ensures
            s.version == DIG_STATE_VERSION,
            s.nodes@.len() == 0,
    {
        DigState { version: DIG_STATE_VERSION, nodes: Vec::new() }
    }
}

impl DigState {
    /// Index of the first non-archived node named `branch_name`.
    pub fn index_of_name(&self, branch_name: &str) -> (r: Option<usize>)
        ensures
            match r {
                Some(i) => first_active(self.nodes@, named(branch_name@)) == Some(i as int),
                None => first_active(self.nodes@, named(branch_name@)) is None,
            },
    {
        proof {
            lemma_first_active(self.nodes@, named(branch_name@));
        }
        let mut i: usize = 0;
        while i < self.nodes.len()
            invariant
                i <= self.nodes@.len(),
                forall|j: int|
                    0 <= j < i ==> !(!(#[trigger] self.nodes@[j]).archived && self.nodes@[j].branch_name@
                        == branch_name@),
            decreases self.nodes@.len() - i,
        {
            if !self.nodes[i].archived && str_eq(self.nodes[i].branch_name.as_str(), branch_name) {
                proof {
                    lemma_first_active(self.nodes@, named(branch_name@));
                    let k = first_active(self.nodes@, named(branch_name@)).unwrap();
                    assert(named(branch_name@)(self.nodes@[i as int]));
                    if k < i {
                        assert(named(branch_name@)(self.nodes@[k]));
                    }
                }
                return Some(i);
            }
            i = i + 1;
        }
        None
    }

    /// Index of the first non-archived node with id `node_id`.
    pub fn index_of_id(&self, node_id: NodeId) -> (r: Option<usize>)
        ensures
            match r {
                Some(i) => first_active(self.nodes@, with_id(node_id)) == Some(i as int),
                None => first_active(self.nodes@, with_id(node_id)) is None,
            },
    {
        proof {
            lemma_first_active(self.nodes@, with_id(node_id));
        }
        let mut i: usize = 0;
        while i < self.nodes.len()
            invariant
                i <= self.nodes@.len(),
                forall|j: int|
                    0 <= j < i ==> !(!(#[trigger] self.nodes@[j]).archived && self.nodes@[j].id
                        == node_id),
            decreases self.nodes@.len() - i,
        {
            if !self.nodes[i].archived && self.nodes[i].id == node_id {
                proof {
                    lemma_first_active(self.nodes@, with_id(node_id));
                    let k = first_active(self.nodes@, with_id(node_id)).unwrap();
                    assert(with_id(node_id)(self.nodes@[i as int]));
                    if k < i {
                        assert(with_id(node_id)(self.nodes@[k]));
                    }
                }
                return Some(i);
            }
            i = i + 1;
        }
        None
    }

    pub fn find_branch_by_name(&self, branch_name: &str) -> (r: Option<&BranchNode>)
        ensures
            r == match first_active(self.nodes@, named(branch_name@)) {
                Some(i) => Some(&self.nodes@[i]),
                None => None,
            },
    {
        proof {
            lemma_first_active(self.nodes@, named(branch_name@));
        }
        match self.index_of_name(branch_name) {
            Some(i) => Some(&self.nodes[i]),
            None => None,
        }
    }

    pub fn find_branch_by_id(&self, node_id: NodeId) -> (r: Option<&BranchNode>)
        ensures
            r == match first_active(self.nodes@, with_id(node_id)) {
                Some(i) => Some(&self.nodes@[i]),
                None => None,
            },
    {
        proof {
            lemma_first_active(self.nodes@, with_id(node_id));
        }
        match self.index_of_id(node_id) {
            Some(i) => Some(&self.nodes[i]),
            None => None,
        }
    }

    /// Starts tracking `node`, unless a non-archived node already has its name.
    pub fn insert_branch(&mut self, node: BranchNode) -> (r: Result<(), DigError>)
        ensures
            first_active(old(self).nodes@, named(node.branch_name@)) is Some <==> r is Err,
            match r {
                Ok(()) => final(self).nodes@ == old(self).nodes@.push(node) && final(self).version
                    == old(self).version,
                Err(e) => *final(self) == *old(self) && e.kind == ErrorKind::AlreadyExists
                    && e.message@ == already_tracked_message(node.branch_name@),
            },
    {
        if self.index_of_name(node.branch_name.as_str()).is_some() {
            return Err(
                DigError::new(
                    ErrorKind::AlreadyExists,
                    message3("branch '", node.branch_name.as_str(), "' is already tracked by dig"),
                ),
            );
        }
        self.nodes.push(node);
        Ok(())
    }

    /// Marks the tracked node with id `node_id` as archived.
    pub fn archive_branch(&mut self, node_id: NodeId) -> (r: Result<(), DigError>)
        ensures
            first_active(old(self).nodes@, with_id(node_id)) is None <==> r is Err,
            match first_active(old(self).nodes@, with_id(node_id)) {
                Some(i) => final(self).version == old(self).version && final(self).nodes@
                    == old(self).nodes@.update(i, BranchNode { archived: true, ..old(self).nodes@[i] }),
                None => *final(self) == *old(self),
            },
            match r {
                Ok(()) => true,
                Err(e) => e.kind == ErrorKind::NotFound && e.message@ == node_not_found_message(),
            },
    {
        proof {
            lemma_first_active(self.nodes@, with_id(node_id));
        }
        match self.index_of_id(node_id) {
            None => Err(DigError::new(ErrorKind::NotFound, String::from_str("tracked branch was not found"))),
            Some(i) => {
                let mut node = self.nodes[i].duplicate();
                node.archived = true;
                self.nodes.set(i, node);
                Ok(())
            },
        }
    }

    /// Moves the tracked node with id `node_id` under a new parent; gives back the old parent and base ref.
    pub fn reparent_branch(&mut self, node_id: NodeId, new_parent: ParentRef, new_base_ref: String) -> (r:
        Result<(ParentRef, String), DigError>)
        ensures
            first_active(old(self).nodes@, with_id(node_id)) is None <==> r is Err,
            match first_active(old(self).nodes@, with_id(node_id)) {
                Some(i) => final(self).version == old(self).version && final(self).nodes@
                    == old(self).nodes@.update(i, with_parent(old(self).nodes@[i], new_parent, new_base_ref))
                    && r == Ok::<(ParentRef, String), DigError>(
                    (old(self).nodes@[i].parent, old(self).nodes@[i].base_ref),
                ),
                None => *final(self) == *old(self),
            },
            match r {
                Ok(_) => true,
                Err(e) => e.kind == ErrorKind::NotFound && e.message@ == node_not_found_message(),
            },
    {
        proof {
            lemma_first_active(self.nodes@, with_id(node_id));
        }
        match self.index_of_id(node_id) {
            None => Err(DigError::new(ErrorKind::NotFound, String::from_str("tracked branch was not found"))),
            Some(i) => {
                let mut node = self.nodes[i].duplicate();
                let old_parent = node.parent;
                let old_base_ref = node.base_ref.clone();
                node.parent = new_parent;
                node.base_ref = new_base_ref;
                self.nodes.set(i, node);
                Ok((old_parent, old_base_ref))
            },
        }
    }
}

// ---------------------------------------------------------------------------
// The events appended to the store's log.
/// Why a branch stopped being tracked.
#[derive(Debug, Clone, PartialEq, Eq)]
pub enum BranchArchiveReason {
    IntegratedIntoParent { parent_branch: String },
    DeletedByUser,
}

#[derive(Debug, Clone, PartialEq, Eq)]
pub struct BranchCreatedEvent {
    pub occurred_at_unix_secs: u64,
    pub node: BranchNode,
}

#[derive(Debug, Clone, PartialEq, Eq)]
pub struct BranchAdoptedEvent {
    pub occurred_at_unix_secs: u64,
    pub node: BranchNode,
}

#[derive(Debug, Clone, PartialEq, Eq)]
pub struct BranchArchivedEvent {
    pub occurred_at_unix_secs: u64,
    pub branch_id: NodeId,
    pub branch_name: String,
    pub reason: BranchArchiveReason,
}

#[derive(Debug, Clone, PartialEq, Eq)]
pub struct BranchReparentedEvent {
    pub occurred_at_unix_secs: u64,
    pub branch_id: NodeId,
    pub branch_name: String,
    pub old_parent: ParentRef,
    pub new_parent: ParentRef,
    pub old_base_ref: String,
    pub new_base_ref: String,
}

#[derive(Debug, Clone, PartialEq, Eq)]
pub enum DigEvent {
    BranchCreated(BranchCreatedEvent),
    BranchAdopted(BranchAdoptedEvent),
    BranchArchived(BranchArchivedEvent),
    BranchReparented(BranchReparentedEvent),
}

impl DigState {
    /// Starts tracking `node`, as `insert_branch` does, and gives back the event that records it:
    /// an adoption when `adopted`, else a creation.
    pub fn record_tracked(&mut self, node: BranchNode, occurred_at: u64, adopted: bool) -> (r: Result<
        DigEvent,
        DigError,
    >)
        ensures
            first_active(old(self).nodes@, named(node.branch_name@)) is Some <==> r is Err,
            match r {
                Ok(e) => final(self).nodes@ == old(self).nodes@.push(node) && final(self).version == old(
                    self,
                ).version && e == if adopted {
                    DigEvent::BranchAdopted(BranchAdoptedEvent { occurred_at_unix_secs: occurred_at, node })
                } else {
                    DigEvent::BranchCreated(BranchCreatedEvent { occurred_at_unix_secs: occurred_at, node })
                },
                Err(e) => *final(self) == *old(self) && e.kind == ErrorKind::AlreadyExists && e.message@
                    == already_tracked_message(node.branch_name@),
            },
    {
        let copy = node.duplicate();
        match self.insert_branch(node) {
            Err(e) => Err(e),
            Ok(()) => if adopted {
                Ok(DigEvent::BranchAdopted(BranchAdoptedEvent { occurred_at_unix_secs: occurred_at, node: copy }))
            } else {
                Ok(DigEvent::BranchCreated(BranchCreatedEvent { occurred_at_unix_secs: occurred_at, node: copy }))
            },
        }
    }
}

impl DigState {
    /// Archives the tracked node `node_id` and gives back the event that records it, with `reason`.
    pub fn record_archived(
        &mut self,
        node_id: NodeId,
        branch_name: String,
        reason: BranchArchiveReason,
        occurred_at: u64,
    ) -> (r: Result<DigEvent, DigError>)
        ensures
            first_active(old(self).nodes@, with_id(node_id)) is None <==> r is Err,
            match first_active(old(self).nodes@, with_id(node_id)) {
                Some(i) => final(self).version == old(self).version && final(self).nodes@
                    == old(self).nodes@.update(i, BranchNode { archived: true, ..old(self).nodes@[i] })
                    && r == Ok::<DigEvent, DigError>(
                    DigEvent::BranchArchived(
                        BranchArchivedEvent {
                            occurred_at_unix_secs: occurred_at,
                            branch_id: node_id,
                            branch_name,
                            reason,
                        },
                    ),
                ),
                None => *final(self) == *old(self) && r->Err_0.kind == ErrorKind::NotFound
                    && r->Err_0.message@ == node_not_found_message(),
            },
    {
        match self.archive_branch(node_id) {
            Err(e) => Err(e),
            Ok(()) => Ok(
                DigEvent::BranchArchived(
                    BranchArchivedEvent { occurred_at_unix_secs: occurred_at, branch_id: node_id, branch_name, reason },
                ),
            ),
        }
    }
}

/// A fresh node id: `uuid::Uuid::new_v4()` read as a `u128` by `Uuid::as_u128` (big-endian).
/// The value is random; what is claimed, and not proved, is only what the uuid crate's source
/// fixes in every such value: the version nibble is 4 and the variant bits are `10`.
/// The crate panics when the operating system gives it no random bytes; that depends on the
/// machine, and no clause here speaks of it.
#[verifier::external_body]
pub(crate) fn new_node_id() -> (id: NodeId)
    ensures
        (id >> 76u128) & 0xfu128 == 4u128,
        (id >> 62u128) & 0x3u128 == 2u128,
{
    uuid::Uuid::new_v4().as_u128()
}

/// The node that starts tracking a branch, created or adopted at `created_at`.
pub fn tracked_node(
    id: NodeId,
    branch_name: String,
    parent: ParentRef,
    base_ref: String,
    fork_point_oid: String,
    head_oid: String,
    created_at: u64,
) -> (n: BranchNode)
    ensures
        n == (BranchNode {
            id,
            branch_name,
            parent,
            base_ref,
            fork_point_oid,
            head_oid_at_creation: head_oid,
            created_at_unix_secs: created_at,
            archived: false,
        }),
{
    BranchNode {
        id,
        branch_name,
        parent,
        base_ref,
        fork_point_oid,
        head_oid_at_creation: head_oid,
        created_at_unix_secs: created_at,
        archived: false,
    }
}

/// A node with a fresh random id, not archived.
pub fn new_tracked_node(
    branch_name: String,
    parent: ParentRef,
    base_ref: String,
    fork_point_oid: String,
    head_oid: String,
    created_at: u64,
) -> (n: BranchNode)
    ensures
        n.branch_name == branch_name,
        n.parent == parent,
        n.base_ref == base_ref,
        n.fork_point_oid == fork_point_oid,
        n.head_oid_at_creation == head_oid,
        n.created_at_unix_secs == created_at,
        !n.archived,
        (n.id >> 76u128) & 0xfu128 == 4u128,
        (n.id >> 62u128) & 0x3u128 == 2u128,
{
    let id = new_node_id();
    tracked_node(id, branch_name, parent, base_ref, fork_point_oid, head_oid, created_at)
}

/// The name of the branch a node hangs on: trunk, or its tracked parent's name if that is tracked.
pub open spec fn spec_parent_branch_name(nodes: Seq<BranchNode>, node: BranchNode, trunk: Seq<char>) -> Option<Seq<char>> {
    match node.parent {
        ParentRef::Trunk => Some(trunk),
        ParentRef::Branch { node_id } => match first_active(nodes, with_id(node_id)) {
            Some(i) => Some(nodes[i].branch_name@),
            None => None,
        },
    }
}

impl DigState {
    pub fn parent_branch_name(&self, node: &BranchNode, trunk_branch: &str) -> (r: Option<String>)
        ensures
            match spec_parent_branch_name(self.nodes@, *node, trunk_branch@) {
                Some(n) => r is Some && r->Some_0@ == n,
                None => r is None,
            },
    {
        match node.parent {
            ParentRef::Trunk => Some(crate::text::to_owned_string(trunk_branch)),
            ParentRef::Branch { node_id } => match self.find_branch_by_id(node_id) {
                Some(p) => Some(p.branch_name.clone()),
                None => None,
            },
        }
    }
}

} // verus!
