//! Workspace-owned catalog for opaque ordered provider spaces.
//!
//! A provider sees only stable numeric identifiers. Workspace semantics,
//! durable family tags, and built-in Holt tree names stay here.

use vstd::prelude::*;

verus! {

/// Stable numeric identifier of one ordered keyspace.
pub type OrderedSpaceId = u16;

/// Space of system records.
pub const SYSTEM_SPACE: OrderedSpaceId = 0x0101;

/// Space of root fence records.
pub const ROOT_FENCE_SPACE: OrderedSpaceId = 0x0102;

/// Space of command dedupe records.
pub const COMMAND_DEDUPE_SPACE: OrderedSpaceId = 0x0103;

/// Space of change event records.
pub const CHANGE_EVENT_SPACE: OrderedSpaceId = 0x0104;

/// Space of history records.
pub const HISTORY_SPACE: OrderedSpaceId = 0x0105;

/// Space of recovery outbox records.
pub const RECOVERY_OUTBOX_SPACE: OrderedSpaceId = 0x0106;

/// Tag space that every domain family lies in.
pub const DOMAIN_SPACE_BASE: u16 = 0x0200;

/// A family of domain records.
#[derive(Clone, Copy, Debug, PartialEq, Eq, Hash, Structural)]
pub enum MetadataFamily {
    WorkspaceCurrent,
    PathCurrent,
    ArtifactRevision,
    ArtifactManifest,
    RevisionRef,
    StagedObject,
    Operation,
    Commit,
    CommitMember,
    CommitConsumer,
    Tag,
    SnapshotRef,
    SnapshotAlias,
    WorkbenchCommitHead,
    RestoreMember,
    SecondaryIndex,
    HistoryHold,
    GcBarrier,
    GcCandidate,
    WorkspaceIncarnation,
}

impl MetadataFamily {
    /// Durable tag of this family. Tags `0x10` and `0x14` are never used.
    pub open spec fn tag(self) -> u8 {
        match self {
            Self::WorkspaceCurrent => 0x02,
            Self::PathCurrent => 0x03,
            Self::ArtifactRevision => 0x04,
            Self::ArtifactManifest => 0x05,
            Self::RevisionRef => 0x06,
            Self::StagedObject => 0x07,
            Self::Operation => 0x08,
            Self::Commit => 0x09,
            Self::CommitMember => 0x0a,
            Self::CommitConsumer => 0x0b,
            Self::Tag => 0x0c,
            Self::SnapshotRef => 0x0d,
            Self::SnapshotAlias => 0x0e,
            Self::WorkbenchCommitHead => 0x0f,
            Self::RestoreMember => 0x11,
            Self::SecondaryIndex => 0x12,
            Self::HistoryHold => 0x13,
            Self::GcBarrier => 0x15,
            Self::GcCandidate => 0x16,
            Self::WorkspaceIncarnation => 0x17,
        }
    }

    /// The family with this durable tag.
    pub open spec fn of_tag(tag: int) -> Option<Self> {
        if tag == 0x02 {
            Some(Self::WorkspaceCurrent)
        } else if tag == 0x03 {
            Some(Self::PathCurrent)
        } else if tag == 0x04 {
            Some(Self::ArtifactRevision)
        } else if tag == 0x05 {
            Some(Self::ArtifactManifest)
        } else if tag == 0x06 {
            Some(Self::RevisionRef)
        } else if tag == 0x07 {
            Some(Self::StagedObject)
        } else if tag == 0x08 {
            Some(Self::Operation)
        } else if tag == 0x09 {
            Some(Self::Commit)
        } else if tag == 0x0a {
            Some(Self::CommitMember)
        } else if tag == 0x0b {
            Some(Self::CommitConsumer)
        } else if tag == 0x0c {
            Some(Self::Tag)
        } else if tag == 0x0d {
            Some(Self::SnapshotRef)
        } else if tag == 0x0e {
            Some(Self::SnapshotAlias)
        } else if tag == 0x0f {
            Some(Self::WorkbenchCommitHead)
        } else if tag == 0x11 {
            Some(Self::RestoreMember)
        } else if tag == 0x12 {
            Some(Self::SecondaryIndex)
        } else if tag == 0x13 {
            Some(Self::HistoryHold)
        } else if tag == 0x15 {
            Some(Self::GcBarrier)
        } else if tag == 0x16 {
            Some(Self::GcCandidate)
        } else if tag == 0x17 {
            Some(Self::WorkspaceIncarnation)
        } else {
            None
        }
    }

    /// Families in the order of their tags.
    pub open spec fn families() -> Seq<Self> {
        seq![
            Self::WorkspaceCurrent,
            Self::PathCurrent,
            Self::ArtifactRevision,
            Self::ArtifactManifest,
            Self::RevisionRef,
            Self::StagedObject,
            Self::Operation,
            Self::Commit,
            Self::CommitMember,
            Self::CommitConsumer,
            Self::Tag,
            Self::SnapshotRef,
            Self::SnapshotAlias,
            Self::WorkbenchCommitHead,
            Self::RestoreMember,
            Self::SecondaryIndex,
            Self::HistoryHold,
            Self::GcBarrier,
            Self::GcCandidate,
            Self::WorkspaceIncarnation,
        ]
    }

    /// Name of the tree that holds this family.
    pub open spec fn tree(self) -> &'static str {
        match self {
            Self::WorkspaceCurrent => "workspace_current",
            Self::PathCurrent => "path_current",
            Self::ArtifactRevision => "artifact_revision",
            Self::ArtifactManifest => "artifact_manifest",
            Self::RevisionRef => "revision_ref",
            Self::StagedObject => "staged_object",
            Self::Operation => "operation",
            Self::Commit => "commit",
            Self::CommitMember => "commit_member",
            Self::CommitConsumer => "commit_consumer",
            Self::Tag => "tag",
            Self::SnapshotRef => "snapshot_ref",
            Self::SnapshotAlias => "snapshot_alias",
            Self::WorkbenchCommitHead => "workbench_commit_head",
            Self::RestoreMember => "restore_member",
            Self::SecondaryIndex => "secondary_index",
            Self::HistoryHold => "history_hold",
            Self::GcBarrier => "gc_barrier",
            Self::GcCandidate => "gc_candidate",
            Self::WorkspaceIncarnation => "workspace_incarnation",
        }
    }

    /// Durable tag of this family.
    pub fn history_tag(self) -> (tag: u8)
        ensures
            tag == self.tag(),
            Self::of_tag(tag as int) == Some(self),
    {
        match self {
            Self::WorkspaceCurrent => 0x02,
            Self::PathCurrent => 0x03,
            Self::ArtifactRevision => 0x04,
            Self::ArtifactManifest => 0x05,
            Self::RevisionRef => 0x06,
            Self::StagedObject => 0x07,
            Self::Operation => 0x08,
            Self::Commit => 0x09,
            Self::CommitMember => 0x0a,
            Self::CommitConsumer => 0x0b,
            Self::Tag => 0x0c,
            Self::SnapshotRef => 0x0d,
            Self::SnapshotAlias => 0x0e,
            Self::WorkbenchCommitHead => 0x0f,
            Self::RestoreMember => 0x11,
            Self::SecondaryIndex => 0x12,
            Self::HistoryHold => 0x13,
            Self::GcBarrier => 0x15,
            Self::GcCandidate => 0x16,
            Self::WorkspaceIncarnation => 0x17,
        }
    }

    /// Name of the tree that holds this family.
    pub fn tree_name(self) -> (name: &'static str)
        ensures
            name == self.tree(),
    {
        match self {
            Self::WorkspaceCurrent => "workspace_current",
            Self::PathCurrent => "path_current",
            Self::ArtifactRevision => "artifact_revision",
            Self::ArtifactManifest => "artifact_manifest",
            Self::RevisionRef => "revision_ref",
            Self::StagedObject => "staged_object",
            Self::Operation => "operation",
            Self::Commit => "commit",
            Self::CommitMember => "commit_member",
            Self::CommitConsumer => "commit_consumer",
            Self::Tag => "tag",
            Self::SnapshotRef => "snapshot_ref",
            Self::SnapshotAlias => "snapshot_alias",
            Self::WorkbenchCommitHead => "workbench_commit_head",
            Self::RestoreMember => "restore_member",
            Self::SecondaryIndex => "secondary_index",
            Self::HistoryHold => "history_hold",
            Self::GcBarrier => "gc_barrier",
            Self::GcCandidate => "gc_candidate",
            Self::WorkspaceIncarnation => "workspace_incarnation",
        }
    }

    /// Every family, in the order of the tags.
    pub fn all() -> (families: Vec<Self>)
        ensures
            families@ == Self::families(),
    {
        let families = vec![
            Self::WorkspaceCurrent,
            Self::PathCurrent,
            Self::ArtifactRevision,
            Self::ArtifactManifest,
            Self::RevisionRef,
            Self::StagedObject,
            Self::Operation,
            Self::Commit,
            Self::CommitMember,
            Self::CommitConsumer,
            Self::Tag,
            Self::SnapshotRef,
            Self::SnapshotAlias,
            Self::WorkbenchCommitHead,
            Self::RestoreMember,
            Self::SecondaryIndex,
            Self::HistoryHold,
            Self::GcBarrier,
            Self::GcCandidate,
            Self::WorkspaceIncarnation,
        ];
        assert(families@ =~= Self::families());
        families
    }
}

/// Identifier of the space of one family.
pub open spec fn domain_id(family: MetadataFamily) -> u16 {
    (DOMAIN_SPACE_BASE + family.tag()) as u16
}

/// Space of one family.
pub fn domain_space(family: MetadataFamily) -> (space: OrderedSpaceId)
    ensures
        space == domain_id(family),
{
    DOMAIN_SPACE_BASE + family.history_tag() as u16
}

/// The family whose records this space holds.
pub open spec fn family_of(space: OrderedSpaceId) -> Option<MetadataFamily> {
    MetadataFamily::of_tag(space - DOMAIN_SPACE_BASE)
}

/// The family whose records this space holds.
pub fn domain_family(space: OrderedSpaceId) -> (family: Option<MetadataFamily>)
    ensures
        family == family_of(space),
        family matches Some(f) ==> space == domain_id(f),
{
    let families = MetadataFamily::all();
    let mut i: usize = 0;
    while i < families.len()
        invariant
            families@ == MetadataFamily::families(),
            i <= families@.len(),
            forall|j: int|
                0 <= j < i ==> space != #[trigger] domain_id(MetadataFamily::families()[j]),
        decreases families@.len() - i,
    {
        let family = families[i];
        if domain_space(family) == space {
            return Some(family);
        }
        i = i + 1;
    }
    proof {
        every_family_is_listed(family_of(space));
    }
    None
}

/// A family is in the list of families.
proof fn every_family_is_listed(family: Option<MetadataFamily>)
    ensures
        family matches Some(f) ==> exists|j: int|
            0 <= j < MetadataFamily::families().len() && MetadataFamily::families()[j] == f
                && #[trigger] domain_id(MetadataFamily::families()[j]) == domain_id(f),
{
    let families = MetadataFamily::families();
    match family {
        Some(MetadataFamily::WorkspaceCurrent) => assert(domain_id(families[0]) == domain_id(
            MetadataFamily::WorkspaceCurrent,
        )),
        Some(MetadataFamily::PathCurrent) => assert(domain_id(families[1]) == domain_id(
            MetadataFamily::PathCurrent,
        )),
        Some(MetadataFamily::ArtifactRevision) => assert(domain_id(families[2]) == domain_id(
            MetadataFamily::ArtifactRevision,
        )),
        Some(MetadataFamily::ArtifactManifest) => assert(domain_id(families[3]) == domain_id(
            MetadataFamily::ArtifactManifest,
        )),
        Some(MetadataFamily::RevisionRef) => assert(domain_id(families[4]) == domain_id(
            MetadataFamily::RevisionRef,
        )),
        Some(MetadataFamily::StagedObject) => assert(domain_id(families[5]) == domain_id(
            MetadataFamily::StagedObject,
        )),
        Some(MetadataFamily::Operation) => assert(domain_id(families[6]) == domain_id(
            MetadataFamily::Operation,
        )),
        Some(MetadataFamily::Commit) => assert(domain_id(families[7]) == domain_id(
            MetadataFamily::Commit,
        )),
        Some(MetadataFamily::CommitMember) => assert(domain_id(families[8]) == domain_id(
            MetadataFamily::CommitMember,
        )),
        Some(MetadataFamily::CommitConsumer) => assert(domain_id(families[9]) == domain_id(
            MetadataFamily::CommitConsumer,
        )),
        Some(MetadataFamily::Tag) => assert(domain_id(families[10]) == domain_id(
            MetadataFamily::Tag,
        )),
        Some(MetadataFamily::SnapshotRef) => assert(domain_id(families[11]) == domain_id(
            MetadataFamily::SnapshotRef,
        )),
        Some(MetadataFamily::SnapshotAlias) => assert(domain_id(families[12]) == domain_id(
            MetadataFamily::SnapshotAlias,
        )),
        Some(MetadataFamily::WorkbenchCommitHead) => assert(domain_id(families[13]) == domain_id(
            MetadataFamily::WorkbenchCommitHead,
        )),
        Some(MetadataFamily::RestoreMember) => assert(domain_id(families[14]) == domain_id(
            MetadataFamily::RestoreMember,
        )),
        Some(MetadataFamily::SecondaryIndex) => assert(domain_id(families[15]) == domain_id(
            MetadataFamily::SecondaryIndex,
        )),
        Some(MetadataFamily::HistoryHold) => assert(domain_id(families[16]) == domain_id(
            MetadataFamily::HistoryHold,
        )),
        Some(MetadataFamily::GcBarrier) => assert(domain_id(families[17]) == domain_id(
            MetadataFamily::GcBarrier,
        )),
        Some(MetadataFamily::GcCandidate) => assert(domain_id(families[18]) == domain_id(
            MetadataFamily::GcCandidate,
        )),
        Some(MetadataFamily::WorkspaceIncarnation) => assert(domain_id(families[19]) == domain_id(
            MetadataFamily::WorkspaceIncarnation,
        )),
        None => {},
    }
}

/// Identifiers of every ordered space, ascending.
pub open spec fn space_ids() -> Seq<OrderedSpaceId> {
    seq![
        0x0101,
        0x0102,
        0x0103,
        0x0104,
        0x0105,
        0x0106,
        0x0202,
        0x0203,
        0x0204,
        0x0205,
        0x0206,
        0x0207,
        0x0208,
        0x0209,
        0x020a,
        0x020b,
        0x020c,
        0x020d,
        0x020e,
        0x020f,
        0x0211,
        0x0212,
        0x0213,
        0x0215,
        0x0216,
        0x0217,
    ]
}

/// This is one of the ordered spaces.
pub open spec fn is_space(space: OrderedSpaceId) -> bool {
    space_ids().contains(space)
}

/// Appends the space of every family.
fn push_domain_spaces(spaces: &mut Vec<OrderedSpaceId>)
    ensures
        final(spaces)@ == old(spaces)@ + space_ids().skip(6),
{
    let families = MetadataFamily::all();
    let ghost before = spaces@;
    let mut i: usize = 0;
    assert(before + space_ids().skip(6).take(0) =~= before);
    while i < families.len()
        invariant
            families@ == MetadataFamily::families(),
            i <= families@.len(),
            spaces@ == before + space_ids().skip(6).take(i as int),
        decreases families@.len() - i,
    {
        let space: OrderedSpaceId = domain_space(families[i]);
        let ghost old_ids = spaces@;
        spaces.push(space);
        proof {
            assert(spaces@ =~= old_ids.push(space));
            assert(space_ids().skip(6)[i as int] == space);
            assert(space_ids().skip(6).take(i + 1) =~= space_ids().skip(6).take(i as int).push(
                space,
            ));
            assert(before + space_ids().skip(6).take(i + 1) =~= (before + space_ids().skip(6).take(
                i as int,
            )).push(space));
        }
        i = i + 1;
    }
    assert(space_ids().skip(6).take(i as int) =~= space_ids().skip(6));
}

/// Every ordered space, ascending.
pub fn all_ordered_spaces() -> (spaces: Vec<OrderedSpaceId>)
    ensures
        spaces@ == space_ids(),
{
    let mut spaces = vec![
        SYSTEM_SPACE,
        ROOT_FENCE_SPACE,
        COMMAND_DEDUPE_SPACE,
        CHANGE_EVENT_SPACE,
        HISTORY_SPACE,
        RECOVERY_OUTBOX_SPACE,
    ];
    assert(spaces@ =~= space_ids().take(6));
    push_domain_spaces(&mut spaces);
    assert(space_ids().take(6) + space_ids().skip(6) =~= space_ids());
    spaces
}

/// Every ordered space of logical state: all but the system space.
pub fn logical_state_spaces() -> (spaces: Vec<OrderedSpaceId>)
    ensures
        spaces@ == space_ids().skip(1),
{
    let mut spaces = vec![
        ROOT_FENCE_SPACE,
        COMMAND_DEDUPE_SPACE,
        CHANGE_EVENT_SPACE,
        HISTORY_SPACE,
        RECOVERY_OUTBOX_SPACE,
    ];
    assert(spaces@ =~= space_ids().subrange(1, 6));
    push_domain_spaces(&mut spaces);
    assert(space_ids().subrange(1, 6) + space_ids().skip(6) =~= space_ids().skip(1));
    spaces
}

/// Name of the tree of a space.
pub open spec fn tree_of(space: OrderedSpaceId) -> Option<&'static str> {
    if space == SYSTEM_SPACE {
        Some("system")
    } else if space == ROOT_FENCE_SPACE {
        Some("root_fence")
    } else if space == COMMAND_DEDUPE_SPACE {
        Some("command_dedupe")
    } else if space == CHANGE_EVENT_SPACE {
        Some("change_event")
    } else if space == HISTORY_SPACE {
        Some("history")
    } else if space == RECOVERY_OUTBOX_SPACE {
        Some("recovery_outbox")
    } else {
        match family_of(space) {
            Some(family) => Some(family.tree()),
            None => None,
        }
    }
}

/// Name of the Holt tree of a space.
pub fn holt_tree_name(space: OrderedSpaceId) -> (name: Option<&'static str>)
    ensures
        name == tree_of(space),
{
    if space == SYSTEM_SPACE {
        Some("system")
    } else if space == ROOT_FENCE_SPACE {
        Some("root_fence")
    } else if space == COMMAND_DEDUPE_SPACE {
        Some("command_dedupe")
    } else if space == CHANGE_EVENT_SPACE {
        Some("change_event")
    } else if space == HISTORY_SPACE {
        Some("history")
    } else if space == RECOVERY_OUTBOX_SPACE {
        Some("recovery_outbox")
    } else {
        match domain_family(space) {
            Some(family) => Some(family.tree_name()),
            None => None,
        }
    }
}

/// Name of a space in diagnostics.
pub fn diagnostic_name(space: OrderedSpaceId) -> (name: Option<String>)
    ensures
        match tree_of(space) {
            Some(tree) => name matches Some(n) && n@ == tree@,
            None => name is None,
        },
{
    match holt_tree_name(space) {
        Some(name) => Some(name.to_owned()),
        None => None,
    }
}

/// Whether this is one of the ordered spaces.
pub fn is_ordered_space(space: OrderedSpaceId) -> (known: bool)
    ensures
        known == is_space(space),
{
    proof {
        spaces_are_the_named_ones(space);
    }
    holt_tree_name(space).is_some()
}

/// The ordered spaces ascend strictly, so none occurs twice.
pub proof fn spaces_ascend(i: int, j: int)
    requires
        0 <= i < j < space_ids().len(),
    ensures
        space_ids()[i] < space_ids()[j],
{
}

/// A space is one of the ordered spaces exactly when it has a tree.
pub proof fn spaces_are_the_named_ones(space: OrderedSpaceId)
    ensures
        is_space(space) <==> tree_of(space) is Some,
{
    let ids = space_ids();
    if tree_of(space) is Some {
        assert(ids[0] == 0x0101);
        assert(ids[1] == 0x0102);
        assert(ids[2] == 0x0103);
        assert(ids[3] == 0x0104);
        assert(ids[4] == 0x0105);
        assert(ids[5] == 0x0106);
        assert(ids[6] == 0x0202);
        assert(ids[7] == 0x0203);
        assert(ids[8] == 0x0204);
        assert(ids[9] == 0x0205);
        assert(ids[10] == 0x0206);
        assert(ids[11] == 0x0207);
        assert(ids[12] == 0x0208);
        assert(ids[13] == 0x0209);
        assert(ids[14] == 0x020a);
        assert(ids[15] == 0x020b);
        assert(ids[16] == 0x020c);
        assert(ids[17] == 0x020d);
        assert(ids[18] == 0x020e);
        assert(ids[19] == 0x020f);
        assert(ids[20] == 0x0211);
        assert(ids[21] == 0x0212);
        assert(ids[22] == 0x0213);
        assert(ids[23] == 0x0215);
        assert(ids[24] == 0x0216);
        assert(ids[25] == 0x0217);
    }
}

/// Different families have different spaces, and no family shares a space
/// with the system records.
pub proof fn domain_spaces_are_distinct(a: MetadataFamily, b: MetadataFamily)
    ensures
        domain_id(a) == domain_id(b) ==> a == b,
        domain_id(a) > RECOVERY_OUTBOX_SPACE,
{
}

/// The space whose tree has a name of this length, between these letters.
spec fn space_marked(length: nat, first: char, last: char) -> int {
    if length == 6 && first == 's' && last == 'm' {
        0x0101
    } else if length == 10 && first == 'r' && last == 'e' {
        0x0102
    } else if length == 14 && first == 'c' && last == 'e' {
        0x0103
    } else if length == 12 && first == 'c' && last == 't' {
        0x0104
    } else if length == 7 && first == 'h' && last == 'y' {
        0x0105
    } else if length == 15 && first == 'r' && last == 'x' {
        0x0106
    } else if length == 17 && first == 'w' && last == 't' {
        0x0202
    } else if length == 12 && first == 'p' && last == 't' {
        0x0203
    } else if length == 17 && first == 'a' && last == 'n' {
        0x0204
    } else if length == 17 && first == 'a' && last == 't' {
        0x0205
    } else if length == 12 && first == 'r' && last == 'f' {
        0x0206
    } else if length == 13 && first == 's' && last == 't' {
        0x0207
    } else if length == 9 && first == 'o' && last == 'n' {
        0x0208
    } else if length == 6 && first == 'c' && last == 't' {
        0x0209
    } else if length == 13 && first == 'c' && last == 'r' {
        0x020a
    } else if length == 15 && first == 'c' && last == 'r' {
        0x020b
    } else if length == 3 && first == 't' && last == 'g' {
        0x020c
    } else if length == 12 && first == 's' && last == 'f' {
        0x020d
    } else if length == 14 && first == 's' && last == 's' {
        0x020e
    } else if length == 21 && first == 'w' && last == 'd' {
        0x020f
    } else if length == 14 && first == 'r' && last == 'r' {
        0x0211
    } else if length == 15 && first == 's' && last == 'x' {
        0x0212
    } else if length == 12 && first == 'h' && last == 'd' {
        0x0213
    } else if length == 10 && first == 'g' && last == 'r' {
        0x0215
    } else if length == 12 && first == 'g' && last == 'e' {
        0x0216
    } else if length == 21 && first == 'w' && last == 'n' {
        0x0217
    } else {
        0
    }
}

/// The name of a tree shows which space it holds.
proof fn tree_shows_its_space(space: OrderedSpaceId)
    requires
        tree_of(space) is Some,
    ensures
        ({
            let name = tree_of(space)->0@;
            name.len() > 0 && space_marked(name.len(), name[0], name.last()) == space
        }),
{
    reveal_strlit("system");
    reveal_strlit("root_fence");
    reveal_strlit("command_dedupe");
    reveal_strlit("change_event");
    reveal_strlit("history");
    reveal_strlit("recovery_outbox");
    reveal_strlit("workspace_current");
    reveal_strlit("path_current");
    reveal_strlit("artifact_revision");
    reveal_strlit("artifact_manifest");
    reveal_strlit("revision_ref");
    reveal_strlit("staged_object");
    reveal_strlit("operation");
    reveal_strlit("commit");
    reveal_strlit("commit_member");
    reveal_strlit("commit_consumer");
    reveal_strlit("tag");
    reveal_strlit("snapshot_ref");
    reveal_strlit("snapshot_alias");
    reveal_strlit("workbench_commit_head");
    reveal_strlit("restore_member");
    reveal_strlit("secondary_index");
    reveal_strlit("history_hold");
    reveal_strlit("gc_barrier");
    reveal_strlit("gc_candidate");
    reveal_strlit("workspace_incarnation");
}

/// Different spaces have trees of different names.
pub proof fn tree_names_are_distinct(a: OrderedSpaceId, b: OrderedSpaceId)
    requires
        tree_of(a) is Some,
        tree_of(b) is Some,
        tree_of(a)->0@ == tree_of(b)->0@,
    ensures
        a == b,
{
    tree_shows_its_space(a);
    tree_shows_its_space(b);
}

} // verus!
