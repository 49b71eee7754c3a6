//! The ranges that a read view captures: one prefix for each space.

use vstd::prelude::*;

use crate::bytes;
use crate::provider;
use crate::provider::{ProviderError, ProviderFailure, ReadScope, ReadScopeView};
use crate::provider_catalog::OrderedSpaceId;

verus! {

/// How many bytes from index `i` on two byte strings share.
pub open spec fn common_from(a: Seq<u8>, b: Seq<u8>, i: int) -> int
    decreases a.len() - i,
{
    if i >= a.len() || i >= b.len() || a[i] != b[i] {
        0
    } else {
        1 + common_from(a, b, i + 1)
    }
}

/// The longest prefix that two byte strings share.
pub open spec fn common_prefix(a: Seq<u8>, b: Seq<u8>) -> Seq<u8> {
    a.take(common_from(a, b, 0))
}

/// From index `i` on, the shared bytes end where the strings differ or end.
proof fn common_ends(a: Seq<u8>, b: Seq<u8>, i: int)
    requires
        0 <= i <= a.len(),
        i <= b.len(),
    ensures
        0 <= common_from(a, b, i) <= a.len() - i,
        common_from(a, b, i) <= b.len() - i,
        forall|j: int| i <= j < i + common_from(a, b, i) ==> a[j] == b[j],
        ({
            let n = i + common_from(a, b, i);
            n < a.len() && n < b.len() ==> a[n] != b[n]
        }),
    decreases a.len() - i,
{
    if i < a.len() && i < b.len() && a[i] == b[i] {
        common_ends(a, b, i + 1);
    }
}

/// Length of the longest prefix that two byte strings share.
fn common_length(a: &[u8], b: &[u8]) -> (length: usize)
    ensures
        length == common_from(a@, b@, 0),
        length <= a@.len(),
{
    let mut i: usize = 0;
    while i < a.len() && i < b.len() && a[i] == b[i]
        invariant
            i <= a@.len(),
            i <= b@.len(),
            common_from(a@, b@, 0) == i + common_from(a@, b@, i as int),
        decreases a@.len() - i,
    {
        i = i + 1;
    }
    i
}

/// The one prefix that covers every scope of a space, if the space has any.
pub open spec fn coalesced_prefix(scopes: Seq<ReadScopeView>, space: OrderedSpaceId) -> Option<
    Seq<u8>,
>
    decreases scopes.len(),
{
    if scopes.len() == 0 {
        None
    } else {
        let before = coalesced_prefix(scopes.drop_last(), space);
        let scope = scopes.last();
        if scope.space != space {
            before
        } else {
            match before {
                None => Some(scope.prefix),
                Some(prefix) => Some(common_prefix(prefix, scope.prefix)),
            }
        }
    }
}

/// Contents of a list of scopes.
pub open spec fn scope_views(scopes: Seq<ReadScope>) -> Seq<ReadScopeView> {
    Seq::new(scopes.len(), |i: int| scopes[i]@)
}

/// Spaces ascend strictly, so each occurs once.
pub open spec fn ascending(scopes: Seq<ReadScopeView>) -> bool {
    forall|i: int, j: int|
        0 <= i < j < scopes.len() ==> (#[trigger] scopes[i]).space < (#[trigger] scopes[j]).space
}

/// Each space of the scopes occurs once, in order, with the prefix that covers
/// it.
pub open spec fn coalesces(coalesced: Seq<ReadScopeView>, scopes: Seq<ReadScopeView>) -> bool {
    &&& ascending(coalesced)
    &&& forall|i: int|
        0 <= i < coalesced.len() ==> coalesced_prefix(scopes, (#[trigger] coalesced[i]).space)
            == Some(coalesced[i].prefix)
    &&& forall|space: OrderedSpaceId| #[trigger]
        coalesced_prefix(scopes, space) is Some ==> exists|i: int|
            0 <= i < coalesced.len() && (#[trigger] coalesced[i]).space == space
}

/// Where a space is, or would be inserted, in ascending scopes.
fn position(coalesced: &Vec<ReadScope>, space: OrderedSpaceId) -> (index: usize)
    requires
        ascending(scope_views(coalesced@)),
    ensures
        index <= coalesced@.len(),
        forall|j: int| 0 <= j < index ==> (#[trigger] coalesced@[j]).space < space,
        forall|j: int| index <= j < coalesced@.len() ==> (#[trigger] coalesced@[j]).space >= space,
{
    let ghost views = scope_views(coalesced@);
    let mut i: usize = 0;
    while i < coalesced.len()
        invariant
            i <= coalesced@.len(),
            views == scope_views(coalesced@),
            ascending(views),
            forall|j: int| 0 <= j < i ==> (#[trigger] coalesced@[j]).space < space,
        decreases coalesced@.len() - i,
    {
        if coalesced[i].space >= space {
            proof {
                assert forall|j: int| i <= j < coalesced@.len() implies (
                #[trigger] coalesced@[j]).space >= space by {
                    assert(views[i as int].space == coalesced@[i as int].space);
                    assert(views[j].space == coalesced@[j].space);
                }
            }
            return i;
        }
        i = i + 1;
    }
    i
}

/// Covers every scope with one prefix for each space, in the order of spaces.
pub fn coalesce_scopes(scopes: &Vec<ReadScope>) -> (coalesced: Vec<ReadScope>)
    ensures
        coalesces(scope_views(coalesced@), scope_views(scopes@)),
{
    let ghost views = scope_views(scopes@);
    let mut coalesced: Vec<ReadScope> = Vec::new();
    let mut k: usize = 0;
    proof {
        assert(views.take(0) =~= Seq::empty());
        assert(scope_views(coalesced@) =~= Seq::empty());
    }
    while k < scopes.len()
        invariant
            k <= scopes@.len(),
            views == scope_views(scopes@),
            coalesces(scope_views(coalesced@), views.take(k as int)),
        decreases scopes@.len() - k,
    {
        let scope = &scopes[k];
        let ghost before = scope_views(coalesced@);
        let ghost done = views.take(k as int);
        let ghost longer = views.take(k + 1);
        proof {
            assert(views[k as int] == scope@);
            assert(longer.drop_last() =~= done);
            assert(longer.last() == scope@);
        }
        let index: usize = position(&coalesced, scope.space);
        if index < coalesced.len() && coalesced[index].space == scope.space {
            let length: usize = common_length(
                coalesced[index].prefix.as_slice(),
                scope.prefix.as_slice(),
            );
            let kept = vstd::slice::slice_subrange(coalesced[index].prefix.as_slice(), 0, length);
            let shortened = ReadScope {
                space: scope.space,
                prefix: vstd::slice::slice_to_vec(kept),
            };
            proof {
                assert(before[index as int] == coalesced@[index as int]@);
                assert(shortened.prefix@ =~= common_prefix(
                    before[index as int].prefix,
                    scope@.prefix,
                ));
            }
            let ghost replacement = shortened@;
            coalesced.set(index, shortened);
            proof {
                let after = scope_views(coalesced@);
                assert(after =~= before.update(index as int, replacement));
                assert forall|i: int| 0 <= i < after.len() implies coalesced_prefix(
                    longer,
                    (#[trigger] after[i]).space,
                ) == Some(after[i].prefix) by {
                    assert(coalesced_prefix(done, before[i].space) == Some(before[i].prefix));
                    if i != index {
                        assert(before[i].space != before[index as int].space);
                    }
                }
                assert forall|space: OrderedSpaceId| #[trigger]
                    coalesced_prefix(longer, space) is Some implies exists|i: int|
                    0 <= i < after.len() && (#[trigger] after[i]).space == space by {
                    if space == scope.space {
                        assert(after[index as int].space == space);
                    } else {
                        assert(coalesced_prefix(done, space) is Some);
                        let i = choose|i: int|
                            0 <= i < before.len() && (#[trigger] before[i]).space == space;
                        assert(after[i].space == space);
                    }
                }
            }
        } else {
            let added = ReadScope {
                space: scope.space,
                prefix: vstd::slice::slice_to_vec(scope.prefix.as_slice()),
            };
            proof {
                assert(added@ == scope@);
                if coalesced_prefix(done, scope.space) is Some {
                    let i = choose|i: int|
                        0 <= i < before.len() && (#[trigger] before[i]).space == scope.space;
                    assert(coalesced@[i].space == scope.space);
                    if i > index {
                        assert(before[index as int].space < before[i].space);
                        assert(coalesced@[index as int].space >= scope.space);
                    }
                }
            }
            coalesced.insert(index, added);
            proof {
                let after = scope_views(coalesced@);
                assert(after =~= before.insert(index as int, scope@));
                assert(ascending(after)) by {
                    assert forall|i: int, j: int| 0 <= i < j < after.len() implies (
                    #[trigger] after[i]).space < (#[trigger] after[j]).space by {
                        if i < index {
                            assert(before[i].space < scope.space);
                        }
                        if j > index {
                            assert(before[j - 1].space >= scope.space);
                            assert(before[j - 1].space != scope.space) by {
                                assert(coalesced_prefix(done, before[j - 1].space) is Some);
                            }
                        }
                    }
                }
                assert forall|i: int| 0 <= i < after.len() implies coalesced_prefix(
                    longer,
                    (#[trigger] after[i]).space,
                ) == Some(after[i].prefix) by {
                    if i < index {
                        assert(coalesced_prefix(done, before[i].space) == Some(before[i].prefix));
                    } else if i > index {
                        assert(coalesced_prefix(done, before[i - 1].space) == Some(
                            before[i - 1].prefix,
                        ));
                    }
                }
                assert forall|space: OrderedSpaceId| #[trigger]
                    coalesced_prefix(longer, space) is Some implies exists|i: int|
                    0 <= i < after.len() && (#[trigger] after[i]).space == space by {
                    if space == scope.space {
                        assert(after[index as int].space == space);
                    } else {
                        assert(coalesced_prefix(done, space) is Some);
                        let i = choose|i: int|
                            0 <= i < before.len() && (#[trigger] before[i]).space == space;
                        if i < index {
                            assert(after[i].space == space);
                        } else {
                            assert(after[i + 1].space == space);
                        }
                    }
                }
            }
        }
        k = k + 1;
    }
    assert(views.take(k as int) =~= views);
    coalesced
}

/// A key lies in the captured range of its space.
pub open spec fn in_scope(
    coalesced: Seq<ReadScopeView>,
    space: OrderedSpaceId,
    key: Seq<u8>,
) -> bool {
    exists|i: int|
        0 <= i < coalesced.len() && (#[trigger] coalesced[i]).space == space && bytes::has_prefix(
            key,
            coalesced[i].prefix,
        )
}

/// Checks that a key, or a prefix, lies in the captured range of its space.
pub fn validate_scope(coalesced: &Vec<ReadScope>, space: OrderedSpaceId, key: &[u8]) -> (result:
    Result<(), ProviderError>)
    requires
        ascending(scope_views(coalesced@)),
    ensures
        provider::outcome(result) == provider::require(
            in_scope(scope_views(coalesced@), space, key@),
            ProviderFailure::invalid_plan(),
        ),
{
    let ghost views = scope_views(coalesced@);
    let index: usize = position(coalesced, space);
    if index < coalesced.len() && coalesced[index].space == space && bytes::starts_with(
        key,
        coalesced[index].prefix.as_slice(),
    ) {
        assert(views[index as int].space == space);
        Ok(())
    } else {
        proof {
            if in_scope(views, space, key@) {
                let i = choose|i: int|
                    0 <= i < views.len() && (#[trigger] views[i]).space == space
                        && bytes::has_prefix(key@, views[i].prefix);
                assert(coalesced@[i].space == space);
                if i > index {
                    assert(views[index as int].space < views[i].space);
                    assert(coalesced@[index as int].space >= space);
                }
                assert(i == index);
            }
        }
        Err(ProviderError::invalid_plan())
    }
}

/// A shared prefix is a prefix of both byte strings, and every byte string
/// that is a prefix of both is a prefix of it.
pub proof fn common_prefix_is_longest(a: Seq<u8>, b: Seq<u8>, p: Seq<u8>)
    ensures
        bytes::has_prefix(a, common_prefix(a, b)),
        bytes::has_prefix(b, common_prefix(a, b)),
        bytes::has_prefix(a, p) && bytes::has_prefix(b, p) ==> bytes::has_prefix(
            common_prefix(a, b),
            p,
        ),
{
    common_ends(a, b, 0);
    let c = common_prefix(a, b);
    assert(a.take(c.len() as int) =~= c);
    assert(b.take(c.len() as int) =~= c);
    if bytes::has_prefix(a, p) && bytes::has_prefix(b, p) {
        assert forall|j: int| 0 <= j < p.len() implies a[j] == b[j] by {
            assert(a.take(p.len() as int)[j] == p[j]);
            assert(b.take(p.len() as int)[j] == p[j]);
        }
        if c.len() < p.len() {
            assert(a[c.len() as int] == b[c.len() as int]);
        }
        assert(c.take(p.len() as int) =~= p);
    }
}

/// Every requested scope lies in the captured range of its space: a read that
/// the caller asked for is never out of scope.
pub proof fn requested_scopes_are_covered(scopes: Seq<ReadScopeView>, k: int)
    requires
        0 <= k < scopes.len(),
    ensures
        coalesced_prefix(scopes, scopes[k].space) matches Some(prefix) && bytes::has_prefix(
            scopes[k].prefix,
            prefix,
        ),
    decreases scopes.len(),
{
    let front = scopes.drop_last();
    let space = scopes[k].space;
    if k < scopes.len() - 1 {
        requested_scopes_are_covered(front, k);
        assert(front[k] == scopes[k]);
        if scopes.last().space == space {
            let before = coalesced_prefix(front, space)->Some_0;
            let prefix = common_prefix(before, scopes.last().prefix);
            common_prefix_is_longest(before, scopes.last().prefix, prefix);
            prefix_is_transitive(scopes[k].prefix, before, prefix);
        }
    } else {
        match coalesced_prefix(front, space) {
            None => {
                assert(scopes[k].prefix.take(scopes[k].prefix.len() as int) =~= scopes[k].prefix);
            },
            Some(before) => {
                common_prefix_is_longest(before, scopes[k].prefix, scopes[k].prefix);
            },
        }
    }
}

/// A prefix of a prefix is a prefix.
proof fn prefix_is_transitive(a: Seq<u8>, b: Seq<u8>, c: Seq<u8>)
    requires
        bytes::has_prefix(a, b),
        bytes::has_prefix(b, c),
    ensures
        bytes::has_prefix(a, c),
{
    assert(a.take(c.len() as int) =~= a.take(b.len() as int).take(c.len() as int));
}

/// The captured range of a space is no wider than it must be: any prefix that
/// covers every scope of the space is a prefix of the captured one.
pub proof fn captured_range_is_narrowest(
    scopes: Seq<ReadScopeView>,
    space: OrderedSpaceId,
    p: Seq<u8>,
)
    requires
        coalesced_prefix(scopes, space) is Some,
        forall|k: int|
            0 <= k < scopes.len() && (#[trigger] scopes[k]).space == space ==> bytes::has_prefix(
                scopes[k].prefix,
                p,
            ),
    ensures
        bytes::has_prefix(coalesced_prefix(scopes, space)->Some_0, p),
    decreases scopes.len(),
{
    let front = scopes.drop_last();
    assert forall|k: int|
        0 <= k < front.len() && (#[trigger] front[k]).space == space implies bytes::has_prefix(
        front[k].prefix,
        p,
    ) by {
        assert(front[k] == scopes[k]);
    }
    if coalesced_prefix(front, space) is Some {
        captured_range_is_narrowest(front, space, p);
        if scopes.last().space == space {
            assert(scopes[scopes.len() - 1].space == space);
            common_prefix_is_longest(
                coalesced_prefix(front, space)->Some_0,
                scopes.last().prefix,
                p,
            );
        }
    } else {
        assert(scopes[scopes.len() - 1].space == space);
    }
}

} // verus!
