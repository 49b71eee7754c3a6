//! Physical keys and stored values of the FoundationDB provider.

use vstd::prelude::*;

use crate::bytes;
use crate::ids::{ConsistencyDomainId, LogicalShardId, MetadataAuthorityId};
use crate::positions::MetadataAuthorityGeneration;
use crate::provider::{ProviderError, ProviderFailure};
use crate::provider_catalog::OrderedSpaceId;

verus! {

/// Largest physical key that FoundationDB stores.
pub const FDB_MAX_PHYSICAL_KEY_BYTES: usize = 10000;

/// Largest physical value that FoundationDB stores.
pub const FDB_MAX_PHYSICAL_VALUE_BYTES: usize = 100000;

/// Bytes of the domain that every physical key starts with.
pub const PHYSICAL_KEY_DOMAIN_BYTES: usize = 22;

/// Bytes of a namespace: the domain, three identities, and a generation.
pub const NAMESPACE_PREFIX_BYTES: usize = 78;

/// Bytes of the tag of a space.
pub const SPACE_TAG_BYTES: usize = 2;

/// Only supported format of a stored value.
pub const STORED_VALUE_FORMAT_VERSION: u8 = 1;

/// Bytes of a versionstamp.
pub const VERSIONSTAMP_BYTES: usize = 10;

/// Bytes in front of the logical value of a stored value.
pub const STORED_VALUE_HEADER_BYTES: usize = 11;

/// Bytes of the offset behind a versionstamped operand.
pub const VERSIONSTAMP_OFFSET_BYTES: usize = 4;

/// Which store a provider serves.
#[derive(Clone, Copy, Debug, PartialEq, Eq)]
pub struct MetadataStoreIdentity {
    pub logical_shard_id: LogicalShardId,
    pub authority_id: MetadataAuthorityId,
    pub authority_generation: MetadataAuthorityGeneration,
    pub consistency_domain_id: ConsistencyDomainId,
    pub profile_fingerprint: [u8; 32],
    pub contract_digest: [u8; 32],
}

/// The domain that every physical key starts with: a length byte, a name, and
/// a zero byte.
pub open spec fn key_domain() -> Seq<u8> {
    seq![
        0x15u8, 0x6e, 0x6f, 0x6b, 0x76, 0x2e, 0x6d, 0x65, 0x74, 0x61, 0x64, 0x61, 0x74, 0x61,
        0x2e, 0x66, 0x64, 0x62, 0x2e, 0x76, 0x31, 0x00,
    ]
}

/// The domain that every physical key starts with.
pub fn physical_key_domain() -> (domain: Vec<u8>)
    ensures
        domain@ == key_domain(),
        domain@.len() == PHYSICAL_KEY_DOMAIN_BYTES,
{
    let domain: Vec<u8> = vec![
        0x15, 0x6e, 0x6f, 0x6b, 0x76, 0x2e, 0x6d, 0x65, 0x74, 0x61, 0x64, 0x61, 0x74, 0x61, 0x2e,
        0x66, 0x64, 0x62, 0x2e, 0x76, 0x31, 0x00,
    ];
    assert(domain@ =~= key_domain());
    domain
}

/// Namespace of a store: the domain and every dimension of its authority.
pub open spec fn namespace_of(identity: MetadataStoreIdentity) -> Seq<u8> {
    key_domain() + identity.consistency_domain_id@ + identity.logical_shard_id@
        + identity.authority_id@ + bytes::be64(identity.authority_generation@)
}

/// Encodes the namespace of a store.
pub fn encode_namespace_prefix(identity: MetadataStoreIdentity) -> (prefix: Vec<u8>)
    ensures
        prefix@ == namespace_of(identity),
        prefix@.len() == NAMESPACE_PREFIX_BYTES,
{
    let mut prefix = physical_key_domain();
    bytes::push_bytes(&mut prefix, identity.consistency_domain_id.as_bytes().as_slice());
    bytes::push_bytes(&mut prefix, identity.logical_shard_id.as_bytes().as_slice());
    bytes::push_bytes(&mut prefix, identity.authority_id.as_bytes().as_slice());
    bytes::push_u64(&mut prefix, identity.authority_generation.get());
    proof {
        bytes::be64_reads_back(identity.authority_generation@);
    }
    prefix
}

/// Tag of a space: its identifier.
pub fn space_tag(space: OrderedSpaceId) -> (tag: [u8; 2])
    ensures
        tag@ == bytes::be16(space),
{
    let mut out: Vec<u8> = Vec::new();
    bytes::push_u16(&mut out, space);
    proof {
        bytes::be16_reads_back(space);
        assert(out@ =~= bytes::be16(space));
    }
    bytes::array_from::<2>(out.as_slice())
}

/// Physical key of a logical key.
pub open spec fn physical(namespace: Seq<u8>, space: OrderedSpaceId, logical_key: Seq<u8>) -> Seq<
    u8,
> {
    namespace + bytes::be16(space) + logical_key
}

/// Physical key of a logical key.
pub fn physical_key(namespace: &[u8], space: OrderedSpaceId, logical_key: &[u8]) -> (key: Vec<u8>)
    ensures
        key@ == physical(namespace@, space, logical_key@),
{
    let mut key = vstd::slice::slice_to_vec(namespace);
    bytes::push_bytes(&mut key, space_tag(space).as_slice());
    bytes::push_bytes(&mut key, logical_key);
    key
}

/// Prefix of every physical key of a space.
pub fn physical_space_prefix(namespace: &[u8], space: OrderedSpaceId) -> (prefix: Vec<u8>)
    ensures
        prefix@ == namespace@ + bytes::be16(space),
{
    let mut prefix = vstd::slice::slice_to_vec(namespace);
    bytes::push_bytes(&mut prefix, space_tag(space).as_slice());
    prefix
}

/// The logical key of a physical key of a space; nothing for a key outside it.
pub open spec fn logical_of(space_prefix: Seq<u8>, key: Seq<u8>) -> Option<Seq<u8>> {
    if bytes::has_prefix(key, space_prefix) {
        Some(key.skip(space_prefix.len() as int))
    } else {
        None
    }
}

/// The logical key of a physical key of a space.
pub fn logical_key<'a>(space_prefix: &[u8], key: &'a [u8]) -> (logical: Option<&'a [u8]>)
    ensures
        match logical {
            Some(l) => logical_of(space_prefix@, key@) == Some(l@),
            None => logical_of(space_prefix@, key@) is None,
        },
{
    if bytes::starts_with(key, space_prefix) {
        let logical = vstd::slice::slice_subrange(key, space_prefix.len(), key.len());
        assert(logical@ =~= key@.skip(space_prefix@.len() as int));
        Some(logical)
    } else {
        None
    }
}

/// Operand that stores a logical value behind the version of its commit: the
/// format, a placeholder, the value, and the offset of the placeholder.
pub open spec fn versionstamped(logical: Seq<u8>) -> Seq<u8> {
    stored(Seq::new(VERSIONSTAMP_BYTES as nat, |i: int| 0xffu8), logical) + seq![1u8, 0, 0, 0]
}

/// A stored value: the format, the version of its commit, and the logical
/// value.
pub open spec fn stored(version: Seq<u8>, logical: Seq<u8>) -> Seq<u8> {
    seq![STORED_VALUE_FORMAT_VERSION] + version + logical
}

/// Encodes the operand that stores a logical value behind the version of its
/// commit.
pub fn encode_versionstamped_value(logical: &[u8]) -> (value: Vec<u8>)
    ensures
        value@ == versionstamped(logical@),
        value@.len() == STORED_VALUE_HEADER_BYTES + logical@.len() + VERSIONSTAMP_OFFSET_BYTES,
{
    let mut value: Vec<u8> = vec![
        STORED_VALUE_FORMAT_VERSION, 0xff, 0xff, 0xff, 0xff, 0xff, 0xff, 0xff, 0xff, 0xff, 0xff,
    ];
    assert(value@ =~= seq![STORED_VALUE_FORMAT_VERSION] + Seq::new(
        VERSIONSTAMP_BYTES as nat,
        |i: int| 0xffu8,
    ));
    bytes::push_bytes(&mut value, logical);
    let ghost before = value@;
    value.push(1);
    value.push(0);
    value.push(0);
    value.push(0);
    assert(value@ =~= before + seq![1u8, 0, 0, 0]);
    value
}

/// The logical value of a stored value.
pub open spec fn logical_value(value: Seq<u8>) -> Result<Seq<u8>, ProviderFailure> {
    if value.len() < STORED_VALUE_HEADER_BYTES || value[0] != STORED_VALUE_FORMAT_VERSION {
        Err(ProviderFailure::schema())
    } else {
        Ok(value.skip(STORED_VALUE_HEADER_BYTES as int))
    }
}

/// Decodes the logical value of a stored value.
pub fn decode_stored_value(value: &[u8]) -> (result: Result<&[u8], ProviderError>)
    ensures
        match result {
            Ok(logical) => logical_value(value@) == Ok::<Seq<u8>, ProviderFailure>(logical@),
            Err(error) => logical_value(value@) == Err::<Seq<u8>, ProviderFailure>(error@),
        },
{
    if value.len() < STORED_VALUE_HEADER_BYTES || value[0] != STORED_VALUE_FORMAT_VERSION {
        return Err(ProviderError::schema());
    }
    let logical = vstd::slice::slice_subrange(value, STORED_VALUE_HEADER_BYTES, value.len());
    assert(logical@ =~= value@.skip(STORED_VALUE_HEADER_BYTES as int));
    Ok(logical)
}

/// The least byte string behind every byte string with this prefix; there is
/// none when no byte of the prefix can grow.
pub open spec fn successor(prefix: Seq<u8>) -> Option<Seq<u8>>
    decreases prefix.len(),
{
    if prefix.len() == 0 {
        None
    } else if prefix.last() == 0xff {
        successor(prefix.drop_last())
    } else {
        Some(prefix.drop_last().push((prefix.last() + 1) as u8))
    }
}

/// The least byte string behind every byte string with this prefix.
pub fn prefix_end(prefix: &[u8]) -> (end: Option<Vec<u8>>)
    ensures
        bytes::option_view(end) == successor(prefix@),
{
    let mut length: usize = prefix.len();
    assert(prefix@.take(length as int) =~= prefix@);
    while length > 0 && prefix[length - 1] == 0xff
        invariant
            length <= prefix@.len(),
            successor(prefix@) == successor(prefix@.take(length as int)),
        decreases length,
    {
        assert(prefix@.take(length as int).drop_last() =~= prefix@.take(length - 1));
        length = length - 1;
    }
    let ghost kept = prefix@.take(length as int);
    if length == 0 {
        return None;
    }
    let mut end = vstd::slice::slice_to_vec(vstd::slice::slice_subrange(prefix, 0, length - 1));
    end.push(prefix[length - 1] + 1);
    proof {
        assert(kept.last() == prefix@[length - 1]);
        assert(end@ =~= kept.drop_last().push((kept.last() + 1) as u8));
    }
    Some(end)
}

/// The successor, read from the front.
proof fn successor_from_front(p: Seq<u8>)
    requires
        p.len() > 0,
    ensures
        successor(p) == (match successor(p.drop_first()) {
            Some(end) => Some(seq![p[0]] + end),
            None => if p[0] == 0xff {
                None
            } else {
                Some(seq![(p[0] + 1) as u8])
            },
        }),
    decreases p.len(),
{
    let q = p.drop_first();
    if p.len() == 1 {
        assert(q =~= Seq::empty());
        assert(p.drop_last() =~= Seq::empty());
        if p[0] != 0xff {
            assert(p.drop_last().push((p.last() + 1) as u8) =~= seq![(p[0] + 1) as u8]);
        }
    } else {
        assert(q.last() == p.last());
        assert(q.drop_last() =~= p.drop_last().drop_first());
        if p.last() == 0xff {
            successor_from_front(p.drop_last());
        } else {
            let grown = (p.last() + 1) as u8;
            assert(p.drop_last().push(grown) =~= seq![p[0]] + q.drop_last().push(grown));
        }
    }
}

/// The half-open range from a prefix to its successor holds exactly the byte
/// strings with that prefix; where there is no successor, the range is not
/// bounded above.
pub proof fn prefix_range_is_exact(p: Seq<u8>, k: Seq<u8>)
    ensures
        bytes::has_prefix(k, p) <==> !bytes::lex_less(k, p) && (successor(p) matches Some(end)
            ==> bytes::lex_less(k, end)),
    decreases p.len(),
{
    if p.len() == 0 {
        assert(k.take(0) =~= p);
    } else {
        successor_from_front(p);
        let q = p.drop_first();
        if k.len() > 0 {
            let l = k.drop_first();
            prefix_range_is_exact(q, l);
            if k[0] == p[0] {
                prefix_from_front(k, p);
                match successor(q) {
                    Some(end) => {
                        assert((seq![p[0]] + end).drop_first() =~= end);
                    },
                    None => {},
                }
            } else {
                if bytes::has_prefix(k, p) {
                    assert(k.take(p.len() as int)[0] == k[0]);
                }
                assert(!bytes::lex_less(l, seq![(p[0] + 1) as u8].drop_first()));
            }
        }
    }
}

/// A prefix, read from the front.
proof fn prefix_from_front(k: Seq<u8>, p: Seq<u8>)
    requires
        k.len() > 0,
        p.len() > 0,
        k[0] == p[0],
    ensures
        bytes::has_prefix(k, p) <==> bytes::has_prefix(k.drop_first(), p.drop_first()),
{
    let l = k.drop_first();
    let q = p.drop_first();
    if bytes::has_prefix(k, p) {
        assert(l.take(q.len() as int) =~= k.take(p.len() as int).drop_first());
    }
    if bytes::has_prefix(l, q) {
        assert(k.take(p.len() as int) =~= seq![k[0]] + l.take(q.len() as int));
        assert(p =~= seq![p[0]] + q);
    }
}

/// A shared front does not change the order.
pub proof fn shared_front_keeps_order(c: Seq<u8>, a: Seq<u8>, b: Seq<u8>)
    ensures
        bytes::lex_less(c + a, c + b) == bytes::lex_less(a, b),
    decreases c.len(),
{
    if c.len() == 0 {
        assert(c + a =~= a);
        assert(c + b =~= b);
    } else {
        let d = c.drop_first();
        shared_front_keeps_order(d, a, b);
        assert((c + a).drop_first() =~= d + a);
        assert((c + b).drop_first() =~= d + b);
    }
}

/// Physical keys of one space are ordered as their logical keys, and different
/// logical keys have different physical keys.
pub proof fn physical_keys_keep_order(
    namespace: Seq<u8>,
    space: OrderedSpaceId,
    a: Seq<u8>,
    b: Seq<u8>,
)
    ensures
        bytes::lex_less(physical(namespace, space, a), physical(namespace, space, b))
            == bytes::lex_less(a, b),
        physical(namespace, space, a) == physical(namespace, space, b) ==> a == b,
{
    let front = namespace + bytes::be16(space);
    shared_front_keeps_order(front, a, b);
    bytes::concat_splits(front, a);
    bytes::concat_splits(front, b);
}

/// Records of different spaces never share a physical key.
pub proof fn spaces_are_physically_separate(
    namespace: Seq<u8>,
    space: OrderedSpaceId,
    a: Seq<u8>,
    other: OrderedSpaceId,
    b: Seq<u8>,
)
    requires
        space != other,
    ensures
        physical(namespace, space, a) != physical(namespace, other, b),
{
    bytes::be16_reads_back(space);
    bytes::be16_reads_back(other);
    if physical(namespace, space, a) == physical(namespace, other, b) {
        let x = namespace + bytes::be16(space);
        let y = namespace + bytes::be16(other);
        bytes::concat_splits(x, a);
        bytes::concat_splits(y, b);
        bytes::concat_splits(namespace, bytes::be16(space));
        bytes::concat_splits(namespace, bytes::be16(other));
    }
}

/// Records of different stores never share a physical key: stores that differ
/// in any dimension of their authority have different namespaces.
pub proof fn namespaces_are_separate(a: MetadataStoreIdentity, b: MetadataStoreIdentity)
    requires
        a.consistency_domain_id@.len() == b.consistency_domain_id@.len(),
        a.logical_shard_id@.len() == b.logical_shard_id@.len(),
        a.authority_id@.len() == b.authority_id@.len(),
        namespace_of(a) == namespace_of(b),
    ensures
        a.consistency_domain_id@ == b.consistency_domain_id@,
        a.logical_shard_id@ == b.logical_shard_id@,
        a.authority_id@ == b.authority_id@,
        a.authority_generation@ == b.authority_generation@,
{
    bytes::be64_reads_back(a.authority_generation@);
    bytes::be64_reads_back(b.authority_generation@);
    let a1 = key_domain() + a.consistency_domain_id@;
    let a2 = a1 + a.logical_shard_id@;
    let a3 = a2 + a.authority_id@;
    let b1 = key_domain() + b.consistency_domain_id@;
    let b2 = b1 + b.logical_shard_id@;
    let b3 = b2 + b.authority_id@;
    bytes::concat_splits(a3, bytes::be64(a.authority_generation@));
    bytes::concat_splits(b3, bytes::be64(b.authority_generation@));
    bytes::concat_splits(a2, a.authority_id@);
    bytes::concat_splits(b2, b.authority_id@);
    bytes::concat_splits(a1, a.logical_shard_id@);
    bytes::concat_splits(b1, b.logical_shard_id@);
    bytes::concat_splits(key_domain(), a.consistency_domain_id@);
    bytes::concat_splits(key_domain(), b.consistency_domain_id@);
}

/// Whatever version the store puts in front of it, a stored logical value
/// reads back as it was written.
pub proof fn stored_value_reads_back(version: Seq<u8>, logical: Seq<u8>)
    requires
        version.len() == VERSIONSTAMP_BYTES,
    ensures
        logical_value(stored(version, logical)) == Ok::<Seq<u8>, ProviderFailure>(logical),
{
    bytes::concat_splits(seq![STORED_VALUE_FORMAT_VERSION] + version, logical);
}

} // verus!
