//! Names, numbers, digests, and sorted lists.

use nokv_meta::bytes;
use nokv_meta::digest;
use nokv_meta::names::{NameError, NormalizedRelativePath, QueryFieldId, WorkbenchId};
use nokv_meta::positions::{CommitVersion, WorkspaceRevision, ZeroPosition};
use nokv_meta::prefix_scan::{MetadataScanItem, PrefixScan};
use nokv_meta::publish_validate::{hex_u64, is_lower_hex, is_zero_digest, lower_hex};
use nokv_meta::query_types::ENGINE_SCAN_BATCH;
use nokv_meta::read_stats::{
    begin_session, finish_session, record_point, MetadataPointReadSource,
    MetadataReadStatsSessionError, MetadataReadStatsSlot,
};
use nokv_meta::scalars::{FiniteFloat, NonFiniteFloat, QueryScalar, QueryScalarType};
use nokv_meta::sorted_maps::{FieldMap, ScalarSet};

fn float(value: f64) -> QueryScalar {
    QueryScalar::Float(FiniteFloat::from_bits(value.to_bits()).unwrap())
}

fn hex(bytes: &[u8]) -> String {
    String::from_utf8(lower_hex(bytes)).unwrap()
}

#[test]
fn digests_are_sha256() {
    assert_eq!(
        hex(&digest::digest(b"abc")),
        "ba7816bf8f01cfea414140de5dae2223b00361a396177a9cb410ff61f20015ad"
    );
    assert_eq!(
        hex(&digest::digest(b"")),
        "e3b0c44298fc1c149afbf4c8996fb92427ae41e4649b934ca495991b7852b855"
    );
    let mut framed = Vec::new();
    digest::push_framed(&mut framed, b"ab");
    assert_eq!(framed, [0, 0, 0, 0, 0, 0, 0, 2, b'a', b'b']);
}

#[test]
fn texts_are_valid_utf8() {
    assert_eq!(
        bytes::text_from_bytes("caf\u{e9}".as_bytes()),
        Some("caf\u{e9}".to_owned())
    );
    assert_eq!(bytes::text_from_bytes(&[0xc3, 0x28]), None);
}

#[test]
fn big_endian_numbers_read_back() {
    let mut out = Vec::new();
    bytes::push_u16(&mut out, 0x0102);
    bytes::push_u32(&mut out, 0x0304_0506);
    bytes::push_u64(&mut out, 0x0708_090a_0b0c_0d0e);
    assert_eq!(out, (1..=14).collect::<Vec<u8>>());
    assert_eq!(bytes::read_u16(&out[..2]), 0x0102);
    assert_eq!(bytes::read_u32(&out[2..6]), 0x0304_0506);
    assert_eq!(bytes::read_u64(&out[6..]), 0x0708_090a_0b0c_0d0e);
}

#[test]
fn bytes_are_ordered_as_in_a_dictionary() {
    assert!(bytes::bytes_less(b"a", b"ab"));
    assert!(bytes::bytes_less(b"ab", b"b"));
    assert!(!bytes::bytes_less(b"b", b"b"));
    assert!(bytes::starts_with(b"abc", b"ab"));
    assert!(!bytes::starts_with(b"abc", b"b"));
}

#[test]
fn hexadecimal_digits_are_lower_case() {
    assert!(is_lower_hex(b"x0fz", 1, 2));
    assert!(!is_lower_hex(b"x0Fz", 1, 2));
    assert_eq!(hex_u64(b"00000000000000ff", 0), 255);
    assert!(is_zero_digest(&[0; 32]));
    assert!(!is_zero_digest(&[1; 32]));
}

#[test]
fn field_ids_are_bounded_and_restricted() {
    assert_eq!(QueryFieldId::new(""), Err(NameError::Empty));
    assert_eq!(
        QueryFieldId::new(&"x".repeat(129)),
        Err(NameError::TooLong {
            length: 129,
            max: 128
        })
    );
    assert_eq!(
        QueryFieldId::new("run status"),
        Err(NameError::UnsupportedByte {
            offset: 3,
            byte: b' '
        })
    );
    assert_eq!(
        NameError::UnsupportedByte {
            offset: 3,
            byte: b' '
        }
        .message(),
        "unsupported byte 0x20 at offset 3"
    );
    assert_eq!(QueryFieldId::new("run.status").unwrap().as_str(), "run.status");
}

#[test]
fn paths_are_relative_and_normalized() {
    assert_eq!(NormalizedRelativePath::new(""), Err(NameError::Empty));
    assert_eq!(
        NormalizedRelativePath::new("/a"),
        Err(NameError::EmptyComponent { offset: 0 })
    );
    assert_eq!(
        NormalizedRelativePath::new("a//b"),
        Err(NameError::EmptyComponent { offset: 2 })
    );
    assert_eq!(
        NormalizedRelativePath::new("a/../b"),
        Err(NameError::DotComponent { offset: 2 })
    );
    assert_eq!(
        NormalizedRelativePath::new("outputs/result.bin")
            .unwrap()
            .as_str(),
        "outputs/result.bin"
    );
    assert_eq!(WorkbenchId::new(""), Err(NameError::Empty));
}

#[test]
fn positions_count_from_one() {
    assert_eq!(CommitVersion::new(0), Err(ZeroPosition));
    assert_eq!(CommitVersion::new(5).unwrap().get(), 5);
    assert_eq!(WorkspaceRevision::new(0).get(), 0);
}

#[test]
fn floats_are_finite_and_have_one_zero() {
    for bits in [
        f64::NAN.to_bits(),
        f64::INFINITY.to_bits(),
        f64::NEG_INFINITY.to_bits(),
    ] {
        assert_eq!(FiniteFloat::from_bits(bits), Err(NonFiniteFloat));
    }
    assert_eq!(
        FiniteFloat::from_bits((-0.0_f64).to_bits()).unwrap().to_bits(),
        0
    );
}

#[test]
fn scalars_are_ordered_by_type_and_value() {
    let ascending = [
        float(f64::MIN),
        float(-2.5),
        float(-1.0),
        float(0.0),
        float(1.0),
        float(f64::MAX),
    ];
    for pair in ascending.windows(2) {
        assert!(pair[0].before(&pair[1]));
        assert!(!pair[1].before(&pair[0]));
    }
    assert!(QueryScalar::Signed(-1).before(&QueryScalar::Signed(0)));
    assert!(QueryScalar::String("a".to_owned()).before(&QueryScalar::String("b".to_owned())));
    assert!(QueryScalar::Null.is_null());
    assert!(QueryScalar::Null.before(&QueryScalar::Boolean(false)));
    assert!(QueryScalar::Unsigned(7).same(&QueryScalar::Unsigned(7)));
    assert_eq!(QueryScalar::Unsigned(7).scalar_type(), QueryScalarType::Unsigned);
    assert_eq!(QueryScalarType::Timestamp.label(), "Timestamp");
}

#[test]
fn maps_and_sets_are_sorted_without_duplicates() {
    let mut map = FieldMap::new();
    map.insert(QueryFieldId::new("b").unwrap(), QueryScalar::Unsigned(1));
    map.insert(QueryFieldId::new("a").unwrap(), QueryScalar::Unsigned(2));
    map.insert(QueryFieldId::new("b").unwrap(), QueryScalar::Unsigned(3));
    assert_eq!(map.len(), 2);
    assert_eq!(map.entries()[0].field.as_str(), "a");
    assert_eq!(
        map.get(&QueryFieldId::new("b").unwrap()),
        Some(&QueryScalar::Unsigned(3))
    );
    assert_eq!(map.get(&QueryFieldId::new("c").unwrap()), None);

    let set = ScalarSet::from_values(vec![
        QueryScalar::Unsigned(2),
        QueryScalar::Unsigned(1),
        QueryScalar::Unsigned(2),
    ]);
    assert_eq!(
        set.values(),
        &vec![QueryScalar::Unsigned(1), QueryScalar::Unsigned(2)]
    );
    assert!(set.contains(&QueryScalar::Unsigned(2)));
    assert!(!set.contains(&QueryScalar::Unsigned(3)));
}

#[test]
fn prefix_scans_read_on_until_a_short_batch() {
    let item = |index: usize| MetadataScanItem {
        key: (index as u32).to_be_bytes().to_vec(),
        value: Vec::new(),
    };
    let mut scan = PrefixScan::start();
    assert_eq!(scan.marker(), None);
    scan.accept((0..ENGINE_SCAN_BATCH).map(item).collect());
    assert!(!scan.is_finished());
    assert_eq!(scan.marker(), Some(&255_u32.to_be_bytes()[..]));
    scan.accept((ENGINE_SCAN_BATCH..ENGINE_SCAN_BATCH + 3).map(item).collect());
    assert!(scan.is_finished());
    assert_eq!(scan.into_items().len(), ENGINE_SCAN_BATCH + 3);
}

#[test]
fn read_sessions_end_where_they_began() {
    let mut slot = MetadataReadStatsSlot::default();
    assert_eq!(
        finish_session(&mut slot, 7),
        Err(MetadataReadStatsSessionError::ThreadSessionMissing)
    );
    begin_session(&mut slot, 7).unwrap();
    assert_eq!(
        begin_session(&mut slot, 8),
        Err(MetadataReadStatsSessionError::ThreadSessionAlreadyActive)
    );
    assert_eq!(
        finish_session(&mut slot, 8),
        Err(MetadataReadStatsSessionError::ThreadSessionStoreMismatch)
    );
    record_point(&mut slot, 7, MetadataPointReadSource::System, None);
    record_point(&mut slot, 7, MetadataPointReadSource::RootFence, Some(3));
    let stats = finish_session(&mut slot, 7).unwrap();
    assert_eq!(stats.point_reads_total(), 2);
    assert_eq!(stats.point_hits, 1);
    assert_eq!(stats.point_misses, 1);
    assert_eq!(stats.point_value_bytes, 3);
    assert!(MetadataReadStatsSessionError::StoreSessionAlreadyActive
        .message()
        .contains("active"));
}
