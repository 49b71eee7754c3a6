//! Codecs of the root records.

use nokv_meta::ids::{CommandDigest, LogicalShardId};
use nokv_meta::positions::{CommitVersion, PlacementGeneration};
use nokv_meta::records::{
    checked_u32_length, CommandDedupeRecord, CurrentValue, HistoryValue, RecordCodecError,
    RootFence, VALUE_FORMAT_VERSION,
};
use nokv_meta::states::RootActivationState;

fn commit_version(value: u64) -> CommitVersion {
    CommitVersion::new(value).unwrap()
}

fn assert_every_proper_prefix_is_truncated<T>(
    encoded: &[u8],
    decode: impl Fn(&[u8]) -> Result<T, RecordCodecError>,
) {
    for length in 0..encoded.len() {
        assert!(
            matches!(
                decode(&encoded[..length]),
                Err(RecordCodecError::Truncated { .. })
            ),
            "prefix length {length} was not rejected as truncated"
        );
    }
}

fn assert_trailing_byte_is_rejected<T: std::fmt::Debug>(
    mut encoded: Vec<u8>,
    decode: impl Fn(&[u8]) -> Result<T, RecordCodecError>,
) {
    encoded.push(0);
    assert_eq!(
        decode(&encoded).unwrap_err(),
        RecordCodecError::TrailingBytes { count: 1 }
    );
}

#[test]
fn root_fence_codec_has_frozen_golden_bytes() {
    let record = RootFence {
        logical_shard_id: LogicalShardId::from_bytes([0x11; 16]),
        placement_generation: PlacementGeneration::new(0x0102_0304_0506_0708).unwrap(),
        activation_state: RootActivationState::Active,
    };
    let expected = [
        &[VALUE_FORMAT_VERSION][..],
        &[0x11; 16],
        &0x0102_0304_0506_0708_u64.to_be_bytes(),
        &[2],
    ]
    .concat();

    assert_eq!(record.encode().unwrap(), expected);
    assert_eq!(RootFence::decode(&expected).unwrap(), record);
    assert_every_proper_prefix_is_truncated(&expected, RootFence::decode);
    assert_trailing_byte_is_rejected(expected, RootFence::decode);
}

#[test]
fn current_value_codec_has_frozen_golden_bytes() {
    let record = CurrentValue {
        created_version: commit_version(0x0102_0304_0506_0708),
        modified_version: commit_version(0x1112_1314_1516_1718),
        payload: b"abc".to_vec(),
    };
    let expected = [
        &[VALUE_FORMAT_VERSION][..],
        &0x0102_0304_0506_0708_u64.to_be_bytes(),
        &0x1112_1314_1516_1718_u64.to_be_bytes(),
        &3_u32.to_be_bytes(),
        b"abc",
    ]
    .concat();

    assert_eq!(record.encode().unwrap(), expected);
    assert_eq!(CurrentValue::decode(&expected).unwrap(), record);
    assert_every_proper_prefix_is_truncated(&expected, CurrentValue::decode);
    assert_trailing_byte_is_rejected(expected, CurrentValue::decode);
}

#[test]
fn history_value_codec_distinguishes_tombstone_from_empty_payload() {
    let record = HistoryValue {
        transition_version: commit_version(9),
        previous_created_version: commit_version(3),
        previous_modified_version: commit_version(7),
        previous_payload: Some(Vec::new()),
    };
    let expected = [
        &[VALUE_FORMAT_VERSION][..],
        &9_u64.to_be_bytes(),
        &3_u64.to_be_bytes(),
        &7_u64.to_be_bytes(),
        &[1],
        &0_u32.to_be_bytes(),
    ]
    .concat();

    assert_eq!(record.encode().unwrap(), expected);
    assert_eq!(HistoryValue::decode(&expected).unwrap(), record);
    assert_every_proper_prefix_is_truncated(&expected, HistoryValue::decode);
    assert_trailing_byte_is_rejected(expected, HistoryValue::decode);

    let tombstone = HistoryValue {
        transition_version: commit_version(10),
        previous_created_version: commit_version(3),
        previous_modified_version: commit_version(9),
        previous_payload: None,
    };
    let tombstone_bytes = tombstone.encode().unwrap();
    assert_eq!(tombstone_bytes.len(), 1 + 8 + 8 + 8 + 1);
    assert_eq!(HistoryValue::decode(&tombstone_bytes).unwrap(), tombstone);
}

#[test]
fn command_dedupe_codec_has_frozen_golden_bytes() {
    let record = CommandDedupeRecord {
        command_digest: CommandDigest::from_bytes([0xaa; 32]),
        commit_version: commit_version(11),
        recovery_lsn: 17,
        deterministic_result: b"ok".to_vec(),
    };
    let expected = [
        &[2][..],
        &[0xaa; 32],
        &11_u64.to_be_bytes(),
        &17_u64.to_be_bytes(),
        &2_u32.to_be_bytes(),
        b"ok",
    ]
    .concat();

    assert_eq!(record.encode().unwrap(), expected);
    assert_eq!(CommandDedupeRecord::decode(&expected).unwrap(), record);
    assert_every_proper_prefix_is_truncated(&expected, CommandDedupeRecord::decode);
    assert_trailing_byte_is_rejected(expected, CommandDedupeRecord::decode);
}

#[test]
fn every_codec_rejects_unknown_value_version() {
    let root_fence = RootFence {
        logical_shard_id: LogicalShardId::from_bytes([1; 16]),
        placement_generation: PlacementGeneration::new(1).unwrap(),
        activation_state: RootActivationState::Active,
    };
    let current = CurrentValue {
        created_version: commit_version(1),
        modified_version: commit_version(1),
        payload: Vec::new(),
    };
    let history = HistoryValue {
        transition_version: commit_version(2),
        previous_created_version: commit_version(1),
        previous_modified_version: commit_version(1),
        previous_payload: None,
    };
    let dedupe = CommandDedupeRecord {
        command_digest: CommandDigest::from_bytes([2; 32]),
        commit_version: commit_version(1),
        recovery_lsn: 1,
        deterministic_result: Vec::new(),
    };

    let mut values = [
        root_fence.encode().unwrap(),
        current.encode().unwrap(),
        history.encode().unwrap(),
        dedupe.encode().unwrap(),
    ];
    for value in &mut values {
        value[0] = VALUE_FORMAT_VERSION + 1;
    }
    values[3][0] = 3;
    assert!(matches!(
        RootFence::decode(&values[0]),
        Err(RecordCodecError::UnsupportedValueVersion { .. })
    ));
    assert!(matches!(
        CurrentValue::decode(&values[1]),
        Err(RecordCodecError::UnsupportedValueVersion { .. })
    ));
    assert!(matches!(
        HistoryValue::decode(&values[2]),
        Err(RecordCodecError::UnsupportedValueVersion { .. })
    ));
    assert!(matches!(
        CommandDedupeRecord::decode(&values[3]),
        Err(RecordCodecError::UnsupportedValueVersion { .. })
    ));

    let mut legacy_dedupe = dedupe.encode().unwrap();
    legacy_dedupe[0] = 1;
    assert_eq!(
        CommandDedupeRecord::decode(&legacy_dedupe),
        Err(RecordCodecError::UnsupportedValueVersion {
            actual: 1,
            expected: 2,
        })
    );
}

#[test]
fn codec_rejects_unknown_enum_zero_scalars_and_optional_tags() {
    let record = RootFence {
        logical_shard_id: LogicalShardId::from_bytes([1; 16]),
        placement_generation: PlacementGeneration::new(1).unwrap(),
        activation_state: RootActivationState::Active,
    };

    let mut unknown_state = record.encode().unwrap();
    *unknown_state.last_mut().unwrap() = 0xff;
    assert_eq!(
        RootFence::decode(&unknown_state),
        Err(RecordCodecError::UnknownDiscriminant {
            durable_type: "RootActivationState",
            value: 0xff,
        })
    );

    let mut zero_generation = record.encode().unwrap();
    zero_generation[1 + LogicalShardId::BYTE_WIDTH..1 + LogicalShardId::BYTE_WIDTH + 8].fill(0);
    assert_eq!(
        RootFence::decode(&zero_generation),
        Err(RecordCodecError::ZeroScalar {
            field: "placement_generation",
        })
    );

    let history = HistoryValue {
        transition_version: commit_version(2),
        previous_created_version: commit_version(1),
        previous_modified_version: commit_version(1),
        previous_payload: None,
    };
    let mut invalid_tag = history.encode().unwrap();
    *invalid_tag.last_mut().unwrap() = 2;
    assert_eq!(
        HistoryValue::decode(&invalid_tag),
        Err(RecordCodecError::InvalidOptionalTag {
            field: "previous_payload",
            value: 2,
        })
    );

    let mut zero_created_version = CurrentValue {
        created_version: commit_version(1),
        modified_version: commit_version(1),
        payload: Vec::new(),
    }
    .encode()
    .unwrap();
    zero_created_version[1..9].fill(0);
    assert_eq!(
        CurrentValue::decode(&zero_created_version),
        Err(RecordCodecError::ZeroScalar {
            field: "created_version",
        })
    );
}

#[test]
fn oversized_payload_lengths_fail_before_u32_encoding() {
    let overflow = u32::MAX as usize + 1;
    assert_eq!(
        checked_u32_length("payload", overflow),
        Err(RecordCodecError::LengthOverflow {
            field: "payload",
            length: overflow,
        })
    );
    assert_eq!(
        checked_u32_length("deterministic_result", overflow),
        Err(RecordCodecError::LengthOverflow {
            field: "deterministic_result",
            length: overflow,
        })
    );
    assert_eq!(
        checked_u32_length("previous_payload", u32::MAX as usize),
        Ok(u32::MAX)
    );
}

#[test]
fn declared_payload_length_cannot_run_past_input() {
    let mut current = CurrentValue {
        created_version: commit_version(1),
        modified_version: commit_version(1),
        payload: b"x".to_vec(),
    }
    .encode()
    .unwrap();
    current[17..21].copy_from_slice(&2_u32.to_be_bytes());
    assert_eq!(
        CurrentValue::decode(&current),
        Err(RecordCodecError::Truncated {
            field: "payload",
            needed: 2,
            remaining: 1,
        })
    );
}
