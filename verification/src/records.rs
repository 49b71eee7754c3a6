//! Versioned envelopes of the current, history, fence, and replay families.
//!
//! Every value starts with a format byte, holds its scalars big-endian, and is
//! decoded strictly: the whole input must be one canonical encoding.

use vstd::prelude::*;
use vstd::utf8::*;

use crate::bytes;
use crate::ids::{CommandDigest, LogicalShardId};
use crate::positions::{CommitVersion, PlacementGeneration};
use crate::states::RootActivationState;
use crate::text;

verus! {

/// Initial value format for every durable workspace record.
pub const VALUE_FORMAT_VERSION: u8 = 1;

/// Value format of the command replay record.
pub const COMMAND_DEDUPE_VALUE_FORMAT_VERSION: u8 = 2;

/// Installed shard-local placement fence for one Agent root.
#[derive(Clone, Copy, Debug, PartialEq, Eq)]
pub struct RootFence {
    pub logical_shard_id: LogicalShardId,
    pub placement_generation: PlacementGeneration,
    pub activation_state: RootActivationState,
}

/// Versioned envelope stored by a current-state metadata family.
#[derive(Clone, Debug, PartialEq, Eq)]
pub struct CurrentValue {
    pub created_version: CommitVersion,
    pub modified_version: CommitVersion,
    pub payload: Vec<u8>,
}

/// Previous current-state value retained in the ordered history family.
#[derive(Clone, Debug, PartialEq, Eq)]
pub struct HistoryValue {
    pub transition_version: CommitVersion,
    pub previous_created_version: CommitVersion,
    pub previous_modified_version: CommitVersion,
    pub previous_payload: Option<Vec<u8>>,
}

/// Exact replay result persisted for one metadata command request id.
#[derive(Clone, Debug, PartialEq, Eq)]
pub struct CommandDedupeRecord {
    pub command_digest: CommandDigest,
    pub commit_version: CommitVersion,
    /// Recovery outbox position committed atomically with this result.
    pub recovery_lsn: u64,
    pub deterministic_result: Vec<u8>,
}

/// Strict durable-record decode or encode failure.
#[derive(Clone, Debug, PartialEq, Eq)]
pub enum RecordCodecError {
    UnsupportedValueVersion { actual: u8, expected: u8 },
    UnknownDiscriminant { durable_type: &'static str, value: u8 },
    ZeroScalar { field: &'static str },
    InvalidVersionOrder { created: u64, modified: u64 },
    InvalidHistoryTransition { transition: u64, previous_modified: u64 },
    InvalidOptionalTag { field: &'static str, value: u8 },
    LengthOverflow { field: &'static str, length: usize },
    Truncated { field: &'static str, needed: usize, remaining: usize },
    TrailingBytes { count: usize },
}

impl RecordCodecError {
    /// Bytes of the diagnostic text.
    pub open spec fn message_bytes(self) -> Seq<u8> {
        match self {
            Self::UnsupportedValueVersion { actual, expected } => bytes::utf8(
                "unsupported value format version "@,
            ) + text::decimal(actual as nat) + bytes::utf8(", expected "@) + text::decimal(
                expected as nat,
            ),
            Self::UnknownDiscriminant { durable_type, value } => bytes::utf8("unknown "@)
                + bytes::utf8(durable_type@) + bytes::utf8(" discriminant "@) + text::decimal(
                value as nat,
            ),
            Self::ZeroScalar { field } => bytes::utf8(field@) + bytes::utf8(" must be non-zero"@),
            Self::InvalidVersionOrder { created, modified } => bytes::utf8("modified version "@)
                + text::decimal(modified as nat) + bytes::utf8(" is older than created version "@)
                + text::decimal(created as nat),
            Self::InvalidHistoryTransition { transition, previous_modified } => bytes::utf8(
                "history transition "@,
            ) + text::decimal(transition as nat) + bytes::utf8(
                " must be newer than previous modified version "@,
            ) + text::decimal(previous_modified as nat),
            Self::InvalidOptionalTag { field, value } => bytes::utf8("invalid optional tag "@)
                + text::decimal(value as nat) + bytes::utf8(" for "@) + bytes::utf8(field@),
            Self::LengthOverflow { field, length } => bytes::utf8(field@) + bytes::utf8(
                " length "@,
            ) + text::decimal(length as nat) + bytes::utf8(" exceeds u32"@),
            Self::Truncated { field, needed, remaining } => bytes::utf8("truncated "@)
                + bytes::utf8(field@) + bytes::utf8(": need "@) + text::decimal(needed as nat)
                + bytes::utf8(" bytes, have "@) + text::decimal(remaining as nat),
            Self::TrailingBytes { count } => bytes::utf8("durable value has "@) + text::decimal(
                count as nat,
            ) + bytes::utf8(" trailing bytes"@),
        }
    }

    /// Diagnostic text of this failure.
    pub fn message(&self) -> (message: String)
        ensures
            bytes::utf8(message@) == self.message_bytes(),
    {
        let mut out: Vec<u8> = Vec::new();
        match self {
            Self::UnsupportedValueVersion { actual, expected } => {
                text::push_text(&mut out, "unsupported value format version ");
                text::push_decimal(&mut out, *actual as u64);
                text::push_text(&mut out, ", expected ");
                text::push_decimal(&mut out, *expected as u64);
            },
            Self::UnknownDiscriminant { durable_type, value } => {
                text::push_text(&mut out, "unknown ");
                text::push_text(&mut out, durable_type);
                text::push_text(&mut out, " discriminant ");
                text::push_decimal(&mut out, *value as u64);
            },
            Self::ZeroScalar { field } => {
                text::push_text(&mut out, field);
                text::push_text(&mut out, " must be non-zero");
            },
            Self::InvalidVersionOrder { created, modified } => {
                text::push_text(&mut out, "modified version ");
                text::push_decimal(&mut out, *modified);
                text::push_text(&mut out, " is older than created version ");
                text::push_decimal(&mut out, *created);
            },
            Self::InvalidHistoryTransition { transition, previous_modified } => {
                text::push_text(&mut out, "history transition ");
                text::push_decimal(&mut out, *transition);
                text::push_text(&mut out, " must be newer than previous modified version ");
                text::push_decimal(&mut out, *previous_modified);
            },
            Self::InvalidOptionalTag { field, value } => {
                text::push_text(&mut out, "invalid optional tag ");
                text::push_decimal(&mut out, *value as u64);
                text::push_text(&mut out, " for ");
                text::push_text(&mut out, field);
            },
            Self::LengthOverflow { field, length } => {
                text::push_text(&mut out, field);
                text::push_text(&mut out, " length ");
                text::push_decimal(&mut out, *length as u64);
                text::push_text(&mut out, " exceeds u32");
            },
            Self::Truncated { field, needed, remaining } => {
                text::push_text(&mut out, "truncated ");
                text::push_text(&mut out, field);
                text::push_text(&mut out, ": need ");
                text::push_decimal(&mut out, *needed as u64);
                text::push_text(&mut out, " bytes, have ");
                text::push_decimal(&mut out, *remaining as u64);
            },
            Self::TrailingBytes { count } => {
                text::push_text(&mut out, "durable value has ");
                text::push_decimal(&mut out, *count as u64);
                text::push_text(&mut out, " trailing bytes");
            },
        }
        assert(out@ =~= self.message_bytes());
        text::finish_text(out)
    }
}

/// Splits `width` bytes off the front, or reports what is missing.
pub open spec fn take_field(b: Seq<u8>, field: &'static str, width: nat) -> Result<
    (Seq<u8>, Seq<u8>),
    RecordCodecError,
> {
    if b.len() < width {
        Err(
            RecordCodecError::Truncated {
                field,
                needed: width as usize,
                remaining: b.len() as usize,
            },
        )
    } else {
        Ok((b.take(width as int), b.skip(width as int)))
    }
}

/// Reads one byte off the front.
pub open spec fn parse_u8(b: Seq<u8>, field: &'static str) -> Result<
    (u8, Seq<u8>),
    RecordCodecError,
> {
    match take_field(b, field, 1) {
        Err(e) => Err(e),
        Ok((value, rest)) => Ok((value[0], rest)),
    }
}

/// Reads a 32-bit integer off the front.
pub open spec fn parse_u32(b: Seq<u8>, field: &'static str) -> Result<
    (u32, Seq<u8>),
    RecordCodecError,
> {
    match take_field(b, field, 4) {
        Err(e) => Err(e),
        Ok((value, rest)) => Ok((bytes::from_be32(value), rest)),
    }
}

/// Reads a 64-bit integer off the front.
pub open spec fn parse_u64(b: Seq<u8>, field: &'static str) -> Result<
    (u64, Seq<u8>),
    RecordCodecError,
> {
    match take_field(b, field, 8) {
        Err(e) => Err(e),
        Ok((value, rest)) => Ok((bytes::from_be64(value), rest)),
    }
}

/// Reads a non-zero 64-bit integer off the front.
pub open spec fn parse_position(b: Seq<u8>, field: &'static str) -> Result<
    (u64, Seq<u8>),
    RecordCodecError,
> {
    match parse_u64(b, field) {
        Err(e) => Err(e),
        Ok((value, rest)) => if value == 0 {
            Err(RecordCodecError::ZeroScalar { field })
        } else {
            Ok((value, rest))
        },
    }
}

/// Reads a byte string and its 32-bit length off the front.
pub open spec fn parse_payload(b: Seq<u8>, field: &'static str) -> Result<
    (Seq<u8>, Seq<u8>),
    RecordCodecError,
> {
    match parse_u32(b, field) {
        Err(e) => Err(e),
        Ok((length, rest)) => take_field(rest, field, length as nat),
    }
}

/// Reads the format byte off the front.
pub open spec fn parse_format(b: Seq<u8>, expected: u8) -> Result<Seq<u8>, RecordCodecError> {
    match parse_u8(b, "value_format_version") {
        Err(e) => Err(e),
        Ok((actual, rest)) => if actual == expected {
            Ok(rest)
        } else {
            Err(RecordCodecError::UnsupportedValueVersion { actual, expected })
        },
    }
}

/// Ends a strict decode: nothing may be left.
pub open spec fn parse_end<V>(value: V, rest: Seq<u8>) -> Result<V, RecordCodecError> {
    if rest.len() == 0 {
        Ok(value)
    } else {
        Err(RecordCodecError::TrailingBytes { count: rest.len() as usize })
    }
}

/// A byte string preceded by its 32-bit length.
pub open spec fn length_prefixed(payload: Seq<u8>) -> Seq<u8> {
    bytes::be32(payload.len() as u32) + payload
}

/// Contents of a [`RootFence`].
pub struct RootFenceView {
    pub logical_shard_id: Seq<u8>,
    pub placement_generation: u64,
    pub activation_state: RootActivationState,
}

impl View for RootFence {
    type V = RootFenceView;

    open spec fn view(&self) -> RootFenceView {
        RootFenceView {
            logical_shard_id: self.logical_shard_id@,
            placement_generation: self.placement_generation@,
            activation_state: self.activation_state,
        }
    }
}

impl RootFenceView {
    /// What every fence value satisfies.
    pub open spec fn valid(self) -> bool {
        self.logical_shard_id.len() == 16 && self.placement_generation != 0
    }

    /// Durable bytes of this fence.
    pub open spec fn encoding(self) -> Seq<u8> {
        seq![VALUE_FORMAT_VERSION] + self.logical_shard_id + bytes::be64(self.placement_generation)
            + seq![self.activation_state.byte()]
    }

    /// The fence that `b` encodes, or why it encodes none.
    pub open spec fn parse(b: Seq<u8>) -> Result<Self, RecordCodecError> {
        match parse_format(b, VALUE_FORMAT_VERSION) {
            Err(e) => Err(e),
            Ok(b1) => match take_field(b1, "logical_shard_id", 16) {
                Err(e) => Err(e),
                Ok((logical_shard_id, b2)) => match parse_position(b2, "placement_generation") {
                    Err(e) => Err(e),
                    Ok((placement_generation, b3)) => match parse_u8(b3, "activation_state") {
                        Err(e) => Err(e),
                        Ok((value, b4)) => match RootActivationState::of_byte(value) {
                            None => Err(
                                RecordCodecError::UnknownDiscriminant {
                                    durable_type: RootActivationState::durable_type(),
                                    value,
                                },
                            ),
                            Some(activation_state) => parse_end(
                                RootFenceView {
                                    logical_shard_id,
                                    placement_generation,
                                    activation_state,
                                },
                                b4,
                            ),
                        },
                    },
                },
            },
        }
    }
}

/// Contents of a [`CurrentValue`].
pub struct CurrentValueView {
    pub created_version: u64,
    pub modified_version: u64,
    pub payload: Seq<u8>,
}

impl View for CurrentValue {
    type V = CurrentValueView;

    open spec fn view(&self) -> CurrentValueView {
        CurrentValueView {
            created_version: self.created_version@,
            modified_version: self.modified_version@,
            payload: self.payload@,
        }
    }
}

impl CurrentValueView {
    /// The values that have an encoding.
    pub open spec fn valid(self) -> bool {
        &&& self.created_version != 0
        &&& self.modified_version != 0
        &&& self.created_version <= self.modified_version
        &&& self.payload.len() <= u32::MAX
    }

    /// Why this value has no encoding, if it has none.
    pub open spec fn check(self) -> Result<(), RecordCodecError> {
        if self.modified_version < self.created_version {
            Err(
                RecordCodecError::InvalidVersionOrder {
                    created: self.created_version,
                    modified: self.modified_version,
                },
            )
        } else if self.payload.len() > u32::MAX {
            Err(
                RecordCodecError::LengthOverflow {
                    field: "payload",
                    length: self.payload.len() as usize,
                },
            )
        } else {
            Ok(())
        }
    }

    /// Durable bytes of this value.
    pub open spec fn encoding(self) -> Seq<u8> {
        seq![VALUE_FORMAT_VERSION] + bytes::be64(self.created_version) + bytes::be64(
            self.modified_version,
        ) + length_prefixed(self.payload)
    }

    /// The value that `b` encodes, or why it encodes none.
    pub open spec fn parse(b: Seq<u8>) -> Result<Self, RecordCodecError> {
        match parse_format(b, VALUE_FORMAT_VERSION) {
            Err(e) => Err(e),
            Ok(b1) => match parse_position(b1, "created_version") {
                Err(e) => Err(e),
                Ok((created_version, b2)) => match parse_position(b2, "modified_version") {
                    Err(e) => Err(e),
                    Ok((modified_version, b3)) => if modified_version < created_version {
                        Err(
                            RecordCodecError::InvalidVersionOrder {
                                created: created_version,
                                modified: modified_version,
                            },
                        )
                    } else {
                        match parse_payload(b3, "payload") {
                            Err(e) => Err(e),
                            Ok((payload, b4)) => parse_end(
                                CurrentValueView { created_version, modified_version, payload },
                                b4,
                            ),
                        }
                    },
                },
            },
        }
    }
}

/// Contents of a [`HistoryValue`].
pub struct HistoryValueView {
    pub transition_version: u64,
    pub previous_created_version: u64,
    pub previous_modified_version: u64,
    pub previous_payload: Option<Seq<u8>>,
}

impl View for HistoryValue {
    type V = HistoryValueView;

    open spec fn view(&self) -> HistoryValueView {
        HistoryValueView {
            transition_version: self.transition_version@,
            previous_created_version: self.previous_created_version@,
            previous_modified_version: self.previous_modified_version@,
            previous_payload: match self.previous_payload {
                None => None,
                Some(payload) => Some(payload@),
            },
        }
    }
}

impl HistoryValueView {
    /// The values that have an encoding.
    pub open spec fn valid(self) -> bool {
        &&& self.previous_created_version != 0
        &&& self.previous_created_version <= self.previous_modified_version
        &&& self.previous_modified_version < self.transition_version
        &&& (self.previous_payload matches Some(payload) ==> payload.len() <= u32::MAX)
    }

    /// Why this value has no encoding, if it has none.
    pub open spec fn check(self) -> Result<(), RecordCodecError> {
        if self.previous_modified_version < self.previous_created_version {
            Err(
                RecordCodecError::InvalidVersionOrder {
                    created: self.previous_created_version,
                    modified: self.previous_modified_version,
                },
            )
        } else if self.transition_version <= self.previous_modified_version {
            Err(
                RecordCodecError::InvalidHistoryTransition {
                    transition: self.transition_version,
                    previous_modified: self.previous_modified_version,
                },
            )
        } else {
            match self.previous_payload {
                None => Ok(()),
                Some(payload) => if payload.len() > u32::MAX {
                    Err(
                        RecordCodecError::LengthOverflow {
                            field: "previous_payload",
                            length: payload.len() as usize,
                        },
                    )
                } else {
                    Ok(())
                },
            }
        }
    }

    /// Bytes of the optional payload: a tag, then the payload if there is one.
    pub open spec fn payload_encoding(self) -> Seq<u8> {
        match self.previous_payload {
            None => seq![0u8],
            Some(payload) => seq![1u8] + length_prefixed(payload),
        }
    }

    /// Durable bytes of this value.
    pub open spec fn encoding(self) -> Seq<u8> {
        seq![VALUE_FORMAT_VERSION] + bytes::be64(self.transition_version) + bytes::be64(
            self.previous_created_version,
        ) + bytes::be64(self.previous_modified_version) + self.payload_encoding()
    }

    /// Reads the optional payload off the front.
    pub open spec fn parse_previous_payload(b: Seq<u8>) -> Result<
        (Option<Seq<u8>>, Seq<u8>),
        RecordCodecError,
    > {
        match parse_u8(b, "previous_payload tag") {
            Err(e) => Err(e),
            Ok((tag, b1)) => if tag == 0 {
                Ok((None, b1))
            } else if tag == 1 {
                match parse_payload(b1, "previous_payload") {
                    Err(e) => Err(e),
                    Ok((payload, b2)) => Ok((Some(payload), b2)),
                }
            } else {
                Err(RecordCodecError::InvalidOptionalTag { field: "previous_payload", value: tag })
            },
        }
    }

    /// The value that `b` encodes, or why it encodes none.
    pub open spec fn parse(b: Seq<u8>) -> Result<Self, RecordCodecError> {
        match parse_format(b, VALUE_FORMAT_VERSION) {
            Err(e) => Err(e),
            Ok(b1) => match parse_position(b1, "transition_version") {
                Err(e) => Err(e),
                Ok((transition_version, b2)) => match parse_position(
                    b2,
                    "previous_created_version",
                ) {
                    Err(e) => Err(e),
                    Ok((previous_created_version, b3)) => match parse_position(
                        b3,
                        "previous_modified_version",
                    ) {
                        Err(e) => Err(e),
                        Ok((previous_modified_version, b4)) => if previous_modified_version
                            < previous_created_version {
                            Err(
                                RecordCodecError::InvalidVersionOrder {
                                    created: previous_created_version,
                                    modified: previous_modified_version,
                                },
                            )
                        } else if transition_version <= previous_modified_version {
                            Err(
                                RecordCodecError::InvalidHistoryTransition {
                                    transition: transition_version,
                                    previous_modified: previous_modified_version,
                                },
                            )
                        } else {
                            match Self::parse_previous_payload(b4) {
                                Err(e) => Err(e),
                                Ok((previous_payload, b5)) => parse_end(
                                    HistoryValueView {
                                        transition_version,
                                        previous_created_version,
                                        previous_modified_version,
                                        previous_payload,
                                    },
                                    b5,
                                ),
                            }
                        },
                    },
                },
            },
        }
    }
}

/// Contents of a [`CommandDedupeRecord`].
pub struct CommandDedupeRecordView {
    pub command_digest: Seq<u8>,
    pub commit_version: u64,
    pub recovery_lsn: u64,
    pub deterministic_result: Seq<u8>,
}

impl View for CommandDedupeRecord {
    type V = CommandDedupeRecordView;

    open spec fn view(&self) -> CommandDedupeRecordView {
        CommandDedupeRecordView {
            command_digest: self.command_digest@,
            commit_version: self.commit_version@,
            recovery_lsn: self.recovery_lsn,
            deterministic_result: self.deterministic_result@,
        }
    }
}

impl CommandDedupeRecordView {
    /// The records that have an encoding.
    pub open spec fn valid(self) -> bool {
        &&& self.command_digest.len() == 32
        &&& self.commit_version != 0
        &&& self.recovery_lsn != 0
        &&& self.deterministic_result.len() <= u32::MAX
    }

    /// Why this record has no encoding, if it has none.
    pub open spec fn check(self) -> Result<(), RecordCodecError> {
        if self.recovery_lsn == 0 {
            Err(RecordCodecError::ZeroScalar { field: "recovery_lsn" })
        } else if self.deterministic_result.len() > u32::MAX {
            Err(
                RecordCodecError::LengthOverflow {
                    field: "deterministic_result",
                    length: self.deterministic_result.len() as usize,
                },
            )
        } else {
            Ok(())
        }
    }

    /// Durable bytes of this record.
    pub open spec fn encoding(self) -> Seq<u8> {
        seq![COMMAND_DEDUPE_VALUE_FORMAT_VERSION] + self.command_digest + bytes::be64(
            self.commit_version,
        ) + bytes::be64(self.recovery_lsn) + length_prefixed(self.deterministic_result)
    }

    /// The record that `b` encodes, or why it encodes none.
    pub open spec fn parse(b: Seq<u8>) -> Result<Self, RecordCodecError> {
        match parse_format(b, COMMAND_DEDUPE_VALUE_FORMAT_VERSION) {
            Err(e) => Err(e),
            Ok(b1) => match take_field(b1, "command_digest", 32) {
                Err(e) => Err(e),
                Ok((command_digest, b2)) => match parse_position(b2, "commit_version") {
                    Err(e) => Err(e),
                    Ok((commit_version, b3)) => match parse_position(b3, "recovery_lsn") {
                        Err(e) => Err(e),
                        Ok((recovery_lsn, b4)) => match parse_payload(b4, "deterministic_result") {
                            Err(e) => Err(e),
                            Ok((deterministic_result, b5)) => parse_end(
                                CommandDedupeRecordView {
                                    command_digest,
                                    commit_version,
                                    recovery_lsn,
                                    deterministic_result,
                                },
                                b5,
                            ),
                        },
                    },
                },
            },
        }
    }
}

/// The result of a decode, seen as contents.
pub open spec fn decoded<R: View>(result: Result<R, RecordCodecError>) -> Result<
    R::V,
    RecordCodecError,
> {
    match result {
        Ok(record) => Ok(record@),
        Err(e) => Err(e),
    }
}

/// The result of an encode, seen as bytes: the encoding when the check passes,
/// and otherwise the failure that the check names.
pub open spec fn encoded_as(
    result: Result<Vec<u8>, RecordCodecError>,
    check: Result<(), RecordCodecError>,
    encoding: Seq<u8>,
) -> bool {
    match check {
        Ok(()) => result matches Ok(out) && out@ == encoding,
        Err(e) => result == Err::<Vec<u8>, RecordCodecError>(e),
    }
}

impl RootFence {
    /// Durable bytes of this fence. This never fails.
    pub fn encode(&self) -> (result: Result<Vec<u8>, RecordCodecError>)
        ensures
            result matches Ok(out) && out@ == self@.encoding(),
            self@.valid(),
    {
        let mut encoded: Vec<u8> = Vec::new();
        encoded.push(VALUE_FORMAT_VERSION);
        assert(encoded@ =~= seq![VALUE_FORMAT_VERSION]);
        bytes::push_bytes(&mut encoded, self.logical_shard_id.as_bytes().as_slice());
        bytes::push_u64(&mut encoded, self.placement_generation.get());
        bytes::push_u8(&mut encoded, self.activation_state.to_byte());
        Ok(encoded)
    }

    /// Decodes one fence from exactly its durable bytes.
    pub fn decode(encoded: &[u8]) -> (result: Result<Self, RecordCodecError>)
        ensures
            decoded(result) == RootFenceView::parse(encoded@),
    {
        let mut decoder = Decoder::new(encoded);
        decoder.require_format(VALUE_FORMAT_VERSION)?;
        let logical_shard_id = LogicalShardId::from_bytes(decoder.fixed::<16>("logical_shard_id")?);
        let placement_generation = match PlacementGeneration::new(
            decoder.u64("placement_generation")?,
        ) {
            Ok(generation) => generation,
            Err(_) => {
                return Err(RecordCodecError::ZeroScalar { field: "placement_generation" });
            },
        };
        let activation_state = match RootActivationState::try_from(
            decoder.u8("activation_state")?,
        ) {
            Ok(state) => state,
            Err(error) => {
                return Err(
                    RecordCodecError::UnknownDiscriminant {
                        durable_type: error.durable_type,
                        value: error.value,
                    },
                );
            },
        };
        decoder.finish()?;
        Ok(Self { logical_shard_id, placement_generation, activation_state })
    }
}

impl CurrentValue {
    /// Durable bytes of this value, if its versions are ordered and its
    /// payload length fits 32 bits.
    pub fn encode(&self) -> (result: Result<Vec<u8>, RecordCodecError>)
        ensures
            encoded_as(result, self@.check(), self@.encoding()),
            result is Ok <==> self@.valid(),
    {
        let created: u64 = self.created_version.get();
        let modified: u64 = self.modified_version.get();
        if modified < created {
            return Err(RecordCodecError::InvalidVersionOrder { created, modified });
        }
        let payload_length: u32 = checked_u32_length("payload", self.payload.len())?;
        let mut encoded: Vec<u8> = Vec::new();
        encoded.push(VALUE_FORMAT_VERSION);
        assert(encoded@ =~= seq![VALUE_FORMAT_VERSION]);
        bytes::push_u64(&mut encoded, created);
        bytes::push_u64(&mut encoded, modified);
        bytes::push_u32(&mut encoded, payload_length);
        bytes::push_bytes(&mut encoded, self.payload.as_slice());
        assert(encoded@ =~= self@.encoding());
        Ok(encoded)
    }

    /// Decodes one value from exactly its durable bytes.
    pub fn decode(encoded: &[u8]) -> (result: Result<Self, RecordCodecError>)
        ensures
            decoded(result) == CurrentValueView::parse(encoded@),
    {
        let mut decoder = Decoder::new(encoded);
        decoder.require_format(VALUE_FORMAT_VERSION)?;
        let created_version = decoder.commit_version("created_version")?;
        let modified_version = decoder.commit_version("modified_version")?;
        let created: u64 = created_version.get();
        let modified: u64 = modified_version.get();
        if modified < created {
            return Err(RecordCodecError::InvalidVersionOrder { created, modified });
        }
        let payload = decoder.length_prefixed_bytes("payload")?;
        decoder.finish()?;
        Ok(Self { created_version, modified_version, payload })
    }
}

impl HistoryValue {
    /// Durable bytes of this value, if its versions are ordered and its
    /// payload length fits 32 bits.
    pub fn encode(&self) -> (result: Result<Vec<u8>, RecordCodecError>)
        ensures
            encoded_as(result, self@.check(), self@.encoding()),
            result is Ok <==> self@.valid(),
    {
        let transition: u64 = self.transition_version.get();
        let created: u64 = self.previous_created_version.get();
        let modified: u64 = self.previous_modified_version.get();
        if modified < created {
            return Err(RecordCodecError::InvalidVersionOrder { created, modified });
        }
        if transition <= modified {
            return Err(
                RecordCodecError::InvalidHistoryTransition {
                    transition,
                    previous_modified: modified,
                },
            );
        }
        let mut encoded: Vec<u8> = Vec::new();
        encoded.push(VALUE_FORMAT_VERSION);
        assert(encoded@ =~= seq![VALUE_FORMAT_VERSION]);
        bytes::push_u64(&mut encoded, transition);
        bytes::push_u64(&mut encoded, created);
        bytes::push_u64(&mut encoded, modified);
        match &self.previous_payload {
            None => {
                bytes::push_u8(&mut encoded, 0);
            },
            Some(payload) => {
                let payload_length: u32 = checked_u32_length("previous_payload", payload.len())?;
                bytes::push_u8(&mut encoded, 1);
                bytes::push_u32(&mut encoded, payload_length);
                bytes::push_bytes(&mut encoded, payload.as_slice());
            },
        }
        assert(encoded@ =~= self@.encoding());
        Ok(encoded)
    }

    /// Decodes one value from exactly its durable bytes.
    pub fn decode(encoded: &[u8]) -> (result: Result<Self, RecordCodecError>)
        ensures
            decoded(result) == HistoryValueView::parse(encoded@),
    {
        let mut decoder = Decoder::new(encoded);
        decoder.require_format(VALUE_FORMAT_VERSION)?;
        let transition_version = decoder.commit_version("transition_version")?;
        let previous_created_version = decoder.commit_version("previous_created_version")?;
        let previous_modified_version = decoder.commit_version("previous_modified_version")?;
        let transition: u64 = transition_version.get();
        let created: u64 = previous_created_version.get();
        let modified: u64 = previous_modified_version.get();
        if modified < created {
            return Err(RecordCodecError::InvalidVersionOrder { created, modified });
        }
        if transition <= modified {
            return Err(
                RecordCodecError::InvalidHistoryTransition {
                    transition,
                    previous_modified: modified,
                },
            );
        }
        let tag: u8 = decoder.u8("previous_payload tag")?;
        let previous_payload = if tag == 0 {
            None
        } else if tag == 1 {
            Some(decoder.length_prefixed_bytes("previous_payload")?)
        } else {
            return Err(
                RecordCodecError::InvalidOptionalTag { field: "previous_payload", value: tag },
            );
        };
        decoder.finish()?;
        Ok(
            Self {
                transition_version,
                previous_created_version,
                previous_modified_version,
                previous_payload,
            },
        )
    }
}

impl CommandDedupeRecord {
    /// Durable bytes of this record, if its recovery position is non-zero and
    /// its result length fits 32 bits.
    pub fn encode(&self) -> (result: Result<Vec<u8>, RecordCodecError>)
        ensures
            encoded_as(result, self@.check(), self@.encoding()),
            result is Ok <==> self@.valid(),
    {
        let commit_version: u64 = self.commit_version.get();
        let command_digest = self.command_digest.as_bytes();
        if self.recovery_lsn == 0 {
            return Err(RecordCodecError::ZeroScalar { field: "recovery_lsn" });
        }
        let result_length: u32 = checked_u32_length(
            "deterministic_result",
            self.deterministic_result.len(),
        )?;
        let mut encoded: Vec<u8> = Vec::new();
        encoded.push(COMMAND_DEDUPE_VALUE_FORMAT_VERSION);
        assert(encoded@ =~= seq![COMMAND_DEDUPE_VALUE_FORMAT_VERSION]);
        bytes::push_bytes(&mut encoded, command_digest.as_slice());
        bytes::push_u64(&mut encoded, commit_version);
        bytes::push_u64(&mut encoded, self.recovery_lsn);
        bytes::push_u32(&mut encoded, result_length);
        bytes::push_bytes(&mut encoded, self.deterministic_result.as_slice());
        assert(encoded@ =~= self@.encoding());
        Ok(encoded)
    }

    /// Decodes one record from exactly its durable bytes.
    pub fn decode(encoded: &[u8]) -> (result: Result<Self, RecordCodecError>)
        ensures
            decoded(result) == CommandDedupeRecordView::parse(encoded@),
    {
        let mut decoder = Decoder::new(encoded);
        decoder.require_format(COMMAND_DEDUPE_VALUE_FORMAT_VERSION)?;
        let command_digest = CommandDigest::from_bytes(decoder.fixed::<32>("command_digest")?);
        let commit_version = decoder.commit_version("commit_version")?;
        let recovery_lsn: u64 = decoder.u64("recovery_lsn")?;
        if recovery_lsn == 0 {
            return Err(RecordCodecError::ZeroScalar { field: "recovery_lsn" });
        }
        let deterministic_result = decoder.length_prefixed_bytes("deterministic_result")?;
        decoder.finish()?;
        Ok(Self { command_digest, commit_version, recovery_lsn, deterministic_result })
    }
}

/// The length as 32 bits, if it fits.
pub fn checked_u32_length(field: &'static str, length: usize) -> (result: Result<
    u32,
    RecordCodecError,
>)
    ensures
        result == if length <= u32::MAX {
            Ok::<u32, RecordCodecError>(length as u32)
        } else {
            Err(RecordCodecError::LengthOverflow { field, length })
        },
{
    if length <= u32::MAX as usize {
        Ok(length as u32)
    } else {
        Err(RecordCodecError::LengthOverflow { field, length })
    }
}

/// Strict reader over one durable value.
struct Decoder<'a> {
    encoded: &'a [u8],
    offset: usize,
}

impl<'a> Decoder<'a> {
    /// The offset never passes the end.
    spec fn inv(self) -> bool {
        self.offset <= self.encoded@.len()
    }

    /// The bytes that have not been read.
    spec fn rest(self) -> Seq<u8> {
        self.encoded@.skip(self.offset as int)
    }

    fn new(encoded: &'a [u8]) -> (decoder: Self)
        ensures
            decoder.inv(),
            decoder.rest() == encoded@,
    {
        assert(encoded@.skip(0) =~= encoded@);
        Self { encoded, offset: 0 }
    }

    fn require_format(&mut self, expected: u8) -> (result: Result<(), RecordCodecError>)
        requires
            old(self).inv(),
        ensures
            final(self).inv(),
            match result {
                Ok(()) => parse_format(old(self).rest(), expected) == Ok::<
                    Seq<u8>,
                    RecordCodecError,
                >(final(self).rest()),
                Err(e) => parse_format(old(self).rest(), expected) == Err::<
                    Seq<u8>,
                    RecordCodecError,
                >(e),
            },
    {
        let actual: u8 = self.u8("value_format_version")?;
        if actual == expected {
            Ok(())
        } else {
            Err(RecordCodecError::UnsupportedValueVersion { actual, expected })
        }
    }

    fn u8(&mut self, field: &'static str) -> (result: Result<u8, RecordCodecError>)
        requires
            old(self).inv(),
        ensures
            final(self).inv(),
            match result {
                Ok(v) => parse_u8(old(self).rest(), field) == Ok::<
                    (u8, Seq<u8>),
                    RecordCodecError,
                >((v, final(self).rest())),
                Err(e) => parse_u8(old(self).rest(), field) == Err::<
                    (u8, Seq<u8>),
                    RecordCodecError,
                >(e),
            },
    {
        Ok(self.take(field, 1)?[0])
    }

    fn u32(&mut self, field: &'static str) -> (result: Result<u32, RecordCodecError>)
        requires
            old(self).inv(),
        ensures
            final(self).inv(),
            match result {
                Ok(v) => parse_u32(old(self).rest(), field) == Ok::<
                    (u32, Seq<u8>),
                    RecordCodecError,
                >((v, final(self).rest())),
                Err(e) => parse_u32(old(self).rest(), field) == Err::<
                    (u32, Seq<u8>),
                    RecordCodecError,
                >(e),
            },
    {
        Ok(bytes::read_u32(self.take(field, 4)?))
    }

    fn u64(&mut self, field: &'static str) -> (result: Result<u64, RecordCodecError>)
        requires
            old(self).inv(),
        ensures
            final(self).inv(),
            match result {
                Ok(v) => parse_u64(old(self).rest(), field) == Ok::<
                    (u64, Seq<u8>),
                    RecordCodecError,
                >((v, final(self).rest())),
                Err(e) => parse_u64(old(self).rest(), field) == Err::<
                    (u64, Seq<u8>),
                    RecordCodecError,
                >(e),
            },
    {
        Ok(bytes::read_u64(self.take(field, 8)?))
    }

    fn commit_version(&mut self, field: &'static str) -> (result: Result<
        CommitVersion,
        RecordCodecError,
    >)
        requires
            old(self).inv(),
        ensures
            final(self).inv(),
            match result {
                Ok(v) => parse_position(old(self).rest(), field) == Ok::<
                    (u64, Seq<u8>),
                    RecordCodecError,
                >((v@, final(self).rest())),
                Err(e) => parse_position(old(self).rest(), field) == Err::<
                    (u64, Seq<u8>),
                    RecordCodecError,
                >(e),
            },
    {
        match CommitVersion::new(self.u64(field)?) {
            Ok(version) => Ok(version),
            Err(_) => Err(RecordCodecError::ZeroScalar { field }),
        }
    }

    fn fixed<const N: usize>(&mut self, field: &'static str) -> (result: Result<
        [u8; N],
        RecordCodecError,
    >)
        requires
            old(self).inv(),
        ensures
            final(self).inv(),
            match result {
                Ok(v) => take_field(old(self).rest(), field, N as nat) == Ok::<
                    (Seq<u8>, Seq<u8>),
                    RecordCodecError,
                >((v@, final(self).rest())),
                Err(e) => take_field(old(self).rest(), field, N as nat) == Err::<
                    (Seq<u8>, Seq<u8>),
                    RecordCodecError,
                >(e),
            },
    {
        Ok(bytes::array_from::<N>(self.take(field, N)?))
    }

    fn length_prefixed_bytes(&mut self, field: &'static str) -> (result: Result<
        Vec<u8>,
        RecordCodecError,
    >)
        requires
            old(self).inv(),
        ensures
            final(self).inv(),
            match result {
                Ok(v) => parse_payload(old(self).rest(), field) == Ok::<
                    (Seq<u8>, Seq<u8>),
                    RecordCodecError,
                >((v@, final(self).rest())),
                Err(e) => parse_payload(old(self).rest(), field) == Err::<
                    (Seq<u8>, Seq<u8>),
                    RecordCodecError,
                >(e),
            },
    {
        let length: usize = self.u32(field)? as usize;
        Ok(vstd::slice::slice_to_vec(self.take(field, length)?))
    }

    fn take(&mut self, field: &'static str, length: usize) -> (result: Result<
        &'a [u8],
        RecordCodecError,
    >)
        requires
            old(self).inv(),
        ensures
            final(self).inv(),
            match result {
                Ok(v) => take_field(old(self).rest(), field, length as nat) == Ok::<
                    (Seq<u8>, Seq<u8>),
                    RecordCodecError,
                >((v@, final(self).rest())) && v@.len() == length,
                Err(e) => take_field(old(self).rest(), field, length as nat) == Err::<
                    (Seq<u8>, Seq<u8>),
                    RecordCodecError,
                >(e),
            },
    {
        let remaining: usize = self.encoded.len() - self.offset;
        if remaining < length {
            return Err(RecordCodecError::Truncated { field, needed: length, remaining });
        }
        let end: usize = self.offset + length;
        let value = vstd::slice::slice_subrange(self.encoded, self.offset, end);
        proof {
            assert(value@ =~= self.rest().take(length as int));
            assert(self.encoded@.skip(end as int) =~= self.rest().skip(length as int));
        }
        self.offset = end;
        Ok(value)
    }

    fn finish(&self) -> (result: Result<(), RecordCodecError>)
        requires
            self.inv(),
        ensures
            result == parse_end((), self.rest()),
    {
        let count: usize = self.encoded.len() - self.offset;
        if count == 0 {
            Ok(())
        } else {
            Err(RecordCodecError::TrailingBytes { count })
        }
    }
}

} // verus!
