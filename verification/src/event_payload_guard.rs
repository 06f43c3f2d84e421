use vstd::prelude::*;
use crate::ident::{byte_len, utf8_len, Symbol};

verus! {

/// Largest description and metadata together, in bytes.
pub const MAX_PAYLOAD_BYTES: u32 = 200;
pub const MAX_DESCRIPTION_BYTES: u32 = 128;
pub const MAX_METADATA_BYTES: u32 = 96;

#[derive(Clone, Copy, Debug, PartialEq, Eq, Structural)]
pub enum PayloadError {
    DescriptionEmpty,
    DescriptionTooLarge,
    MetadataTooLarge,
    PayloadTooLarge,
}

impl PayloadError {
    /// The number published for this error (its position in the list).
    pub fn code(&self) -> (c: u32)
        ensures
            c == match *self {
                PayloadError::DescriptionEmpty => 0u32,
                PayloadError::DescriptionTooLarge => 1u32,
                PayloadError::MetadataTooLarge => 2u32,
                PayloadError::PayloadTooLarge => 3u32,
            },
    {
        match self {
            PayloadError::DescriptionEmpty => 0,
            PayloadError::DescriptionTooLarge => 1,
            PayloadError::MetadataTooLarge => 2,
            PayloadError::PayloadTooLarge => 3,
        }
    }
}

/// The sizes of a payload and whether it fits the limits.
#[derive(Clone, Copy, Debug, PartialEq, Eq, Structural)]
pub struct PayloadReport {
    pub description_bytes: u32,
    pub metadata_bytes: u32,
    pub total_bytes: u32,
    pub remaining_bytes: u32,
    pub within_limits: bool,
}

/// What the payload guard publishes.
pub enum PayloadEvent {
    Rejected { outage_id: Symbol, code: u32 },
    Accepted { outage_id: Symbol, total_bytes: u32 },
}

/// Size of `description` in bytes.
pub fn description_bytes(description: &String) -> (n: u32)
    requires
        utf8_len(description@) <= u32::MAX,
    ensures
        n == utf8_len(description@),
{
    byte_len(description) as u32
}

/// Size of `metadata` in bytes.
pub fn metadata_bytes(metadata: &String) -> (n: u32)
    requires
        utf8_len(metadata@) <= u32::MAX,
    ensures
        n == utf8_len(metadata@),
{
    byte_len(metadata) as u32
}

/// Both texts together fit a `u32` count of bytes.
pub open spec fn sizes_fit(description: Seq<char>, metadata: Seq<char>) -> bool {
    utf8_len(description) + utf8_len(metadata) <= u32::MAX
}

/// Size of both texts together, in bytes.
pub fn total_bytes(description: &String, metadata: &String) -> (n: u32)
    requires
        sizes_fit(description@, metadata@),
    ensures
        n == utf8_len(description@) + utf8_len(metadata@),
{
    description_bytes(description) + metadata_bytes(metadata)
}

/// Bytes left under `MAX_PAYLOAD_BYTES`; zero once over it.
pub open spec fn remaining_of(description: Seq<char>, metadata: Seq<char>) -> int {
    let total = utf8_len(description) + utf8_len(metadata);
    if total < MAX_PAYLOAD_BYTES {
        MAX_PAYLOAD_BYTES - total
    } else {
        0
    }
}

pub fn remaining_budget(description: &String, metadata: &String) -> (n: u32)
    requires
        sizes_fit(description@, metadata@),
    ensures
        n == remaining_of(description@, metadata@),
{
    MAX_PAYLOAD_BYTES.saturating_sub(total_bytes(description, metadata))
}

/// A description must hold from 1 to `MAX_DESCRIPTION_BYTES` bytes; its
/// size is returned.
pub open spec fn description_check(description: Seq<char>) -> Result<u32, PayloadError> {
    if utf8_len(description) == 0 {
        Err(PayloadError::DescriptionEmpty)
    } else if utf8_len(description) > MAX_DESCRIPTION_BYTES {
        Err(PayloadError::DescriptionTooLarge)
    } else {
        Ok(utf8_len(description) as u32)
    }
}

pub fn validate_description(description: &String) -> (r: Result<u32, PayloadError>)
    requires
        utf8_len(description@) <= u32::MAX,
    ensures
        r == description_check(description@),
{
    let bytes = description_bytes(description);
    if bytes == 0 {
        return Err(PayloadError::DescriptionEmpty);
    }
    if bytes > MAX_DESCRIPTION_BYTES {
        return Err(PayloadError::DescriptionTooLarge);
    }
    Ok(bytes)
}

/// Metadata may hold up to `MAX_METADATA_BYTES` bytes; its size is
/// returned.
pub open spec fn metadata_check(metadata: Seq<char>) -> Result<u32, PayloadError> {
    if utf8_len(metadata) > MAX_METADATA_BYTES {
        Err(PayloadError::MetadataTooLarge)
    } else {
        Ok(utf8_len(metadata) as u32)
    }
}

pub fn validate_metadata(metadata: &String) -> (r: Result<u32, PayloadError>)
    requires
        utf8_len(metadata@) <= u32::MAX,
    ensures
        r == metadata_check(metadata@),
{
    let bytes = metadata_bytes(metadata);
    if bytes > MAX_METADATA_BYTES {
        return Err(PayloadError::MetadataTooLarge);
    }
    Ok(bytes)
}

/// A payload passes when its description and metadata each do and
/// together they take at most `MAX_PAYLOAD_BYTES`; the total is returned.
/// The description is checked first.
pub open spec fn payload_check(description: Seq<char>, metadata: Seq<char>) -> Result<u32, PayloadError> {
    match description_check(description) {
        Err(e) => Err(e),
        Ok(d) => match metadata_check(metadata) {
            Err(e) => Err(e),
            Ok(m) => if d + m > MAX_PAYLOAD_BYTES {
                Err(PayloadError::PayloadTooLarge)
            } else {
                Ok((d + m) as u32)
            },
        },
    }
}

pub fn validate_payload(description: &String, metadata: &String) -> (r: Result<u32, PayloadError>)
    requires
        utf8_len(description@) <= u32::MAX,
        utf8_len(metadata@) <= u32::MAX,
    ensures
        r == payload_check(description@, metadata@),
{
    let description_size = match validate_description(description) {
        Ok(n) => n,
        Err(e) => return Err(e),
    };
    let metadata_size = match validate_metadata(metadata) {
        Ok(n) => n,
        Err(e) => return Err(e),
    };
    let total = description_size + metadata_size;
    if total > MAX_PAYLOAD_BYTES {
        return Err(PayloadError::PayloadTooLarge);
    }
    Ok(total)
}

/// The report on a payload: each size, the total, the budget left, and
/// whether every limit holds.
pub open spec fn report_of(description: Seq<char>, metadata: Seq<char>) -> PayloadReport {
    let d = utf8_len(description);
    let m = utf8_len(metadata);
    PayloadReport {
        description_bytes: d as u32,
        metadata_bytes: m as u32,
        total_bytes: (d + m) as u32,
        remaining_bytes: remaining_of(description, metadata) as u32,
        within_limits: d + m <= MAX_PAYLOAD_BYTES && d <= MAX_DESCRIPTION_BYTES && d > 0 && m
            <= MAX_METADATA_BYTES,
    }
}

pub fn inspect(description: &String, metadata: &String) -> (r: PayloadReport)
    requires
        sizes_fit(description@, metadata@),
    ensures
        r == report_of(description@, metadata@),
{
    let description_size = description_bytes(description);
    let metadata_size = metadata_bytes(metadata);
    let total = description_size + metadata_size;
    let within_limits = total <= MAX_PAYLOAD_BYTES && description_size <= MAX_DESCRIPTION_BYTES
        && description_size > 0 && metadata_size <= MAX_METADATA_BYTES;
    PayloadReport {
        description_bytes: description_size,
        metadata_bytes: metadata_size,
        total_bytes: total,
        remaining_bytes: remaining_budget(description, metadata),
        within_limits,
    }
}

/// Whether the payload fits every limit.
pub fn fits(description: &String, metadata: &String) -> (b: bool)
    requires
        sizes_fit(description@, metadata@),
    ensures
        b == report_of(description@, metadata@).within_limits,
{
    inspect(description, metadata).within_limits
}

/// Publishes that the payload of `outage_id` was refused, with the
/// error's number.
pub fn emit_rejection(events: &mut Vec<PayloadEvent>, outage_id: Symbol, error: PayloadError)
    ensures
        final(events)@ == old(events)@.push(
            PayloadEvent::Rejected {
                outage_id,
                code: match error {
                    PayloadError::DescriptionEmpty => 0u32,
                    PayloadError::DescriptionTooLarge => 1u32,
                    PayloadError::MetadataTooLarge => 2u32,
                    PayloadError::PayloadTooLarge => 3u32,
                },
            },
        ),
{
    let code = error.code();
    events.push(PayloadEvent::Rejected { outage_id, code });
}

/// Publishes that the payload of `outage_id` was accepted, with its total
/// size.
pub fn emit_accepted(events: &mut Vec<PayloadEvent>, outage_id: Symbol, report: &PayloadReport)
    ensures
        final(events)@ == old(events)@.push(
            PayloadEvent::Accepted { outage_id, total_bytes: report.total_bytes },
        ),
{
    events.push(PayloadEvent::Accepted { outage_id, total_bytes: report.total_bytes });
}

/// The guard and the report agree: a payload passes validation exactly
/// when its report says it fits, and then the total validated is the
/// total reported.
pub proof fn lemma_validation_agrees_with_report(description: Seq<char>, metadata: Seq<char>)
    requires
        sizes_fit(description, metadata),
    ensures
        payload_check(description, metadata) is Ok <==> report_of(description, metadata).within_limits,
        payload_check(description, metadata) matches Ok(total) ==> total == report_of(
            description,
            metadata,
        ).total_bytes,
{
}

} // verus!
