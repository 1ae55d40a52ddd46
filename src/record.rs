use vstd::prelude::*;

verus! {

/// Size of a TLS record header: type (1), version (2), length (2).
pub const HEADER_LEN: usize = 5;

/// Largest record body accepted from a client.
pub const MAX_RECORD_LENGTH: usize = 16384;

/// A failure while framing the first record, before any routing is possible.
#[derive(Debug, Clone, Copy, PartialEq, Eq, Structural)]
pub enum FramingError {
    /// Fewer than five bytes of header.
    ShortHeader,
    /// The header declares a body longer than `MAX_RECORD_LENGTH`.
    TooLong,
    /// The captured bytes are not exactly the header plus the declared body.
    LengthMismatch,
    /// The record does not parse as a TLS plaintext record.
    Malformed,
}

/// The body length that a record header declares: bytes 3 and 4, big-endian.
pub open spec fn declared_length(header: Seq<u8>) -> nat
    recommends
        header.len() >= HEADER_LEN,
{
    (header[3] as nat) * 256 + (header[4] as nat)
}

/// Decodes the body length from a record header and rejects one that exceeds
/// `MAX_RECORD_LENGTH`. Only the header is read, so an oversized record is
/// refused before any of its body is asked for.
pub fn record_body_length(header: &[u8]) -> (r: Result<usize, FramingError>)
    ensures
        header@.len() < HEADER_LEN ==> r == Err::<usize, FramingError>(FramingError::ShortHeader),
        header@.len() >= HEADER_LEN && declared_length(header@) > MAX_RECORD_LENGTH ==> r
            == Err::<usize, FramingError>(FramingError::TooLong),
        header@.len() >= HEADER_LEN && declared_length(header@) <= MAX_RECORD_LENGTH ==> r
            == Ok::<usize, FramingError>(declared_length(header@) as usize),
{
    if header.len() < HEADER_LEN {
        return Err(FramingError::ShortHeader);
    }
    let high: usize = header[3] as usize;
    let low: usize = header[4] as usize;
    let length: usize = high * 256 + low;
    if length > MAX_RECORD_LENGTH {
        Err(FramingError::TooLong)
    } else {
        Ok(length)
    }
}

} // verus!
