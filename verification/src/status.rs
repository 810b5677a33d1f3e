//! The status query's data model and response grammar.
//!
//! A probe is answered by one packet: an identifier byte, then a wide string
//! holding the whole status payload as delimited text. A payload that opens
//! with section-sign `1` carries six NUL-separated fields (marker, protocol
//! version, server version, message of the day, current players, maximum
//! players); any other payload carries three section-sign-separated fields
//! (message of the day, current players, maximum players).

use crate::text::{
    parse_i16, parse_i16_spec, parse_u16, parse_u16_spec, split_char, split_on, IntParseError,
};
use crate::wide::{decode_utf16_string, str_chars, string_from_chars, wide_string_dec,
    WideStringError};
use vstd::prelude::*;

verus! {

/// The version a modern-style server reports inside the legacy response.
#[derive(Debug, Clone, PartialEq)]
pub struct Version {
    pub protocol: i16,
    pub server: String,
}

/// The result of a status query.
#[derive(Debug, PartialEq)]
pub struct Status {
    /// Always true on success: the record came from a legacy, unstructured
    /// text parse rather than a structured response.
    pub dirty: bool,
    /// Present only when the payload carried a modern-style version string.
    pub version: Option<Version>,
    /// The server's message of the day.
    pub motd: String,
    /// Current and maximum player counts.
    pub online: (u16, u16),
}

/// The I/O failure the parser itself can detect: the response bytes end
/// before the announced payload does. Transport failures stay with the
/// caller that owns the stream.
#[derive(Debug, Clone, Copy, PartialEq, Eq, Structural)]
pub enum IoErrorDetail {
    UnexpectedEof,
}

/// Why a status query failed: the stream ended or broke, a numeric field
/// did not parse, or the response identifier was not the expected one
/// (carrying the byte actually received).
#[derive(Debug, Clone, PartialEq)]
pub enum PingError {
    Io(IoErrorDetail),
    ParseInt(IntParseError),
    UnexpectedPacketId(u8),
}

/// The mathematical content of a `Version`: its text as a character
/// sequence.
pub struct VersionModel {
    pub protocol: i16,
    pub server: Seq<char>,
}

/// The mathematical content of a `Status`.
pub struct StatusModel {
    pub dirty: bool,
    pub version: Option<VersionModel>,
    pub motd: Seq<char>,
    pub online: (u16, u16),
}

impl View for Version {
    type V = VersionModel;

    open spec fn view(&self) -> VersionModel {
        VersionModel { protocol: self.protocol, server: self.server@ }
    }
}

impl View for Status {
    type V = StatusModel;

    open spec fn view(&self) -> StatusModel {
        StatusModel {
            dirty: self.dirty,
            version: match self.version {
                Some(v) => Some(v@),
                None => None,
            },
            motd: self.motd@,
            online: self.online,
        }
    }
}

/// The two-byte probe that opens the legacy status handshake.
pub fn probe_bytes() -> (r: Vec<u8>)
    ensures
        r@ == seq![0xFEu8, 0x01u8],
{
    let mut v: Vec<u8> = Vec::new();
    v.push(0xFE);
    v.push(0x01);
    proof {
        assert(v@ =~= seq![0xFEu8, 0x01u8]);
    }
    v
}

/// True when the payload announces the modern-in-legacy grammar: it starts
/// with section sign followed by `1`.
pub open spec fn is_modern_payload(p: Seq<char>) -> bool {
    p.len() >= 2 && p[0] == '\u{a7}' && p[1] == '1'
}

/// The status carried by a payload in the modern-in-legacy grammar: six or
/// more NUL-separated fields, of which field 1 is the protocol version,
/// field 2 the server version, field 3 the message of the day, and fields 4
/// and 5 the player counts. A missing field parses as empty text.
pub open spec fn modern_payload_status(p: Seq<char>) -> Result<StatusModel, PingError> {
    let f = split_on(p, '\u{0}');
    if f.len() < 6 {
        Err(PingError::ParseInt(IntParseError::Empty))
    } else {
        match parse_i16_spec(f[1]) {
            Err(e) => Err(PingError::ParseInt(e)),
            Ok(protocol) => match parse_u16_spec(f[4]) {
                Err(e) => Err(PingError::ParseInt(e)),
                Ok(current) => match parse_u16_spec(f[5]) {
                    Err(e) => Err(PingError::ParseInt(e)),
                    Ok(max) => Ok(
                        StatusModel {
                            dirty: true,
                            version: Some(VersionModel { protocol, server: f[2] }),
                            motd: f[3],
                            online: (current, max),
                        },
                    ),
                },
            },
        }
    }
}

/// The status carried by a payload in the plain legacy grammar: three or
/// more section-sign-separated fields, of which field 0 is the message of
/// the day and fields 1 and 2 the player counts. A missing field parses as
/// empty text.
pub open spec fn legacy_payload_status(p: Seq<char>) -> Result<StatusModel, PingError> {
    let f = split_on(p, '\u{a7}');
    if f.len() < 3 {
        Err(PingError::ParseInt(IntParseError::Empty))
    } else {
        match parse_u16_spec(f[1]) {
            Err(e) => Err(PingError::ParseInt(e)),
            Ok(current) => match parse_u16_spec(f[2]) {
                Err(e) => Err(PingError::ParseInt(e)),
                Ok(max) => Ok(
                    StatusModel {
                        dirty: true,
                        version: None,
                        motd: f[0],
                        online: (current, max),
                    },
                ),
            },
        }
    }
}

/// The status carried by a payload, under whichever grammar its opening
/// marker selects.
pub open spec fn payload_status(p: Seq<char>) -> Result<StatusModel, PingError> {
    if is_modern_payload(p) {
        modern_payload_status(p)
    } else {
        legacy_payload_status(p)
    }
}

/// Parse the status payload text into a `Status`, dispatching on the
/// modern-in-legacy marker. Success and every failure are exactly those of
/// `payload_status`.
pub fn parse_status_payload(payload: &str) -> (r: Result<Status, PingError>)
    ensures
        match r {
            Ok(st) => payload_status(payload@) == Ok::<StatusModel, PingError>(st@),
            Err(e) => payload_status(payload@) == Err::<StatusModel, PingError>(e),
        },
{
    let chars = str_chars(payload);
    let modern = chars.len() >= 2 && chars[0] == '\u{a7}' && chars[1] == '1';
    if modern {
        let f = split_char(&chars, '\u{0}');
        proof {
            assert(forall|k: int|
                0 <= k < f@.len() ==> f.deep_view()[k] == #[trigger] f@[k]@);
        }
        if f.len() < 6 {
            return Err(PingError::ParseInt(IntParseError::Empty));
        }
        let protocol = match parse_i16(f[1].as_slice()) {
            Ok(v) => v,
            Err(e) => {
                return Err(PingError::ParseInt(e));
            },
        };
        let current = match parse_u16(f[4].as_slice()) {
            Ok(v) => v,
            Err(e) => {
                return Err(PingError::ParseInt(e));
            },
        };
        let max = match parse_u16(f[5].as_slice()) {
            Ok(v) => v,
            Err(e) => {
                return Err(PingError::ParseInt(e));
            },
        };
        let server = string_from_chars(&f[2]);
        let motd = string_from_chars(&f[3]);
        Ok(
            Status {
                dirty: true,
                version: Some(Version { protocol, server }),
                motd,
                online: (current, max),
            },
        )
    } else {
        let f = split_char(&chars, '\u{a7}');
        proof {
            assert(forall|k: int|
                0 <= k < f@.len() ==> f.deep_view()[k] == #[trigger] f@[k]@);
        }
        if f.len() < 3 {
            return Err(PingError::ParseInt(IntParseError::Empty));
        }
        let current = match parse_u16(f[1].as_slice()) {
            Ok(v) => v,
            Err(e) => {
                return Err(PingError::ParseInt(e));
            },
        };
        let max = match parse_u16(f[2].as_slice()) {
            Ok(v) => v,
            Err(e) => {
                return Err(PingError::ParseInt(e));
            },
        };
        let motd = string_from_chars(&f[0]);
        Ok(Status { dirty: true, version: None, motd, online: (current, max) })
    }
}

/// The outcome of a status exchange, given the response identifier byte and
/// the bytes that follow it: only identifier 0xFF carries a payload, and the
/// payload is one wide string parsed under the status grammar.
pub open spec fn response_status(packet_id: u8, rest: Seq<u8>) -> Result<StatusModel, PingError> {
    if packet_id != 0xFF {
        Err(PingError::UnexpectedPacketId(packet_id))
    } else {
        match wide_string_dec(rest) {
            None => Err(PingError::Io(IoErrorDetail::UnexpectedEof)),
            Some((p, _)) => payload_status(p),
        }
    }
}

/// Parse the server's response: the identifier byte, then the wide-string
/// payload. Any identifier other than 0xFF fails with that byte, whatever
/// the remaining bytes hold; a payload shorter than announced fails as a
/// truncated stream; otherwise the payload text decides.
pub fn parse_response(packet_id: u8, rest: &[u8]) -> (r: Result<Status, PingError>)
    ensures
        match r {
            Ok(st) => response_status(packet_id, rest@) == Ok::<StatusModel, PingError>(st@),
            Err(e) => response_status(packet_id, rest@) == Err::<StatusModel, PingError>(e),
        },
{
    if packet_id != 0xFF {
        return Err(PingError::UnexpectedPacketId(packet_id));
    }
    match decode_utf16_string(rest) {
        Err(WideStringError::Eof) => Err(PingError::Io(IoErrorDetail::UnexpectedEof)),
        Ok((payload, _)) => parse_status_payload(payload.as_str()),
    }
}

} // verus!
