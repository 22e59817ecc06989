//! The wire protocol: roles and messages of the control connection, session ids, keys, and the
//! UDP packets.

use vstd::prelude::*;
use vstd::slice::*;
use vstd::string::*;
use vstd::utf8::*;

use crate::big_endian::{
    be_bytes, be_number, lemma_be_bytes_len, lemma_be_bytes_of_number, lemma_be_limits,
    lemma_be_number_bound, lemma_be_number_of_bytes, push_u64, read_u128, read_u64,
    u128_bytes,
};
use crate::error::{ErrorKind, IoError};
use crate::text::{decimal, decimal_text};

verus! {

/// The longest key, in UTF-8 bytes.
pub const MAX_KEY_LEN: usize = 128;

/// The size of a session id.
pub const SESSION_ID_BYTES: usize = 16;

/// What every UDP packet begins with: `RAS1`.
pub const UDP_MAGIC: [u8; 4] = [0x52, 0x41, 0x53, 0x31];

/// The version of the UDP packets.
pub const UDP_VERSION: u8 = 1;

/// The size of the header that all UDP packets share.
pub const UDP_BASE_HEADER_LEN: usize = 22;

/// The size of an audio packet's sequence number and timestamp.
pub const UDP_AUDIO_META_LEN: usize = 16;

/// What a client is on its key: the one that sends audio, or one of those that receive it.
#[derive(Clone, Copy, Debug, PartialEq, Eq, Structural, Hash)]
pub enum ClientRole {
    Publisher,
    Subscriber,
}

/// The first line of a control connection.
#[derive(Debug)]
pub struct HandshakeRequest {
    pub role: ClientRole,
    pub key: String,
}

/// The reply to a handshake.
#[derive(Debug)]
pub struct HandshakeResponse<'a> {
    pub status: &'a str,
    pub message: &'a str,
    pub role: Option<ClientRole>,
    pub key: Option<&'a str>,
    pub session_id: Option<&'a str>,
    pub udp_port: Option<u16>,
    pub tcp_heartbeat_interval_ms: Option<u64>,
    pub udp_session_timeout_ms: Option<u64>,
    pub udp_audio_payload_max_bytes: Option<usize>,
}

/// The reply to a handshake, as a client holds it.
#[derive(Debug)]
pub struct HandshakeResponseOwned {
    pub status: String,
    pub message: String,
    pub role: Option<ClientRole>,
    pub key: Option<String>,
    pub session_id: Option<String>,
    pub udp_port: Option<u16>,
    pub tcp_heartbeat_interval_ms: Option<u64>,
    pub udp_session_timeout_ms: Option<u64>,
    pub udp_audio_payload_max_bytes: Option<usize>,
}

/// What a client may say on an established control connection.
#[derive(Clone, Copy, Debug, PartialEq, Eq, Structural)]
pub enum ControlMessageType {
    Heartbeat,
}

/// A line on an established control connection.
#[derive(Debug)]
pub struct ControlMessageRequest {
    pub message_type: ControlMessageType,
}

/// A status query.
#[derive(Debug)]
pub struct StatusAccessRequest {
    pub key: String,
}

/// The reply to a status query that is turned down.
#[derive(Debug)]
pub struct StatusAccessResponse<'a> {
    pub status: &'a str,
    pub message: &'a str,
}

/// The reply to a status query that is turned down, as a client holds it.
#[derive(Debug)]
pub struct StatusAccessResponseOwned {
    pub status: String,
    pub message: String,
}

/// The secret by which UDP packets name their session: sixteen bytes. Its view is the number
/// that they spell.
#[derive(Clone, Copy, Debug, Eq, Hash)]
pub struct SessionId {
    bytes: [u8; 16],
}

impl View for SessionId {
    type V = u128;

    closed spec fn view(&self) -> u128 {
        be_number(self.bytes@) as u128
    }
}

impl PartialEq for SessionId {
    fn eq(&self, other: &Self) -> (same: bool) {
        self.number() == other.number()
    }
}

impl vstd::std_specs::cmp::PartialEqSpecImpl for SessionId {
    open spec fn obeys_eq_spec() -> bool {
        true
    }

    open spec fn eq_spec(&self, other: &Self) -> bool {
        self@ == other@
    }
}

/// The sixteen bytes of a session id, given as the number that they spell.
pub open spec fn id_bytes(id: u128) -> Seq<u8> {
    be_bytes(id as nat, 16)
}

/// The bytes of a session id spell its number, and no other sixteen bytes do.
pub proof fn lemma_session_id_bytes(bytes: Seq<u8>)
    requires
        bytes.len() == 16,
    ensures
        be_number(bytes) <= u128::MAX,
        id_bytes(be_number(bytes) as u128) == bytes,
{
    lemma_be_limits();
    lemma_be_number_bound(bytes);
    lemma_be_bytes_of_number(bytes);
}

/// Every number below 2^128 is the number of its sixteen bytes.
pub proof fn lemma_session_id_number(id: u128)
    ensures
        id_bytes(id).len() == 16,
        be_number(id_bytes(id)) == id,
{
    lemma_be_limits();
    lemma_be_bytes_len(id as nat, 16);
    lemma_be_number_of_bytes(id as nat, 16);
}

/// The hexadecimal digit of a value below sixteen.
pub open spec fn hex_digit(value: int) -> char {
    if value < 10 {
        ((('0' as u32) + value) as u32) as char
    } else {
        ((('a' as u32) + value - 10) as u32) as char
    }
}

/// Bytes in lowercase hexadecimal, two digits each.
pub open spec fn hex_text(bytes: Seq<u8>) -> Seq<char> {
    Seq::new(
        bytes.len() * 2,
        |i: int|
            if i % 2 == 0 {
                hex_digit(bytes[i / 2] as int / 16)
            } else {
                hex_digit(bytes[i / 2] as int % 16)
            },
    )
}

/// The value of a hexadecimal digit, in either case.
pub open spec fn nibble_value(digit: u8) -> Option<u8> {
    if 0x30 <= digit <= 0x39 {
        Some((digit - 0x30) as u8)
    } else if 0x61 <= digit <= 0x66 {
        Some((digit - 0x61 + 10) as u8)
    } else if 0x41 <= digit <= 0x46 {
        Some((digit - 0x41 + 10) as u8)
    } else {
        None
    }
}

/// Whether every byte of a text is a hexadecimal digit.
pub open spec fn all_hex(text: Seq<u8>) -> bool {
    forall|i: int| 0 <= i < text.len() ==> nibble_value(#[trigger] text[i]) is Some
}

/// The bytes that hexadecimal digits spell.
pub open spec fn hex_bytes(text: Seq<u8>) -> Seq<u8> {
    Seq::new(
        text.len() / 2,
        |i: int| (nibble_value(text[2 * i])->0 * 16 + nibble_value(text[2 * i + 1])->0) as u8,
    )
}

/// Why a text is no session id, if it is none.
pub open spec fn hex_problem(text: Seq<u8>) -> Option<Seq<char>> {
    if text.len() != 32 {
        Some("session_id length is invalid"@)
    } else if !all_hex(text) {
        Some("session_id contains invalid hex"@)
    } else {
        None
    }
}

/// The value of a hexadecimal digit.
fn decode_hex_nibble(digit: u8) -> (value: Result<u8, &'static str>)
    ensures
        match value {
            Ok(v) => nibble_value(digit) == Some(v) && v < 16,
            Err(m) => nibble_value(digit) is None && m@ == "session_id contains invalid hex"@,
        },
{
    if 0x30 <= digit && digit <= 0x39 {
        Ok(digit - 0x30)
    } else if 0x61 <= digit && digit <= 0x66 {
        Ok(digit - 0x61 + 10)
    } else if 0x41 <= digit && digit <= 0x46 {
        Ok(digit - 0x41 + 10)
    } else {
        Err("session_id contains invalid hex")
    }
}

/// The hexadecimal digit of a value.
fn encode_hex_nibble(value: u8) -> (digit: char)
    requires
        value < 16,
    ensures
        digit == hex_digit(value as int),
{
    if value < 10 {
        (0x30u8 + value) as char
    } else {
        (0x61u8 + (value - 10)) as char
    }
}

impl SessionId {
    /// The sixteen bytes.
    pub closed spec fn spec_bytes(self) -> Seq<u8> {
        self.bytes@
    }

    /// The bytes and the number of a session id determine each other, and either determines the
    /// id.
    pub proof fn lemma_bytes(self)
        ensures
            self.spec_bytes() == id_bytes(self@),
            self.spec_bytes().len() == 16,
            self@ == be_number(self.spec_bytes()),
    {
        lemma_session_id_bytes(self.bytes@);
    }

    /// Session ids with one number are one session id.
    pub proof fn law_number_determines_the_id(self, other: SessionId)
        requires
            self@ == other@,
        ensures
            self == other,
    {
        self.lemma_bytes();
        other.lemma_bytes();
        assert forall|i: int| 0 <= i < 16 implies self.bytes[i] == other.bytes[i] by {
            assert(self.bytes@[i] == other.bytes@[i]);
        }
        assert(self.bytes =~= other.bytes);
    }

    /// The session id of sixteen bytes.
    pub fn from_bytes(bytes: [u8; 16]) -> (id: SessionId)
        ensures
            id.spec_bytes() == bytes@,
            id@ == be_number(bytes@),
    {
        proof {
            lemma_session_id_bytes(bytes@);
        }
        SessionId { bytes }
    }

    /// The session id whose bytes spell a number.
    pub fn from_number(number: u128) -> (id: SessionId)
        ensures
            id@ == number,
    {
        proof {
            lemma_session_id_number(number);
        }
        SessionId::from_bytes(u128_bytes(number))
    }

    /// The sixteen bytes.
    pub fn as_bytes(&self) -> (bytes: &[u8; 16])
        ensures
            bytes@ == id_bytes(self@),
    {
        proof {
            self.lemma_bytes();
        }
        &self.bytes
    }

    /// The number that the bytes spell.
    pub fn number(&self) -> (number: u128)
        ensures
            number == self@,
    {
        proof {
            self.lemma_bytes();
        }
        read_u128(&self.bytes)
    }

    /// The session id in 32 lowercase hexadecimal digits.
    pub fn to_hex(&self) -> (text: String)
        ensures
            text@ == hex_text(id_bytes(self@)),
    {
        proof {
            self.lemma_bytes();
        }
        let mut text = String::new();
        let mut i: usize = 0;
        while i < 16
            invariant
                i <= 16,
                self.bytes@ == id_bytes(self@),
                text@ == hex_text(id_bytes(self@)).take(2 * i),
            decreases 16 - i,
        {
            let byte = self.bytes[i];
            let ghost all = hex_text(id_bytes(self@));
            text.push(encode_hex_nibble(byte / 16));
            text.push(encode_hex_nibble(byte % 16));
            proof {
                assert(all[2 * i] == hex_digit(byte as int / 16));
                assert(all[2 * i + 1] == hex_digit(byte as int % 16));
                assert(all.take(2 * (i + 1)) =~= all.take(2 * i).push(all[2 * i]).push(
                    all[2 * i + 1],
                ));
            }
            i = i + 1;
        }
        assert(hex_text(id_bytes(self@)).take(32) =~= hex_text(id_bytes(self@)));
        text
    }

    /// The session id that 32 hexadecimal digits spell.
    pub fn from_hex(text: &str) -> (id: Result<SessionId, &'static str>)
        ensures
            match id {
                Ok(s) => hex_problem(encode_utf8(text@)) is None && id_bytes(s@) == hex_bytes(
                    encode_utf8(text@),
                ),
                Err(m) => hex_problem(encode_utf8(text@)) == Some(m@),
            },
    {
        let digits = text.as_bytes();
        if digits.len() != SESSION_ID_BYTES * 2 {
            return Err("session_id length is invalid");
        }
        let mut bytes: [u8; 16] = [0u8; 16];
        let mut i: usize = 0;
        while i < 16
            invariant
                i <= 16,
                digits@ == encode_utf8(text@),
                digits@.len() == 32,
                forall|j: int| 0 <= j < 2 * i ==> nibble_value(#[trigger] digits@[j]) is Some,
                forall|j: int| 0 <= j < i ==> bytes@[j] == #[trigger] hex_bytes(digits@)[j],
            decreases 16 - i,
        {
            let high = match decode_hex_nibble(digits[2 * i]) {
                Ok(value) => value,
                Err(message) => {
                    assert(nibble_value(digits@[2 * i]) is None);
                    return Err(message);
                },
            };
            let low = match decode_hex_nibble(digits[2 * i + 1]) {
                Ok(value) => value,
                Err(message) => {
                    assert(nibble_value(digits@[2 * i + 1]) is None);
                    return Err(message);
                },
            };
            bytes[i] = high * 16 + low;
            i = i + 1;
        }
        assert(bytes@ =~= hex_bytes(digits@));
        let id = SessionId::from_bytes(bytes);
        proof {
            id.lemma_bytes();
        }
        Ok(id)
    }
}

/// Reading back a session id that was written in hexadecimal gives the same session id.
pub proof fn law_hex_round_trip(id: u128)
    ensures
        hex_problem(encode_utf8(hex_text(id_bytes(id)))) is None,
        hex_bytes(encode_utf8(hex_text(id_bytes(id)))) == id_bytes(id),
        hex_text(id_bytes(id)).len() == 32,
        forall|i: int|
            #![trigger hex_text(id_bytes(id))[i]]
            0 <= i < 32 ==> {
                let digit = hex_text(id_bytes(id))[i];
                '0' <= digit <= '9' || 'a' <= digit <= 'f'
            },
{
    lemma_session_id_number(id);
    let bytes = id_bytes(id);
    let text = hex_text(bytes);
    assert(is_ascii_chars(text));
    is_ascii_chars_encode_utf8(text);
    let wire = encode_utf8(text);
    assert forall|i: int| 0 <= i < 32 implies nibble_value(#[trigger] wire[i]) == Some(
        if i % 2 == 0 {
            (bytes[i / 2] as int / 16) as u8
        } else {
            (bytes[i / 2] as int % 16) as u8
        },
    ) by {
        assert(text[i] as u8 == wire[i]);
    }
    assert forall|i: int| 0 <= i < 16 implies hex_bytes(wire)[i] == bytes[i] by {
        assert(nibble_value(wire[2 * i]) == Some((bytes[i] as int / 16) as u8));
        assert(nibble_value(wire[2 * i + 1]) == Some((bytes[i] as int % 16) as u8));
    }
    assert(hex_bytes(wire) =~= bytes);
}

/// The failure of the system's random source.
#[verifier::external_type_specification]
#[verifier::external_body]
pub struct ExRandomError(getrandom::Error);

/// `getrandom::fill` overwrites the bytes of a buffer with random ones and leaves its size alone;
/// which bytes come out, and whether it succeeds, is up to the system.
pub assume_specification[ getrandom::fill ](dest: &mut [u8]) -> (outcome: Result<
    (),
    getrandom::Error,
>)
    ensures
        final(dest)@.len() == old(dest)@.len(),
;

/// The text of a failure of the random source, as `Display` of `getrandom::Error` writes it: the
/// words are the operating system's.
#[verifier::external_body]
fn random_error_text(error: getrandom::Error) -> String {
    format!("{}", error)
}

/// What a failure to draw a session id is reported as.
pub open spec fn random_failure_message(detail: Seq<char>) -> Seq<char> {
    "failed to generate session id: "@ + detail
}

/// Fills sixteen bytes from the random source; where that fails, the text of the failure comes
/// with them.
fn draw_bytes() -> (draw: ([u8; 16], Option<String>))
    ensures
        exists|buffer: &mut [u8], outcome: Result<(), getrandom::Error>|
            {
                &&& #[trigger] call_ensures(getrandom::fill, (buffer,), outcome)
                &&& final(buffer)@ == draw.0@
                &&& match outcome {
                    Ok(()) => draw.1 is None,
                    Err(error) => draw.1 matches Some(text) && call_ensures(
                        random_error_text,
                        (error,),
                        text,
                    ),
                }
            },
{
    let mut bytes: [u8; 16] = [0u8; 16];
    let failure = match fill_at_random(&mut bytes) {
        Ok(()) => None,
        Err(error) => Some(random_error_text(error)),
    };
    (bytes, failure)
}

/// Has the random source fill a buffer.
fn fill_at_random(buffer: &mut [u8]) -> (outcome: Result<(), getrandom::Error>)
    ensures
        final(buffer)@.len() == old(buffer)@.len(),
        exists|filled: &mut [u8]|
            {
                &&& #[trigger] call_ensures(getrandom::fill, (filled,), outcome)
                &&& filled@ == old(buffer)@
                &&& final(filled)@ == final(buffer)@
            },
{
    getrandom::fill(buffer)
}

/// Whether the random source gave these bytes, or this failure.
pub closed spec fn source_gave(bytes: [u8; 16], failure: Option<String>) -> bool {
    call_ensures(draw_bytes, (), (bytes, failure))
}

/// Whether a session id, or a failure, is one that was drawn. What is drawn is up to chance, so
/// that nothing follows from this but that the random source was asked.
pub open spec fn is_drawn(id: Result<SessionId, IoError>) -> bool {
    call_ensures(SessionId::random, (), id)
}

/// A drawn session id has the bytes that the random source gave; where the source failed, the
/// failure of the draw says so.
pub proof fn law_draws_come_from_the_random_source(id: Result<SessionId, IoError>)
    requires
        is_drawn(id),
    ensures
        match id {
            Ok(drawn) => exists|bytes: [u8; 16]| #[trigger]
                source_gave(bytes, None::<String>) && be_number(bytes@) == drawn@,
            Err(e) => e.kind == ErrorKind::Other && exists|bytes: [u8; 16], detail: String|
                #[trigger] source_gave(bytes, Some(detail)) && e.message@
                    == "failed to generate session id: "@ + detail@,
        },
{
}

impl SessionId {
    /// The session id that a draw of random bytes gives, or the failure of the draw.
    pub fn from_draw(bytes: [u8; 16], failure: Option<String>) -> (id: Result<SessionId, IoError>)
        ensures
            match failure {
                None => id matches Ok(s) && s@ == be_number(bytes@),
                Some(detail) => id matches Err(e) && e.kind == ErrorKind::Other && e.message@
                    == random_failure_message(detail@),
            },
    {
        match failure {
            None => Ok(SessionId::from_bytes(bytes)),
            Some(detail) => {
                let message = "failed to generate session id: ".to_owned().concat(detail.as_str());
                Err(IoError { kind: ErrorKind::Other, message })
            },
        }
    }

    /// Draws a session id at random: `from_draw` of what the random source gives. Whether the draw
    /// succeeds, and which of all session ids comes out, is up to chance; `is_drawn` names what
    /// came out.
    pub fn random() -> (id: Result<SessionId, IoError>)
        ensures
            id matches Err(e) ==> e.kind == ErrorKind::Other && exists|detail: Seq<char>|
                e.message@ == #[trigger] random_failure_message(detail),
            match id {
                Ok(drawn) => exists|bytes: [u8; 16]| #[trigger]
                    source_gave(bytes, None::<String>) && be_number(bytes@) == drawn@,
                Err(e) => exists|bytes: [u8; 16], detail: String| #[trigger]
                    source_gave(bytes, Some(detail)) && e.message@ == random_failure_message(
                        detail@,
                    ),
            },
    {
        let (bytes, failure) = draw_bytes();
        assert(source_gave(bytes, failure));
        match failure {
            None => {
                let id = SessionId::from_draw(bytes, None);
                assert(source_gave(bytes, None::<String>) && be_number(bytes@) == id->Ok_0@);
                id
            },
            Some(detail) => {
                let ghost text = detail;
                let id = SessionId::from_draw(bytes, Some(detail));
                assert(source_gave(bytes, Some(text)) && id->Err_0.message@
                    == random_failure_message(text@));
                id
            },
        }
    }
}

/// The control characters of Unicode: its general category Cc.
pub open spec fn is_control(ch: char) -> bool {
    ch <= '\u{1f}' || '\u{7f}' <= ch <= '\u{9f}'
}

/// Whether a text holds a control character.
pub open spec fn has_control(text: Seq<char>) -> bool {
    exists|i: int| 0 <= i < text.len() && is_control(#[trigger] text[i])
}

/// What is wrong with a key, if anything is. Every other key is fine as it stands: nothing is
/// trimmed, folded or normalized.
pub open spec fn key_problem(key: Seq<char>) -> Option<Seq<char>> {
    if key.len() == 0 {
        Some("key must not be empty"@)
    } else if encode_utf8(key).len() > MAX_KEY_LEN {
        Some("key is too long"@)
    } else if has_control(key) {
        Some("key contains control characters"@)
    } else {
        None
    }
}

/// Checks a key: not empty, at most 128 UTF-8 bytes, no control characters.
pub fn validate_key(key: &str) -> (outcome: Result<(), &'static str>)
    ensures
        match outcome {
            Ok(()) => key_problem(key@) is None,
            Err(m) => key_problem(key@) == Some(m@),
        },
{
    if key.is_empty() {
        return Err("key must not be empty");
    }
    if key.as_bytes().len() > MAX_KEY_LEN {
        return Err("key is too long");
    }
    for ch in it: key.chars()
        invariant
            key@.len() > 0,
            encode_utf8(key@).len() <= MAX_KEY_LEN,
            it.seq() == key@,
            forall|i: int| 0 <= i < it.index() ==> !is_control(#[trigger] key@[i]),
    {
        if ch <= '\u{1f}' || ('\u{7f}' <= ch && ch <= '\u{9f}') {
            assert(is_control(key@[it.index()]));
            return Err("key contains control characters");
        }
    }
    Ok(())
}

/// A text with everything that is not printable escaped, as `str::escape_debug` escapes it.
pub uninterp spec fn debug_escaped(text: Seq<char>) -> Seq<char>;

/// `str::escape_debug`, collected into a string: the characters that are printable stay, the
/// others become escapes.
#[verifier::external_body]
fn escape_debug_text(text: &str) -> (escaped: String)
    ensures
        escaped@ == debug_escaped(text@),
{
    text.escape_debug().collect()
}

/// A key as it can stand in a log line.
pub fn escape_key_for_log(key: &str) -> (escaped: String)
    ensures
        escaped@ == debug_escaped(key@),
{
    escape_debug_text(key)
}

/// The four kinds of UDP packets.
#[derive(Clone, Copy, Debug, PartialEq, Eq, Structural)]
pub enum UdpPacketKind {
    Register,
    RegisterAck,
    Heartbeat,
    AudioData,
}

/// An audio payload above the limit.
#[derive(Clone, Copy, Debug, PartialEq, Eq, Structural)]
pub struct PayloadTooLarge {
    pub len: usize,
    pub limit: usize,
}

/// Why bytes are no UDP packet.
#[derive(Clone, Copy, Debug, PartialEq, Eq, Structural)]
pub enum UdpPacketError {
    TooShort,
    InvalidMagic,
    UnsupportedVersion(u8),
    UnknownKind(u8),
    RegisterSize,
    RegisterAckSize,
    HeartbeatSize,
    AudioTooShort,
    PayloadTooLarge(PayloadTooLarge),
}

/// The number of a kind of packet on the wire.
pub open spec fn kind_number(kind: UdpPacketKind) -> u8 {
    match kind {
        UdpPacketKind::Register => 1,
        UdpPacketKind::RegisterAck => 2,
        UdpPacketKind::Heartbeat => 3,
        UdpPacketKind::AudioData => 4,
    }
}

/// The kind of packet that a number on the wire stands for.
pub open spec fn kind_of(number: u8) -> Result<UdpPacketKind, UdpPacketError> {
    if number == 1 {
        Ok(UdpPacketKind::Register)
    } else if number == 2 {
        Ok(UdpPacketKind::RegisterAck)
    } else if number == 3 {
        Ok(UdpPacketKind::Heartbeat)
    } else if number == 4 {
        Ok(UdpPacketKind::AudioData)
    } else {
        Err(UdpPacketError::UnknownKind(number))
    }
}

impl UdpPacketKind {
    /// The number of this kind on the wire.
    pub fn to_u8(self) -> (number: u8)
        ensures
            number == kind_number(self),
    {
        match self {
            UdpPacketKind::Register => 1,
            UdpPacketKind::RegisterAck => 2,
            UdpPacketKind::Heartbeat => 3,
            UdpPacketKind::AudioData => 4,
        }
    }

    /// The kind that a number on the wire stands for.
    pub fn from_u8(value: u8) -> (kind: Result<UdpPacketKind, UdpPacketError>)
        ensures
            kind == kind_of(value),
    {
        match value {
            1 => Ok(UdpPacketKind::Register),
            2 => Ok(UdpPacketKind::RegisterAck),
            3 => Ok(UdpPacketKind::Heartbeat),
            4 => Ok(UdpPacketKind::AudioData),
            _ => Err(UdpPacketError::UnknownKind(value)),
        }
    }
}

impl PayloadTooLarge {
    /// What is reported of the payload.
    pub open spec fn spec_message(self) -> Seq<char> {
        "udp audio payload exceeds limit: "@ + decimal(self.len as nat) + " > "@ + decimal(
            self.limit as nat,
        )
    }

    /// What is reported of the payload.
    pub fn message(&self) -> (text: String)
        ensures
            text@ == self.spec_message(),
    {
        "udp audio payload exceeds limit: ".to_owned().concat(
            decimal_text(self.len as u128).as_str(),
        ).concat(" > ").concat(decimal_text(self.limit as u128).as_str())
    }

    /// The failure under which a sender reports this.
    pub fn to_io_error(&self) -> (error: IoError)
        ensures
            error.kind == ErrorKind::InvalidInput,
            error.message@ == self.spec_message(),
    {
        IoError { kind: ErrorKind::InvalidInput, message: self.message() }
    }
}

impl UdpPacketError {
    /// What is reported of the packet.
    pub open spec fn spec_message(self) -> Seq<char> {
        match self {
            UdpPacketError::TooShort => "udp packet is too short"@,
            UdpPacketError::InvalidMagic => "udp packet magic is invalid"@,
            UdpPacketError::UnsupportedVersion(version) => "unsupported udp version: "@ + decimal(
                version as nat,
            ),
            UdpPacketError::UnknownKind(number) => "unknown udp packet kind: "@ + decimal(
                number as nat,
            ),
            UdpPacketError::RegisterSize => "udp register packet size is invalid"@,
            UdpPacketError::RegisterAckSize => "udp register ack packet size is invalid"@,
            UdpPacketError::HeartbeatSize => "udp heartbeat packet size is invalid"@,
            UdpPacketError::AudioTooShort => "udp audio packet is too short"@,
            UdpPacketError::PayloadTooLarge(excess) => excess.spec_message(),
        }
    }

    /// What is reported of the packet.
    pub fn message(&self) -> (text: String)
        ensures
            text@ == self.spec_message(),
    {
        match self {
            UdpPacketError::TooShort => "udp packet is too short".to_owned(),
            UdpPacketError::InvalidMagic => "udp packet magic is invalid".to_owned(),
            UdpPacketError::UnsupportedVersion(version) => "unsupported udp version: ".to_owned().concat(
                decimal_text(*version as u128).as_str(),
            ),
            UdpPacketError::UnknownKind(number) => "unknown udp packet kind: ".to_owned().concat(
                decimal_text(*number as u128).as_str(),
            ),
            UdpPacketError::RegisterSize => "udp register packet size is invalid".to_owned(),
            UdpPacketError::RegisterAckSize => "udp register ack packet size is invalid".to_owned(),
            UdpPacketError::HeartbeatSize => "udp heartbeat packet size is invalid".to_owned(),
            UdpPacketError::AudioTooShort => "udp audio packet is too short".to_owned(),
            UdpPacketError::PayloadTooLarge(excess) => excess.message(),
        }
    }

    /// The failure under which a receiver reports this.
    pub fn to_io_error(&self) -> (error: IoError)
        ensures
            error.kind == ErrorKind::InvalidData,
            error.message@ == self.spec_message(),
    {
        IoError { kind: ErrorKind::InvalidData, message: self.message() }
    }
}

/// A UDP packet.
#[derive(Debug, Eq, PartialEq)]
pub enum UdpPacket<'a> {
    Register { session_id: SessionId },
    RegisterAck { session_id: SessionId },
    Heartbeat { session_id: SessionId },
    AudioData { session_id: SessionId, sequence: u64, timestamp_ms: u64, payload: &'a [u8] },
}

/// What a UDP packet says.
#[verifier::ext_equal]
pub enum Packet {
    Register { id: u128 },
    RegisterAck { id: u128 },
    Heartbeat { id: u128 },
    AudioData { id: u128, sequence: u64, timestamp_ms: u64, payload: Seq<u8> },
}

impl View for UdpPacket<'_> {
    type V = Packet;

    open spec fn view(&self) -> Packet {
        match *self {
            UdpPacket::Register { session_id } => Packet::Register { id: session_id@ },
            UdpPacket::RegisterAck { session_id } => Packet::RegisterAck { id: session_id@ },
            UdpPacket::Heartbeat { session_id } => Packet::Heartbeat { id: session_id@ },
            UdpPacket::AudioData { session_id, sequence, timestamp_ms, payload } => {
                Packet::AudioData { id: session_id@, sequence, timestamp_ms, payload: payload@ }
            },
        }
    }
}

/// The header that all packets share: magic, version, kind and session id.
pub open spec fn header_bytes(kind: UdpPacketKind, id: u128) -> Seq<u8> {
    seq![0x52u8, 0x41, 0x53, 0x31, UDP_VERSION, kind_number(kind)] + id_bytes(id)
}

/// A packet on the wire.
pub open spec fn encode_packet(packet: Packet) -> Seq<u8> {
    match packet {
        Packet::Register { id } => header_bytes(UdpPacketKind::Register, id),
        Packet::RegisterAck { id } => header_bytes(UdpPacketKind::RegisterAck, id),
        Packet::Heartbeat { id } => header_bytes(UdpPacketKind::Heartbeat, id),
        Packet::AudioData { id, sequence, timestamp_ms, payload } => header_bytes(
            UdpPacketKind::AudioData,
            id,
        ) + be_bytes(sequence as nat, 8) + be_bytes(timestamp_ms as nat, 8) + payload,
    }
}

/// The packet that bytes hold, or the first thing that is wrong with them.
pub open spec fn parse_packet(buffer: Seq<u8>, max_payload: usize) -> Result<
    Packet,
    UdpPacketError,
> {
    if buffer.len() < UDP_BASE_HEADER_LEN {
        Err(UdpPacketError::TooShort)
    } else if buffer.take(4) != seq![0x52u8, 0x41, 0x53, 0x31] {
        Err(UdpPacketError::InvalidMagic)
    } else if buffer[4] != UDP_VERSION {
        Err(UdpPacketError::UnsupportedVersion(buffer[4]))
    } else {
        let id = be_number(buffer.subrange(6, 22)) as u128;
        match kind_of(buffer[5]) {
            Err(e) => Err(e),
            Ok(UdpPacketKind::Register) => if buffer.len() != UDP_BASE_HEADER_LEN {
                Err(UdpPacketError::RegisterSize)
            } else {
                Ok(Packet::Register { id })
            },
            Ok(UdpPacketKind::RegisterAck) => if buffer.len() != UDP_BASE_HEADER_LEN {
                Err(UdpPacketError::RegisterAckSize)
            } else {
                Ok(Packet::RegisterAck { id })
            },
            Ok(UdpPacketKind::Heartbeat) => if buffer.len() != UDP_BASE_HEADER_LEN {
                Err(UdpPacketError::HeartbeatSize)
            } else {
                Ok(Packet::Heartbeat { id })
            },
            Ok(UdpPacketKind::AudioData) => if buffer.len() < 38 {
                Err(UdpPacketError::AudioTooShort)
            } else if buffer.len() - 38 > max_payload {
                Err(
                    UdpPacketError::PayloadTooLarge(
                        PayloadTooLarge { len: (buffer.len() - 38) as usize, limit: max_payload },
                    ),
                )
            } else {
                Ok(
                    Packet::AudioData {
                        id,
                        sequence: be_number(buffer.subrange(22, 30)) as u64,
                        timestamp_ms: be_number(buffer.subrange(30, 38)) as u64,
                        payload: buffer.skip(38),
                    },
                )
            },
        }
    }
}

/// A packet that consists of the header alone.
fn encode_udp_control_packet(kind: UdpPacketKind, session_id: SessionId) -> (packet: Vec<u8>)
    ensures
        packet@ == header_bytes(kind, session_id@),
{
    let mut packet: Vec<u8> = Vec::with_capacity(UDP_BASE_HEADER_LEN);
    packet.extend_from_slice(UDP_MAGIC.as_slice());
    packet.push(UDP_VERSION);
    packet.push(kind.to_u8());
    packet.extend_from_slice(session_id.as_bytes().as_slice());
    assert(packet@ =~= header_bytes(kind, session_id@));
    packet
}

/// The packet by which a client registers its UDP endpoint.
pub fn encode_udp_register(session_id: SessionId) -> (packet: Vec<u8>)
    ensures
        packet@ == encode_packet(Packet::Register { id: session_id@ }),
{
    encode_udp_control_packet(UdpPacketKind::Register, session_id)
}

/// The packet by which the relay confirms a registration.
pub fn encode_udp_register_ack(session_id: SessionId) -> (packet: Vec<u8>)
    ensures
        packet@ == encode_packet(Packet::RegisterAck { id: session_id@ }),
{
    encode_udp_control_packet(UdpPacketKind::RegisterAck, session_id)
}

/// The packet by which a client keeps its UDP endpoint active.
pub fn encode_udp_heartbeat(session_id: SessionId) -> (packet: Vec<u8>)
    ensures
        packet@ == encode_packet(Packet::Heartbeat { id: session_id@ }),
{
    encode_udp_control_packet(UdpPacketKind::Heartbeat, session_id)
}

/// An audio packet, unless the payload is above the limit.
pub fn encode_udp_audio_data(
    session_id: SessionId,
    sequence: u64,
    timestamp_ms: u64,
    payload: &[u8],
    max_audio_payload_bytes: usize,
) -> (packet: Result<Vec<u8>, PayloadTooLarge>)
    ensures
        match packet {
            Ok(p) => payload@.len() <= max_audio_payload_bytes && p@ == encode_packet(
                Packet::AudioData { id: session_id@, sequence, timestamp_ms, payload: payload@ },
            ),
            Err(e) => payload@.len() > max_audio_payload_bytes && e == (PayloadTooLarge {
                len: payload@.len() as usize,
                limit: max_audio_payload_bytes,
            }),
        },
{
    if payload.len() > max_audio_payload_bytes {
        return Err(PayloadTooLarge { len: payload.len(), limit: max_audio_payload_bytes });
    }
    let mut packet = encode_udp_control_packet(UdpPacketKind::AudioData, session_id);
    push_u64(&mut packet, sequence);
    push_u64(&mut packet, timestamp_ms);
    packet.extend_from_slice(payload);
    assert(packet@ =~= encode_packet(
        Packet::AudioData { id: session_id@, sequence, timestamp_ms, payload: payload@ },
    ));
    Ok(packet)
}

/// Sixteen bytes of a buffer as a session id.
fn session_id_at(buffer: &[u8], offset: usize) -> (id: SessionId)
    requires
        offset + 16 <= buffer@.len(),
    ensures
        id@ == be_number(buffer@.subrange(offset as int, offset + 16)),
{
    let mut bytes: [u8; 16] = [0u8; 16];
    let mut i: usize = 0;
    while i < 16
        invariant
            i <= 16,
            offset + 16 <= buffer.len(),
            forall|j: int| 0 <= j < i ==> bytes@[j] == buffer@[offset + j],
        decreases 16 - i,
    {
        bytes[i] = buffer[offset + i];
        i = i + 1;
    }
    assert(bytes@ =~= buffer@.subrange(offset as int, offset + 16));
    SessionId::from_bytes(bytes)
}

/// Reads a UDP packet.
pub fn parse_udp_packet(buffer: &[u8], max_audio_payload_bytes: usize) -> (packet: Result<
    UdpPacket<'_>,
    UdpPacketError,
>)
    ensures
        match packet {
            Ok(p) => parse_packet(buffer@, max_audio_payload_bytes) == Ok::<Packet, UdpPacketError>(
                p@,
            ),
            Err(e) => parse_packet(buffer@, max_audio_payload_bytes) == Err::<
                Packet,
                UdpPacketError,
            >(e),
        },
{
    if buffer.len() < UDP_BASE_HEADER_LEN {
        return Err(UdpPacketError::TooShort);
    }
    if !(buffer[0] == 0x52 && buffer[1] == 0x41 && buffer[2] == 0x53 && buffer[3] == 0x31) {
        proof {
            let magic = seq![0x52u8, 0x41, 0x53, 0x31];
            let head = buffer@.take(4);
            assert(head[0] == buffer@[0] && head[1] == buffer@[1] && head[2] == buffer@[2]
                && head[3] == buffer@[3]);
            assert(magic[0] == 0x52 && magic[1] == 0x41 && magic[2] == 0x53 && magic[3] == 0x31);
        }
        return Err(UdpPacketError::InvalidMagic);
    }
    assert(buffer@.take(4) =~= seq![0x52u8, 0x41, 0x53, 0x31]);
    if buffer[4] != UDP_VERSION {
        return Err(UdpPacketError::UnsupportedVersion(buffer[4]));
    }
    let kind = match UdpPacketKind::from_u8(buffer[5]) {
        Ok(kind) => kind,
        Err(e) => {
            return Err(e);
        },
    };
    let session_id = session_id_at(buffer, 6);
    match kind {
        UdpPacketKind::Register => {
            if buffer.len() != UDP_BASE_HEADER_LEN {
                return Err(UdpPacketError::RegisterSize);
            }
            Ok(UdpPacket::Register { session_id })
        },
        UdpPacketKind::RegisterAck => {
            if buffer.len() != UDP_BASE_HEADER_LEN {
                return Err(UdpPacketError::RegisterAckSize);
            }
            Ok(UdpPacket::RegisterAck { session_id })
        },
        UdpPacketKind::Heartbeat => {
            if buffer.len() != UDP_BASE_HEADER_LEN {
                return Err(UdpPacketError::HeartbeatSize);
            }
            Ok(UdpPacket::Heartbeat { session_id })
        },
        UdpPacketKind::AudioData => {
            if buffer.len() < UDP_BASE_HEADER_LEN + UDP_AUDIO_META_LEN {
                return Err(UdpPacketError::AudioTooShort);
            }
            let payload = slice_subrange(buffer, 38, buffer.len());
            if payload.len() > max_audio_payload_bytes {
                return Err(
                    UdpPacketError::PayloadTooLarge(
                        PayloadTooLarge { len: payload.len(), limit: max_audio_payload_bytes },
                    ),
                );
            }
            let sequence = read_u64(buffer, 22);
            let timestamp_ms = read_u64(buffer, 30);
            assert(payload@ =~= buffer@.skip(38));
            Ok(UdpPacket::AudioData { session_id, sequence, timestamp_ms, payload })
        },
    }
}

/// Whether the payload of a packet, if it has one, is within a limit.
pub open spec fn payload_fits(packet: Packet, max_payload: usize) -> bool {
    packet matches Packet::AudioData { payload, .. } ==> payload.len() <= max_payload
}

/// Reading a packet that was written gives the same packet, for every packet whose payload is
/// within the limit.
pub proof fn law_parse_reads_what_encode_writes(packet: Packet, max_payload: usize)
    requires
        payload_fits(packet, max_payload),
    ensures
        parse_packet(encode_packet(packet), max_payload) == Ok::<Packet, UdpPacketError>(packet),
{
    let wire = encode_packet(packet);
    let id = match packet {
        Packet::Register { id } => id,
        Packet::RegisterAck { id } => id,
        Packet::Heartbeat { id } => id,
        Packet::AudioData { id, .. } => id,
    };
    lemma_session_id_number(id);
    assert(wire.take(4) =~= seq![0x52u8, 0x41, 0x53, 0x31]);
    assert(wire.subrange(6, 22) =~= id_bytes(id));
    if let Packet::AudioData { sequence, timestamp_ms, payload, .. } = packet {
        lemma_be_limits();
        lemma_be_bytes_len(sequence as nat, 8);
        lemma_be_bytes_len(timestamp_ms as nat, 8);
        lemma_be_number_of_bytes(sequence as nat, 8);
        lemma_be_number_of_bytes(timestamp_ms as nat, 8);
        assert(wire.subrange(22, 30) =~= be_bytes(sequence as nat, 8));
        assert(wire.subrange(30, 38) =~= be_bytes(timestamp_ms as nat, 8));
        assert(wire.skip(38) =~= payload);
    }
}

/// There is one way to write each packet: bytes that are read as a packet are the bytes that
/// writing the packet gives.
pub proof fn law_encode_writes_what_parse_read(buffer: Seq<u8>, max_payload: usize)
    ensures
        parse_packet(buffer, max_payload) matches Ok(packet) ==> encode_packet(packet) == buffer
            && payload_fits(packet, max_payload),
{
    if let Ok(packet) = parse_packet(buffer, max_payload) {
        lemma_session_id_bytes(buffer.subrange(6, 22));
        assert(buffer.take(4)[0] == buffer[0] && buffer.take(4)[1] == buffer[1] && buffer.take(4)[2]
            == buffer[2] && buffer.take(4)[3] == buffer[3]);
        if let Packet::AudioData { .. } = packet {
            lemma_be_limits();
            lemma_be_number_bound(buffer.subrange(22, 30));
            lemma_be_number_bound(buffer.subrange(30, 38));
            lemma_be_bytes_of_number(buffer.subrange(22, 30));
            lemma_be_bytes_of_number(buffer.subrange(30, 38));
        }
        assert(encode_packet(packet) =~= buffer);
    }
}

/// The layout of packets: `RAS1`, version 1, the kind, and the session id in sixteen bytes, most
/// significant first; that is all but for audio, which goes on with the sequence number and the
/// timestamp in eight bytes each, and the payload to the end.
pub proof fn law_packet_layout(packet: Packet)
    ensures
        ({
            let wire = encode_packet(packet);
            &&& wire.len() >= 22
            &&& wire[0] == 0x52 && wire[1] == 0x41 && wire[2] == 0x53 && wire[3] == 0x31
            &&& wire[4] == 1
            &&& match packet {
                Packet::Register { id } => wire.len() == 22 && wire[5] == 1 && be_number(
                    wire.subrange(6, 22),
                ) == id,
                Packet::RegisterAck { id } => wire.len() == 22 && wire[5] == 2 && be_number(
                    wire.subrange(6, 22),
                ) == id,
                Packet::Heartbeat { id } => wire.len() == 22 && wire[5] == 3 && be_number(
                    wire.subrange(6, 22),
                ) == id,
                Packet::AudioData { id, sequence, timestamp_ms, payload } => {
                    &&& wire.len() == 38 + payload.len()
                    &&& wire[5] == 4
                    &&& be_number(wire.subrange(6, 22)) == id
                    &&& be_number(wire.subrange(22, 30)) == sequence
                    &&& be_number(wire.subrange(30, 38)) == timestamp_ms
                    &&& wire.skip(38) == payload
                },
            }
        }),
{
    let wire = encode_packet(packet);
    let id = match packet {
        Packet::Register { id } => id,
        Packet::RegisterAck { id } => id,
        Packet::Heartbeat { id } => id,
        Packet::AudioData { id, .. } => id,
    };
    lemma_session_id_number(id);
    assert(wire.subrange(6, 22) =~= id_bytes(id));
    if let Packet::AudioData { sequence, timestamp_ms, payload, .. } = packet {
        lemma_be_limits();
        lemma_be_bytes_len(sequence as nat, 8);
        lemma_be_bytes_len(timestamp_ms as nat, 8);
        lemma_be_number_of_bytes(sequence as nat, 8);
        lemma_be_number_of_bytes(timestamp_ms as nat, 8);
        assert(wire.subrange(22, 30) =~= be_bytes(sequence as nat, 8));
        assert(wire.subrange(30, 38) =~= be_bytes(timestamp_ms as nat, 8));
        assert(wire.skip(38) =~= payload);
    }
}

/// Bytes are a packet exactly if they are at least a header long, begin with `RAS1` and version 1,
/// name a kind, and are as long as that kind is: a header for three of them, and for audio the
/// header with its numbers and a payload within the limit.
pub proof fn law_what_is_a_packet(buffer: Seq<u8>, max_payload: usize)
    ensures
        parse_packet(buffer, max_payload) is Ok <==> {
            &&& buffer.len() >= 22
            &&& buffer[0] == 0x52 && buffer[1] == 0x41 && buffer[2] == 0x53 && buffer[3] == 0x31
            &&& buffer[4] == 1
            &&& 1 <= buffer[5] <= 4
            &&& buffer[5] < 4 ==> buffer.len() == 22
            &&& buffer[5] == 4 ==> 38 <= buffer.len() <= 38 + max_payload
        },
{
    if buffer.len() >= 22 {
        let head = buffer.take(4);
        let magic = seq![0x52u8, 0x41, 0x53, 0x31];
        assert(head[0] == buffer[0] && head[1] == buffer[1] && head[2] == buffer[2] && head[3]
            == buffer[3]);
        if buffer[0] == 0x52 && buffer[1] == 0x41 && buffer[2] == 0x53 && buffer[3] == 0x31 {
            assert(head =~= magic);
        } else {
            assert(magic[0] == 0x52 && magic[1] == 0x41 && magic[2] == 0x53 && magic[3] == 0x31);
            assert(head != magic);
        }
    }
}

/// What is written is read back: every packet that is written, and read with its payload within
/// the limit, says what was to be written.
pub proof fn law_written_packets_are_read_back(
    session_id: SessionId,
    sequence: u64,
    timestamp_ms: u64,
    payload: &[u8],
    max_payload: usize,
    register: Vec<u8>,
    register_ack: Vec<u8>,
    heartbeat: Vec<u8>,
    audio: Result<Vec<u8>, PayloadTooLarge>,
)
    requires
        call_ensures(encode_udp_register, (session_id,), register),
        call_ensures(encode_udp_register_ack, (session_id,), register_ack),
        call_ensures(encode_udp_heartbeat, (session_id,), heartbeat),
        call_ensures(
            encode_udp_audio_data,
            (session_id, sequence, timestamp_ms, payload, max_payload),
            audio,
        ),
    ensures
        parse_packet(register@, max_payload) == Ok::<Packet, UdpPacketError>(
            Packet::Register { id: session_id@ },
        ),
        parse_packet(register_ack@, max_payload) == Ok::<Packet, UdpPacketError>(
            Packet::RegisterAck { id: session_id@ },
        ),
        parse_packet(heartbeat@, max_payload) == Ok::<Packet, UdpPacketError>(
            Packet::Heartbeat { id: session_id@ },
        ),
        audio is Ok <==> payload@.len() <= max_payload,
        audio matches Ok(wire) ==> parse_packet(wire@, max_payload) == Ok::<
            Packet,
            UdpPacketError,
        >(Packet::AudioData { id: session_id@, sequence, timestamp_ms, payload: payload@ }),
{
    law_parse_reads_what_encode_writes(Packet::Register { id: session_id@ }, max_payload);
    law_parse_reads_what_encode_writes(Packet::RegisterAck { id: session_id@ }, max_payload);
    law_parse_reads_what_encode_writes(Packet::Heartbeat { id: session_id@ }, max_payload);
    if payload@.len() <= max_payload {
        law_parse_reads_what_encode_writes(
            Packet::AudioData { id: session_id@, sequence, timestamp_ms, payload: payload@ },
            max_payload,
        );
    }
}

/// What is read was written: bytes are read as a packet only if they are the bytes of that packet.
pub proof fn law_read_packets_were_written(
    buffer: &[u8],
    max_payload: usize,
    packet: Result<UdpPacket<'_>, UdpPacketError>,
)
    requires
        call_ensures(parse_udp_packet, (buffer, max_payload), packet),
    ensures
        packet matches Ok(p) ==> encode_packet(p@) == buffer@ && payload_fits(p@, max_payload),
        packet is Err ==> forall|p: Packet|
            payload_fits(p, max_payload) ==> #[trigger] encode_packet(p) != buffer@,
{
    law_encode_writes_what_parse_read(buffer@, max_payload);
    if packet is Err {
        assert forall|p: Packet| payload_fits(p, max_payload) implies #[trigger] encode_packet(p)
            != buffer@ by {
            law_parse_reads_what_encode_writes(p, max_payload);
        }
    }
}

/// A session id is read back from its own text, and from no other session id's.
pub proof fn law_session_id_is_read_back(
    id: SessionId,
    text: String,
    read: Result<SessionId, &'static str>,
    copy: &str,
)
    requires
        call_ensures(SessionId::to_hex, (&id,), text),
        copy@ == text@,
        call_ensures(SessionId::from_hex, (copy,), read),
    ensures
        text@.len() == 32,
        read matches Ok(again) && again@ == id@,
{
    law_hex_round_trip(id@);
    if read is Ok {
        lemma_session_id_number(read->Ok_0@);
        lemma_session_id_number(id@);
    }
}

/// The digits of a session id stand for its bytes in order, two for each, the higher half first;
/// capital letters are read like small ones.
pub proof fn law_hex_digits_stand_for_bytes(text: Seq<u8>, i: int)
    requires
        hex_problem(text) is None,
        0 <= i < 16,
    ensures
        hex_bytes(text).len() == 16,
        hex_bytes(text)[i] == 16 * nibble_value(text[2 * i])->0 + nibble_value(text[2 * i + 1])->0,
        forall|digit: u8|
            0x61 <= digit <= 0x66 ==> #[trigger] nibble_value(digit) == nibble_value(
                (digit - 0x20) as u8,
            ) && nibble_value(digit) == Some((digit - 0x57) as u8),
        forall|digit: u8|
            0x30 <= digit <= 0x39 ==> #[trigger] nibble_value(digit) == Some((digit - 0x30) as u8),
        forall|digit: u8|
            #[trigger] nibble_value(digit) is Some ==> 0x30 <= digit <= 0x39 || 0x61 <= digit
                <= 0x66 || 0x41 <= digit <= 0x46,
{
    assert(nibble_value(text[2 * i]) is Some);
    assert(nibble_value(text[2 * i + 1]) is Some);
}

/// A key is judged character by character, but for its length: two keys put together are a key
/// exactly if both are and they are short enough together. A single character is a key exactly if
/// it is no control character; an empty key is none.
pub proof fn law_keys_are_judged_by_their_characters(a: Seq<char>, b: Seq<char>, ch: char)
    requires
        a.len() > 0,
        b.len() > 0,
    ensures
        key_problem(a + b) is None <==> {
            &&& encode_utf8(a + b).len() <= 128
            &&& !has_control(a)
            &&& !has_control(b)
        },
        key_problem(Seq::<char>::empty()) is Some,
        encode_utf8(seq![ch]).len() <= 128 ==> (key_problem(seq![ch]) is None <==> !(ch <= '\u{1f}'
            || '\u{7f}' <= ch <= '\u{9f}')),
        key_problem(a) is None ==> !has_control(a) && encode_utf8(a).len() <= 128,
{
    if has_control(a) {
        let i = choose|i: int| 0 <= i < a.len() && is_control(#[trigger] a[i]);
        assert((a + b)[i] == a[i]);
    }
    if has_control(b) {
        let i = choose|i: int| 0 <= i < b.len() && is_control(#[trigger] b[i]);
        assert((a + b)[a.len() + i] == b[i]);
    }
    if has_control(a + b) {
        let i = choose|i: int| 0 <= i < (a + b).len() && is_control(#[trigger] (a + b)[i]);
        if i < a.len() {
            assert(is_control(a[i]));
        } else {
            assert(is_control(b[i - a.len()]));
        }
    }
    let one = seq![ch];
    assert(one.len() == 1 && one[0] == ch);
    if is_control(ch) {
        assert(is_control(one[0]));
    }
}

/// A key is accepted exactly if nothing is wrong with it.
pub proof fn law_key_is_accepted_if_nothing_is_wrong(
    key: &str,
    outcome: Result<(), &'static str>,
)
    requires
        call_ensures(validate_key, (key,), outcome),
    ensures
        outcome is Ok <==> {
            &&& key@.len() > 0
            &&& encode_utf8(key@).len() <= 128
            &&& forall|i: int|
                0 <= i < key@.len() ==> !((#[trigger] key@[i]) <= '\u{1f}' || '\u{7f}' <= key@[i]
                    <= '\u{9f}')
        },
{
    if !has_control(key@) {
        assert forall|i: int| 0 <= i < key@.len() implies !((#[trigger] key@[i]) <= '\u{1f}'
            || '\u{7f}' <= key@[i] <= '\u{9f}') by {
            assert(!is_control(key@[i]));
        }
    } else {
        let i = choose|i: int| 0 <= i < key@.len() && is_control(#[trigger] key@[i]);
        assert(key@[i] <= '\u{1f}' || '\u{7f}' <= key@[i] <= '\u{9f}');
    }
}

/// A session id is its sixteen bytes, and two are the same exactly if their bytes are.
pub proof fn law_session_id_is_its_bytes(
    bytes: [u8; 16],
    other: [u8; 16],
    id: SessionId,
    other_id: SessionId,
    back: &[u8; 16],
    number: u128,
    same: bool,
)
    requires
        call_ensures(SessionId::from_bytes, (bytes,), id),
        call_ensures(SessionId::from_bytes, (other,), other_id),
        call_ensures(SessionId::as_bytes, (&id,), back),
        call_ensures(SessionId::number, (&id,), number),
        call_ensures(SessionId::eq, (&id, &other_id), same),
    ensures
        back@ == bytes@,
        number == be_number(bytes@),
        same <==> bytes@ == other@,
{
    lemma_session_id_bytes(bytes@);
    lemma_session_id_bytes(other@);
}

/// A number and the session id of that number belong together.
pub proof fn law_session_id_has_its_number(number: u128, id: SessionId, again: u128)
    requires
        call_ensures(SessionId::from_number, (number,), id),
        call_ensures(SessionId::number, (&id,), again),
    ensures
        again == number,
{
}

/// A draw without a failure is the session id of the bytes; a failure is none.
pub proof fn law_draw_gives_the_bytes(
    bytes: [u8; 16],
    failure: Option<String>,
    id: Result<SessionId, IoError>,
)
    requires
        call_ensures(SessionId::from_draw, (bytes, failure), id),
    ensures
        id is Ok <==> failure is None,
        id matches Ok(drawn) ==> id_bytes(drawn@) == bytes@,
{
    lemma_session_id_bytes(bytes@);
}

/// The kinds of packets and their numbers belong together, and no other number is a kind.
pub proof fn law_kinds_have_numbers(
    kind: UdpPacketKind,
    number: u8,
    read: Result<UdpPacketKind, UdpPacketError>,
    other: u8,
    read_other: Result<UdpPacketKind, UdpPacketError>,
)
    requires
        call_ensures(UdpPacketKind::to_u8, (kind,), number),
        call_ensures(UdpPacketKind::from_u8, (number,), read),
        call_ensures(UdpPacketKind::from_u8, (other,), read_other),
    ensures
        read == Ok::<UdpPacketKind, UdpPacketError>(kind),
        read_other is Ok <==> 1 <= other <= 4,
        read_other matches Err(e) ==> e == UdpPacketError::UnknownKind(other),
{
}

} // verus!
