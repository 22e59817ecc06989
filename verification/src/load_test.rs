//! The load test: its command line, the traffic that it makes, and what it expects back.

use vstd::arithmetic::div_mod::lemma_add_mod_noop;
use vstd::prelude::*;
use vstd::slice::*;
use vstd::string::*;
use vstd::utf8::*;

use crate::config::{
    DEFAULT_PORT, DEFAULT_STATUS_PORT, TCP_HEARTBEAT_INTERVAL_MS, UDP_AUDIO_PAYLOAD_MAX_BYTES,
    UDP_SESSION_TIMEOUT_MS,
};
use crate::endpoint::Endpoint;
use crate::error::{ErrorKind, IoError};
use crate::protocol::{
    encode_packet, encode_udp_audio_data, hex_bytes, hex_problem, id_bytes,
    law_encode_writes_what_parse_read, law_parse_reads_what_encode_writes, parse_packet,
    parse_udp_packet, payload_fits, ClientRole, HandshakeResponseOwned, Packet, PayloadTooLarge,
    SessionId, UdpPacket, UdpPacketError,
};
use crate::state::{sum_over, RegistrySnapshot, StreamSnapshot};
use crate::streams::optional_text;
use crate::text::{
    after_prefix, decimal, decimal_text, has_prefix, law_decimal_is_read_back,
    law_prefix_comes_off, lemma_other_prefix, parse_number, parse_unsigned, same_text, value_after_prefix,
};

verus! {

/// The number of publishers, unless the command line says otherwise.
pub const DEFAULT_PUBLISHERS: usize = 20;

/// The number of subscribers of each publisher, unless the command line says otherwise.
pub const DEFAULT_SUBSCRIBERS_PER_PUBLISHER: usize = 20;

/// The number of packets that each publisher sends, unless the command line says otherwise.
pub const DEFAULT_PACKETS_PER_PUBLISHER: usize = 200;

/// The size of a payload, unless the command line says otherwise.
pub const DEFAULT_PAYLOAD_BYTES: usize = 160;

/// The pause after each packet, unless the command line says otherwise.
pub const DEFAULT_PACKET_INTERVAL_MS: u64 = 10;

/// The number of heartbeat rounds, unless the command line says otherwise.
pub const DEFAULT_HEARTBEAT_ROUNDS: usize = 2;

/// The length of a heartbeat round, unless the command line says otherwise.
pub const DEFAULT_HEARTBEAT_ROUND_INTERVAL_MS: u64 = 1000;

/// The host of the relay, unless the command line says otherwise.
pub const DEFAULT_HOST: &'static str = "127.0.0.1";

/// One line on how to start the load test.
pub const LOAD_TEST_USAGE: &'static str =
    "usage: NVDARemoteAudioServer_load_test [--host=127.0.0.1] [--publishers=20] [--subscribers-per-publisher=20] [--packets-per-publisher=200] [--payload-bytes=160] [--packet-interval-ms=10] [--heartbeat-rounds=2] [--heartbeat-round-interval-ms=1000] [--port=6838] [--sport=6839] [--external-server]";

/// What the load test does.
#[derive(Debug)]
pub struct LoadTestConfig {
    pub host: String,
    pub publishers: usize,
    pub subscribers_per_publisher: usize,
    pub packets_per_publisher: usize,
    pub payload_bytes: usize,
    pub packet_interval_ms: u64,
    pub heartbeat_rounds: usize,
    pub heartbeat_round_interval_ms: u64,
    pub port: u16,
    pub status_port: u16,
    pub external_server: bool,
}

/// What the command line has set so far.
#[verifier::ext_equal]
pub struct LoadSettings {
    pub host: Seq<char>,
    pub publishers: usize,
    pub subscribers_per_publisher: usize,
    pub packets_per_publisher: usize,
    pub payload_bytes: usize,
    pub packet_interval_ms: u64,
    pub heartbeat_rounds: usize,
    pub heartbeat_round_interval_ms: u64,
    pub port: u16,
    pub status_port: u16,
    pub external_server: bool,
}

impl View for LoadTestConfig {
    type V = LoadSettings;

    open spec fn view(&self) -> LoadSettings {
        LoadSettings {
            host: self.host@,
            publishers: self.publishers,
            subscribers_per_publisher: self.subscribers_per_publisher,
            packets_per_publisher: self.packets_per_publisher,
            payload_bytes: self.payload_bytes,
            packet_interval_ms: self.packet_interval_ms,
            heartbeat_rounds: self.heartbeat_rounds,
            heartbeat_round_interval_ms: self.heartbeat_round_interval_ms,
            port: self.port,
            status_port: self.status_port,
            external_server: self.external_server,
        }
    }
}

/// A failure: its kind and its message.
#[verifier::ext_equal]
pub struct Failure {
    pub kind: ErrorKind,
    pub message: Seq<char>,
}

/// The kind and the message of a failure.
pub open spec fn failure_of(error: IoError) -> Failure {
    Failure { kind: error.kind, message: error.message@ }
}

/// A failure that is the caller's mistake.
pub open spec fn invalid_input(message: Seq<char>) -> Failure {
    Failure { kind: ErrorKind::InvalidInput, message }
}

/// A failure of what was received.
pub open spec fn invalid_data(message: Seq<char>) -> Failure {
    Failure { kind: ErrorKind::InvalidData, message }
}

/// Any other failure.
pub open spec fn other_failure(message: Seq<char>) -> Failure {
    Failure { kind: ErrorKind::Other, message }
}

/// What holds without any argument.
pub open spec fn default_load_settings() -> LoadSettings {
    LoadSettings {
        host: DEFAULT_HOST@,
        publishers: DEFAULT_PUBLISHERS,
        subscribers_per_publisher: DEFAULT_SUBSCRIBERS_PER_PUBLISHER,
        packets_per_publisher: DEFAULT_PACKETS_PER_PUBLISHER,
        payload_bytes: DEFAULT_PAYLOAD_BYTES,
        packet_interval_ms: DEFAULT_PACKET_INTERVAL_MS,
        heartbeat_rounds: DEFAULT_HEARTBEAT_ROUNDS,
        heartbeat_round_interval_ms: DEFAULT_HEARTBEAT_ROUND_INTERVAL_MS,
        port: DEFAULT_PORT,
        status_port: DEFAULT_STATUS_PORT,
        external_server: false,
    }
}

/// The count that an option's value gives.
pub open spec fn count_value(raw: Seq<char>, name: Seq<char>) -> Result<usize, Failure> {
    match parse_number(raw, usize::MAX as nat) {
        Some(n) => Ok(n as usize),
        None => Err(invalid_input(name + " must be a valid usize"@)),
    }
}

/// The time that an option's value gives.
pub open spec fn time_value(raw: Seq<char>, name: Seq<char>) -> Result<u64, Failure> {
    match parse_number(raw, u64::MAX as nat) {
        Some(n) => Ok(n as u64),
        None => Err(invalid_input(name + " must be a valid u64"@)),
    }
}

/// The port that an option's value gives.
pub open spec fn load_port_value(raw: Seq<char>, name: Seq<char>) -> Result<u16, Failure> {
    match parse_number(raw, u16::MAX as nat) {
        Some(n) => if n == 0 {
            Err(invalid_input(name + " must be greater than 0"@))
        } else {
            Ok(n as u16)
        },
        None => Err(invalid_input(name + " must be a valid u16 port"@)),
    }
}

/// What an argument makes of the settings.
pub open spec fn apply_load_argument(settings: LoadSettings, text: Seq<char>) -> Result<
    LoadSettings,
    Failure,
> {
    if let Some(host) = after_prefix(text, "--host="@) {
        if host.len() == 0 {
            Err(invalid_input("--host must be non-empty"@))
        } else {
            Ok(LoadSettings { host, ..settings })
        }
    } else if let Some(raw) = after_prefix(text, "--publishers="@) {
        match count_value(raw, "--publishers"@) {
            Ok(publishers) => Ok(LoadSettings { publishers, ..settings }),
            Err(e) => Err(e),
        }
    } else if let Some(raw) = after_prefix(text, "--subscribers-per-publisher="@) {
        match count_value(raw, "--subscribers-per-publisher"@) {
            Ok(subscribers_per_publisher) => Ok(
                LoadSettings { subscribers_per_publisher, ..settings },
            ),
            Err(e) => Err(e),
        }
    } else if let Some(raw) = after_prefix(text, "--packets-per-publisher="@) {
        match count_value(raw, "--packets-per-publisher"@) {
            Ok(packets_per_publisher) => Ok(LoadSettings { packets_per_publisher, ..settings }),
            Err(e) => Err(e),
        }
    } else if let Some(raw) = after_prefix(text, "--payload-bytes="@) {
        match count_value(raw, "--payload-bytes"@) {
            Ok(payload_bytes) => Ok(LoadSettings { payload_bytes, ..settings }),
            Err(e) => Err(e),
        }
    } else if let Some(raw) = after_prefix(text, "--packet-interval-ms="@) {
        match time_value(raw, "--packet-interval-ms"@) {
            Ok(packet_interval_ms) => Ok(LoadSettings { packet_interval_ms, ..settings }),
            Err(e) => Err(e),
        }
    } else if let Some(raw) = after_prefix(text, "--heartbeat-rounds="@) {
        match count_value(raw, "--heartbeat-rounds"@) {
            Ok(heartbeat_rounds) => Ok(LoadSettings { heartbeat_rounds, ..settings }),
            Err(e) => Err(e),
        }
    } else if let Some(raw) = after_prefix(text, "--heartbeat-round-interval-ms="@) {
        match time_value(raw, "--heartbeat-round-interval-ms"@) {
            Ok(heartbeat_round_interval_ms) => Ok(
                LoadSettings { heartbeat_round_interval_ms, ..settings },
            ),
            Err(e) => Err(e),
        }
    } else if let Some(raw) = after_prefix(text, "--port="@) {
        match load_port_value(raw, "--port"@) {
            Ok(port) => Ok(LoadSettings { port, ..settings }),
            Err(e) => Err(e),
        }
    } else if let Some(raw) = after_prefix(text, "--sport="@) {
        match load_port_value(raw, "--sport"@) {
            Ok(status_port) => Ok(LoadSettings { status_port, ..settings }),
            Err(e) => Err(e),
        }
    } else if text == "--external-server"@ {
        Ok(LoadSettings { external_server: true, ..settings })
    } else if text == "--help"@ || text == "-h"@ {
        Err(other_failure(LOAD_TEST_USAGE@))
    } else {
        Err(invalid_input("unknown argument: "@ + text))
    }
}

/// What the arguments say, from left to right, up to the first that is not accepted.
pub open spec fn read_load_arguments(arguments: Seq<String>) -> Result<LoadSettings, Failure>
    decreases arguments.len(),
{
    if arguments.len() == 0 {
        Ok(default_load_settings())
    } else {
        match read_load_arguments(arguments.drop_last()) {
            Ok(settings) => apply_load_argument(settings, arguments.last()@),
            Err(e) => Err(e),
        }
    }
}

/// What is wrong with settings, if anything is.
pub open spec fn settings_problem(settings: LoadSettings) -> Option<Failure> {
    if settings.publishers == 0 {
        Some(invalid_input("--publishers must be greater than 0"@))
    } else if settings.subscribers_per_publisher == 0 {
        Some(invalid_input("--subscribers-per-publisher must be greater than 0"@))
    } else if settings.packets_per_publisher == 0 {
        Some(invalid_input("--packets-per-publisher must be greater than 0"@))
    } else if settings.payload_bytes == 0 || settings.payload_bytes > UDP_AUDIO_PAYLOAD_MAX_BYTES {
        Some(
            invalid_input(
                "--payload-bytes must be between 1 and "@ + decimal(
                    UDP_AUDIO_PAYLOAD_MAX_BYTES as nat,
                ),
            ),
        )
    } else {
        None
    }
}

/// What a whole command line says.
pub open spec fn load_test_settings(arguments: Seq<String>) -> Result<LoadSettings, Failure> {
    match read_load_arguments(arguments) {
        Ok(settings) => match settings_problem(settings) {
            Some(failure) => Err(failure),
            None => Ok(settings),
        },
        Err(e) => Err(e),
    }
}

/// Reads the value of an option that is a count.
pub fn parse_usize(raw: &str, name: &str) -> (value: Result<usize, IoError>)
    ensures
        match value {
            Ok(n) => count_value(raw@, name@) == Ok::<usize, Failure>(n),
            Err(e) => count_value(raw@, name@) == Err::<usize, Failure>(failure_of(e)),
        },
{
    match parse_unsigned(raw, usize::MAX as u64) {
        Some(n) => Ok(n as usize),
        None => Err(
            IoError {
                kind: ErrorKind::InvalidInput,
                message: name.to_owned().concat(" must be a valid usize"),
            },
        ),
    }
}

/// Reads the value of an option that is a time.
pub fn parse_u64(raw: &str, name: &str) -> (value: Result<u64, IoError>)
    ensures
        match value {
            Ok(n) => time_value(raw@, name@) == Ok::<u64, Failure>(n),
            Err(e) => time_value(raw@, name@) == Err::<u64, Failure>(failure_of(e)),
        },
{
    match parse_unsigned(raw, u64::MAX) {
        Some(n) => Ok(n),
        None => Err(
            IoError {
                kind: ErrorKind::InvalidInput,
                message: name.to_owned().concat(" must be a valid u64"),
            },
        ),
    }
}

/// Reads the value of an option that is a port.
pub fn parse_port(raw: &str, name: &str) -> (value: Result<u16, IoError>)
    ensures
        match value {
            Ok(n) => load_port_value(raw@, name@) == Ok::<u16, Failure>(n),
            Err(e) => load_port_value(raw@, name@) == Err::<u16, Failure>(failure_of(e)),
        },
{
    match parse_unsigned(raw, u16::MAX as u64) {
        Some(n) => {
            if n == 0 {
                Err(
                    IoError {
                        kind: ErrorKind::InvalidInput,
                        message: name.to_owned().concat(" must be greater than 0"),
                    },
                )
            } else {
                Ok(n as u16)
            }
        },
        None => Err(
            IoError {
                kind: ErrorKind::InvalidInput,
                message: name.to_owned().concat(" must be a valid u16 port"),
            },
        ),
    }
}

impl LoadTestConfig {
    /// What holds without any argument.
    fn with_defaults() -> (config: LoadTestConfig)
        ensures
            config@ == default_load_settings(),
    {
        LoadTestConfig {
            host: DEFAULT_HOST.to_owned(),
            publishers: DEFAULT_PUBLISHERS,
            subscribers_per_publisher: DEFAULT_SUBSCRIBERS_PER_PUBLISHER,
            packets_per_publisher: DEFAULT_PACKETS_PER_PUBLISHER,
            payload_bytes: DEFAULT_PAYLOAD_BYTES,
            packet_interval_ms: DEFAULT_PACKET_INTERVAL_MS,
            heartbeat_rounds: DEFAULT_HEARTBEAT_ROUNDS,
            heartbeat_round_interval_ms: DEFAULT_HEARTBEAT_ROUND_INTERVAL_MS,
            port: DEFAULT_PORT,
            status_port: DEFAULT_STATUS_PORT,
            external_server: false,
        }
    }

    /// Takes in one argument.
    fn apply(&mut self, text: &str) -> (result: Result<(), IoError>)
        ensures
            match result {
                Ok(()) => apply_load_argument(old(self)@, text@) == Ok::<LoadSettings, Failure>(
                    final(self)@,
                ),
                Err(e) => apply_load_argument(old(self)@, text@) == Err::<LoadSettings, Failure>(
                    failure_of(e),
                ),
            },
    {
        if let Some(host) = value_after_prefix(text, "--host=") {
            if host.as_str().is_empty() {
                return Err(IoError::new(ErrorKind::InvalidInput, "--host must be non-empty"));
            }
            self.host = host;
        } else if let Some(raw) = value_after_prefix(text, "--publishers=") {
            match parse_usize(raw.as_str(), "--publishers") {
                Ok(n) => {
                    self.publishers = n;
                },
                Err(e) => {
                    return Err(e);
                },
            }
        } else if let Some(raw) = value_after_prefix(text, "--subscribers-per-publisher=") {
            match parse_usize(raw.as_str(), "--subscribers-per-publisher") {
                Ok(n) => {
                    self.subscribers_per_publisher = n;
                },
                Err(e) => {
                    return Err(e);
                },
            }
        } else if let Some(raw) = value_after_prefix(text, "--packets-per-publisher=") {
            match parse_usize(raw.as_str(), "--packets-per-publisher") {
                Ok(n) => {
                    self.packets_per_publisher = n;
                },
                Err(e) => {
                    return Err(e);
                },
            }
        } else if let Some(raw) = value_after_prefix(text, "--payload-bytes=") {
            match parse_usize(raw.as_str(), "--payload-bytes") {
                Ok(n) => {
                    self.payload_bytes = n;
                },
                Err(e) => {
                    return Err(e);
                },
            }
        } else if let Some(raw) = value_after_prefix(text, "--packet-interval-ms=") {
            match parse_u64(raw.as_str(), "--packet-interval-ms") {
                Ok(n) => {
                    self.packet_interval_ms = n;
                },
                Err(e) => {
                    return Err(e);
                },
            }
        } else if let Some(raw) = value_after_prefix(text, "--heartbeat-rounds=") {
            match parse_usize(raw.as_str(), "--heartbeat-rounds") {
                Ok(n) => {
                    self.heartbeat_rounds = n;
                },
                Err(e) => {
                    return Err(e);
                },
            }
        } else if let Some(raw) = value_after_prefix(text, "--heartbeat-round-interval-ms=") {
            match parse_u64(raw.as_str(), "--heartbeat-round-interval-ms") {
                Ok(n) => {
                    self.heartbeat_round_interval_ms = n;
                },
                Err(e) => {
                    return Err(e);
                },
            }
        } else if let Some(raw) = value_after_prefix(text, "--port=") {
            match parse_port(raw.as_str(), "--port") {
                Ok(n) => {
                    self.port = n;
                },
                Err(e) => {
                    return Err(e);
                },
            }
        } else if let Some(raw) = value_after_prefix(text, "--sport=") {
            match parse_port(raw.as_str(), "--sport") {
                Ok(n) => {
                    self.status_port = n;
                },
                Err(e) => {
                    return Err(e);
                },
            }
        } else if same_text(text, "--external-server") {
            self.external_server = true;
        } else if same_text(text, "--help") || same_text(text, "-h") {
            return Err(IoError::new(ErrorKind::Other, LOAD_TEST_USAGE));
        } else {
            return Err(
                IoError {
                    kind: ErrorKind::InvalidInput,
                    message: "unknown argument: ".to_owned().concat(text),
                },
            );
        }
        Ok(())
    }

    /// Tests the settings once all arguments are in.
    fn check(&self) -> (result: Result<(), IoError>)
        ensures
            match result {
                Ok(()) => settings_problem(self@) is None,
                Err(e) => settings_problem(self@) == Some(failure_of(e)),
            },
    {
        if self.publishers == 0 {
            return Err(
                IoError::new(ErrorKind::InvalidInput, "--publishers must be greater than 0"),
            );
        }
        if self.subscribers_per_publisher == 0 {
            return Err(
                IoError::new(
                    ErrorKind::InvalidInput,
                    "--subscribers-per-publisher must be greater than 0",
                ),
            );
        }
        if self.packets_per_publisher == 0 {
            return Err(
                IoError::new(
                    ErrorKind::InvalidInput,
                    "--packets-per-publisher must be greater than 0",
                ),
            );
        }
        if self.payload_bytes == 0 || self.payload_bytes > UDP_AUDIO_PAYLOAD_MAX_BYTES {
            return Err(
                IoError {
                    kind: ErrorKind::InvalidInput,
                    message: "--payload-bytes must be between 1 and ".to_owned().concat(
                        decimal_text(UDP_AUDIO_PAYLOAD_MAX_BYTES as u128).as_str(),
                    ),
                },
            );
        }
        Ok(())
    }

    /// Reads the command line, without the program's name.
    pub fn from_args(arguments: &Vec<String>) -> (config: Result<LoadTestConfig, IoError>)
        ensures
            match config {
                Ok(c) => load_test_settings(arguments@) == Ok::<LoadSettings, Failure>(c@),
                Err(e) => load_test_settings(arguments@) == Err::<LoadSettings, Failure>(
                    failure_of(e),
                ),
            },
    {
        let mut config = LoadTestConfig::with_defaults();
        let mut i: usize = 0;
        while i < arguments.len()
            invariant
                i <= arguments.len(),
                read_load_arguments(arguments@.take(i as int)) == Ok::<LoadSettings, Failure>(
                    config@,
                ),
            decreases arguments.len() - i,
        {
            proof {
                assert(arguments@.take(i + 1).drop_last() =~= arguments@.take(i as int));
                assert(arguments@.take(i + 1).last() == arguments@[i as int]);
                law_first_load_refusal_stands(arguments@, i + 1);
            }
            match config.apply(arguments[i].as_str()) {
                Ok(()) => {},
                Err(e) => {
                    return Err(e);
                },
            }
            i = i + 1;
        }
        assert(arguments@.take(arguments@.len() as int) =~= arguments@);
        match config.check() {
            Ok(()) => Ok(config),
            Err(e) => Err(e),
        }
    }
}

/// The first argument that is not accepted decides, whatever follows it.
pub proof fn law_first_load_refusal_stands(arguments: Seq<String>, n: int)
    requires
        0 <= n <= arguments.len(),
    ensures
        read_load_arguments(arguments.take(n)) is Err ==> read_load_arguments(arguments)
            == read_load_arguments(arguments.take(n)),
    decreases arguments.len() - n,
{
    if n < arguments.len() {
        law_first_load_refusal_stands(arguments, n + 1);
        assert(arguments.take(n + 1).drop_last() =~= arguments.take(n));
    } else {
        assert(arguments.take(n) =~= arguments);
    }
}

/// The key of a publisher: its number in at least two digits behind a name.
pub open spec fn stream_key_text(key_index: usize) -> Seq<char> {
    if key_index < 10 {
        "load_room_"@ + "0"@ + decimal(key_index as nat)
    } else {
        "load_room_"@ + decimal(key_index as nat)
    }
}

/// The key of a publisher.
pub fn stream_key(key_index: usize) -> (key: String)
    ensures
        key@ == stream_key_text(key_index),
{
    let number = decimal_text(key_index as u128);
    if key_index < 10 {
        "load_room_".to_owned().concat("0").concat(number.as_str())
    } else {
        "load_room_".to_owned().concat(number.as_str())
    }
}

/// The payload of a packet: bytes that count up from a start that depends on the publisher and on
/// the packet.
pub open spec fn payload_for(key_index: usize, sequence: u64, payload_bytes: usize) -> Seq<u8> {
    Seq::new(
        payload_bytes as nat,
        |i: int| ((key_index * 31 + sequence * 17 + i) % 256) as u8,
    )
}

/// One byte of a payload.
fn payload_byte(key_index: usize, sequence: u64, i: usize) -> (byte: u8)
    ensures
        byte == ((key_index * 31 + sequence * 17 + i) % 256) as u8,
{
    let k: u64 = (key_index as u64) % 256;
    let s: u64 = sequence % 256;
    let n: u64 = (i as u64) % 256;
    let total: u64 = k * 31 + s * 17 + n;
    proof {
        assert((key_index * 31 + sequence * 17 + i) % 256 == (k * 31 + s * 17 + n) % 256)
            by (nonlinear_arith)
            requires
                k == key_index % 256,
                s == sequence % 256,
                n == i % 256,
        ;
    }
    (total % 256) as u8
}

/// The payload of a packet.
pub fn generate_payload(key_index: usize, sequence: u64, payload_bytes: usize) -> (payload: Vec<u8>)
    ensures
        payload@ == payload_for(key_index, sequence, payload_bytes),
{
    let mut payload: Vec<u8> = Vec::with_capacity(payload_bytes);
    let mut i: usize = 0;
    while i < payload_bytes
        invariant
            i <= payload_bytes,
            payload@ == payload_for(key_index, sequence, i),
        decreases payload_bytes - i,
    {
        payload.push(payload_byte(key_index, sequence, i));
        i = i + 1;
        assert(payload@ =~= payload_for(key_index, sequence, i));
    }
    payload
}

/// The timestamp of a packet. It wraps around.
pub open spec fn timestamp_for(key_index: usize, sequence: u64) -> u64 {
    ((1_760_000_000_000 + key_index * 1_000_000 + sequence) % 0x1_0000_0000_0000_0000) as u64
}

/// The timestamp of a packet.
pub fn generate_timestamp_ms(key_index: usize, sequence: u64) -> (timestamp_ms: u64)
    ensures
        timestamp_ms == timestamp_for(key_index, sequence),
        1_760_000_000_000 + key_index * 1_000_000 + sequence <= u64::MAX ==> timestamp_ms
            == 1_760_000_000_000 + key_index * 1_000_000 + sequence,
{
    let wide: u128 = 1_760_000_000_000u128 + (key_index as u128) * 1_000_000 + (sequence as u128);
    (wide % 0x1_0000_0000_0000_0000u128) as u64
}

/// A packet that a publisher sends.
pub open spec fn load_packet(
    session_id: u128,
    key_index: usize,
    sequence: u64,
    payload_bytes: usize,
) -> Packet {
    Packet::AudioData {
        id: session_id,
        sequence,
        timestamp_ms: timestamp_for(key_index, sequence),
        payload: payload_for(key_index, sequence, payload_bytes),
    }
}

/// A packet that a publisher sends.
pub fn publisher_packet(
    key_index: usize,
    session_id: SessionId,
    sequence: u64,
    payload_bytes: usize,
) -> (packet: Result<Vec<u8>, PayloadTooLarge>)
    ensures
        match packet {
            Ok(p) => {
                &&& payload_bytes <= UDP_AUDIO_PAYLOAD_MAX_BYTES
                &&& p@ == encode_packet(
                    load_packet(session_id@, key_index, sequence, payload_bytes),
                )
            },
            Err(e) => {
                &&& payload_bytes > UDP_AUDIO_PAYLOAD_MAX_BYTES
                &&& e == (PayloadTooLarge {
                    len: payload_bytes,
                    limit: UDP_AUDIO_PAYLOAD_MAX_BYTES,
                })
            },
        },
{
    let payload = generate_payload(key_index, sequence, payload_bytes);
    encode_udp_audio_data(
        session_id,
        sequence,
        generate_timestamp_ms(key_index, sequence),
        payload.as_slice(),
        UDP_AUDIO_PAYLOAD_MAX_BYTES,
    )
}

/// The address to use out of those that a host has: the first IPv4 address, or else the first.
pub open spec fn preferred_address(addresses: Seq<Endpoint>) -> Option<Endpoint>
    decreases addresses.len(),
{
    if addresses.len() == 0 {
        None
    } else {
        match preferred_address(addresses.drop_last()) {
            None => Some(addresses.last()),
            Some(best) => if !best.spec_is_ipv4() && addresses.last().spec_is_ipv4() {
                Some(addresses.last())
            } else {
                Some(best)
            },
        }
    }
}

/// The preferred address is an IPv4 address where there is one, and the first such; else it is
/// the first address.
pub proof fn law_first_ipv4_address_is_preferred(addresses: Seq<Endpoint>)
    ensures
        match preferred_address(addresses) {
            None => addresses.len() == 0,
            Some(best) => if best.spec_is_ipv4() {
                exists|i: int|
                    0 <= i < addresses.len() && #[trigger] addresses[i] == best && forall|j: int|
                        0 <= j < i ==> !(#[trigger] addresses[j]).spec_is_ipv4()
            } else {
                addresses.len() > 0 && best == addresses[0] && forall|j: int|
                    0 <= j < addresses.len() ==> !(#[trigger] addresses[j]).spec_is_ipv4()
            },
        },
    decreases addresses.len(),
{
    if addresses.len() > 0 {
        let shorter = addresses.drop_last();
        law_first_ipv4_address_is_preferred(shorter);
        match preferred_address(shorter) {
            None => {
                assert(addresses[0] == addresses.last());
            },
            Some(best) => {
                if best.spec_is_ipv4() {
                    let i = choose|i: int|
                        0 <= i < shorter.len() && #[trigger] shorter[i] == best && forall|j: int|
                            0 <= j < i ==> !(#[trigger] shorter[j]).spec_is_ipv4();
                    assert(addresses[i] == best);
                    assert forall|j: int| 0 <= j < i implies !(#[trigger] addresses[j]).spec_is_ipv4() by {
                        assert(shorter[j] == addresses[j]);
                    }
                } else {
                    assert forall|j: int| 0 <= j < addresses.len() - 1 implies !(
                    #[trigger] addresses[j]).spec_is_ipv4() by {
                        assert(shorter[j] == addresses[j]);
                    }
                    if addresses.last().spec_is_ipv4() {
                        assert(addresses[addresses.len() - 1] == addresses.last());
                    } else {
                        assert(shorter[0] == addresses[0]);
                    }
                }
            },
        }
    }
}

/// Picks the address to use out of those that a host has.
pub fn resolve_socket_addr(host: &str, port: u16, addresses: &Vec<Endpoint>) -> (address: Result<
    Endpoint,
    IoError,
>)
    ensures
        match preferred_address(addresses@) {
            Some(best) => address == Ok::<Endpoint, IoError>(best),
            None => address matches Err(e) && failure_of(e) == (Failure {
                kind: ErrorKind::AddrNotAvailable,
                message: "no address resolved for "@ + host@ + ":"@ + decimal(port as nat),
            }),
        },
{
    let mut best: Option<Endpoint> = None;
    let mut i: usize = 0;
    assert(addresses@.take(0) =~= Seq::empty());
    while i < addresses.len()
        invariant
            i <= addresses.len(),
            best == preferred_address(addresses@.take(i as int)),
        decreases addresses.len() - i,
    {
        let address = addresses[i];
        assert(addresses@.take(i + 1).drop_last() =~= addresses@.take(i as int));
        assert(addresses@.take(i + 1).last() == address);
        best = match best {
            None => Some(address),
            Some(b) => {
                if !b.is_ipv4() && address.is_ipv4() {
                    Some(address)
                } else {
                    Some(b)
                }
            },
        };
        i = i + 1;
    }
    assert(addresses@.take(addresses@.len() as int) =~= addresses@);
    match best {
        Some(b) => Ok(b),
        None => Err(
            IoError {
                kind: ErrorKind::AddrNotAvailable,
                message: "no address resolved for ".to_owned().concat(host).concat(":").concat(
                    decimal_text(port as u128).as_str(),
                ),
            },
        ),
    }
}

/// Tests that a relay of the load test's own would be on this machine.
pub fn check_loopback(control: Endpoint, status: Endpoint) -> (result: Result<(), IoError>)
    ensures
        if control.spec_is_loopback() && status.spec_is_loopback() {
            result is Ok
        } else {
            result matches Err(e) && failure_of(e) == invalid_input(
                "--host must resolve to a loopback address unless --external-server is set"@,
            )
        },
{
    if !control.is_loopback() || !status.is_loopback() {
        return Err(
            IoError::new(
                ErrorKind::InvalidInput,
                "--host must resolve to a loopback address unless --external-server is set",
            ),
        );
    }
    Ok(())
}

/// What is wrong with the reply to a handshake, if anything is.
pub open spec fn response_problem(
    response: HandshakeResponseOwned,
    role: ClientRole,
    key: Seq<char>,
) -> Option<Failure> {
    if response.status@ != "ok"@ {
        Some(
            other_failure(
                "handshake failed for key "@ + key + ": "@ + response.message@,
            ),
        )
    } else if response.message@ != "control session established"@ {
        Some(
            invalid_data(
                "unexpected handshake message for key "@ + key + ": "@ + response.message@,
            ),
        )
    } else if response.role != Some(role) {
        Some(invalid_data("handshake role mismatch for key "@ + key))
    } else if optional_text(response.key) != Some(key) {
        Some(invalid_data("handshake key mismatch for key "@ + key))
    } else if response.tcp_heartbeat_interval_ms != Some(TCP_HEARTBEAT_INTERVAL_MS) {
        Some(invalid_data("unexpected tcp heartbeat interval for key "@ + key))
    } else if response.udp_session_timeout_ms != Some(UDP_SESSION_TIMEOUT_MS) {
        Some(invalid_data("unexpected udp session timeout for key "@ + key))
    } else if response.udp_audio_payload_max_bytes != Some(UDP_AUDIO_PAYLOAD_MAX_BYTES) {
        Some(invalid_data("unexpected udp payload limit for key "@ + key))
    } else if response.session_id is None {
        Some(invalid_data("missing session_id in handshake response"@))
    } else if hex_problem(encode_utf8(response.session_id->0@)) is Some {
        Some(invalid_data(hex_problem(encode_utf8(response.session_id->0@))->0))
    } else if response.udp_port is None {
        Some(invalid_data("missing udp_port in handshake response"@))
    } else {
        None
    }
}

/// A failure of what was received, for a key.
fn invalid_data_for(message: &str, key: &str) -> (error: IoError)
    ensures
        failure_of(error) == invalid_data(message@ + key@),
{
    IoError { kind: ErrorKind::InvalidData, message: message.to_owned().concat(key) }
}

/// Tests the reply to a handshake, and takes the session id and the UDP port out of it.
pub fn check_handshake_response(
    response: &HandshakeResponseOwned,
    role: ClientRole,
    key: &str,
) -> (result: Result<(SessionId, u16), IoError>)
    ensures
        match result {
            Ok((session_id, udp_port)) => {
                &&& response_problem(*response, role, key@) is None
                &&& id_bytes(session_id@) == hex_bytes(encode_utf8(response.session_id->0@))
                &&& response.udp_port == Some(udp_port)
            },
            Err(e) => response_problem(*response, role, key@) == Some(failure_of(e)),
        },
{
    if !same_text(response.status.as_str(), "ok") {
        return Err(
            IoError {
                kind: ErrorKind::Other,
                message: "handshake failed for key ".to_owned().concat(key).concat(": ").concat(
                    response.message.as_str(),
                ),
            },
        );
    }
    if !same_text(response.message.as_str(), "control session established") {
        return Err(
            IoError {
                kind: ErrorKind::InvalidData,
                message: "unexpected handshake message for key ".to_owned().concat(key).concat(
                    ": ",
                ).concat(response.message.as_str()),
            },
        );
    }
    if response.role != Some(role) {
        return Err(invalid_data_for("handshake role mismatch for key ", key));
    }
    let key_matches = match &response.key {
        Some(k) => same_text(k.as_str(), key),
        None => false,
    };
    if !key_matches {
        return Err(invalid_data_for("handshake key mismatch for key ", key));
    }
    if response.tcp_heartbeat_interval_ms != Some(TCP_HEARTBEAT_INTERVAL_MS) {
        return Err(invalid_data_for("unexpected tcp heartbeat interval for key ", key));
    }
    if response.udp_session_timeout_ms != Some(UDP_SESSION_TIMEOUT_MS) {
        return Err(invalid_data_for("unexpected udp session timeout for key ", key));
    }
    if response.udp_audio_payload_max_bytes != Some(UDP_AUDIO_PAYLOAD_MAX_BYTES) {
        return Err(invalid_data_for("unexpected udp payload limit for key ", key));
    }
    let session_id = match &response.session_id {
        Some(text) => match SessionId::from_hex(text.as_str()) {
            Ok(id) => id,
            Err(message) => {
                return Err(IoError::new(ErrorKind::InvalidData, message));
            },
        },
        None => {
            return Err(
                IoError::new(ErrorKind::InvalidData, "missing session_id in handshake response"),
            );
        },
    };
    match response.udp_port {
        Some(port) => Ok((session_id, port)),
        None => Err(IoError::new(ErrorKind::InvalidData, "missing udp_port in handshake response")),
    }
}

/// Tests the confirmation of a registration.
pub fn check_register_ack(datagram: &[u8], session_id: SessionId) -> (result: Result<(), IoError>)
    ensures
        match parse_packet(datagram@, UDP_AUDIO_PAYLOAD_MAX_BYTES) {
            Err(e) => result matches Err(f) && failure_of(f) == invalid_data(e.spec_message()),
            Ok(packet) => if packet == (Packet::RegisterAck { id: session_id@ }) {
                result is Ok
            } else {
                result matches Err(f) && failure_of(f) == invalid_data(
                    "received unexpected udp register ack"@,
                )
            },
        },
{
    match parse_udp_packet(datagram, UDP_AUDIO_PAYLOAD_MAX_BYTES) {
        Ok(UdpPacket::RegisterAck { session_id: confirmed }) => {
            if confirmed == session_id {
                return Ok(());
            }
        },
        Ok(_) => {},
        Err(e) => {
            return Err(e.to_io_error());
        },
    }
    Err(IoError::new(ErrorKind::InvalidData, "received unexpected udp register ack"))
}

/// What came of stopping a heartbeat task.
#[derive(Debug)]
pub enum HeartbeatOutcome {
    Cancelled,
    /// The task could not be waited for.
    JoinFailed(String),
    /// The task had failed before.
    Failed(String),
    /// The task had ended before.
    Exited,
}

/// What is wrong with a heartbeat task that was to run until it is stopped, if anything is.
pub open spec fn heartbeat_problem(name: Seq<char>, outcome: HeartbeatOutcome) -> Option<Failure> {
    match outcome {
        HeartbeatOutcome::Cancelled => None,
        HeartbeatOutcome::JoinFailed(detail) => Some(
            other_failure(name + " heartbeat task join failed: "@ + detail@),
        ),
        HeartbeatOutcome::Failed(detail) => Some(
            other_failure(name + " heartbeat task failed: "@ + detail@),
        ),
        HeartbeatOutcome::Exited => Some(other_failure(name + " heartbeat task exited unexpectedly"@)),
    }
}

/// Tests that a heartbeat task ran until it was stopped.
pub fn check_heartbeat_stop(name: &str, outcome: HeartbeatOutcome) -> (result: Result<(), IoError>)
    ensures
        match result {
            Ok(()) => heartbeat_problem(name@, outcome) is None,
            Err(e) => heartbeat_problem(name@, outcome) == Some(failure_of(e)),
        },
{
    match outcome {
        HeartbeatOutcome::Cancelled => Ok(()),
        HeartbeatOutcome::JoinFailed(detail) => Err(
            IoError {
                kind: ErrorKind::Other,
                message: name.to_owned().concat(" heartbeat task join failed: ").concat(
                    detail.as_str(),
                ),
            },
        ),
        HeartbeatOutcome::Failed(detail) => Err(
            IoError {
                kind: ErrorKind::Other,
                message: name.to_owned().concat(" heartbeat task failed: ").concat(detail.as_str()),
            },
        ),
        HeartbeatOutcome::Exited => Err(
            IoError {
                kind: ErrorKind::Other,
                message: name.to_owned().concat(" heartbeat task exited unexpectedly"),
            },
        ),
    }
}

/// A round that the load test lets pass while clients send heartbeats.
#[derive(Clone, Copy, Debug, PartialEq, Eq, Structural)]
pub enum HeartbeatRound {
    /// One of those that were asked for.
    Planned,
    /// One more, because publishers are still sending.
    Extended,
}

/// The next round, if there is one: first those that were asked for, then as many as it takes
/// until all publishers are done.
pub fn next_heartbeat_round(
    completed: usize,
    planned: usize,
    publishers_sending: bool,
) -> (round: Option<HeartbeatRound>)
    ensures
        round == if completed < planned {
            Some(HeartbeatRound::Planned)
        } else if publishers_sending {
            Some(HeartbeatRound::Extended)
        } else {
            None
        },
{
    if completed < planned {
        Some(HeartbeatRound::Planned)
    } else if publishers_sending {
        Some(HeartbeatRound::Extended)
    } else {
        None
    }
}

/// What a subscriber received.
#[derive(Debug)]
pub struct SubscriberResult {
    pub key_index: usize,
    pub expected_packets: usize,
    pub unique_packets_received: usize,
    pub duplicate_packets: usize,
    pub invalid_packets: usize,
    pub missing_packets: usize,
}

/// The number of packets seen.
pub open spec fn count_seen(seen: Seq<bool>) -> nat
    decreases seen.len(),
{
    if seen.len() == 0 {
        0
    } else if seen.last() {
        count_seen(seen.drop_last()) + 1
    } else {
        count_seen(seen.drop_last())
    }
}

proof fn lemma_count_seen_bound(seen: Seq<bool>)
    ensures
        count_seen(seen) <= seen.len(),
    decreases seen.len(),
{
    if seen.len() > 0 {
        lemma_count_seen_bound(seen.drop_last());
    }
}

proof fn lemma_one_more_seen(seen: Seq<bool>, i: int)
    requires
        0 <= i < seen.len(),
        !seen[i],
    ensures
        count_seen(seen.update(i, true)) == count_seen(seen) + 1,
    decreases seen.len(),
{
    let updated = seen.update(i, true);
    if i == seen.len() - 1 {
        assert(updated.drop_last() =~= seen.drop_last());
    } else {
        lemma_one_more_seen(seen.drop_last(), i);
        assert(updated.drop_last() =~= seen.drop_last().update(i, true));
    }
}

proof fn lemma_none_seen(seen: Seq<bool>)
    requires
        forall|i: int| 0 <= i < seen.len() ==> !(#[trigger] seen[i]),
    ensures
        count_seen(seen) == 0,
    decreases seen.len(),
{
    if seen.len() > 0 {
        lemma_none_seen(seen.drop_last());
    }
}

/// What a datagram is to a subscriber.
pub enum Reception {
    /// No packet at all.
    Malformed(UdpPacketError),
    /// Not a packet of the load test for this subscriber.
    Invalid,
    /// A packet that came before.
    Duplicate,
    /// A packet that did not come before.
    Fresh(u64),
}

/// What a datagram is to a subscriber that has seen some packets.
pub open spec fn reception(
    datagram: Seq<u8>,
    session_id: u128,
    key_index: usize,
    payload_bytes: usize,
    seen: Seq<bool>,
) -> Reception {
    match parse_packet(datagram, UDP_AUDIO_PAYLOAD_MAX_BYTES) {
        Err(e) => Reception::Malformed(e),
        Ok(packet) => match packet {
            Packet::AudioData { sequence, .. } => {
                if sequence >= seen.len() || packet != load_packet(
                    session_id,
                    key_index,
                    sequence,
                    payload_bytes,
                ) {
                    Reception::Invalid
                } else if seen[sequence as int] {
                    Reception::Duplicate
                } else {
                    Reception::Fresh(sequence)
                }
            },
            _ => Reception::Invalid,
        },
    }
}

/// A subscriber of the load test: what it expects, and what it has received.
#[derive(Debug)]
pub struct SubscriberReceiver {
    key_index: usize,
    session_id: SessionId,
    payload_bytes: usize,
    seen: Vec<bool>,
    unique_packets_received: usize,
    duplicate_packets: usize,
    invalid_packets: usize,
}

/// What a subscriber has received. The numbers of useless packets wrap around.
#[verifier::ext_equal]
pub struct ReceiverView {
    pub key_index: usize,
    pub session_id: u128,
    pub payload_bytes: usize,
    pub seen: Seq<bool>,
    pub duplicate_packets: usize,
    pub invalid_packets: usize,
}

impl View for SubscriberReceiver {
    type V = ReceiverView;

    closed spec fn view(&self) -> ReceiverView {
        ReceiverView {
            key_index: self.key_index,
            session_id: self.session_id@,
            payload_bytes: self.payload_bytes,
            seen: self.seen@,
            duplicate_packets: self.duplicate_packets,
            invalid_packets: self.invalid_packets,
        }
    }
}

impl ReceiverView {
    /// What a datagram is to this subscriber.
    pub open spec fn reception(self, datagram: Seq<u8>) -> Reception {
        reception(datagram, self.session_id, self.key_index, self.payload_bytes, self.seen)
    }

    /// What the subscriber has received once a datagram came in.
    pub open spec fn received(self, datagram: Seq<u8>) -> ReceiverView {
        match self.reception(datagram) {
            Reception::Malformed(_) => self,
            Reception::Invalid => ReceiverView {
                invalid_packets: self.invalid_packets.wrapping_add(1),
                ..self
            },
            Reception::Duplicate => ReceiverView {
                duplicate_packets: self.duplicate_packets.wrapping_add(1),
                ..self
            },
            Reception::Fresh(sequence) => ReceiverView {
                seen: self.seen.update(sequence as int, true),
                ..self
            },
        }
    }
}

/// Whether two byte strings are the same.
fn same_bytes(a: &[u8], b: &[u8]) -> (same: bool)
    ensures
        same == (a@ == b@),
{
    if a.len() != b.len() {
        return false;
    }
    let mut i: usize = 0;
    while i < a.len()
        invariant
            i <= a.len(),
            a.len() == b.len(),
            forall|j: int| 0 <= j < i ==> a@[j] == b@[j],
        decreases a.len() - i,
    {
        if a[i] != b[i] {
            return false;
        }
        i = i + 1;
    }
    assert(a@ =~= b@);
    true
}

impl SubscriberReceiver {
    /// What holds of every subscriber: its number of packets is right.
    pub closed spec fn inv(self) -> bool {
        self.unique_packets_received == count_seen(self.seen@)
    }

    /// A subscriber that has received nothing.
    pub fn new(
        key_index: usize,
        session_id: SessionId,
        expected_packets: usize,
        payload_bytes: usize,
    ) -> (receiver: SubscriberReceiver)
        ensures
            receiver.inv(),
            receiver@ == (ReceiverView {
                key_index,
                session_id: session_id@,
                payload_bytes,
                seen: Seq::new(expected_packets as nat, |i: int| false),
                duplicate_packets: 0,
                invalid_packets: 0,
            }),
    {
        let mut seen: Vec<bool> = Vec::with_capacity(expected_packets);
        while seen.len() < expected_packets
            invariant
                seen.len() <= expected_packets,
                forall|i: int| 0 <= i < seen.len() ==> !(#[trigger] seen@[i]),
            decreases expected_packets - seen.len(),
        {
            seen.push(false);
        }
        proof {
            lemma_none_seen(seen@);
            assert(seen@ =~= Seq::new(expected_packets as nat, |i: int| false));
        }
        SubscriberReceiver {
            key_index,
            session_id,
            payload_bytes,
            seen,
            unique_packets_received: 0,
            duplicate_packets: 0,
            invalid_packets: 0,
        }
    }

    /// Whether every packet has come.
    pub fn is_complete(&self) -> (complete: bool)
        requires
            self.inv(),
        ensures
            complete == (count_seen(self@.seen) == self@.seen.len()),
    {
        proof {
            lemma_count_seen_bound(self.seen@);
        }
        self.unique_packets_received >= self.seen.len()
    }

    /// Takes in a datagram; one that is no packet is a failure.
    pub fn on_packet(&mut self, datagram: &[u8]) -> (result: Result<(), IoError>)
        requires
            old(self).inv(),
        ensures
            final(self).inv(),
            final(self)@ == old(self)@.received(datagram@),
            match old(self)@.reception(datagram@) {
                Reception::Malformed(e) => result matches Err(f) && failure_of(f) == invalid_data(
                    e.spec_message(),
                ),
                _ => result is Ok,
            },
    {
        match parse_udp_packet(datagram, UDP_AUDIO_PAYLOAD_MAX_BYTES) {
            Err(e) => {
                return Err(e.to_io_error());
            },
            Ok(UdpPacket::AudioData { session_id, sequence, timestamp_ms, payload }) => {
                let expected = generate_payload(self.key_index, sequence, self.payload_bytes);
                let genuine = session_id == self.session_id && sequence < self.seen.len() as u64
                    && same_bytes(payload, expected.as_slice()) && timestamp_ms
                    == generate_timestamp_ms(self.key_index, sequence);
                if !genuine {
                    self.invalid_packets = self.invalid_packets.wrapping_add(1);
                    return Ok(());
                }
                let i: usize = sequence as usize;
                if self.seen[i] {
                    self.duplicate_packets = self.duplicate_packets.wrapping_add(1);
                    return Ok(());
                }
                proof {
                    lemma_one_more_seen(self.seen@, i as int);
                    lemma_count_seen_bound(self.seen@.update(i as int, true));
                }
                self.seen.set(i, true);
                self.unique_packets_received = self.unique_packets_received + 1;
            },
            Ok(_) => {
                self.invalid_packets = self.invalid_packets.wrapping_add(1);
            },
        }
        Ok(())
    }

    /// What was received in the end: every expected packet is either received or missing.
    pub fn finish(self) -> (result: SubscriberResult)
        requires
            self.inv(),
        ensures
            result.key_index == self@.key_index,
            result.expected_packets == self@.seen.len(),
            result.unique_packets_received == count_seen(self@.seen),
            result.duplicate_packets == self@.duplicate_packets,
            result.invalid_packets == self@.invalid_packets,
            result.unique_packets_received + result.missing_packets == result.expected_packets,
    {
        let mut missing: usize = 0;
        let mut i: usize = 0;
        assert(self.seen@.take(0) =~= Seq::empty());
        while i < self.seen.len()
            invariant
                i <= self.seen.len(),
                missing <= i,
                missing + count_seen(self.seen@.take(i as int)) == i,
            decreases self.seen.len() - i,
        {
            assert(self.seen@.take(i + 1).drop_last() =~= self.seen@.take(i as int));
            assert(self.seen@.take(i + 1).last() == self.seen@[i as int]);
            if !self.seen[i] {
                missing = missing + 1;
            }
            i = i + 1;
        }
        assert(self.seen@.take(self.seen@.len() as int) =~= self.seen@);
        SubscriberResult {
            key_index: self.key_index,
            expected_packets: self.seen.len(),
            unique_packets_received: self.unique_packets_received,
            duplicate_packets: self.duplicate_packets,
            invalid_packets: self.invalid_packets,
            missing_packets: missing,
        }
    }
}

/// A packet as the publisher of a subscriber's key sends it, under the subscriber's session id,
/// counts once for the subscriber, and as a duplicate after that.
pub proof fn law_subscriber_accepts_the_load(receiver: ReceiverView, sequence: u64)
    requires
        sequence < receiver.seen.len(),
        receiver.payload_bytes <= UDP_AUDIO_PAYLOAD_MAX_BYTES,
    ensures
        ({
            let datagram = encode_packet(
                load_packet(
                    receiver.session_id,
                    receiver.key_index,
                    sequence,
                    receiver.payload_bytes,
                ),
            );
            &&& receiver.received(datagram) == if receiver.seen[sequence as int] {
                ReceiverView {
                    duplicate_packets: receiver.duplicate_packets.wrapping_add(1),
                    ..receiver
                }
            } else {
                ReceiverView { seen: receiver.seen.update(sequence as int, true), ..receiver }
            }
            &&& receiver.received(datagram).reception(datagram) is Duplicate
        }),
{
    law_parse_reads_what_encode_writes(
        load_packet(receiver.session_id, receiver.key_index, sequence, receiver.payload_bytes),
        UDP_AUDIO_PAYLOAD_MAX_BYTES,
    );
}

impl LoadSettings {
    /// Whether the numbers of subscribers and packets, taken together, are numbers that the
    /// machine can hold.
    pub open spec fn counts_fit(self) -> bool {
        &&& self.publishers * self.subscribers_per_publisher <= usize::MAX
        &&& self.publishers * self.packets_per_publisher <= usize::MAX
        &&& self.publishers * self.subscribers_per_publisher * self.packets_per_publisher
            <= usize::MAX
    }

    /// The number of subscribers.
    pub open spec fn subscribers(self) -> int {
        self.publishers * self.subscribers_per_publisher
    }

    /// The number of packets that the relay is sent.
    pub open spec fn packets_in(self) -> int {
        self.publishers * self.packets_per_publisher
    }

    /// The number of packets that the relay passes on.
    pub open spec fn packets_out(self) -> int {
        self.publishers * self.subscribers_per_publisher * self.packets_per_publisher
    }
}

/// What a load test expects.
#[derive(Clone, Copy, Debug)]
pub struct ExpectedTotals {
    pub subscribers: usize,
    pub packets_in: usize,
    pub packets_out: usize,
}

impl LoadTestConfig {
    /// What the load test expects, unless that is more than the machine can hold.
    pub fn expected_totals(&self) -> (totals: Option<ExpectedTotals>)
        ensures
            totals is Some <==> self@.counts_fit(),
            totals matches Some(t) ==> t.subscribers == self@.subscribers() && t.packets_in
                == self@.packets_in() && t.packets_out == self@.packets_out(),
    {
        match self.publishers.checked_mul(self.subscribers_per_publisher) {
            Some(subscribers) => match self.publishers.checked_mul(self.packets_per_publisher) {
                Some(packets_in) => match subscribers.checked_mul(self.packets_per_publisher) {
                    Some(packets_out) => Some(
                        ExpectedTotals { subscribers, packets_in, packets_out },
                    ),
                    None => None,
                },
                None => None,
            },
            None => None,
        }
    }
}

/// The first result of a subscriber that did not receive every packet.
pub open spec fn first_short(results: Seq<SubscriberResult>) -> Option<SubscriberResult>
    decreases results.len(),
{
    if results.len() == 0 {
        None
    } else {
        match first_short(results.drop_last()) {
            Some(result) => Some(result),
            None => if results.last().unique_packets_received != results.last().expected_packets {
                Some(results.last())
            } else {
                None
            },
        }
    }
}

/// The sum of a number over results.
pub open spec fn sum_results(
    results: Seq<SubscriberResult>,
    number: spec_fn(SubscriberResult) -> nat,
) -> nat
    decreases results.len(),
{
    if results.len() == 0 {
        0
    } else {
        sum_results(results.drop_last(), number) + number(results.last())
    }
}

/// The number of packets that did not come.
pub open spec fn missing_number() -> spec_fn(SubscriberResult) -> nat {
    |r: SubscriberResult| r.missing_packets as nat
}

/// The number of packets that should not have come.
pub open spec fn invalid_number() -> spec_fn(SubscriberResult) -> nat {
    |r: SubscriberResult| r.invalid_packets as nat
}

/// The number of packets that came again.
pub open spec fn duplicate_number() -> spec_fn(SubscriberResult) -> nat {
    |r: SubscriberResult| r.duplicate_packets as nat
}

/// The number of audio packets that a stream received.
pub open spec fn in_number() -> spec_fn(StreamSnapshot) -> int {
    |s: StreamSnapshot| s.udp_audio_packets_in_total as int
}

/// The number of audio packets that a stream passed on.
pub open spec fn out_number() -> spec_fn(StreamSnapshot) -> int {
    |s: StreamSnapshot| s.udp_audio_packets_out_total as int
}

/// What is said of a number that is not the expected one.
pub open spec fn mismatch(name: Seq<char>, found: int, expected: int) -> Seq<char> {
    name + " mismatch: "@ + decimal(found as nat) + " != "@ + decimal(expected as nat)
}

/// What is said of a number that should be zero.
pub open spec fn not_zero(name: Seq<char>, found: u64) -> Seq<char> {
    name + " must be 0, got "@ + decimal(found as nat)
}

/// What is wrong with the results of the subscribers, if anything is.
pub open spec fn results_problem(
    settings: LoadSettings,
    results: Seq<SubscriberResult>,
) -> Option<Seq<char>> {
    let missing = sum_results(results, missing_number());
    let invalid = sum_results(results, invalid_number());
    let duplicate = sum_results(results, duplicate_number());
    if results.len() != settings.subscribers() {
        Some(mismatch("subscriber result count"@, results.len() as int, settings.subscribers()))
    } else if first_short(results) is Some {
        let short = first_short(results)->0;
        Some(
            "subscriber on key "@ + decimal(short.key_index as nat) + " received "@ + decimal(
                short.unique_packets_received as nat,
            ) + "/"@ + decimal(short.expected_packets as nat) + " packets"@,
        )
    } else if missing != 0 || invalid != 0 || duplicate != 0 {
        Some(
            "subscriber validation failed: missing="@ + decimal(missing) + ", invalid="@ + decimal(
                invalid,
            ) + ", duplicate="@ + decimal(duplicate),
        )
    } else {
        None
    }
}

/// What is wrong with what the relay reports, if anything is.
pub open spec fn snapshot_problem(settings: LoadSettings, snapshot: RegistrySnapshot) -> Option<
    Seq<char>,
> {
    let packets_in = sum_over(snapshot.streams@, in_number());
    let packets_out = sum_over(snapshot.streams@, out_number());
    if snapshot.stream_count != settings.publishers {
        Some(
            mismatch(
                "snapshot stream_count"@,
                snapshot.stream_count as int,
                settings.publishers as int,
            ),
        )
    } else if snapshot.active_publisher_count != settings.publishers {
        Some(
            mismatch(
                "snapshot active_publisher_count"@,
                snapshot.active_publisher_count as int,
                settings.publishers as int,
            ),
        )
    } else if snapshot.active_subscriber_count != settings.subscribers() {
        Some(
            mismatch(
                "snapshot active_subscriber_count"@,
                snapshot.active_subscriber_count as int,
                settings.subscribers(),
            ),
        )
    } else if snapshot.active_udp_publisher_count != settings.publishers {
        Some(
            mismatch(
                "snapshot active_udp_publisher_count"@,
                snapshot.active_udp_publisher_count as int,
                settings.publishers as int,
            ),
        )
    } else if snapshot.active_udp_subscriber_count != settings.subscribers() {
        Some(
            mismatch(
                "snapshot active_udp_subscriber_count"@,
                snapshot.active_udp_subscriber_count as int,
                settings.subscribers(),
            ),
        )
    } else if packets_in != settings.packets_in() {
        Some(
            mismatch("snapshot udp_audio_packets_in_total"@, packets_in, settings.packets_in()),
        )
    } else if packets_out != settings.packets_out() {
        Some(
            mismatch("snapshot udp_audio_packets_out_total"@, packets_out, settings.packets_out()),
        )
    } else if snapshot.invalid_udp_packets_total != 0 {
        Some(
            not_zero(
                "snapshot invalid_udp_packets_total"@,
                snapshot.invalid_udp_packets_total,
            ),
        )
    } else if snapshot.unknown_udp_session_packets_total != 0 {
        Some(
            not_zero(
                "snapshot unknown_udp_session_packets_total"@,
                snapshot.unknown_udp_session_packets_total,
            ),
        )
    } else {
        None
    }
}

/// A failure on a number that is not the expected one.
fn mismatch_error(name: &str, found: u128, expected: u128) -> (error: IoError)
    ensures
        failure_of(error) == other_failure(mismatch(name@, found as int, expected as int)),
{
    IoError {
        kind: ErrorKind::Other,
        message: name.to_owned().concat(" mismatch: ").concat(
            decimal_text(found).as_str(),
        ).concat(" != ").concat(decimal_text(expected).as_str()),
    }
}

/// A failure on a number that should be zero.
fn not_zero_error(name: &str, found: u64) -> (error: IoError)
    ensures
        failure_of(error) == other_failure(not_zero(name@, found)),
{
    IoError {
        kind: ErrorKind::Other,
        message: name.to_owned().concat(" must be 0, got ").concat(
            decimal_text(found as u128).as_str(),
        ),
    }
}

proof fn lemma_sum_fits(count: nat, limit: nat)
    requires
        count <= usize::MAX,
        limit <= u64::MAX,
    ensures
        count * limit <= u128::MAX,
{
    assert(usize::MAX <= u64::MAX);
    assert(count * limit <= 0xffff_ffff_ffff_ffff * 0xffff_ffff_ffff_ffff) by (nonlinear_arith)
        requires
            count <= 0xffff_ffff_ffff_ffff,
            limit <= 0xffff_ffff_ffff_ffff,
    ;
}

/// Tests the results of the subscribers.
fn check_results(
    config: &LoadTestConfig,
    totals: ExpectedTotals,
    results: &Vec<SubscriberResult>,
) -> (outcome: Result<(), IoError>)
    requires
        totals.subscribers == config@.subscribers(),
    ensures
        match results_problem(config@, results@) {
            None => outcome is Ok,
            Some(message) => outcome matches Err(e) && failure_of(e) == other_failure(message),
        },
{
    if results.len() != totals.subscribers {
        return Err(
            mismatch_error(
                "subscriber result count",
                results.len() as u128,
                totals.subscribers as u128,
            ),
        );
    }
    let mut missing: u128 = 0;
    let mut invalid: u128 = 0;
    let mut duplicate: u128 = 0;
    let mut i: usize = 0;
    assert(results@.take(0) =~= Seq::empty());
    while i < results.len()
        invariant
            i <= results.len(),
            results@.len() == config@.subscribers(),
            first_short(results@.take(i as int)) is None,
            missing == sum_results(results@.take(i as int), missing_number()),
            invalid == sum_results(results@.take(i as int), invalid_number()),
            duplicate == sum_results(results@.take(i as int), duplicate_number()),
            missing <= i * u64::MAX,
            invalid <= i * u64::MAX,
            duplicate <= i * u64::MAX,
        decreases results.len() - i,
    {
        let result = &results[i];
        proof {
            assert(results@.take(i + 1).drop_last() =~= results@.take(i as int));
            assert(results@.take(i + 1).last() == *result);
            lemma_sum_fits((i + 1) as nat, u64::MAX as nat);
            assert(i * u64::MAX + u64::MAX == (i + 1) * u64::MAX) by (nonlinear_arith);
        }
        if result.unique_packets_received != result.expected_packets {
            proof {
                lemma_first_short_stands(results@, i + 1);
            }
            return Err(
                IoError {
                    kind: ErrorKind::Other,
                    message: "subscriber on key ".to_owned().concat(
                        decimal_text(result.key_index as u128).as_str(),
                    ).concat(" received ").concat(
                        decimal_text(result.unique_packets_received as u128).as_str(),
                    ).concat("/").concat(
                        decimal_text(result.expected_packets as u128).as_str(),
                    ).concat(" packets"),
                },
            );
        }
        missing = missing + result.missing_packets as u128;
        invalid = invalid + result.invalid_packets as u128;
        duplicate = duplicate + result.duplicate_packets as u128;
        i = i + 1;
    }
    assert(results@.take(results@.len() as int) =~= results@);
    if missing != 0 || invalid != 0 || duplicate != 0 {
        return Err(
            IoError {
                kind: ErrorKind::Other,
                message: "subscriber validation failed: missing=".to_owned().concat(
                    decimal_text(missing).as_str(),
                ).concat(", invalid=").concat(decimal_text(invalid).as_str()).concat(
                    ", duplicate=",
                ).concat(decimal_text(duplicate).as_str()),
            },
        );
    }
    Ok(())
}

/// The first subscriber that did not receive every packet is the same whoever follows it.
proof fn lemma_first_short_stands(results: Seq<SubscriberResult>, n: int)
    requires
        0 <= n <= results.len(),
    ensures
        first_short(results.take(n)) is Some ==> first_short(results) == first_short(
            results.take(n),
        ),
    decreases results.len() - n,
{
    if n < results.len() {
        lemma_first_short_stands(results, n + 1);
        assert(results.take(n + 1).drop_last() =~= results.take(n));
    } else {
        assert(results.take(n) =~= results);
    }
}

/// The numbers of audio packets that all streams received and passed on.
fn packet_sums(streams: &Vec<StreamSnapshot>) -> (sums: (u128, u128))
    ensures
        sums.0 == sum_over(streams@, in_number()),
        sums.1 == sum_over(streams@, out_number()),
{
    let mut packets_in: u128 = 0;
    let mut packets_out: u128 = 0;
    let mut i: usize = 0;
    assert(streams@.take(0) =~= Seq::empty());
    while i < streams.len()
        invariant
            i <= streams.len(),
            packets_in == sum_over(streams@.take(i as int), in_number()),
            packets_out == sum_over(streams@.take(i as int), out_number()),
            packets_in <= i * u64::MAX,
            packets_out <= i * u64::MAX,
        decreases streams.len() - i,
    {
        let stream = &streams[i];
        proof {
            assert(streams@.take(i + 1).drop_last() =~= streams@.take(i as int));
            assert(streams@.take(i + 1).last() == *stream);
            lemma_sum_fits((i + 1) as nat, u64::MAX as nat);
            assert(i * u64::MAX + u64::MAX == (i + 1) * u64::MAX) by (nonlinear_arith);
        }
        packets_in = packets_in + stream.udp_audio_packets_in_total as u128;
        packets_out = packets_out + stream.udp_audio_packets_out_total as u128;
        i = i + 1;
    }
    assert(streams@.take(streams@.len() as int) =~= streams@);
    (packets_in, packets_out)
}

/// Tests what the relay reports.
fn check_snapshot(
    config: &LoadTestConfig,
    totals: ExpectedTotals,
    snapshot: &RegistrySnapshot,
) -> (outcome: Result<(), IoError>)
    requires
        totals.subscribers == config@.subscribers(),
        totals.packets_in == config@.packets_in(),
        totals.packets_out == config@.packets_out(),
    ensures
        match snapshot_problem(config@, *snapshot) {
            None => outcome is Ok,
            Some(message) => outcome matches Err(e) && failure_of(e) == other_failure(message),
        },
{
    if snapshot.stream_count != config.publishers {
        return Err(
            mismatch_error(
                "snapshot stream_count",
                snapshot.stream_count as u128,
                config.publishers as u128,
            ),
        );
    }
    if snapshot.active_publisher_count != config.publishers {
        return Err(
            mismatch_error(
                "snapshot active_publisher_count",
                snapshot.active_publisher_count as u128,
                config.publishers as u128,
            ),
        );
    }
    if snapshot.active_subscriber_count != totals.subscribers {
        return Err(
            mismatch_error(
                "snapshot active_subscriber_count",
                snapshot.active_subscriber_count as u128,
                totals.subscribers as u128,
            ),
        );
    }
    if snapshot.active_udp_publisher_count != config.publishers {
        return Err(
            mismatch_error(
                "snapshot active_udp_publisher_count",
                snapshot.active_udp_publisher_count as u128,
                config.publishers as u128,
            ),
        );
    }
    if snapshot.active_udp_subscriber_count != totals.subscribers {
        return Err(
            mismatch_error(
                "snapshot active_udp_subscriber_count",
                snapshot.active_udp_subscriber_count as u128,
                totals.subscribers as u128,
            ),
        );
    }
    let (packets_in, packets_out) = packet_sums(&snapshot.streams);
    if packets_in != totals.packets_in as u128 {
        return Err(
            mismatch_error(
                "snapshot udp_audio_packets_in_total",
                packets_in,
                totals.packets_in as u128,
            ),
        );
    }
    if packets_out != totals.packets_out as u128 {
        return Err(
            mismatch_error(
                "snapshot udp_audio_packets_out_total",
                packets_out,
                totals.packets_out as u128,
            ),
        );
    }
    if snapshot.invalid_udp_packets_total != 0 {
        return Err(
            not_zero_error(
                "snapshot invalid_udp_packets_total",
                snapshot.invalid_udp_packets_total,
            ),
        );
    }
    if snapshot.unknown_udp_session_packets_total != 0 {
        return Err(
            not_zero_error(
                "snapshot unknown_udp_session_packets_total",
                snapshot.unknown_udp_session_packets_total,
            ),
        );
    }
    Ok(())
}

/// Tests what came of the load test: first what the subscribers received, then what the relay
/// reports.
pub fn validate_results(
    config: &LoadTestConfig,
    subscriber_results: &Vec<SubscriberResult>,
    snapshot: &RegistrySnapshot,
) -> (outcome: Result<(), IoError>)
    requires
        config@.counts_fit(),
    ensures
        match results_problem(config@, subscriber_results@) {
            Some(message) => outcome matches Err(e) && failure_of(e) == other_failure(message),
            None => match snapshot_problem(config@, *snapshot) {
                Some(message) => outcome matches Err(e) && failure_of(e) == other_failure(message),
                None => outcome is Ok,
            },
        },
{
    let totals = ExpectedTotals {
        subscribers: config.publishers * config.subscribers_per_publisher,
        packets_in: config.publishers * config.packets_per_publisher,
        packets_out: config.publishers * config.subscribers_per_publisher
            * config.packets_per_publisher,
    };
    match check_results(config, totals, subscriber_results) {
        Ok(()) => check_snapshot(config, totals, snapshot),
        Err(e) => Err(e),
    }
}

/// Results that stand the test are those of subscribers that received every packet once and
/// nothing else.
pub proof fn law_accepted_results_are_complete(
    settings: LoadSettings,
    results: Seq<SubscriberResult>,
)
    requires
        results_problem(settings, results) is None,
    ensures
        results.len() == settings.subscribers(),
        forall|i: int|
            0 <= i < results.len() ==> {
                &&& (#[trigger] results[i]).unique_packets_received == results[i].expected_packets
                &&& results[i].missing_packets == 0
                &&& results[i].invalid_packets == 0
                &&& results[i].duplicate_packets == 0
            },
{
    lemma_complete_results(results);
}

proof fn lemma_complete_results(results: Seq<SubscriberResult>)
    requires
        first_short(results) is None,
        sum_results(results, missing_number()) == 0,
        sum_results(results, invalid_number()) == 0,
        sum_results(results, duplicate_number()) == 0,
    ensures
        forall|i: int|
            0 <= i < results.len() ==> {
                &&& (#[trigger] results[i]).unique_packets_received == results[i].expected_packets
                &&& results[i].missing_packets == 0
                &&& results[i].invalid_packets == 0
                &&& results[i].duplicate_packets == 0
            },
    decreases results.len(),
{
    if results.len() > 0 {
        let shorter = results.drop_last();
        lemma_complete_results(shorter);
        assert forall|i: int| 0 <= i < results.len() implies {
            &&& (#[trigger] results[i]).unique_packets_received == results[i].expected_packets
            &&& results[i].missing_packets == 0
            &&& results[i].invalid_packets == 0
            &&& results[i].duplicate_packets == 0
        } by {
            if i < shorter.len() {
                assert(shorter[i] == results[i]);
            } else {
                assert(results[i] == results.last());
            }
        }
    }
}

/// `--host=` sets its own value, whatever was set before, and nothing else; what it accepts
/// depends on its value alone.
pub proof fn law_host_option_sets_its_own(settings: LoadSettings, value: Seq<char>)
    ensures
        apply_load_argument(settings, "--host="@ + value) == if value.len() > 0 {
            Ok::<LoadSettings, Failure>(LoadSettings { host: value, ..settings })
        } else {
            Err(Failure { kind: ErrorKind::InvalidInput, message: "--host must be non-empty"@ })
        },
{
    reveal_strlit("--host=");
    law_prefix_comes_off("--host="@, value);
}

/// `--publishers=` sets its own value, whatever was set before, and nothing else; what it accepts
/// depends on its value alone.
pub proof fn law_publishers_option_sets_its_own(settings: LoadSettings, value: Seq<char>)
    ensures
        apply_load_argument(settings, "--publishers="@ + value) == match parse_number(
            value,
            usize::MAX as nat,
        ) {
            Some(n) => Ok::<LoadSettings, Failure>(LoadSettings { publishers: n as usize, ..settings }),
            None => Err(
                Failure {
                    kind: ErrorKind::InvalidInput,
                    message: "--publishers"@ + " must be a valid usize"@,
                },
            ),
        },
{
    reveal_strlit("--publishers=");
    reveal_strlit("--host=");
    law_prefix_comes_off("--publishers="@, value);
    lemma_other_prefix("--publishers="@, value, "--host="@, 2);
}

/// `--subscribers-per-publisher=` sets its own value, whatever was set before, and nothing else; what it accepts
/// depends on its value alone.
pub proof fn law_subscribers_per_publisher_option_sets_its_own(settings: LoadSettings, value: Seq<char>)
    ensures
        apply_load_argument(settings, "--subscribers-per-publisher="@ + value) == match parse_number(
            value,
            usize::MAX as nat,
        ) {
            Some(n) => Ok::<LoadSettings, Failure>(LoadSettings { subscribers_per_publisher: n as usize, ..settings }),
            None => Err(
                Failure {
                    kind: ErrorKind::InvalidInput,
                    message: "--subscribers-per-publisher"@ + " must be a valid usize"@,
                },
            ),
        },
{
    reveal_strlit("--subscribers-per-publisher=");
    reveal_strlit("--host=");
    reveal_strlit("--publishers=");
    law_prefix_comes_off("--subscribers-per-publisher="@, value);
    lemma_other_prefix("--subscribers-per-publisher="@, value, "--host="@, 2);
    lemma_other_prefix("--subscribers-per-publisher="@, value, "--publishers="@, 2);
}

/// `--packets-per-publisher=` sets its own value, whatever was set before, and nothing else; what it accepts
/// depends on its value alone.
pub proof fn law_packets_per_publisher_option_sets_its_own(settings: LoadSettings, value: Seq<char>)
    ensures
        apply_load_argument(settings, "--packets-per-publisher="@ + value) == match parse_number(
            value,
            usize::MAX as nat,
        ) {
            Some(n) => Ok::<LoadSettings, Failure>(LoadSettings { packets_per_publisher: n as usize, ..settings }),
            None => Err(
                Failure {
                    kind: ErrorKind::InvalidInput,
                    message: "--packets-per-publisher"@ + " must be a valid usize"@,
                },
            ),
        },
{
    reveal_strlit("--packets-per-publisher=");
    reveal_strlit("--host=");
    reveal_strlit("--publishers=");
    reveal_strlit("--subscribers-per-publisher=");
    law_prefix_comes_off("--packets-per-publisher="@, value);
    lemma_other_prefix("--packets-per-publisher="@, value, "--host="@, 2);
    lemma_other_prefix("--packets-per-publisher="@, value, "--publishers="@, 3);
    lemma_other_prefix("--packets-per-publisher="@, value, "--subscribers-per-publisher="@, 2);
}

/// `--payload-bytes=` sets its own value, whatever was set before, and nothing else; what it accepts
/// depends on its value alone.
pub proof fn law_payload_bytes_option_sets_its_own(settings: LoadSettings, value: Seq<char>)
    ensures
        apply_load_argument(settings, "--payload-bytes="@ + value) == match parse_number(
            value,
            usize::MAX as nat,
        ) {
            Some(n) => Ok::<LoadSettings, Failure>(LoadSettings { payload_bytes: n as usize, ..settings }),
            None => Err(
                Failure {
                    kind: ErrorKind::InvalidInput,
                    message: "--payload-bytes"@ + " must be a valid usize"@,
                },
            ),
        },
{
    reveal_strlit("--payload-bytes=");
    reveal_strlit("--host=");
    reveal_strlit("--publishers=");
    reveal_strlit("--subscribers-per-publisher=");
    reveal_strlit("--packets-per-publisher=");
    law_prefix_comes_off("--payload-bytes="@, value);
    lemma_other_prefix("--payload-bytes="@, value, "--host="@, 2);
    lemma_other_prefix("--payload-bytes="@, value, "--publishers="@, 3);
    lemma_other_prefix("--payload-bytes="@, value, "--subscribers-per-publisher="@, 2);
    lemma_other_prefix("--payload-bytes="@, value, "--packets-per-publisher="@, 4);
}

/// `--packet-interval-ms=` sets its own value, whatever was set before, and nothing else; what it accepts
/// depends on its value alone.
pub proof fn law_packet_interval_ms_option_sets_its_own(settings: LoadSettings, value: Seq<char>)
    ensures
        apply_load_argument(settings, "--packet-interval-ms="@ + value) == match parse_number(
            value,
            u64::MAX as nat,
        ) {
            Some(n) => Ok::<LoadSettings, Failure>(LoadSettings { packet_interval_ms: n as u64, ..settings }),
            None => Err(
                Failure {
                    kind: ErrorKind::InvalidInput,
                    message: "--packet-interval-ms"@ + " must be a valid u64"@,
                },
            ),
        },
{
    reveal_strlit("--packet-interval-ms=");
    reveal_strlit("--host=");
    reveal_strlit("--publishers=");
    reveal_strlit("--subscribers-per-publisher=");
    reveal_strlit("--packets-per-publisher=");
    reveal_strlit("--payload-bytes=");
    law_prefix_comes_off("--packet-interval-ms="@, value);
    lemma_other_prefix("--packet-interval-ms="@, value, "--host="@, 2);
    lemma_other_prefix("--packet-interval-ms="@, value, "--publishers="@, 3);
    lemma_other_prefix("--packet-interval-ms="@, value, "--subscribers-per-publisher="@, 2);
    lemma_other_prefix("--packet-interval-ms="@, value, "--packets-per-publisher="@, 8);
    lemma_other_prefix("--packet-interval-ms="@, value, "--payload-bytes="@, 4);
}

/// `--heartbeat-rounds=` sets its own value, whatever was set before, and nothing else; what it accepts
/// depends on its value alone.
pub proof fn law_heartbeat_rounds_option_sets_its_own(settings: LoadSettings, value: Seq<char>)
    ensures
        apply_load_argument(settings, "--heartbeat-rounds="@ + value) == match parse_number(
            value,
            usize::MAX as nat,
        ) {
            Some(n) => Ok::<LoadSettings, Failure>(LoadSettings { heartbeat_rounds: n as usize, ..settings }),
            None => Err(
                Failure {
                    kind: ErrorKind::InvalidInput,
                    message: "--heartbeat-rounds"@ + " must be a valid usize"@,
                },
            ),
        },
{
    reveal_strlit("--heartbeat-rounds=");
    reveal_strlit("--host=");
    reveal_strlit("--publishers=");
    reveal_strlit("--subscribers-per-publisher=");
    reveal_strlit("--packets-per-publisher=");
    reveal_strlit("--payload-bytes=");
    reveal_strlit("--packet-interval-ms=");
    law_prefix_comes_off("--heartbeat-rounds="@, value);
    lemma_other_prefix("--heartbeat-rounds="@, value, "--host="@, 3);
    lemma_other_prefix("--heartbeat-rounds="@, value, "--publishers="@, 2);
    lemma_other_prefix("--heartbeat-rounds="@, value, "--subscribers-per-publisher="@, 2);
    lemma_other_prefix("--heartbeat-rounds="@, value, "--packets-per-publisher="@, 2);
    lemma_other_prefix("--heartbeat-rounds="@, value, "--payload-bytes="@, 2);
    lemma_other_prefix("--heartbeat-rounds="@, value, "--packet-interval-ms="@, 2);
}

/// `--heartbeat-round-interval-ms=` sets its own value, whatever was set before, and nothing else; what it accepts
/// depends on its value alone.
pub proof fn law_heartbeat_round_interval_ms_option_sets_its_own(settings: LoadSettings, value: Seq<char>)
    ensures
        apply_load_argument(settings, "--heartbeat-round-interval-ms="@ + value) == match parse_number(
            value,
            u64::MAX as nat,
        ) {
            Some(n) => Ok::<LoadSettings, Failure>(LoadSettings { heartbeat_round_interval_ms: n as u64, ..settings }),
            None => Err(
                Failure {
                    kind: ErrorKind::InvalidInput,
                    message: "--heartbeat-round-interval-ms"@ + " must be a valid u64"@,
                },
            ),
        },
{
    reveal_strlit("--heartbeat-round-interval-ms=");
    reveal_strlit("--host=");
    reveal_strlit("--publishers=");
    reveal_strlit("--subscribers-per-publisher=");
    reveal_strlit("--packets-per-publisher=");
    reveal_strlit("--payload-bytes=");
    reveal_strlit("--packet-interval-ms=");
    reveal_strlit("--heartbeat-rounds=");
    law_prefix_comes_off("--heartbeat-round-interval-ms="@, value);
    lemma_other_prefix("--heartbeat-round-interval-ms="@, value, "--host="@, 3);
    lemma_other_prefix("--heartbeat-round-interval-ms="@, value, "--publishers="@, 2);
    lemma_other_prefix("--heartbeat-round-interval-ms="@, value, "--subscribers-per-publisher="@, 2);
    lemma_other_prefix("--heartbeat-round-interval-ms="@, value, "--packets-per-publisher="@, 2);
    lemma_other_prefix("--heartbeat-round-interval-ms="@, value, "--payload-bytes="@, 2);
    lemma_other_prefix("--heartbeat-round-interval-ms="@, value, "--packet-interval-ms="@, 2);
    lemma_other_prefix("--heartbeat-round-interval-ms="@, value, "--heartbeat-rounds="@, 17);
}

/// `--port=` sets its own value, whatever was set before, and nothing else; what it accepts
/// depends on its value alone.
pub proof fn law_port_option_sets_its_own(settings: LoadSettings, value: Seq<char>)
    ensures
        apply_load_argument(settings, "--port="@ + value) == match parse_number(value, 65535) {
            Some(n) => if n > 0 {
                Ok::<LoadSettings, Failure>(LoadSettings { port: n as u16, ..settings })
            } else {
                Err(
                    Failure {
                        kind: ErrorKind::InvalidInput,
                        message: "--port"@ + " must be greater than 0"@,
                    },
                )
            },
            None => Err(
                Failure {
                    kind: ErrorKind::InvalidInput,
                    message: "--port"@ + " must be a valid u16 port"@,
                },
            ),
        },
{
    reveal_strlit("--port=");
    reveal_strlit("--host=");
    reveal_strlit("--publishers=");
    reveal_strlit("--subscribers-per-publisher=");
    reveal_strlit("--packets-per-publisher=");
    reveal_strlit("--payload-bytes=");
    reveal_strlit("--packet-interval-ms=");
    reveal_strlit("--heartbeat-rounds=");
    reveal_strlit("--heartbeat-round-interval-ms=");
    law_prefix_comes_off("--port="@, value);
    lemma_other_prefix("--port="@, value, "--host="@, 2);
    lemma_other_prefix("--port="@, value, "--publishers="@, 3);
    lemma_other_prefix("--port="@, value, "--subscribers-per-publisher="@, 2);
    lemma_other_prefix("--port="@, value, "--packets-per-publisher="@, 3);
    lemma_other_prefix("--port="@, value, "--payload-bytes="@, 3);
    lemma_other_prefix("--port="@, value, "--packet-interval-ms="@, 3);
    lemma_other_prefix("--port="@, value, "--heartbeat-rounds="@, 2);
    lemma_other_prefix("--port="@, value, "--heartbeat-round-interval-ms="@, 2);
}

/// `--sport=` sets its own value, whatever was set before, and nothing else; what it accepts
/// depends on its value alone.
pub proof fn law_status_port_option_sets_its_own(settings: LoadSettings, value: Seq<char>)
    ensures
        apply_load_argument(settings, "--sport="@ + value) == match parse_number(value, 65535) {
            Some(n) => if n > 0 {
                Ok::<LoadSettings, Failure>(LoadSettings { status_port: n as u16, ..settings })
            } else {
                Err(
                    Failure {
                        kind: ErrorKind::InvalidInput,
                        message: "--sport"@ + " must be greater than 0"@,
                    },
                )
            },
            None => Err(
                Failure {
                    kind: ErrorKind::InvalidInput,
                    message: "--sport"@ + " must be a valid u16 port"@,
                },
            ),
        },
{
    reveal_strlit("--sport=");
    reveal_strlit("--host=");
    reveal_strlit("--publishers=");
    reveal_strlit("--subscribers-per-publisher=");
    reveal_strlit("--packets-per-publisher=");
    reveal_strlit("--payload-bytes=");
    reveal_strlit("--packet-interval-ms=");
    reveal_strlit("--heartbeat-rounds=");
    reveal_strlit("--heartbeat-round-interval-ms=");
    reveal_strlit("--port=");
    law_prefix_comes_off("--sport="@, value);
    lemma_other_prefix("--sport="@, value, "--host="@, 2);
    lemma_other_prefix("--sport="@, value, "--publishers="@, 2);
    lemma_other_prefix("--sport="@, value, "--subscribers-per-publisher="@, 3);
    lemma_other_prefix("--sport="@, value, "--packets-per-publisher="@, 2);
    lemma_other_prefix("--sport="@, value, "--payload-bytes="@, 2);
    lemma_other_prefix("--sport="@, value, "--packet-interval-ms="@, 2);
    lemma_other_prefix("--sport="@, value, "--heartbeat-rounds="@, 2);
    lemma_other_prefix("--sport="@, value, "--heartbeat-round-interval-ms="@, 2);
    lemma_other_prefix("--sport="@, value, "--port="@, 2);
}

/// `--external-server` sets its own value, and nothing else.
pub proof fn law_external_server_option_sets_its_own(settings: LoadSettings)
    ensures
        apply_load_argument(settings, "--external-server"@) == Ok::<LoadSettings, Failure>(
            LoadSettings { external_server: true, ..settings },
        ),
{
    reveal_strlit("--host=");
    reveal_strlit("--publishers=");
    reveal_strlit("--subscribers-per-publisher=");
    reveal_strlit("--packets-per-publisher=");
    reveal_strlit("--payload-bytes=");
    reveal_strlit("--packet-interval-ms=");
    reveal_strlit("--heartbeat-rounds=");
    reveal_strlit("--heartbeat-round-interval-ms=");
    reveal_strlit("--port=");
    reveal_strlit("--sport=");
    reveal_strlit("--external-server");
    let text = "--external-server"@;
    assert(text + Seq::<char>::empty() =~= text);
    lemma_other_prefix(text, Seq::<char>::empty(), "--host="@, 2);
    lemma_other_prefix(text, Seq::<char>::empty(), "--publishers="@, 2);
    lemma_other_prefix(text, Seq::<char>::empty(), "--subscribers-per-publisher="@, 2);
    lemma_other_prefix(text, Seq::<char>::empty(), "--packets-per-publisher="@, 2);
    lemma_other_prefix(text, Seq::<char>::empty(), "--payload-bytes="@, 2);
    lemma_other_prefix(text, Seq::<char>::empty(), "--packet-interval-ms="@, 2);
    lemma_other_prefix(text, Seq::<char>::empty(), "--heartbeat-rounds="@, 2);
    lemma_other_prefix(text, Seq::<char>::empty(), "--heartbeat-round-interval-ms="@, 2);
    lemma_other_prefix(text, Seq::<char>::empty(), "--port="@, 2);
    lemma_other_prefix(text, Seq::<char>::empty(), "--sport="@, 2);
}

/// The value of the last argument that begins with a prefix, where one does.
pub open spec fn last_load_value(arguments: Seq<String>, prefix: Seq<char>) -> Option<Seq<char>>
    decreases arguments.len(),
{
    if arguments.len() == 0 {
        None
    } else if has_prefix(arguments.last()@, prefix) {
        Some(arguments.last()@.skip(prefix.len() as int))
    } else {
        last_load_value(arguments.drop_last(), prefix)
    }
}

/// In an accepted command line each value is that of the last argument that names it, or the
/// default where none does; the relay is an outside one exactly where some argument says so.
#[verifier::rlimit(50)]
pub proof fn law_last_value_of_a_load_option_counts(arguments: Seq<String>)
    ensures
        read_load_arguments(arguments) matches Ok(settings) ==> {
            &&& match last_load_value(arguments, "--host="@) {
                None => settings.host == "127.0.0.1"@,
                Some(value) => settings.host == value && value.len() > 0,
            }
            &&& match last_load_value(arguments, "--publishers="@) {
                None => settings.publishers == 20,
                Some(value) => parse_number(value, usize::MAX as nat) == Some(settings.publishers as nat),
            }
            &&& match last_load_value(arguments, "--subscribers-per-publisher="@) {
                None => settings.subscribers_per_publisher == 20,
                Some(value) => parse_number(value, usize::MAX as nat) == Some(settings.subscribers_per_publisher as nat),
            }
            &&& match last_load_value(arguments, "--packets-per-publisher="@) {
                None => settings.packets_per_publisher == 200,
                Some(value) => parse_number(value, usize::MAX as nat) == Some(settings.packets_per_publisher as nat),
            }
            &&& match last_load_value(arguments, "--payload-bytes="@) {
                None => settings.payload_bytes == 160,
                Some(value) => parse_number(value, usize::MAX as nat) == Some(settings.payload_bytes as nat),
            }
            &&& match last_load_value(arguments, "--packet-interval-ms="@) {
                None => settings.packet_interval_ms == 10,
                Some(value) => parse_number(value, u64::MAX as nat) == Some(settings.packet_interval_ms as nat),
            }
            &&& match last_load_value(arguments, "--heartbeat-rounds="@) {
                None => settings.heartbeat_rounds == 2,
                Some(value) => parse_number(value, usize::MAX as nat) == Some(settings.heartbeat_rounds as nat),
            }
            &&& match last_load_value(arguments, "--heartbeat-round-interval-ms="@) {
                None => settings.heartbeat_round_interval_ms == 1000,
                Some(value) => parse_number(value, u64::MAX as nat) == Some(settings.heartbeat_round_interval_ms as nat),
            }
            &&& match last_load_value(arguments, "--port="@) {
                None => settings.port == 6838,
                Some(value) => parse_number(value, 65535) == Some(settings.port as nat) && settings.port > 0,
            }
            &&& match last_load_value(arguments, "--sport="@) {
                None => settings.status_port == 6839,
                Some(value) => parse_number(value, 65535) == Some(settings.status_port as nat) && settings.status_port > 0,
            }
            &&& settings.external_server <==> exists|i: int|
                0 <= i < arguments.len() && #[trigger] arguments[i]@ == "--external-server"@
        },
    decreases arguments.len(),
{
    if arguments.len() > 0 && read_load_arguments(arguments) is Ok {
        let earlier = arguments.drop_last();
        let text = arguments.last()@;
        law_last_value_of_a_load_option_counts(earlier);
        let before = read_load_arguments(earlier)->Ok_0;
        let settings = read_load_arguments(arguments)->Ok_0;
        reveal_strlit("--host=");
        reveal_strlit("--publishers=");
        reveal_strlit("--subscribers-per-publisher=");
        reveal_strlit("--packets-per-publisher=");
        reveal_strlit("--payload-bytes=");
        reveal_strlit("--packet-interval-ms=");
        reveal_strlit("--heartbeat-rounds=");
        reveal_strlit("--heartbeat-round-interval-ms=");
        reveal_strlit("--port=");
        reveal_strlit("--sport=");
        reveal_strlit("--external-server");
        assert(apply_load_argument(before, text) == Ok::<LoadSettings, Failure>(settings));
        assert(arguments[arguments.len() - 1]@ == text);
        assert forall|i: int| 0 <= i < earlier.len() implies earlier[i] == #[trigger] arguments[i] by {}
        assert((exists|i: int|
            0 <= i < arguments.len() && #[trigger] arguments[i]@ == "--external-server"@) <==> (text
            == "--external-server"@ || exists|i: int|
            0 <= i < earlier.len() && #[trigger] earlier[i]@ == "--external-server"@)) by {
            if exists|i: int|
                0 <= i < earlier.len() && #[trigger] earlier[i]@ == "--external-server"@ {
                let i = choose|i: int|
                    0 <= i < earlier.len() && #[trigger] earlier[i]@ == "--external-server"@;
                assert(arguments[i]@ == "--external-server"@);
            }
        }
        if has_prefix(text, "--host="@) {
            let value = text.skip("--host="@.len() as int);
            assert(text =~= "--host="@ + value);
            law_host_option_sets_its_own(before, value);
            lemma_other_prefix("--host="@, value, "--publishers="@, 2);
            lemma_other_prefix("--host="@, value, "--subscribers-per-publisher="@, 2);
            lemma_other_prefix("--host="@, value, "--packets-per-publisher="@, 2);
            lemma_other_prefix("--host="@, value, "--payload-bytes="@, 2);
            lemma_other_prefix("--host="@, value, "--packet-interval-ms="@, 2);
            lemma_other_prefix("--host="@, value, "--heartbeat-rounds="@, 3);
            lemma_other_prefix("--host="@, value, "--heartbeat-round-interval-ms="@, 3);
            lemma_other_prefix("--host="@, value, "--port="@, 2);
            lemma_other_prefix("--host="@, value, "--sport="@, 2);
        } else if has_prefix(text, "--publishers="@) {
            let value = text.skip("--publishers="@.len() as int);
            assert(text =~= "--publishers="@ + value);
            law_publishers_option_sets_its_own(before, value);
            lemma_other_prefix("--publishers="@, value, "--host="@, 2);
            lemma_other_prefix("--publishers="@, value, "--subscribers-per-publisher="@, 2);
            lemma_other_prefix("--publishers="@, value, "--packets-per-publisher="@, 3);
            lemma_other_prefix("--publishers="@, value, "--payload-bytes="@, 3);
            lemma_other_prefix("--publishers="@, value, "--packet-interval-ms="@, 3);
            lemma_other_prefix("--publishers="@, value, "--heartbeat-rounds="@, 2);
            lemma_other_prefix("--publishers="@, value, "--heartbeat-round-interval-ms="@, 2);
            lemma_other_prefix("--publishers="@, value, "--port="@, 3);
            lemma_other_prefix("--publishers="@, value, "--sport="@, 2);
        } else if has_prefix(text, "--subscribers-per-publisher="@) {
            let value = text.skip("--subscribers-per-publisher="@.len() as int);
            assert(text =~= "--subscribers-per-publisher="@ + value);
            law_subscribers_per_publisher_option_sets_its_own(before, value);
            lemma_other_prefix("--subscribers-per-publisher="@, value, "--host="@, 2);
            lemma_other_prefix("--subscribers-per-publisher="@, value, "--publishers="@, 2);
            lemma_other_prefix("--subscribers-per-publisher="@, value, "--packets-per-publisher="@, 2);
            lemma_other_prefix("--subscribers-per-publisher="@, value, "--payload-bytes="@, 2);
            lemma_other_prefix("--subscribers-per-publisher="@, value, "--packet-interval-ms="@, 2);
            lemma_other_prefix("--subscribers-per-publisher="@, value, "--heartbeat-rounds="@, 2);
            lemma_other_prefix("--subscribers-per-publisher="@, value, "--heartbeat-round-interval-ms="@, 2);
            lemma_other_prefix("--subscribers-per-publisher="@, value, "--port="@, 2);
            lemma_other_prefix("--subscribers-per-publisher="@, value, "--sport="@, 3);
        } else if has_prefix(text, "--packets-per-publisher="@) {
            let value = text.skip("--packets-per-publisher="@.len() as int);
            assert(text =~= "--packets-per-publisher="@ + value);
            law_packets_per_publisher_option_sets_its_own(before, value);
            lemma_other_prefix("--packets-per-publisher="@, value, "--host="@, 2);
            lemma_other_prefix("--packets-per-publisher="@, value, "--publishers="@, 3);
            lemma_other_prefix("--packets-per-publisher="@, value, "--subscribers-per-publisher="@, 2);
            lemma_other_prefix("--packets-per-publisher="@, value, "--payload-bytes="@, 4);
            lemma_other_prefix("--packets-per-publisher="@, value, "--packet-interval-ms="@, 8);
            lemma_other_prefix("--packets-per-publisher="@, value, "--heartbeat-rounds="@, 2);
            lemma_other_prefix("--packets-per-publisher="@, value, "--heartbeat-round-interval-ms="@, 2);
            lemma_other_prefix("--packets-per-publisher="@, value, "--port="@, 3);
            lemma_other_prefix("--packets-per-publisher="@, value, "--sport="@, 2);
        } else if has_prefix(text, "--payload-bytes="@) {
            let value = text.skip("--payload-bytes="@.len() as int);
            assert(text =~= "--payload-bytes="@ + value);
            law_payload_bytes_option_sets_its_own(before, value);
            lemma_other_prefix("--payload-bytes="@, value, "--host="@, 2);
            lemma_other_prefix("--payload-bytes="@, value, "--publishers="@, 3);
            lemma_other_prefix("--payload-bytes="@, value, "--subscribers-per-publisher="@, 2);
            lemma_other_prefix("--payload-bytes="@, value, "--packets-per-publisher="@, 4);
            lemma_other_prefix("--payload-bytes="@, value, "--packet-interval-ms="@, 4);
            lemma_other_prefix("--payload-bytes="@, value, "--heartbeat-rounds="@, 2);
            lemma_other_prefix("--payload-bytes="@, value, "--heartbeat-round-interval-ms="@, 2);
            lemma_other_prefix("--payload-bytes="@, value, "--port="@, 3);
            lemma_other_prefix("--payload-bytes="@, value, "--sport="@, 2);
        } else if has_prefix(text, "--packet-interval-ms="@) {
            let value = text.skip("--packet-interval-ms="@.len() as int);
            assert(text =~= "--packet-interval-ms="@ + value);
            law_packet_interval_ms_option_sets_its_own(before, value);
            lemma_other_prefix("--packet-interval-ms="@, value, "--host="@, 2);
            lemma_other_prefix("--packet-interval-ms="@, value, "--publishers="@, 3);
            lemma_other_prefix("--packet-interval-ms="@, value, "--subscribers-per-publisher="@, 2);
            lemma_other_prefix("--packet-interval-ms="@, value, "--packets-per-publisher="@, 8);
            lemma_other_prefix("--packet-interval-ms="@, value, "--payload-bytes="@, 4);
            lemma_other_prefix("--packet-interval-ms="@, value, "--heartbeat-rounds="@, 2);
            lemma_other_prefix("--packet-interval-ms="@, value, "--heartbeat-round-interval-ms="@, 2);
            lemma_other_prefix("--packet-interval-ms="@, value, "--port="@, 3);
            lemma_other_prefix("--packet-interval-ms="@, value, "--sport="@, 2);
        } else if has_prefix(text, "--heartbeat-rounds="@) {
            let value = text.skip("--heartbeat-rounds="@.len() as int);
            assert(text =~= "--heartbeat-rounds="@ + value);
            law_heartbeat_rounds_option_sets_its_own(before, value);
            lemma_other_prefix("--heartbeat-rounds="@, value, "--host="@, 3);
            lemma_other_prefix("--heartbeat-rounds="@, value, "--publishers="@, 2);
            lemma_other_prefix("--heartbeat-rounds="@, value, "--subscribers-per-publisher="@, 2);
            lemma_other_prefix("--heartbeat-rounds="@, value, "--packets-per-publisher="@, 2);
            lemma_other_prefix("--heartbeat-rounds="@, value, "--payload-bytes="@, 2);
            lemma_other_prefix("--heartbeat-rounds="@, value, "--packet-interval-ms="@, 2);
            lemma_other_prefix("--heartbeat-rounds="@, value, "--heartbeat-round-interval-ms="@, 17);
            lemma_other_prefix("--heartbeat-rounds="@, value, "--port="@, 2);
            lemma_other_prefix("--heartbeat-rounds="@, value, "--sport="@, 2);
        } else if has_prefix(text, "--heartbeat-round-interval-ms="@) {
            let value = text.skip("--heartbeat-round-interval-ms="@.len() as int);
            assert(text =~= "--heartbeat-round-interval-ms="@ + value);
            law_heartbeat_round_interval_ms_option_sets_its_own(before, value);
            lemma_other_prefix("--heartbeat-round-interval-ms="@, value, "--host="@, 3);
            lemma_other_prefix("--heartbeat-round-interval-ms="@, value, "--publishers="@, 2);
            lemma_other_prefix("--heartbeat-round-interval-ms="@, value, "--subscribers-per-publisher="@, 2);
            lemma_other_prefix("--heartbeat-round-interval-ms="@, value, "--packets-per-publisher="@, 2);
            lemma_other_prefix("--heartbeat-round-interval-ms="@, value, "--payload-bytes="@, 2);
            lemma_other_prefix("--heartbeat-round-interval-ms="@, value, "--packet-interval-ms="@, 2);
            lemma_other_prefix("--heartbeat-round-interval-ms="@, value, "--heartbeat-rounds="@, 17);
            lemma_other_prefix("--heartbeat-round-interval-ms="@, value, "--port="@, 2);
            lemma_other_prefix("--heartbeat-round-interval-ms="@, value, "--sport="@, 2);
        } else if has_prefix(text, "--port="@) {
            let value = text.skip("--port="@.len() as int);
            assert(text =~= "--port="@ + value);
            law_port_option_sets_its_own(before, value);
            lemma_other_prefix("--port="@, value, "--host="@, 2);
            lemma_other_prefix("--port="@, value, "--publishers="@, 3);
            lemma_other_prefix("--port="@, value, "--subscribers-per-publisher="@, 2);
            lemma_other_prefix("--port="@, value, "--packets-per-publisher="@, 3);
            lemma_other_prefix("--port="@, value, "--payload-bytes="@, 3);
            lemma_other_prefix("--port="@, value, "--packet-interval-ms="@, 3);
            lemma_other_prefix("--port="@, value, "--heartbeat-rounds="@, 2);
            lemma_other_prefix("--port="@, value, "--heartbeat-round-interval-ms="@, 2);
            lemma_other_prefix("--port="@, value, "--sport="@, 2);
        } else if has_prefix(text, "--sport="@) {
            let value = text.skip("--sport="@.len() as int);
            assert(text =~= "--sport="@ + value);
            law_status_port_option_sets_its_own(before, value);
            lemma_other_prefix("--sport="@, value, "--host="@, 2);
            lemma_other_prefix("--sport="@, value, "--publishers="@, 2);
            lemma_other_prefix("--sport="@, value, "--subscribers-per-publisher="@, 3);
            lemma_other_prefix("--sport="@, value, "--packets-per-publisher="@, 2);
            lemma_other_prefix("--sport="@, value, "--payload-bytes="@, 2);
            lemma_other_prefix("--sport="@, value, "--packet-interval-ms="@, 2);
            lemma_other_prefix("--sport="@, value, "--heartbeat-rounds="@, 2);
            lemma_other_prefix("--sport="@, value, "--heartbeat-round-interval-ms="@, 2);
            lemma_other_prefix("--sport="@, value, "--port="@, 2);
        } else {
            law_external_server_option_sets_its_own(before);
        }
    }
}

/// The payloads of the load: they begin with 0 for the first packet of the first publisher, and
/// go up by one from byte to byte, by seventeen from packet to packet and by thirty-one from
/// publisher to publisher, around at 256.
pub proof fn law_payload_bytes_count_up(key_index: usize, sequence: u64, size: usize, i: int)
    requires
        0 <= i < size,
    ensures
        payload_for(key_index, sequence, size).len() == size,
        payload_for(0, 0, size)[0] == 0,
        i + 1 < size ==> payload_for(key_index, sequence, size)[i + 1] == (payload_for(
            key_index,
            sequence,
            size,
        )[i] + 1) % 256,
        sequence < u64::MAX ==> payload_for(key_index, (sequence + 1) as u64, size)[i] == (
        payload_for(key_index, sequence, size)[i] + 17) % 256,
        key_index < usize::MAX ==> payload_for((key_index + 1) as usize, sequence, size)[i] == (
        payload_for(key_index, sequence, size)[i] + 31) % 256,
{
    let n = key_index * 31 + sequence * 17 + i;
    lemma_add_mod_noop(n, 1, 256);
    lemma_add_mod_noop(n, 17, 256);
    lemma_add_mod_noop(n, 31, 256);
    assert((key_index + 1) * 31 == key_index * 31 + 31);
    assert((sequence + 1) * 17 == sequence * 17 + 17);
    assert(payload_for(key_index, sequence, size)[i] == n % 256);
    if i + 1 < size {
        assert(payload_for(key_index, sequence, size)[i + 1] == (n + 1) % 256);
    }
    if sequence < u64::MAX {
        assert(payload_for(key_index, (sequence + 1) as u64, size)[i] == (n + 17) % 256);
    }
    if key_index < usize::MAX {
        assert(payload_for((key_index + 1) as usize, sequence, size)[i] == (n + 31) % 256);
    }
}

/// The timestamps of the load: a thousand seconds lie between one publisher and the next, and a
/// millisecond between one packet and the next, around at 2^64.
pub proof fn law_timestamps_count_up(key_index: usize, sequence: u64)
    ensures
        timestamp_for(0, 0) == 1_760_000_000_000,
        sequence < u64::MAX ==> timestamp_for(key_index, (sequence + 1) as u64) == (timestamp_for(
            key_index,
            sequence,
        ) + 1) % 0x1_0000_0000_0000_0000,
        key_index < usize::MAX ==> timestamp_for((key_index + 1) as usize, sequence) == (
        timestamp_for(key_index, sequence) + 1_000_000) % 0x1_0000_0000_0000_0000,
{
    let wrap = 0x1_0000_0000_0000_0000int;
    let whole = 1_760_000_000_000 + key_index * 1_000_000 + sequence;
    lemma_add_mod_noop(whole, 1, wrap);
    lemma_add_mod_noop(whole, 1_000_000, wrap);
    assert((key_index + 1) * 1_000_000 == key_index * 1_000_000 + 1_000_000);
    assert(timestamp_for(key_index, sequence) == whole % wrap);
    if sequence < u64::MAX {
        assert(timestamp_for(key_index, (sequence + 1) as u64) == (whole + 1) % wrap);
    }
    if key_index < usize::MAX {
        assert(timestamp_for((key_index + 1) as usize, sequence) == (whole + 1_000_000) % wrap);
    }
}

/// Whether a datagram is, byte for byte, a packet that the publisher of a subscriber's key sends,
/// under the subscriber's session id.
pub open spec fn is_load_datagram(receiver: ReceiverView, datagram: Seq<u8>, sequence: u64) -> bool {
    &&& sequence < receiver.seen.len()
    &&& receiver.payload_bytes <= 1200
    &&& datagram == encode_packet(
        Packet::AudioData {
            id: receiver.session_id,
            sequence,
            timestamp_ms: timestamp_for(receiver.key_index, sequence),
            payload: payload_for(receiver.key_index, sequence, receiver.payload_bytes),
        },
    )
}

/// A subscriber counts only what belongs to the load: a datagram counts as received, or as a
/// duplicate, only if it is, byte for byte, the packet with that sequence number that the
/// publisher of the key sends. Every other packet counts as invalid, and what is no packet does
/// not count; neither changes what was received.
pub proof fn law_subscriber_accepts_only_the_load(receiver: ReceiverView, datagram: Seq<u8>)
    ensures
        match receiver.reception(datagram) {
            Reception::Fresh(sequence) => is_load_datagram(receiver, datagram, sequence)
                && !receiver.seen[sequence as int],
            Reception::Duplicate => exists|sequence: u64| #[trigger]
                is_load_datagram(receiver, datagram, sequence) && receiver.seen[sequence as int],
            _ => true,
        },
        (forall|sequence: u64| !#[trigger] is_load_datagram(receiver, datagram, sequence)) ==> {
            let after = receiver.received(datagram);
            &&& after.seen == receiver.seen
            &&& after.duplicate_packets == receiver.duplicate_packets
            &&& after.invalid_packets == if exists|packet: Packet|
                payload_fits(packet, 1200) && #[trigger] encode_packet(packet) == datagram {
                receiver.invalid_packets.wrapping_add(1)
            } else {
                receiver.invalid_packets
            }
        },
{
    law_encode_writes_what_parse_read(datagram, UDP_AUDIO_PAYLOAD_MAX_BYTES);
    match parse_packet(datagram, UDP_AUDIO_PAYLOAD_MAX_BYTES) {
        Ok(packet) => {
            assert(payload_fits(packet, 1200) && encode_packet(packet) == datagram);
            if let Packet::AudioData { id, sequence, timestamp_ms, payload } = packet {
                if receiver.reception(datagram) is Fresh || receiver.reception(datagram)
                    is Duplicate {
                    assert(payload.len() == receiver.payload_bytes);
                    assert(is_load_datagram(receiver, datagram, sequence));
                }
            }
        },
        Err(_) => {
            if exists|packet: Packet|
                payload_fits(packet, 1200) && #[trigger] encode_packet(packet) == datagram {
                let packet = choose|packet: Packet|
                    payload_fits(packet, 1200) && #[trigger] encode_packet(packet) == datagram;
                law_parse_reads_what_encode_writes(packet, UDP_AUDIO_PAYLOAD_MAX_BYTES);
            }
        },
    }
}

/// A datagram changes nothing of what a subscriber expects, marks at most one packet as received
/// and never takes a mark back.
pub proof fn law_reception_keeps_what_was_received(receiver: ReceiverView, datagram: Seq<u8>, i: int)
    requires
        0 <= i < receiver.seen.len(),
    ensures
        receiver.received(datagram).key_index == receiver.key_index,
        receiver.received(datagram).session_id == receiver.session_id,
        receiver.received(datagram).payload_bytes == receiver.payload_bytes,
        receiver.received(datagram).seen.len() == receiver.seen.len(),
        receiver.received(datagram).seen[i] <==> receiver.seen[i] || is_load_datagram(
            receiver,
            datagram,
            i as u64,
        ) && i <= u64::MAX,
{
    law_subscriber_accepts_only_the_load(receiver, datagram);
    if i <= u64::MAX && is_load_datagram(receiver, datagram, i as u64) {
        law_subscriber_accepts_the_load(receiver, i as u64);
    }
    if receiver.reception(datagram) is Fresh {
        let sequence = receiver.reception(datagram)->Fresh_0;
        if i <= u64::MAX && is_load_datagram(receiver, datagram, i as u64) {
            law_parse_reads_what_encode_writes(
                load_packet(
                    receiver.session_id,
                    receiver.key_index,
                    i as u64,
                    receiver.payload_bytes,
                ),
                UDP_AUDIO_PAYLOAD_MAX_BYTES,
            );
            assert(sequence == i);
        }
    }
}

/// What a subscriber has received after one datagram after another.
pub open spec fn received_all(receiver: ReceiverView, datagrams: Seq<Seq<u8>>) -> ReceiverView
    decreases datagrams.len(),
{
    if datagrams.len() == 0 {
        receiver
    } else {
        received_all(receiver, datagrams.drop_last()).received(datagrams.last())
    }
}

/// After any datagrams in any order, a packet is marked as received exactly if it was before or
/// is among them, byte for byte.
pub proof fn law_received_packets_are_those_that_came(
    receiver: ReceiverView,
    datagrams: Seq<Seq<u8>>,
    i: int,
)
    requires
        0 <= i < receiver.seen.len() <= u64::MAX,
    ensures
        ({
            let after = received_all(receiver, datagrams);
            &&& after.seen.len() == receiver.seen.len()
            &&& after.key_index == receiver.key_index
            &&& after.session_id == receiver.session_id
            &&& after.payload_bytes == receiver.payload_bytes
            &&& after.seen[i] <==> receiver.seen[i] || exists|j: int|
                0 <= j < datagrams.len() && is_load_datagram(
                    receiver,
                    #[trigger] datagrams[j],
                    i as u64,
                )
        }),
    decreases datagrams.len(),
{
    if datagrams.len() > 0 {
        let earlier = datagrams.drop_last();
        law_received_packets_are_those_that_came(receiver, earlier, i);
        let before = received_all(receiver, earlier);
        law_reception_keeps_what_was_received(before, datagrams.last(), i);
        assert(is_load_datagram(before, datagrams.last(), i as u64) == is_load_datagram(
            receiver,
            datagrams.last(),
            i as u64,
        ));
        assert(datagrams.last() == datagrams[datagrams.len() - 1]);
        if exists|j: int|
            0 <= j < earlier.len() && is_load_datagram(receiver, #[trigger] earlier[j], i as u64) {
            let j = choose|j: int|
                0 <= j < earlier.len() && is_load_datagram(
                    receiver,
                    #[trigger] earlier[j],
                    i as u64,
                );
            assert(is_load_datagram(receiver, datagrams[j], i as u64));
        }
        if exists|j: int|
            0 <= j < datagrams.len() && is_load_datagram(
                receiver,
                #[trigger] datagrams[j],
                i as u64,
            ) {
            let j = choose|j: int|
                0 <= j < datagrams.len() && is_load_datagram(
                    receiver,
                    #[trigger] datagrams[j],
                    i as u64,
                );
            if j < earlier.len() {
                assert(earlier[j] == datagrams[j]);
            }
        }
    }
}

/// The number of packets seen is that of the marks: each place counts for itself.
pub proof fn law_seen_packets_are_counted_place_by_place(seen: Seq<bool>, i: int)
    requires
        0 <= i < seen.len(),
    ensures
        count_seen(seen.update(i, true)) == count_seen(seen.update(i, false)) + 1,
        (forall|j: int| 0 <= j < seen.len() ==> !(#[trigger] seen[j])) ==> count_seen(seen) == 0,
        count_seen(seen) <= seen.len(),
{
    let without = seen.update(i, false);
    lemma_one_more_seen(without, i);
    assert(without.update(i, true) =~= seen.update(i, true));
    lemma_count_seen_bound(seen);
    if forall|j: int| 0 <= j < seen.len() ==> !(#[trigger] seen[j]) {
        lemma_none_seen(seen);
    }
}

/// Results stand the test exactly when there is one for each subscriber, every one received every
/// packet, and nothing is missing, invalid or there twice.
pub proof fn law_complete_results_are_accepted(
    settings: LoadSettings,
    results: Seq<SubscriberResult>,
)
    ensures
        results_problem(settings, results) is None <==> {
            &&& results.len() == settings.publishers * settings.subscribers_per_publisher
            &&& forall|i: int|
                0 <= i < results.len() ==> {
                    &&& (#[trigger] results[i]).unique_packets_received
                        == results[i].expected_packets
                    &&& results[i].missing_packets == 0
                    &&& results[i].invalid_packets == 0
                    &&& results[i].duplicate_packets == 0
                }
        },
{
    if results_problem(settings, results) is None {
        law_accepted_results_are_complete(settings, results);
    }
    if forall|i: int|
        0 <= i < results.len() ==> {
            &&& (#[trigger] results[i]).unique_packets_received == results[i].expected_packets
            &&& results[i].missing_packets == 0
            &&& results[i].invalid_packets == 0
            &&& results[i].duplicate_packets == 0
        } {
        lemma_results_add_up_to_nothing(results);
    }
}

proof fn lemma_results_add_up_to_nothing(results: Seq<SubscriberResult>)
    requires
        forall|i: int|
            0 <= i < results.len() ==> {
                &&& (#[trigger] results[i]).unique_packets_received == results[i].expected_packets
                &&& results[i].missing_packets == 0
                &&& results[i].invalid_packets == 0
                &&& results[i].duplicate_packets == 0
            },
    ensures
        first_short(results) is None,
        sum_results(results, missing_number()) == 0,
        sum_results(results, invalid_number()) == 0,
        sum_results(results, duplicate_number()) == 0,
    decreases results.len(),
{
    if results.len() > 0 {
        let shorter = results.drop_last();
        assert forall|i: int| 0 <= i < shorter.len() implies {
            &&& (#[trigger] shorter[i]).unique_packets_received == shorter[i].expected_packets
            &&& shorter[i].missing_packets == 0
            &&& shorter[i].invalid_packets == 0
            &&& shorter[i].duplicate_packets == 0
        } by {
            assert(shorter[i] == results[i]);
        }
        lemma_results_add_up_to_nothing(shorter);
        assert(results.last() == results[results.len() - 1]);
    }
}

/// What the relay reports stands the test exactly when it counts one stream and one active
/// publisher for each publisher, all subscribers as active, every packet of every publisher as
/// received and as passed on to each of its subscribers, and nothing as invalid or unknown.
pub proof fn law_expected_report_is_accepted(settings: LoadSettings, snapshot: RegistrySnapshot)
    ensures
        snapshot_problem(settings, snapshot) is None <==> {
            &&& snapshot.stream_count == settings.publishers
            &&& snapshot.active_publisher_count == settings.publishers
            &&& snapshot.active_udp_publisher_count == settings.publishers
            &&& snapshot.active_subscriber_count == settings.publishers
                * settings.subscribers_per_publisher
            &&& snapshot.active_udp_subscriber_count == settings.publishers
                * settings.subscribers_per_publisher
            &&& sum_over(
                snapshot.streams@,
                |s: StreamSnapshot| s.udp_audio_packets_in_total as int,
            ) == settings.publishers * settings.packets_per_publisher
            &&& sum_over(
                snapshot.streams@,
                |s: StreamSnapshot| s.udp_audio_packets_out_total as int,
            ) == settings.publishers * settings.subscribers_per_publisher
                * settings.packets_per_publisher
            &&& snapshot.invalid_udp_packets_total == 0
            &&& snapshot.unknown_udp_session_packets_total == 0
        },
{
    assert(in_number() == (|s: StreamSnapshot| s.udp_audio_packets_in_total as int));
    assert(out_number() == (|s: StreamSnapshot| s.udp_audio_packets_out_total as int));
}

/// A load test passes exactly when both what the subscribers received and what the relay reports
/// stand the test.
pub proof fn law_load_test_passes_on_both_counts(
    config: LoadTestConfig,
    results: Vec<SubscriberResult>,
    snapshot: RegistrySnapshot,
    outcome: Result<(), IoError>,
)
    requires
        config@.counts_fit(),
        call_ensures(validate_results, (&config, &results, &snapshot), outcome),
    ensures
        outcome is Ok <==> results_problem(config@, results@) is None && snapshot_problem(
            config@,
            snapshot,
        ) is None,
{
}

/// A confirmation is accepted exactly if it is, byte for byte, the one for the session.
pub proof fn law_only_the_right_confirmation_counts(
    datagram: &[u8],
    session_id: SessionId,
    outcome: Result<(), IoError>,
)
    requires
        call_ensures(check_register_ack, (datagram, session_id), outcome),
    ensures
        outcome is Ok <==> datagram@ == encode_packet(Packet::RegisterAck { id: session_id@ }),
{
    law_encode_writes_what_parse_read(datagram@, UDP_AUDIO_PAYLOAD_MAX_BYTES);
    law_parse_reads_what_encode_writes(
        Packet::RegisterAck { id: session_id@ },
        UDP_AUDIO_PAYLOAD_MAX_BYTES,
    );
}

/// The reply to a handshake is accepted exactly if it establishes a session in the role and under
/// the key that were asked for, with the relay's limits, a session id and a port.
pub proof fn law_only_the_expected_reply_counts(
    response: HandshakeResponseOwned,
    role: ClientRole,
    key: Seq<char>,
)
    ensures
        response_problem(response, role, key) is None <==> {
            &&& response.status@ == "ok"@
            &&& response.message@ == "control session established"@
            &&& response.role == Some(role)
            &&& response.key matches Some(k) && k@ == key
            &&& response.tcp_heartbeat_interval_ms == Some(5000u64)
            &&& response.udp_session_timeout_ms == Some(15000u64)
            &&& response.udp_audio_payload_max_bytes == Some(1200usize)
            &&& response.session_id matches Some(text) && hex_problem(encode_utf8(text@)) is None
            &&& response.udp_port is Some
        },
{
}

/// Settings are accepted exactly if there are publishers, subscribers and packets at all, and the
/// payload has from 1 to 1200 bytes.
pub proof fn law_settings_make_a_load(settings: LoadSettings)
    ensures
        settings_problem(settings) is None <==> {
            &&& settings.publishers > 0
            &&& settings.subscribers_per_publisher > 0
            &&& settings.packets_per_publisher > 0
            &&& 1 <= settings.payload_bytes <= 1200
        },
{
}

/// The rounds that were asked for come first, and there are more as long as publishers send: the
/// rounds end exactly when both are through.
pub proof fn law_rounds_last_until_all_is_sent(
    completed: usize,
    planned: usize,
    publishers_sending: bool,
    round: Option<HeartbeatRound>,
)
    requires
        call_ensures(next_heartbeat_round, (completed, planned, publishers_sending), round),
    ensures
        round is None <==> completed >= planned && !publishers_sending,
        round == Some(HeartbeatRound::Planned) <==> completed < planned,
{
}

/// A new subscriber expects packets and has seen none of them.
pub proof fn law_new_subscriber_has_seen_nothing(
    key_index: usize,
    session_id: SessionId,
    expected_packets: usize,
    payload_bytes: usize,
    receiver: SubscriberReceiver,
)
    requires
        call_ensures(
            SubscriberReceiver::new,
            (key_index, session_id, expected_packets, payload_bytes),
            receiver,
        ),
    ensures
        receiver.inv(),
        receiver@.key_index == key_index,
        receiver@.session_id == session_id@,
        receiver@.payload_bytes == payload_bytes,
        receiver@.seen.len() == expected_packets,
        forall|i: int| 0 <= i < expected_packets ==> !(#[trigger] receiver@.seen[i]),
        receiver@.duplicate_packets == 0,
        receiver@.invalid_packets == 0,
{
}

/// A datagram marks a packet as received exactly if it is that packet, byte for byte; one that is
/// no packet at all is a failure, and nothing else is.
pub proof fn law_subscriber_takes_in_what_it_expects(
    receiver: &mut SubscriberReceiver,
    datagram: &[u8],
    result: Result<(), IoError>,
    i: int,
)
    requires
        receiver.inv(),
        call_ensures(SubscriberReceiver::on_packet, (receiver, datagram), result),
        0 <= i < receiver@.seen.len() <= u64::MAX,
    ensures
        final(receiver)@.seen.len() == old(receiver)@.seen.len(),
        final(receiver)@.seen[i] <==> old(receiver)@.seen[i] || is_load_datagram(
            old(receiver)@,
            datagram@,
            i as u64,
        ),
        (forall|sequence: u64| !#[trigger]
            is_load_datagram(old(receiver)@, datagram@, sequence)) && result is Ok
            ==> final(receiver)@.invalid_packets == old(receiver)@.invalid_packets.wrapping_add(1),
        is_load_datagram(old(receiver)@, datagram@, i as u64) && old(receiver)@.seen[i] ==> {
            &&& final(receiver)@.duplicate_packets == old(receiver)@.duplicate_packets.wrapping_add(
                1,
            )
            &&& final(receiver)@.invalid_packets == old(receiver)@.invalid_packets
        },
        is_load_datagram(old(receiver)@, datagram@, i as u64) && !old(receiver)@.seen[i] ==> {
            &&& final(receiver)@.duplicate_packets == old(receiver)@.duplicate_packets
            &&& final(receiver)@.invalid_packets == old(receiver)@.invalid_packets
        },
        result is Err <==> forall|packet: Packet|
            payload_fits(packet, 1200) ==> #[trigger] encode_packet(packet) != datagram@,
        result is Err ==> final(receiver)@ == old(receiver)@,
{
    let before = receiver@;
    law_reception_keeps_what_was_received(before, datagram@, i);
    law_subscriber_accepts_only_the_load(before, datagram@);
    if is_load_datagram(before, datagram@, i as u64) {
        law_subscriber_accepts_the_load(before, i as u64);
    }
    law_encode_writes_what_parse_read(datagram@, UDP_AUDIO_PAYLOAD_MAX_BYTES);
    match parse_packet(datagram@, UDP_AUDIO_PAYLOAD_MAX_BYTES) {
        Ok(packet) => {
            assert(payload_fits(packet, 1200) && encode_packet(packet) == datagram@);
        },
        Err(_) => {
            assert forall|packet: Packet| payload_fits(packet, 1200) implies
                #[trigger] encode_packet(packet) != datagram@ by {
                law_parse_reads_what_encode_writes(packet, UDP_AUDIO_PAYLOAD_MAX_BYTES);
            }
        },
    }
}

/// In the end every expected packet is either received or missing, and the subscriber is complete
/// exactly if none is missing.
pub proof fn law_packets_are_received_or_missing(
    receiver: SubscriberReceiver,
    complete: bool,
    result: SubscriberResult,
)
    requires
        receiver.inv(),
        call_ensures(SubscriberReceiver::is_complete, (&receiver,), complete),
        call_ensures(SubscriberReceiver::finish, (receiver,), result),
    ensures
        result.expected_packets == receiver@.seen.len(),
        result.unique_packets_received == count_seen(receiver@.seen),
        result.missing_packets == result.expected_packets - result.unique_packets_received,
        complete <==> result.missing_packets == 0,
        result.key_index == receiver@.key_index,
        result.duplicate_packets == receiver@.duplicate_packets,
        result.invalid_packets == receiver@.invalid_packets,
{
}

/// What a publisher sends is what its subscribers expect: a packet reads back with the payload and
/// the timestamp of its number, and there is one exactly if the payload is within the limit.
pub proof fn law_publisher_sends_the_load(
    key_index: usize,
    session_id: SessionId,
    sequence: u64,
    payload_bytes: usize,
    packet: Result<Vec<u8>, PayloadTooLarge>,
    payload: Vec<u8>,
    timestamp_ms: u64,
)
    requires
        call_ensures(publisher_packet, (key_index, session_id, sequence, payload_bytes), packet),
        call_ensures(generate_payload, (key_index, sequence, payload_bytes), payload),
        call_ensures(generate_timestamp_ms, (key_index, sequence), timestamp_ms),
    ensures
        packet is Ok <==> payload_bytes <= 1200,
        packet matches Ok(wire) ==> parse_packet(wire@, UDP_AUDIO_PAYLOAD_MAX_BYTES) == Ok::<
            Packet,
            UdpPacketError,
        >(
            Packet::AudioData {
                id: session_id@,
                sequence,
                timestamp_ms,
                payload: payload@,
            },
        ),
        payload@.len() == payload_bytes,
{
    if payload_bytes <= 1200 {
        law_parse_reads_what_encode_writes(
            load_packet(session_id@, key_index, sequence, payload_bytes),
            UDP_AUDIO_PAYLOAD_MAX_BYTES,
        );
    }
}

/// A command line that is accepted makes a load: there are publishers, subscribers and packets,
/// and payloads within the limit; and it is what its arguments say.
pub proof fn law_accepted_command_line_makes_a_load(
    arguments: Vec<String>,
    outcome: Result<LoadTestConfig, IoError>,
)
    requires
        call_ensures(LoadTestConfig::from_args, (&arguments,), outcome),
    ensures
        outcome matches Ok(config) ==> {
            &&& read_load_arguments(arguments@) == Ok::<LoadSettings, Failure>(config@)
            &&& config.publishers > 0
            &&& config.subscribers_per_publisher > 0
            &&& config.packets_per_publisher > 0
            &&& 1 <= config.payload_bytes <= 1200
        },
        outcome is Err ==> (read_load_arguments(arguments@) matches Ok(settings)
            ==> settings.publishers == 0 || settings.subscribers_per_publisher == 0
            || settings.packets_per_publisher == 0 || settings.payload_bytes == 0
            || settings.payload_bytes > 1200),
{
}

/// Each publisher has a key of its own.
pub proof fn law_publishers_have_keys_of_their_own(
    a: usize,
    b: usize,
    key_of_a: String,
    key_of_b: String,
)
    requires
        a != b,
        call_ensures(stream_key, (a,), key_of_a),
        call_ensures(stream_key, (b,), key_of_b),
    ensures
        key_of_a@ != key_of_b@,
{
    reveal_strlit("load_room_");
    reveal_strlit("0");
    let max = usize::MAX as nat;
    law_decimal_is_read_back(a as nat, max);
    law_decimal_is_read_back(b as nat, max);
    let tail_a = key_of_a@.skip(10);
    let tail_b = key_of_b@.skip(10);
    assert("0"@ =~= seq!['0']);
    assert(tail_a =~= if a < 10 {
        seq!['0'] + decimal(a as nat)
    } else {
        decimal(a as nat)
    });
    assert(tail_b =~= if b < 10 {
        seq!['0'] + decimal(b as nat)
    } else {
        decimal(b as nat)
    });
    assert(parse_number(tail_a, max) == Some(a as nat));
    assert(parse_number(tail_b, max) == Some(b as nat));
}

/// The address to use is one of those that the host has: its first IPv4 address, or else its
/// first; there is none exactly if the host has none.
pub proof fn law_address_is_one_of_the_host(
    host: &str,
    port: u16,
    addresses: Vec<Endpoint>,
    address: Result<Endpoint, IoError>,
)
    requires
        call_ensures(resolve_socket_addr, (host, port, &addresses), address),
    ensures
        address is Err <==> addresses@.len() == 0,
        address matches Ok(best) ==> exists|i: int|
            0 <= i < addresses@.len() && #[trigger] addresses@[i] == best && if best is V4 {
                forall|j: int| 0 <= j < i ==> !((#[trigger] addresses@[j]) is V4)
            } else {
                i == 0 && forall|j: int|
                    0 <= j < addresses@.len() ==> !((#[trigger] addresses@[j]) is V4)
            },
{
    law_first_ipv4_address_is_preferred(addresses@);
    if let Ok(best) = address {
        if best is V4 {
            let i = choose|i: int|
                0 <= i < addresses@.len() && #[trigger] addresses@[i] == best && forall|j: int|
                    0 <= j < i ==> !(#[trigger] addresses@[j]).spec_is_ipv4();
            assert forall|j: int| 0 <= j < i implies !((#[trigger] addresses@[j]) is V4) by {
                assert(!addresses@[j].spec_is_ipv4());
            }
        } else {
            assert forall|j: int| 0 <= j < addresses@.len() implies !((
            #[trigger] addresses@[j]) is V4) by {
                assert(!addresses@[j].spec_is_ipv4());
            }
            assert(addresses@[0] == best);
        }
    }
}

/// A heartbeat task that was to run until it is stopped did so only if it had to be cancelled.
pub proof fn law_only_a_cancelled_task_ran_to_the_end(
    name: &str,
    outcome: HeartbeatOutcome,
    result: Result<(), IoError>,
)
    requires
        call_ensures(check_heartbeat_stop, (name, outcome), result),
    ensures
        result is Ok <==> outcome is Cancelled,
        result matches Err(e) ==> e.kind == ErrorKind::Other,
{
}

/// What a load test expects: every publisher has its subscribers, sends its packets, and each of
/// its subscribers gets each of them.
pub proof fn law_every_subscriber_is_to_get_every_packet(
    config: LoadTestConfig,
    totals: Option<ExpectedTotals>,
)
    requires
        call_ensures(LoadTestConfig::expected_totals, (&config,), totals),
    ensures
        totals matches Some(t) ==> {
            &&& t.subscribers == config.publishers * config.subscribers_per_publisher
            &&& t.packets_in == config.publishers * config.packets_per_publisher
            &&& t.packets_out == t.subscribers * config.packets_per_publisher
        },
        config.publishers * config.subscribers_per_publisher <= usize::MAX && config.publishers
            * config.packets_per_publisher <= usize::MAX && config.publishers
            * config.subscribers_per_publisher * config.packets_per_publisher <= usize::MAX
            ==> totals is Some,
{
}

/// Nothing but the options is accepted: help is asked for by two arguments, and any other is
/// unknown and named.
pub proof fn law_other_load_arguments_are_refused(settings: LoadSettings, text: Seq<char>)
    requires
        !has_prefix(text, "--host="@),
        !has_prefix(text, "--publishers="@),
        !has_prefix(text, "--subscribers-per-publisher="@),
        !has_prefix(text, "--packets-per-publisher="@),
        !has_prefix(text, "--payload-bytes="@),
        !has_prefix(text, "--packet-interval-ms="@),
        !has_prefix(text, "--heartbeat-rounds="@),
        !has_prefix(text, "--heartbeat-round-interval-ms="@),
        !has_prefix(text, "--port="@),
        !has_prefix(text, "--sport="@),
        text != "--external-server"@,
    ensures
        apply_load_argument(settings, text) == Err::<LoadSettings, Failure>(
            if text == "--help"@ || text == "-h"@ {
                Failure { kind: ErrorKind::Other, message: LOAD_TEST_USAGE@ }
            } else {
                Failure {
                    kind: ErrorKind::InvalidInput,
                    message: "unknown argument: "@ + text,
                }
            },
        ),
{
}

/// The first subscriber that did not receive every packet is the first: all before it did.
pub proof fn law_first_short_result_is_the_first(results: Seq<SubscriberResult>)
    ensures
        match first_short(results) {
            Some(short) => exists|i: int|
                {
                    &&& 0 <= i < results.len()
                    &&& #[trigger] results[i] == short
                    &&& short.unique_packets_received != short.expected_packets
                    &&& forall|j: int|
                        0 <= j < i ==> (#[trigger] results[j]).unique_packets_received
                            == results[j].expected_packets
                },
            None => forall|j: int|
                0 <= j < results.len() ==> (#[trigger] results[j]).unique_packets_received
                    == results[j].expected_packets,
        },
    decreases results.len(),
{
    if results.len() > 0 {
        let shorter = results.drop_last();
        law_first_short_result_is_the_first(shorter);
        match first_short(shorter) {
            Some(short) => {
                let i = choose|i: int|
                    {
                        &&& 0 <= i < shorter.len()
                        &&& #[trigger] shorter[i] == short
                        &&& short.unique_packets_received != short.expected_packets
                        &&& forall|j: int|
                            0 <= j < i ==> (#[trigger] shorter[j]).unique_packets_received
                                == shorter[j].expected_packets
                    };
                assert(results[i] == short);
                assert forall|j: int| 0 <= j < i implies (
                #[trigger] results[j]).unique_packets_received == results[j].expected_packets by {
                    assert(shorter[j] == results[j]);
                }
            },
            None => {
                assert forall|j: int| 0 <= j < shorter.len() implies (
                #[trigger] results[j]).unique_packets_received == results[j].expected_packets by {
                    assert(shorter[j] == results[j]);
                }
                assert(results[results.len() - 1] == results.last());
            },
        }
    }
}

/// Sums add up result by result and stream by stream, each with its own number.
pub proof fn law_sums_add_up(
    results: Seq<SubscriberResult>,
    result: SubscriberResult,
    streams: Seq<StreamSnapshot>,
    stream: StreamSnapshot,
)
    ensures
        sum_results(results.push(result), missing_number()) == sum_results(
            results,
            missing_number(),
        ) + result.missing_packets,
        sum_results(results.push(result), invalid_number()) == sum_results(
            results,
            invalid_number(),
        ) + result.invalid_packets,
        sum_results(results.push(result), duplicate_number()) == sum_results(
            results,
            duplicate_number(),
        ) + result.duplicate_packets,
        sum_over(streams.push(stream), in_number()) == sum_over(streams, in_number())
            + stream.udp_audio_packets_in_total,
        sum_over(streams.push(stream), out_number()) == sum_over(streams, out_number())
            + stream.udp_audio_packets_out_total,
        sum_results(Seq::<SubscriberResult>::empty(), missing_number()) == 0,
        sum_results(Seq::<SubscriberResult>::empty(), invalid_number()) == 0,
        sum_results(Seq::<SubscriberResult>::empty(), duplicate_number()) == 0,
        sum_over(Seq::<StreamSnapshot>::empty(), in_number()) == 0,
        sum_over(Seq::<StreamSnapshot>::empty(), out_number()) == 0,
{
    assert(results.push(result).drop_last() =~= results);
    assert(streams.push(stream).drop_last() =~= streams);
}

} // verus!
