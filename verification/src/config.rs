//! The relay's limits, and its command line.

use vstd::prelude::*;
use vstd::string::*;

use crate::endpoint::Endpoint;
use crate::error::ErrorKind;
use crate::text::{
    after_prefix, has_prefix, law_prefix_comes_off, lemma_other_prefix, parse_number,
    parse_unsigned, same_text, value_after_prefix,
};

verus! {

/// The port of the control connections and of the UDP packets, unless `--port=` says otherwise.
pub const DEFAULT_PORT: u16 = 6838;

/// The port of the status connections, unless `--sport=` says otherwise.
pub const DEFAULT_STATUS_PORT: u16 = 6839;

/// What a status query has to present.
pub const STATUS_ACCESS_KEY: &'static str = "audiostatus";

/// The longest handshake line.
pub const HANDSHAKE_MAX_BYTES: usize = 4096;

/// The longest line on an established control connection.
pub const CONTROL_MESSAGE_MAX_BYTES: usize = 1024;

/// The longest status query.
pub const STATUS_REQUEST_MAX_BYTES: usize = 1024;

/// The longest status reply that a client reads.
pub const STATUS_RESPONSE_MAX_BYTES: usize = 16 * 1024 * 1024;

/// How long a handshake may take.
pub const HANDSHAKE_TIMEOUT_MS: u64 = 5000;

/// How long a control connection may stay silent.
pub const CONTROL_IDLE_TIMEOUT_MS: u64 = 15000;

/// How often a client is told to send a heartbeat.
pub const TCP_HEARTBEAT_INTERVAL_MS: u64 = 5000;

/// How long a UDP endpoint counts as active after it was last heard of.
pub const UDP_SESSION_TIMEOUT_MS: u64 = 15000;

/// The size of the UDP receive buffer.
pub const UDP_PACKET_MAX_BYTES: usize = 1400;

/// The longest audio payload.
pub const UDP_AUDIO_PAYLOAD_MAX_BYTES: usize = 1200;

/// One line on how to start the relay.
pub const USAGE: &'static str =
    "usage: NVDARemoteAudioServer [--port=6838] [--sport=6839] [--log=/path/to/server.log]";

/// Where the relay listens, and where it logs.
#[derive(Clone, Debug)]
pub struct Config {
    pub bind_addr: Endpoint,
    pub status_bind_addr: Endpoint,
    pub log_path: Option<String>,
}

/// The options that name a port.
#[derive(Clone, Copy, Debug, PartialEq, Eq, Structural)]
pub enum PortOption {
    Port,
    StatusPort,
}

/// Why a command line is not accepted.
#[derive(Clone, Copy, Debug, PartialEq, Eq, Structural)]
pub enum ConfigError {
    /// The value of a port option is no number from 0 to 65535.
    InvalidPort(PortOption),
    /// The value of a port option is 0.
    ZeroPort(PortOption),
    /// `--log=` without a path.
    EmptyLogPath,
    /// Help was asked for.
    HelpRequested,
    /// The argument at this place is none that the relay knows.
    UnknownArgument(usize),
}

/// What the command line has set so far.
pub struct Settings {
    pub port: u16,
    pub status_port: u16,
    pub log_path: Option<Seq<char>>,
}

/// What holds without any argument.
pub open spec fn default_settings() -> Settings {
    Settings { port: DEFAULT_PORT, status_port: DEFAULT_STATUS_PORT, log_path: None }
}

/// The port that an option's value gives.
pub open spec fn port_value(raw: Seq<char>, option: PortOption) -> Result<u16, ConfigError> {
    match parse_number(raw, u16::MAX as nat) {
        None => Err(ConfigError::InvalidPort(option)),
        Some(n) => if n == 0 {
            Err(ConfigError::ZeroPort(option))
        } else {
            Ok(n as u16)
        },
    }
}

/// What the argument at `index` makes of the settings. `None` is an argument that is not UTF-8.
pub open spec fn apply_argument(
    settings: Settings,
    argument: Option<Seq<char>>,
    index: nat,
) -> Result<Settings, ConfigError> {
    match argument {
        None => Err(ConfigError::UnknownArgument(index as usize)),
        Some(text) => if let Some(raw) = after_prefix(text, "--port="@) {
            match port_value(raw, PortOption::Port) {
                Ok(port) => Ok(Settings { port, ..settings }),
                Err(e) => Err(e),
            }
        } else if let Some(raw) = after_prefix(text, "--sport="@) {
            match port_value(raw, PortOption::StatusPort) {
                Ok(status_port) => Ok(Settings { status_port, ..settings }),
                Err(e) => Err(e),
            }
        } else if let Some(path) = after_prefix(text, "--log="@) {
            if path.len() == 0 {
                Err(ConfigError::EmptyLogPath)
            } else {
                Ok(Settings { log_path: Some(path), ..settings })
            }
        } else if text == "--help"@ || text == "-h"@ {
            Err(ConfigError::HelpRequested)
        } else {
            Err(ConfigError::UnknownArgument(index as usize))
        },
    }
}

/// What a whole command line says: the arguments from left to right, up to the first that is not
/// accepted; a later value of an option replaces an earlier one.
pub open spec fn read_arguments(arguments: Seq<Option<String>>) -> Result<Settings, ConfigError>
    decreases arguments.len(),
{
    if arguments.len() == 0 {
        Ok(default_settings())
    } else {
        match read_arguments(arguments.drop_last()) {
            Err(e) => Err(e),
            Ok(settings) => apply_argument(
                settings,
                argument_text(arguments.last()),
                (arguments.len() - 1) as nat,
            ),
        }
    }
}

/// The text of an argument, where it has one.
pub open spec fn argument_text(argument: Option<String>) -> Option<Seq<char>> {
    match argument {
        Some(text) => Some(text@),
        None => None,
    }
}

/// Reads the value of a port option.
pub fn parse_port(raw: &str, option: PortOption) -> (port: Result<u16, ConfigError>)
    ensures
        port == port_value(raw@, option),
{
    match parse_unsigned(raw, u16::MAX as u64) {
        None => Err(ConfigError::InvalidPort(option)),
        Some(n) => if n == 0 {
            Err(ConfigError::ZeroPort(option))
        } else {
            Ok(n as u16)
        },
    }
}

/// How to start the relay.
pub fn usage_text() -> (text: &'static str)
    ensures
        text@ == USAGE@,
{
    USAGE
}

/// The name of a port option.
pub open spec fn port_option_name(option: PortOption) -> Seq<char> {
    match option {
        PortOption::Port => "--port"@,
        PortOption::StatusPort => "--sport"@,
    }
}

impl ConfigError {
    /// The kind of failure under which the program reports this: asking for help is none of the
    /// caller's mistakes.
    pub open spec fn spec_kind(self) -> ErrorKind {
        match self {
            ConfigError::HelpRequested => ErrorKind::Other,
            _ => ErrorKind::InvalidInput,
        }
    }

    /// The kind of failure under which the program reports this.
    pub fn kind(&self) -> (kind: ErrorKind)
        ensures
            kind == self.spec_kind(),
    {
        match self {
            ConfigError::HelpRequested => ErrorKind::Other,
            _ => ErrorKind::InvalidInput,
        }
    }

    /// What the program prints; `shown` is the offending argument as it is shown.
    pub open spec fn spec_message(self, shown: Seq<char>) -> Seq<char> {
        match self {
            ConfigError::InvalidPort(option) => port_option_name(option)
                + " must be a valid u16 port number"@,
            ConfigError::ZeroPort(option) => port_option_name(option) + " must be greater than 0"@,
            ConfigError::EmptyLogPath => "--log requires a non-empty file path"@,
            ConfigError::HelpRequested => USAGE@,
            ConfigError::UnknownArgument(_) => "unknown argument: "@ + shown + "\n"@ + USAGE@,
        }
    }

    /// What the program prints; `shown` is the offending argument as it is shown.
    pub fn message(&self, shown: &str) -> (text: String)
        ensures
            text@ == self.spec_message(shown@),
    {
        match self {
            ConfigError::InvalidPort(option) => {
                let name = match option {
                    PortOption::Port => "--port",
                    PortOption::StatusPort => "--sport",
                };
                name.to_owned().concat(" must be a valid u16 port number")
            },
            ConfigError::ZeroPort(option) => {
                let name = match option {
                    PortOption::Port => "--port",
                    PortOption::StatusPort => "--sport",
                };
                name.to_owned().concat(" must be greater than 0")
            },
            ConfigError::EmptyLogPath => "--log requires a non-empty file path".to_owned(),
            ConfigError::HelpRequested => USAGE.to_owned(),
            ConfigError::UnknownArgument(_) => "unknown argument: ".to_owned().concat(shown).concat(
                "\n",
            ).concat(USAGE),
        }
    }
}

impl Config {
    /// The configuration that settings amount to: both ports on every IPv4 interface.
    pub open spec fn agrees_with(self, settings: Settings) -> bool {
        &&& self.bind_addr == (Endpoint::V4 { ip: 0, port: settings.port })
        &&& self.status_bind_addr == (Endpoint::V4 { ip: 0, port: settings.status_port })
        &&& argument_text(self.log_path) == settings.log_path
    }

    /// Reads the command line, without the program's name. An argument that is not UTF-8 is
    /// handed in as `None`.
    pub fn from_args(arguments: &Vec<Option<String>>) -> (config: Result<Config, ConfigError>)
        ensures
            match config {
                Ok(c) => read_arguments(arguments@) matches Ok(settings) && c.agrees_with(settings),
                Err(e) => read_arguments(arguments@) == Err::<Settings, ConfigError>(e),
            },
    {
        let mut port: u16 = DEFAULT_PORT;
        let mut status_port: u16 = DEFAULT_STATUS_PORT;
        let mut log_path: Option<String> = None;
        let mut i: usize = 0;
        while i < arguments.len()
            invariant
                i <= arguments.len(),
                read_arguments(arguments@.take(i as int)) == Ok::<Settings, ConfigError>(
                    Settings { port, status_port, log_path: argument_text(log_path) },
                ),
            decreases arguments.len() - i,
        {
            proof {
                assert(arguments@.take(i + 1).drop_last() =~= arguments@.take(i as int));
                assert(arguments@.take(i + 1).last() == arguments@[i as int]);
                law_first_refusal_stands(arguments@, i + 1);
            }
            let text: &str = match &arguments[i] {
                Some(text) => text.as_str(),
                None => {
                    return Err(ConfigError::UnknownArgument(i));
                },
            };
            if let Some(raw) = value_after_prefix(text, "--port=") {
                match parse_port(raw.as_str(), PortOption::Port) {
                    Ok(value) => {
                        port = value;
                    },
                    Err(e) => {
                        return Err(e);
                    },
                }
            } else if let Some(raw) = value_after_prefix(text, "--sport=") {
                match parse_port(raw.as_str(), PortOption::StatusPort) {
                    Ok(value) => {
                        status_port = value;
                    },
                    Err(e) => {
                        return Err(e);
                    },
                }
            } else if let Some(path) = value_after_prefix(text, "--log=") {
                if path.as_str().is_empty() {
                    return Err(ConfigError::EmptyLogPath);
                }
                log_path = Some(path);
            } else if same_text(text, "--help") || same_text(text, "-h") {
                return Err(ConfigError::HelpRequested);
            } else {
                return Err(ConfigError::UnknownArgument(i));
            }
            i = i + 1;
        }
        assert(arguments@.take(arguments@.len() as int) =~= arguments@);
        Ok(
            Config {
                bind_addr: Endpoint::V4 { ip: 0, port },
                status_bind_addr: Endpoint::V4 { ip: 0, port: status_port },
                log_path,
            },
        )
    }
}

/// The first argument that is not accepted decides, whatever follows it.
pub proof fn law_first_refusal_stands(arguments: Seq<Option<String>>, n: int)
    requires
        0 <= n <= arguments.len(),
    ensures
        read_arguments(arguments.take(n)) is Err ==> read_arguments(arguments) == read_arguments(
            arguments.take(n),
        ),
    decreases arguments.len() - n,
{
    if n < arguments.len() {
        law_first_refusal_stands(arguments, n + 1);
        assert(arguments.take(n + 1).drop_last() =~= arguments.take(n));
    } else {
        assert(arguments.take(n) =~= arguments);
    }
}

/// What a port option's value makes of its port: a number from 1 to 65535 is the port, and
/// nothing else is accepted.
pub open spec fn port_of(value: Seq<char>) -> Option<nat> {
    match parse_number(value, 65535) {
        Some(n) => if n > 0 {
            Some(n)
        } else {
            None
        },
        None => None,
    }
}

/// The options are independent: whatever was said before, an accepted option sets its own value
/// and leaves the other two as they were; and each is accepted or turned down by its value alone.
pub proof fn law_each_option_sets_its_own(
    arguments: Seq<Option<String>>,
    argument: Option<String>,
    value: Seq<char>,
    settings: Settings,
)
    requires
        read_arguments(arguments) == Ok::<Settings, ConfigError>(settings),
    ensures
        argument_text(argument) == Some("--port="@ + value) ==> match read_arguments(
            arguments.push(argument),
        ) {
            Ok(s) => {
                &&& port_of(value) == Some(s.port as nat)
                &&& s.status_port == settings.status_port
                &&& s.log_path == settings.log_path
            },
            Err(e) => {
                &&& port_of(value) is None
                &&& e == if parse_number(value, 65535) is Some {
                    ConfigError::ZeroPort(PortOption::Port)
                } else {
                    ConfigError::InvalidPort(PortOption::Port)
                }
            },
        },
        argument_text(argument) == Some("--sport="@ + value) ==> match read_arguments(
            arguments.push(argument),
        ) {
            Ok(s) => {
                &&& port_of(value) == Some(s.status_port as nat)
                &&& s.port == settings.port
                &&& s.log_path == settings.log_path
            },
            Err(e) => {
                &&& port_of(value) is None
                &&& e == if parse_number(value, 65535) is Some {
                    ConfigError::ZeroPort(PortOption::StatusPort)
                } else {
                    ConfigError::InvalidPort(PortOption::StatusPort)
                }
            },
        },
        argument_text(argument) == Some("--log="@ + value) ==> match read_arguments(
            arguments.push(argument),
        ) {
            Ok(s) => {
                &&& value.len() > 0
                &&& s.log_path == Some(value)
                &&& s.port == settings.port
                &&& s.status_port == settings.status_port
            },
            Err(e) => value.len() == 0 && e == ConfigError::EmptyLogPath,
        },
{
    reveal_strlit("--port=");
    reveal_strlit("--sport=");
    reveal_strlit("--log=");
    assert(arguments.push(argument).drop_last() =~= arguments);
    law_prefix_comes_off("--port="@, value);
    law_prefix_comes_off("--sport="@, value);
    law_prefix_comes_off("--log="@, value);
    lemma_other_prefix("--sport="@, value, "--port="@, 2);
    lemma_other_prefix("--log="@, value, "--port="@, 2);
    lemma_other_prefix("--log="@, value, "--sport="@, 2);
}

/// Nothing but the three options is accepted: help is asked for by two arguments, and any other
/// is unknown, under its place in the command line.
pub proof fn law_other_arguments_are_refused(
    arguments: Seq<Option<String>>,
    argument: Option<String>,
    settings: Settings,
)
    requires
        read_arguments(arguments) == Ok::<Settings, ConfigError>(settings),
        arguments.len() <= usize::MAX,
        argument matches Some(text) ==> !has_prefix(text@, "--port="@) && !has_prefix(
            text@,
            "--sport="@,
        ) && !has_prefix(text@, "--log="@),
    ensures
        read_arguments(arguments.push(argument)) == Err::<Settings, ConfigError>(
            if argument_text(argument) == Some("--help"@) || argument_text(argument) == Some(
                "-h"@,
            ) {
                ConfigError::HelpRequested
            } else {
                ConfigError::UnknownArgument(arguments.len() as usize)
            },
        ),
{
    assert(arguments.push(argument).drop_last() =~= arguments);
}

/// The value of the last argument that begins with a prefix, where one does.
pub open spec fn last_value(arguments: Seq<Option<String>>, prefix: Seq<char>) -> Option<Seq<char>>
    decreases arguments.len(),
{
    if arguments.len() == 0 {
        None
    } else {
        match arguments.last() {
            Some(text) => if has_prefix(text@, prefix) {
                Some(text@.skip(prefix.len() as int))
            } else {
                last_value(arguments.drop_last(), prefix)
            },
            None => last_value(arguments.drop_last(), prefix),
        }
    }
}

proof fn lemma_last_value_counts(arguments: Seq<Option<String>>, settings: Settings)
    requires
        read_arguments(arguments) == Ok::<Settings, ConfigError>(settings),
    ensures
        match last_value(arguments, "--port="@) {
            None => settings.port == 6838,
            Some(value) => port_of(value) == Some(settings.port as nat),
        },
        match last_value(arguments, "--sport="@) {
            None => settings.status_port == 6839,
            Some(value) => port_of(value) == Some(settings.status_port as nat),
        },
        settings.log_path == last_value(arguments, "--log="@),
        settings.log_path matches Some(path) ==> path.len() > 0,
    decreases arguments.len(),
{
    if arguments.len() > 0 {
        let earlier = arguments.drop_last();
        let before = read_arguments(earlier)->Ok_0;
        lemma_last_value_counts(earlier, before);
        assert(earlier.push(arguments.last()) =~= arguments);
        let text = arguments.last()->0@;
        reveal_strlit("--port=");
        reveal_strlit("--sport=");
        reveal_strlit("--log=");
        if has_prefix(text, "--port="@) {
            let value = text.skip("--port="@.len() as int);
            assert(text =~= "--port="@ + value);
            lemma_other_prefix("--port="@, value, "--sport="@, 2);
            lemma_other_prefix("--port="@, value, "--log="@, 2);
            law_each_option_sets_its_own(earlier, arguments.last(), value, before);
        } else if has_prefix(text, "--sport="@) {
            let value = text.skip("--sport="@.len() as int);
            assert(text =~= "--sport="@ + value);
            lemma_other_prefix("--sport="@, value, "--log="@, 2);
            law_each_option_sets_its_own(earlier, arguments.last(), value, before);
        } else if has_prefix(text, "--log="@) {
            let value = text.skip("--log="@.len() as int);
            assert(text =~= "--log="@ + value);
            law_each_option_sets_its_own(earlier, arguments.last(), value, before);
        }
    }
}

/// In an accepted command line each setting is the value of the last argument that names it, or
/// the default where none does; both ports are on every IPv4 interface.
pub proof fn law_last_value_of_an_option_counts(
    arguments: Vec<Option<String>>,
    outcome: Result<Config, ConfigError>,
)
    requires
        call_ensures(Config::from_args, (&arguments,), outcome),
    ensures
        outcome matches Ok(config) ==> {
            &&& config.bind_addr matches Endpoint::V4 { ip, port } && ip == 0 && match last_value(
                arguments@,
                "--port="@,
            ) {
                None => port == 6838,
                Some(value) => port_of(value) == Some(port as nat),
            }
            &&& config.status_bind_addr matches Endpoint::V4 { ip, port } && ip == 0
                && match last_value(arguments@, "--sport="@) {
                None => port == 6839,
                Some(value) => port_of(value) == Some(port as nat),
            }
            &&& match config.log_path {
                Some(path) => last_value(arguments@, "--log="@) == Some(path@) && path@.len() > 0,
                None => last_value(arguments@, "--log="@) is None,
            }
        },
{
    if outcome is Ok {
        lemma_last_value_counts(arguments@, read_arguments(arguments@)->Ok_0);
    }
}

/// Whether an argument is one of the options with a value that it accepts.
pub open spec fn is_accepted_option(argument: Option<String>) -> bool {
    match argument {
        Some(text) => {
            ||| has_prefix(text@, "--port="@) && port_of(text@.skip(7)) is Some
            ||| has_prefix(text@, "--sport="@) && port_of(text@.skip(8)) is Some
            ||| has_prefix(text@, "--log="@) && text@.len() > 6
        },
        None => false,
    }
}

proof fn lemma_option_is_accepted_by_itself(
    arguments: Seq<Option<String>>,
    argument: Option<String>,
    settings: Settings,
)
    requires
        read_arguments(arguments) == Ok::<Settings, ConfigError>(settings),
    ensures
        read_arguments(arguments.push(argument)) is Ok <==> is_accepted_option(argument),
{
    reveal_strlit("--port=");
    reveal_strlit("--sport=");
    reveal_strlit("--log=");
    assert(arguments.push(argument).drop_last() =~= arguments);
    if argument is Some {
        let text = argument->0@;
        if has_prefix(text, "--port="@) {
            assert(text =~= "--port="@ + text.skip(7));
            lemma_other_prefix("--port="@, text.skip(7), "--sport="@, 2);
            lemma_other_prefix("--port="@, text.skip(7), "--log="@, 2);
            law_each_option_sets_its_own(arguments, argument, text.skip(7), settings);
        } else if has_prefix(text, "--sport="@) {
            assert(text =~= "--sport="@ + text.skip(8));
            lemma_other_prefix("--sport="@, text.skip(8), "--log="@, 2);
            law_each_option_sets_its_own(arguments, argument, text.skip(8), settings);
        } else if has_prefix(text, "--log="@) {
            assert(text =~= "--log="@ + text.skip(6));
            law_each_option_sets_its_own(arguments, argument, text.skip(6), settings);
        }
    }
}

/// A command line is accepted exactly when every argument is an option with a value that it
/// accepts; the order of the arguments and what stands beside them do not matter.
pub proof fn law_command_line_is_accepted_by_its_arguments(arguments: Seq<Option<String>>)
    ensures
        read_arguments(arguments) is Ok <==> forall|i: int|
            0 <= i < arguments.len() ==> is_accepted_option(#[trigger] arguments[i]),
    decreases arguments.len(),
{
    if arguments.len() > 0 {
        let earlier = arguments.drop_last();
        let last = arguments.last();
        law_command_line_is_accepted_by_its_arguments(earlier);
        assert(earlier.push(last) =~= arguments);
        assert(last == arguments[arguments.len() - 1]);
        assert forall|i: int| 0 <= i < earlier.len() implies is_accepted_option(
            #[trigger] earlier[i],
        ) == is_accepted_option(arguments[i]) by {}
        if read_arguments(earlier) is Ok {
            lemma_option_is_accepted_by_itself(earlier, last, read_arguments(earlier)->Ok_0);
            assert forall|i: int|
                0 <= i < arguments.len() && is_accepted_option(last) implies is_accepted_option(
                #[trigger] arguments[i],
            ) by {
                if i < earlier.len() {
                    assert(is_accepted_option(earlier[i]));
                }
            }
        } else {
            let i = choose|i: int| 0 <= i < earlier.len() && !is_accepted_option(earlier[i]);
            assert(!is_accepted_option(arguments[i]));
        }
    }
}

/// The limits of the protocol, as clients know them.
pub proof fn law_limits_are_those_of_the_protocol()
    ensures
        DEFAULT_PORT == 6838,
        DEFAULT_STATUS_PORT == 6839,
        HANDSHAKE_MAX_BYTES == 4096,
        CONTROL_MESSAGE_MAX_BYTES == 1024,
        STATUS_REQUEST_MAX_BYTES == 1024,
        STATUS_RESPONSE_MAX_BYTES == 16_777_216,
        HANDSHAKE_TIMEOUT_MS == 5000,
        CONTROL_IDLE_TIMEOUT_MS == 15000,
        TCP_HEARTBEAT_INTERVAL_MS == 5000,
        UDP_SESSION_TIMEOUT_MS == 15000,
        UDP_PACKET_MAX_BYTES == 1400,
        UDP_AUDIO_PAYLOAD_MAX_BYTES == 1200,
        STATUS_ACCESS_KEY@ == "audiostatus"@,
        TCP_HEARTBEAT_INTERVAL_MS < CONTROL_IDLE_TIMEOUT_MS,
        TCP_HEARTBEAT_INTERVAL_MS < UDP_SESSION_TIMEOUT_MS,
{
}

/// Only asking for help is no mistake of the caller's; and what is printed of an option begins
/// with the option's name, what is printed of an unknown argument shows it with the way to start
/// the relay.
pub proof fn law_refusals_say_what_is_wrong(
    error: ConfigError,
    shown: &str,
    kind: ErrorKind,
    text: String,
)
    requires
        call_ensures(ConfigError::kind, (&error,), kind),
        call_ensures(ConfigError::message, (&error, shown), text),
    ensures
        kind == ErrorKind::Other <==> error == ConfigError::HelpRequested,
        kind != ErrorKind::Other ==> kind == ErrorKind::InvalidInput,
        match error {
            ConfigError::InvalidPort(PortOption::Port) => text@ == "--port"@
                + " must be a valid u16 port number"@,
            ConfigError::InvalidPort(PortOption::StatusPort) => text@ == "--sport"@
                + " must be a valid u16 port number"@,
            ConfigError::ZeroPort(PortOption::Port) => text@ == "--port"@
                + " must be greater than 0"@,
            ConfigError::ZeroPort(PortOption::StatusPort) => text@ == "--sport"@
                + " must be greater than 0"@,
            ConfigError::EmptyLogPath => text@ == "--log requires a non-empty file path"@,
            ConfigError::HelpRequested => text@ == USAGE@,
            ConfigError::UnknownArgument(_) => text@ == "unknown argument: "@ + shown@ + "\n"@
                + USAGE@,
        },
{
}

/// A port option's value is a port exactly if it spells a number from 1 to 65535.
pub proof fn law_port_is_a_number_above_zero(
    raw: &str,
    option: PortOption,
    port: Result<u16, ConfigError>,
)
    requires
        call_ensures(parse_port, (raw, option), port),
    ensures
        port matches Ok(n) ==> n > 0 && parse_number(raw@, 65535) == Some(n as nat),
        port == Err::<u16, ConfigError>(ConfigError::ZeroPort(option)) <==> parse_number(
            raw@,
            65535,
        ) == Some(0nat),
        port == Err::<u16, ConfigError>(ConfigError::InvalidPort(option)) <==> parse_number(
            raw@,
            65535,
        ) is None,
        port matches Err(e) ==> e == ConfigError::ZeroPort(option) || e == ConfigError::InvalidPort(
            option,
        ),
{
}

} // verus!
