use nvdaremoteaudio_server::config::{usage_text, Config, ConfigError, PortOption};
use nvdaremoteaudio_server::endpoint::Endpoint;
use nvdaremoteaudio_server::error::ErrorKind;

fn args(texts: &[&str]) -> Vec<Option<String>> {
    texts.iter().map(|text| Some(text.to_string())).collect()
}

#[test]
fn defaults_listen_everywhere() {
    let config = Config::from_args(&args(&[])).unwrap();
    assert_eq!(config.bind_addr, Endpoint::V4 { ip: 0, port: 6838 });
    assert_eq!(config.status_bind_addr, Endpoint::V4 { ip: 0, port: 6839 });
    assert_eq!(config.log_path, None);
}

#[test]
fn options_are_read_and_the_last_one_counts() {
    let config =
        Config::from_args(&args(&["--port=1", "--sport=+65535", "--log=/tmp/x.log", "--port=7"]))
            .unwrap();
    assert_eq!(config.bind_addr.port(), 7);
    assert_eq!(config.status_bind_addr.port(), 65535);
    assert_eq!(config.log_path.as_deref(), Some("/tmp/x.log"));
}

#[test]
fn first_wrong_argument_decides() {
    let error = |texts: &[&str]| Config::from_args(&args(texts)).unwrap_err();
    assert_eq!(error(&["--port=65536"]), ConfigError::InvalidPort(PortOption::Port));
    assert_eq!(error(&["--sport="]), ConfigError::InvalidPort(PortOption::StatusPort));
    assert_eq!(error(&["--port=-1"]), ConfigError::InvalidPort(PortOption::Port));
    assert_eq!(error(&["--port=0", "--help"]), ConfigError::ZeroPort(PortOption::Port));
    assert_eq!(error(&["--log="]), ConfigError::EmptyLogPath);
    assert_eq!(error(&["--help"]), ConfigError::HelpRequested);
    assert_eq!(error(&["-h"]), ConfigError::HelpRequested);
    assert_eq!(error(&["--port=1", "port"]), ConfigError::UnknownArgument(1));
    assert_eq!(
        Config::from_args(&vec![None]).unwrap_err(),
        ConfigError::UnknownArgument(0)
    );
}

#[test]
fn command_line_failures_have_kinds_and_messages() {
    assert_eq!(
        ConfigError::InvalidPort(PortOption::Port).message(""),
        "--port must be a valid u16 port number"
    );
    assert_eq!(
        ConfigError::ZeroPort(PortOption::StatusPort).message(""),
        "--sport must be greater than 0"
    );
    assert_eq!(
        ConfigError::EmptyLogPath.message(""),
        "--log requires a non-empty file path"
    );
    assert_eq!(ConfigError::HelpRequested.message(""), usage_text());
    assert_eq!(
        ConfigError::UnknownArgument(0).message("\"x\""),
        format!("unknown argument: \"x\"\n{}", usage_text())
    );
    assert_eq!(ConfigError::HelpRequested.kind(), ErrorKind::Other);
    assert_eq!(ConfigError::EmptyLogPath.kind(), ErrorKind::InvalidInput);
}

#[test]
fn endpoints_know_their_family_and_place() {
    let v4 = Endpoint::V4 { ip: 0x7f00_0001, port: 1 };
    let v6 = Endpoint::V6 { ip: 1, port: 2, flowinfo: 3, scope_id: 4 };
    assert!(v4.is_ipv4() && !v6.is_ipv4());
    assert!(v4.is_loopback() && v6.is_loopback());
    assert!(!Endpoint::V4 { ip: 0x8000_0000, port: 1 }.is_loopback());
    assert!(Endpoint::V4 { ip: 0x7fff_ffff, port: 1 }.is_loopback());
    assert!(!Endpoint::V6 { ip: 2, port: 2, flowinfo: 0, scope_id: 0 }.is_loopback());
    assert_eq!(v4.at_port(9), Endpoint::V4 { ip: 0x7f00_0001, port: 9 });
    assert_eq!(v6.at_port(9), Endpoint::V6 { ip: 1, port: 9, flowinfo: 0, scope_id: 0 });
}
