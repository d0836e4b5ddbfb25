use content_crafters::parser::{get_server_port, CliApiArgs, DEFAULT_PORT};

pub fn initialize() -> CliApiArgs {
    CliApiArgs { port: 8080, verbose: 0, debug: 0, trace: 0 }
}

#[test]
fn test_parse_client_to_address() {
    let args = initialize();
    let client_args: CliApiArgs = CliApiArgs {
        port: args.port.clone(),
        verbose: args.verbose.clone(),
        debug: args.debug.clone(),
        trace: args.trace.clone(),
    };

    assert_eq!(client_args.port, 8080);
}

#[test]
fn server_port_uses_configured_value() {
    let text = b"9000".to_vec();
    assert_eq!(get_server_port(Some(&text)), 9000);
}

#[test]
fn server_port_accepts_leading_plus() {
    let text = b"+123".to_vec();
    assert_eq!(get_server_port(Some(&text)), 123);
}

#[test]
fn server_port_defaults_when_unset() {
    assert_eq!(get_server_port(None), DEFAULT_PORT);
}

#[test]
fn server_port_defaults_on_malformed_text() {
    let text = b"eight".to_vec();
    assert_eq!(get_server_port(Some(&text)), DEFAULT_PORT);
}

#[test]
fn server_port_defaults_on_overflow() {
    let text = b"70000".to_vec();
    assert_eq!(get_server_port(Some(&text)), DEFAULT_PORT);
}
