use simple_chat::args::{parse, ClientCommand, Command, ServerCommand};

fn args(list: &[&str]) -> Vec<String> {
    list.iter().map(|s| s.to_string()).collect()
}

#[test]
fn no_arguments_ask_for_help() {
    assert!(matches!(parse(&args(&[])), Ok(Command::Help)));
    assert!(matches!(parse(&args(&["--help"])), Ok(Command::Help)));
}

#[test]
fn version_flag() {
    assert!(matches!(parse(&args(&["--version"])), Ok(Command::Version)));
}

#[test]
fn unknown_subcommand() {
    match parse(&args(&["frobnicate"])) {
        Err(e) => assert_eq!(e, "Unknown Option or Subcommand: frobnicate"),
        Ok(_) => panic!("expected an error"),
    }
}

#[test]
fn client_without_name_asks_for_help() {
    assert!(matches!(parse(&args(&["client"])), Ok(Command::Client(ClientCommand::Help))));
}

#[test]
fn client_connect_uses_last_name() {
    match parse(&args(&["client", "alpha", "beta"])) {
        Ok(Command::Client(ClientCommand::Connect { name })) => assert_eq!(name, "beta"),
        _ => panic!("expected connect"),
    }
}

#[test]
fn client_add() {
    match parse(&args(&["client", "--add", "home"])) {
        Ok(Command::Client(ClientCommand::Add { name })) => {
            assert_eq!(name, Some("home".to_string()))
        }
        _ => panic!("expected add"),
    }
}

#[test]
fn client_add_without_name_leaves_it_to_prompt() {
    assert!(matches!(
        parse(&args(&["client", "--add"])),
        Ok(Command::Client(ClientCommand::Add { name: None }))
    ));
    assert!(matches!(
        parse(&args(&["client", "", "--add"])),
        Ok(Command::Client(ClientCommand::Add { name: None }))
    ));
}

#[test]
fn client_list_and_help_stop_parsing() {
    assert!(matches!(
        parse(&args(&["client", "x", "--list", "--bogus"])),
        Ok(Command::Client(ClientCommand::List))
    ));
    assert!(matches!(
        parse(&args(&["client", "--help", "--bogus"])),
        Ok(Command::Client(ClientCommand::Help))
    ));
}

#[test]
fn client_unknown_option() {
    match parse(&args(&["client", "name", "--bogus", "--help"])) {
        Err(e) => assert_eq!(e, "Unknown Option: --bogus"),
        _ => panic!("expected an error"),
    }
}

#[test]
fn single_dash_is_a_name() {
    match parse(&args(&["client", "-x"])) {
        Ok(Command::Client(ClientCommand::Connect { name })) => assert_eq!(name, "-x"),
        _ => panic!("expected connect"),
    }
}

#[test]
fn server_start_new_show_key() {
    match parse(&args(&["server", "lab"])) {
        Ok(Command::Server(ServerCommand::Start { name })) => assert_eq!(name, "lab"),
        _ => panic!("expected start"),
    }
    match parse(&args(&["server", "--new", "lab"])) {
        Ok(Command::Server(ServerCommand::New { name })) => {
            assert_eq!(name, Some("lab".to_string()))
        }
        _ => panic!("expected new"),
    }
    match parse(&args(&["server", "lab", "--show-key"])) {
        Ok(Command::Server(ServerCommand::ShowKey { name })) => {
            assert_eq!(name, Some("lab".to_string()))
        }
        _ => panic!("expected show-key"),
    }
}

#[test]
fn server_new_with_show_key_is_an_error() {
    match parse(&args(&["server", "lab", "--new", "--show-key"])) {
        Err(e) => assert_eq!(e, "--new and --show-key can't be used together"),
        _ => panic!("expected an error"),
    }
}

#[test]
fn server_flags_without_name() {
    assert!(matches!(parse(&args(&["server"])), Ok(Command::Server(ServerCommand::Help))));
    assert!(matches!(
        parse(&args(&["server", "--show-key"])),
        Ok(Command::Server(ServerCommand::ShowKey { name: None }))
    ));
    assert!(matches!(
        parse(&args(&["server", "--new"])),
        Ok(Command::Server(ServerCommand::New { name: None }))
    ));
    match parse(&args(&["server", "--new", "--show-key"])) {
        Err(e) => assert_eq!(e, "--new and --show-key can't be used together"),
        _ => panic!("expected an error"),
    }
    assert!(matches!(
        parse(&args(&["server", "--list"])),
        Ok(Command::Server(ServerCommand::List))
    ));
}

#[test]
fn server_unknown_option() {
    match parse(&args(&["server", "--port"])) {
        Err(e) => assert_eq!(e, "Unknown Option: --port"),
        _ => panic!("expected an error"),
    }
}
