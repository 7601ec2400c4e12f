use mentat_cli::command_parser::{command, Command};

#[test]
fn test_help_parser_multiple_args() {
    let input = ".help command1 command2";
    let cmd = command(&input).expect("Expected help command");
    match cmd {
        Command::Help(args) => {
            assert_eq!(args, vec!["command1", "command2"]);
        },
        _ => assert!(false)
    }
}

#[test]
fn test_help_parser_dot_arg() {
    let input = ".help .command1";
    let cmd = command(&input).expect("Expected help command");
    match cmd {
        Command::Help(args) => {
            assert_eq!(args, vec![".command1"]);
        },
        _ => assert!(false)
    }
}

#[test]
fn test_help_parser_no_args() {
    let input = ".help";
    let cmd = command(&input).expect("Expected help command");
    match cmd {
        Command::Help(args) => {
            let empty: Vec<String> = vec![];
            assert_eq!(args, empty);
        },
        _ => assert!(false)
    }
}

#[test]
fn test_help_parser_no_args_trailing_whitespace() {
    let input = ".help ";
    let cmd = command(&input).expect("Expected help command");
    match cmd {
        Command::Help(args) => {
            let empty: Vec<String> = vec![];
            assert_eq!(args, empty);
        },
        _ => assert!(false)
    }
}

#[test]
fn test_open_parser_multiple_args() {
    let input = ".open database1 database2";
    let err = command(&input).expect_err("Expected an error");
    assert_eq!(err.to_string(), "Unrecognized argument \"database2\"");
}

#[test]
fn test_open_parser_single_arg() {
    let input = ".open database1";
    let cmd = command(&input).expect("Expected open command");
    match cmd {
        Command::Open(arg) => {
            assert_eq!(arg, "database1".to_string());
        },
        _ => assert!(false)
    }
}

#[test]
fn test_open_parser_path_arg() {
    let input = ".open /path/to/my.db";
    let cmd = command(&input).expect("Expected open command");
    match cmd {
        Command::Open(arg) => {
            assert_eq!(arg, "/path/to/my.db".to_string());
        },
        _ => assert!(false)
    }
}

#[test]
fn test_open_parser_file_arg() {
    let input = ".open my.db";
    let cmd = command(&input).expect("Expected open command");
    match cmd {
        Command::Open(arg) => {
            assert_eq!(arg, "my.db".to_string());
        },
        _ => assert!(false)
    }
}

#[test]
fn test_open_parser_no_args() {
    let input = ".open";
    let err = command(&input).expect_err("Expected an error");
    assert_eq!(err.to_string(), "Missing required argument");
}

#[test]
fn test_close_parser_with_args() {
    let input = ".close arg1";
    let err = command(&input).expect_err("Expected an error");
    assert_eq!(err.to_string(), format!("Invalid command {:?}", input));
}

#[test]
fn test_close_parser_no_args() {
    let input = ".close";
    let cmd = command(&input).expect("Expected close command");
    match cmd {
        Command::Close => assert!(true),
        _ => assert!(false)
    }
}

#[test]
fn test_close_parser_no_args_trailing_whitespace() {
    let input = ".close ";
    let cmd = command(&input).expect("Expected close command");
    match cmd {
        Command::Close => assert!(true),
        _ => assert!(false)
    }
}

#[test]
fn test_parser_preceeding_trailing_whitespace() {
    let input = " .close ";
    let cmd = command(&input).expect("Expected close command");
    match cmd {
        Command::Close => assert!(true),
        _ => assert!(false)
    }
}

#[test]
fn test_command_parser_no_dot() {
    let input = "help command1 command2";
    let err = command(&input).expect_err("Expected an error");
    assert_eq!(err.to_string(), format!("Invalid command {:?}", input));
}

#[test]
fn test_command_parser_invalid_cmd() {
    let input = ".foo command1";
    let err = command(&input).expect_err("Expected an error");
    assert_eq!(err.to_string(), format!("Invalid command {:?}", input));
}
