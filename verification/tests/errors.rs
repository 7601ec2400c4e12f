use mentat_cli::errors::Error;

#[test]
fn missing_argument_message() {
    assert_eq!(Error::missing_argument().to_string(), "Missing required argument");
}

#[test]
fn unrecognized_argument_message() {
    assert_eq!(
        Error::unrecognized_argument("\"database2\"").to_string(),
        "Unrecognized argument \"database2\""
    );
    assert_eq!(Error::unrecognized_argument("").to_string(), "Unrecognized argument ");
}

#[test]
fn invalid_command_message() {
    assert_eq!(
        Error::invalid_command("\".foo command1\"").to_string(),
        "Invalid command \".foo command1\""
    );
    assert_eq!(Error::invalid_command("x").to_string(), "Invalid command x");
}

#[test]
fn to_string_gives_the_message_carried() {
    let err = Error::CommandParse("anything".to_string());
    assert_eq!(err.to_string(), "anything");
    assert_eq!(err.clone(), err);
}
