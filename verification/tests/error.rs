use reprozip::Error;

#[test]
fn invalid_command_has_a_fixed_message() {
    assert_eq!(Error::InvalidCommand.message(), "Invalid command");
}

#[test]
fn internal_error_shows_its_own_message() {
    let error = Error::Internal("fork: Resource temporarily unavailable".to_string());
    assert_eq!(error.message(), "fork: Resource temporarily unavailable");
    assert_eq!(Error::Internal(String::new()).message(), "");
}
