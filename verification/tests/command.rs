use reprozip::{arguments, check_command, Error};

#[test]
fn command_without_null_bytes_is_accepted() {
    let command = vec![b"echo".to_vec(), b"test".to_vec()];
    assert!(check_command(&command, b"echo").is_ok());
}

#[test]
fn empty_command_and_empty_arguments_are_accepted() {
    let none: Vec<Vec<u8>> = vec![];
    assert!(check_command(&none, b"sh").is_ok());
    let empty = vec![b"".to_vec(), b"".to_vec()];
    assert!(check_command(&empty, b"").is_ok());
}

#[test]
fn null_byte_in_command_is_rejected() {
    let command = vec![b"cmd\0bad".to_vec()];
    assert!(matches!(
        check_command(&command, b"cmd"),
        Err(Error::InvalidCommand)
    ));
}

#[test]
fn null_byte_in_any_element_is_rejected() {
    let first = vec![b"\0sh".to_vec(), b"-c".to_vec(), b"true".to_vec()];
    let middle = vec![b"sh".to_vec(), b"-c\0".to_vec(), b"true".to_vec()];
    let last = vec![b"sh".to_vec(), b"-c".to_vec(), b"tr\0ue".to_vec()];
    for command in [first, middle, last] {
        assert!(matches!(
            check_command(&command, b"sh"),
            Err(Error::InvalidCommand)
        ));
    }
}

#[test]
fn null_byte_in_arg0_is_rejected() {
    let command = vec![b"/bin/busybox".to_vec(), b"hello world!".to_vec()];
    assert!(check_command(&command, b"echo").is_ok());
    assert!(matches!(
        check_command(&command, b"ec\0ho"),
        Err(Error::InvalidCommand)
    ));
    assert!(matches!(
        check_command(&command, b"\0"),
        Err(Error::InvalidCommand)
    ));
}

#[test]
fn arguments_replace_the_first_element() {
    let command = vec![b"/bin/busybox".to_vec(), b"hello world!".to_vec()];
    assert_eq!(
        arguments(&command, b"echo"),
        vec![b"echo".to_vec(), b"hello world!".to_vec()]
    );
}

#[test]
fn arguments_with_the_same_first_element_are_the_command() {
    let command = vec![b"sh".to_vec(), b"-c".to_vec(), b"exit 3".to_vec()];
    assert_eq!(arguments(&command, b"sh"), command);
    let alone = vec![b"true".to_vec()];
    assert_eq!(arguments(&alone, b"false"), vec![b"false".to_vec()]);
}
