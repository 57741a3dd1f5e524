use lumen::common::error::Error;
use lumen::VERSION;

#[test]
fn test_error_creation() {
    let io_err = Error::io("File not accessible");
    assert!(io_err.is_io());
    assert!(io_err.is_recoverable());

    let corruption_err = Error::corruption("Invalid page checksum");
    assert!(corruption_err.is_corruption());
    assert!(!corruption_err.is_recoverable());

    let not_found_err = Error::not_found("Table does not exist");
    assert!(not_found_err.is_not_found());
    assert!(not_found_err.is_recoverable());
}

#[test]
fn test_error_display() {
    let error = Error::io("Connection lost");
    assert_eq!(error.to_string(), "I/O error: Connection lost");

    let error = Error::OutOfMemory;
    assert_eq!(error.to_string(), "Out of memory");
}

#[test]
fn test_error_from_std_io() {
    let io_error = std::io::Error::new(std::io::ErrorKind::NotFound, "File not found");
    let lumen_error: Error = io_error.into();
    assert!(lumen_error.is_io());
}

#[test]
fn test_result_type() {
    let might_fail = || -> Result<String, Error> { Ok("Success".to_string()) };
    let will_fail = || -> Result<String, Error> { Err(Error::invalid_input("Bad parameter")) };

    assert!(might_fail().is_ok());
    assert!(will_fail().is_err());
}

#[test]
fn test_error_system_integration() {
    let io_error = Error::io("Test IO error");
    assert!(io_error.is_io());
    assert!(io_error.is_recoverable());

    let corruption_error = Error::corruption("Test corruption");
    assert!(corruption_error.is_corruption());
    assert!(!corruption_error.is_recoverable());

    let std_error = std::io::Error::new(std::io::ErrorKind::NotFound, "File not found");
    let lumen_error: Error = std_error.into();
    assert!(lumen_error.is_io());
}

#[test]
fn test_basic_functionality_integration() {
    assert_eq!(VERSION, "0.1.0");

    let test_error = Error::io("Integration test error");
    assert!(test_error.is_io());
    assert!(test_error.is_recoverable());
}

#[test]
fn test_error_constructors_keep_the_message() {
    assert_eq!(Error::io("a"), Error::Io("a".to_string()));
    assert_eq!(Error::corruption("b"), Error::Corruption("b".to_string()));
    assert_eq!(Error::invalid_input("c"), Error::InvalidInput("c".to_string()));
    assert_eq!(Error::not_found("d"), Error::NotFound("d".to_string()));
    assert_eq!(
        Error::transaction_conflict(String::from("e")),
        Error::TransactionConflict("e".to_string())
    );
    assert_eq!(Error::internal("f"), Error::Internal("f".to_string()));
}

#[test]
fn test_error_display_of_every_kind() {
    assert_eq!(Error::corruption("bad page").to_string(), "Database corruption: bad page");
    assert_eq!(Error::invalid_input("len").to_string(), "Invalid input: len");
    assert_eq!(Error::not_found("t").to_string(), "Not found: t");
    assert_eq!(Error::transaction_conflict("x").to_string(), "Transaction conflict: x");
    assert_eq!(Error::internal("bug").to_string(), "Internal error: bug");
    assert_eq!(Error::io("").to_string(), "I/O error: ");
    assert!(Error::InvalidPageType(0xAB).to_string().contains("ab"));
}

#[test]
fn test_error_recoverable_by_kind() {
    assert!(Error::io("x").is_recoverable());
    assert!(Error::transaction_conflict("x").is_recoverable());
    assert!(Error::invalid_input("x").is_recoverable());
    assert!(Error::not_found("x").is_recoverable());
    assert!(!Error::corruption("x").is_recoverable());
    assert!(!Error::OutOfMemory.is_recoverable());
    assert!(!Error::internal("x").is_recoverable());
    assert!(!Error::InvalidPageType(0).is_recoverable());
}

#[test]
fn test_error_kind_predicates_are_exclusive() {
    let e = Error::not_found("x");
    assert!(!e.is_io());
    assert!(!e.is_corruption());
    let e = Error::InvalidPageType(7);
    assert!(!e.is_io());
    assert!(!e.is_corruption());
    assert!(!e.is_not_found());
}

#[test]
fn test_error_from_std_io_carries_the_text() {
    let io_error = std::io::Error::new(std::io::ErrorKind::Other, "disk on fire");
    let e: Error = io_error.into();
    match e {
        Error::Io(msg) => assert!(msg.contains("disk on fire")),
        _ => panic!("expected an I/O error"),
    }
}

#[test]
fn test_error_tester() {
    let io_failure = || -> Result<(), Error> { Err(Error::io("Test IO error")) };
    match io_failure() {
        Ok(()) => panic!("Expected error, but function succeeded"),
        Err(e) => assert!(e.is_io()),
    }

    let corruption_failure = || -> Result<(), Error> { Err(Error::corruption("Test corruption")) };
    match corruption_failure() {
        Ok(()) => panic!("Expected error, but function succeeded"),
        Err(e) => assert!(e.is_corruption()),
    }
}
