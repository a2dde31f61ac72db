use miniextendr_api::connection::{
    after_open, BuildOutcome,
    check_connections_runtime_from, check_connections_version, check_connections_version_of,
    console_write_plan, is_binary_mode, items_transferred, transfer_bytes, validate_terminal,
    ConnectionCapabilities, RCustomConnection, RNullConnection, RStderr, RStdin, RStdout,
};
use miniextendr_api::from_r::SexpError;
use miniextendr_api::sexp::{Sexp, SEXPTYPE};

#[test]
fn connections_version() {
    assert!(check_connections_version());
    assert!(check_connections_version_of(1).is_ok());
    assert_eq!(
        check_connections_version_of(2).unwrap_err(),
        "R_CONNECTIONS_VERSION mismatch: expected 1, got 2. The R connections API may have changed incompatibly."
    );
}

#[test]
fn custom_connections_need_r_4_3() {
    assert!(check_connections_runtime_from("4", "3.1").is_ok());
    assert!(check_connections_runtime_from("5", "0.0").is_ok());
    let e = check_connections_runtime_from("4", "2.3").unwrap_err();
    assert!(e.starts_with("Custom connections require R >= 4.3.0, but running R 4.2"));
}

#[test]
fn binary_modes_and_capabilities() {
    assert!(is_binary_mode("rb"));
    assert!(is_binary_mode("wb"));
    assert!(!is_binary_mode("r"));
    assert!(!is_binary_mode("w+"));
    let c = ConnectionCapabilities::from_flags(1, 0, 0, 1, 1, 0);
    assert!(c.can_read && !c.can_write && !c.can_seek && c.is_text && c.is_open && !c.is_blocking);
}

#[test]
fn builder_settings_follow_mode_and_defaults() {
    let s = RCustomConnection::new().settings();
    assert_eq!(s.description, "custom connection");
    assert_eq!(s.mode, "r");
    assert_eq!(s.class_name, "customConnection");
    assert!(s.text);
    assert!(s.blocking);
    assert_eq!(s.can_read, None);
    let b = RCustomConnection::new()
        .description("bytes")
        .mode("rb")
        .class_name("myConn")
        .can_write(true)
        .blocking(false)
        .settings();
    assert_eq!(b.description, "bytes");
    assert_eq!(b.class_name, "myConn");
    assert!(!b.text);
    assert_eq!(b.can_write, Some(true));
    assert!(!b.blocking);
    let t = RCustomConnection::new().mode("rb").text(true).settings();
    assert!(t.text);
}

#[test]
fn transfer_arithmetic() {
    assert_eq!(transfer_bytes(4, 3), 12);
    assert_eq!(transfer_bytes(usize::MAX, 2), 0);
    assert_eq!(items_transferred(12, 4), 3);
    assert_eq!(items_transferred(13, 4), 3);
    assert_eq!(items_transferred(5, 0), 0);
    assert_eq!(items_transferred(transfer_bytes(8, 5), 8), 5);
}

#[test]
fn console_writes_stop_at_nul() {
    let (out, n) = console_write_plan(b"hi\0there", true);
    assert_eq!(out, Some(b"hi\0".to_vec()));
    assert_eq!(n, 8);
    assert_eq!(console_write_plan(b"", true), (None, 0));
    assert_eq!(console_write_plan(b"abc", false), (None, 0));
    assert_eq!(console_write_plan(b"\0abc", true), (None, 4));
    assert_eq!(console_write_plan(b"abc", true), (Some(b"abc\0".to_vec()), 3));
}

#[test]
fn terminal_connections_are_validated() {
    assert!(RStdin::try_from_connection(Some("stdin"), Some("terminal")).is_ok());
    assert!(RStdout::try_from_connection(Some("stdout"), Some("terminal")).is_ok());
    assert!(RStderr::try_from_connection(Some("stderr"), Some("terminal")).is_ok());
    match RStdin::try_from_connection(Some("stdout"), Some("terminal")) {
        Err(SexpError::InvalidValue(m)) => assert_eq!(
            m,
            "expected terminal connection with description \"stdin\", got \"stdout\""
        ),
        _ => panic!("expected a description mismatch"),
    }
    match validate_terminal(Some("stdout"), Some("file"), "stdout") {
        Err(SexpError::InvalidValue(m)) => {
            assert_eq!(m, "expected class \"terminal\", got \"file\"")
        }
        _ => panic!("expected a class mismatch"),
    }
    match validate_terminal(None, None, "stderr") {
        Err(SexpError::InvalidValue(m)) => assert_eq!(
            m,
            "expected terminal connection with description \"stderr\", got \"\""
        ),
        _ => panic!("expected a description mismatch"),
    }
}

#[test]
fn null_connection_needs_open_writable_and_closes_once() {
    let conn = Sexp::opaque(SEXPTYPE::INTSXP);
    match RNullConnection::try_from_connection(Sexp::nil(), false, true) {
        Err(SexpError::InvalidValue(m)) => assert_eq!(m, "expected an open connection"),
        _ => panic!("closed connection accepted"),
    }
    match RNullConnection::try_from_connection(Sexp::nil(), true, false) {
        Err(SexpError::InvalidValue(m)) => assert_eq!(m, "expected a write-capable connection"),
        _ => panic!("read-only connection accepted"),
    }
    let mut c = RNullConnection::try_from_connection(conn, true, true).unwrap();
    assert!(c.open());
    assert!(c.check_writable().is_ok());
    assert_eq!(c.sexp(), &Sexp::opaque(SEXPTYPE::INTSXP));
    assert!(c.close());
    assert!(!c.open());
    assert!(!c.close());
    assert_eq!(c.check_writable().unwrap_err(), "RNullConnection is closed");
}

#[test]
fn a_failed_open_destroys_the_state_and_returns_nil() {
    assert_eq!(after_open(true), BuildOutcome::ReturnConnection);
    assert_eq!(after_open(false), BuildOutcome::DestroyAndReturnNil);
}
