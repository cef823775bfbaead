use sway_alttab::ipc::{encode_response, IpcCommand, IpcResponse, ParseIpcCommandError};

#[test]
fn test_ipc_command_from_str() {
    assert_eq!("show".parse(), Ok(IpcCommand::Show));
    assert_eq!("next".parse(), Ok(IpcCommand::Next));
    assert_eq!("prev".parse(), Ok(IpcCommand::Prev));
    assert_eq!("select".parse(), Ok(IpcCommand::Select));
    assert_eq!("cancel".parse(), Ok(IpcCommand::Cancel));
    assert_eq!("status".parse(), Ok(IpcCommand::Status));
    assert_eq!("shutdown".parse(), Ok(IpcCommand::Shutdown));
    assert_eq!("invalid".parse::<IpcCommand>(), Err(ParseIpcCommandError));
}

#[test]
fn test_ipc_command_from_str_case_insensitive() {
    assert_eq!("SHOW".parse(), Ok(IpcCommand::Show));
    assert_eq!("Show".parse(), Ok(IpcCommand::Show));
    assert_eq!("  show  ".parse(), Ok(IpcCommand::Show));
}

#[test]
fn test_ipc_command_display() {
    assert_eq!(IpcCommand::Show.as_text(), "show");
    assert_eq!(IpcCommand::Next.as_text(), "next");
    assert_eq!(IpcCommand::Prev.as_text(), "prev");
    assert_eq!(IpcCommand::Select.as_text(), "select");
    assert_eq!(IpcCommand::Cancel.as_text(), "cancel");
    assert_eq!(IpcCommand::Status.as_text(), "status");
    assert_eq!(IpcCommand::Shutdown.as_text(), "shutdown");
}

#[test]
fn test_ipc_command_roundtrip() {
    let commands = [
        IpcCommand::Show,
        IpcCommand::Next,
        IpcCommand::Prev,
        IpcCommand::Select,
        IpcCommand::Cancel,
        IpcCommand::Status,
        IpcCommand::Shutdown,
    ];

    for cmd in commands {
        let s = cmd.as_text();
        let parsed: IpcCommand = s.parse().unwrap();
        assert_eq!(parsed, cmd);
    }
}

#[test]
fn test_ipc_response_serialization() {
    let ok_response = IpcResponse::Accepted;
    let json = String::from_utf8(encode_response(&ok_response)).unwrap();
    assert!(json.contains("ok"));

    let error_response = IpcResponse::Error("test error".to_string());
    let json = String::from_utf8(encode_response(&error_response)).unwrap();
    assert!(json.contains("error"));
    assert!(json.contains("test error"));

    let status_response = IpcResponse::Status {
        switching: true,
        window_count: 5,
        current_index: Some(2),
    };
    let json = String::from_utf8(encode_response(&status_response)).unwrap();
    assert!(json.contains("switching"));
    assert!(json.contains("true"));
}

// A mixed-case request with the trailing newline of its framing decodes
// exactly like the plain lower-case word.
#[test]
fn test_ipc_command_mixed_case_with_newline() {
    let upper = IpcCommand::from_line("SELECT\n");
    let lower = IpcCommand::from_line("select\n");
    assert_eq!(upper, Ok(IpcCommand::Select));
    assert_eq!(upper, lower);
}

#[test]
fn test_ipc_command_from_line_rejects_garbage() {
    assert_eq!(IpcCommand::from_line(""), Err(ParseIpcCommandError));
    assert_eq!(IpcCommand::from_line("   \n"), Err(ParseIpcCommandError));
    assert_eq!(IpcCommand::from_line("sho"), Err(ParseIpcCommandError));
    assert_eq!(IpcCommand::from_line("showx"), Err(ParseIpcCommandError));
    assert_eq!(IpcCommand::from_line("show next"), Err(ParseIpcCommandError));
}

// Unicode whitespace around the word is trimmed like ASCII whitespace:
// a no-break space or an ideographic space frames the word too.
#[test]
fn test_ipc_command_unicode_whitespace_trimmed() {
    assert_eq!("\u{a0}select\u{a0}".parse(), Ok(IpcCommand::Select));
    assert_eq!(IpcCommand::from_line("\u{3000}show\r\n"), Ok(IpcCommand::Show));
    assert_eq!(IpcCommand::from_line("\u{2009}STATUS\u{2028}"), Ok(IpcCommand::Status));
}

// Exact wire bytes of each response shape.
#[test]
fn test_encode_response_exact() {
    assert_eq!(encode_response(&IpcResponse::Accepted), b"{\"ok\":null}".to_vec());

    assert_eq!(
        encode_response(&IpcResponse::Error("boom".to_string())),
        b"{\"error\":\"boom\"}".to_vec()
    );

    assert_eq!(
        encode_response(&IpcResponse::Status {
            switching: true,
            window_count: 12,
            current_index: Some(3),
        }),
        b"{\"status\":{\"switching\":true,\"window_count\":12,\"current_index\":3}}".to_vec()
    );

    assert_eq!(
        encode_response(&IpcResponse::Status {
            switching: false,
            window_count: 0,
            current_index: None,
        }),
        b"{\"status\":{\"switching\":false,\"window_count\":0,\"current_index\":null}}".to_vec()
    );
}

// The error message is escaped so the response stays one line of valid
// JSON whatever the request contained.
#[test]
fn test_encode_response_escapes_message() {
    let resp = IpcResponse::Error("a\"b\\c\nd\u{1}".to_string());
    let encoded = encode_response(&resp);
    assert_eq!(
        encoded,
        b"{\"error\":\"a\\\"b\\\\c\\nd\\u0001\"}".to_vec()
    );
}
