use rust_tools::cargo_clippy::{exit_result, split_args, wants_help, wants_version};
use rust_tools::altivec::{vec_add, vec_add_bc_uc, vec_add_si_si, vec_add_uc_uc, vector_bool_char, vector_signed_int, vector_unsigned_char};
use rust_tools::messages::{check_message, expect_messages, ExpectedMessage, Message, MessageMismatch, MockMsgReader, MockRawMsgReader, RecordOutput};
use rust_tools::scripter::Scripter;

#[test]
fn vec_add_i32x4_i32x4() {
    let x = vector_signed_int([1, 2, 3, 4]);
    let y = vector_signed_int([4, 3, 2, 1]);
    let z = vec_add(x, y);
    assert_eq!(z.0, [5, 5, 5, 5]);
}

#[test]
fn vector_addition_wraps_and_reads_masks() {
    let a = vector_unsigned_char([250; 16]);
    let b = vector_unsigned_char([10; 16]);
    assert_eq!(vec_add_uc_uc(a, b).0, [4; 16]);
    let m = vector_bool_char([-1; 16]);
    assert_eq!(vec_add_bc_uc(m, vector_unsigned_char([1; 16])).0, [0; 16]);
    assert_eq!(vec_add(vector_unsigned_char([1; 16]), m).0, [0; 16]);
    let big = vector_signed_int([i32::MAX, 0, 0, 0]);
    assert_eq!(vec_add_si_si(big, vector_signed_int([1, 0, 0, 0])).0[0], i32::MIN);
}

#[test]
fn scripter_fills_the_template() {
    let mut s = Scripter::default();
    s.product_name("my-product".to_string());
    s.success_message("it's-done".to_string());
    s.legacy_manifest_dirs("rustlib,cargo".to_string());
    let template = "N=%%TEMPLATE_PRODUCT_NAME%%\nD=%%TEMPLATE_REL_MANIFEST_DIR%%\nM=%%TEMPLATE_SUCCESS_MESSAGE%%\nL=%%TEMPLATE_LEGACY_MANIFEST_DIRS%%\nV=%%TEMPLATE_RUST_INSTALLER_VERSION%%\n";
    let out = s.run(template);
    assert_eq!(
        out,
        "N='my product'\nD=manifestlib\nM='it'\"'\"'s done'\nL='rustlib,cargo'\nV='3'\n"
    );
    assert_eq!(s.output_script, "install.sh");
}

#[test]
fn mock_reader_formats_requests() {
    let mut r = MockMsgReader::new(vec![
        Message::new("initialize", vec![("processId", "0".to_owned()), ("rootPath", "null".to_owned())]),
        Message::new("shutdown", vec![]),
    ]);
    assert_eq!(
        r.read_message(),
        Some("{\"method\":\"initialize\",\"id\":42,\"params\":{\"processId\":0,\"rootPath\":null}}".to_string())
    );
    assert_eq!(r.read_message(), Some("{\"method\":\"shutdown\",\"id\":42,\"params\":{}}".to_string()));
    assert_eq!(r.read_message(), None);
    let mut raw = MockRawMsgReader::new(vec!["Content-Length: 2\r\n\r\n{}".to_string()]);
    assert_eq!(raw.read_message(), Some("Content-Length: 2\r\n\r\n{}".to_string()));
    assert_eq!(raw.read_message(), None);
}

#[test]
fn responses_are_checked_against_expectations() {
    let mut out = RecordOutput::new();
    out.response("{\"jsonrpc\":\"2.0\",\"id\":42,\"result\":{\"capabilities\":{}}}".to_string());
    out.response("{\"jsonrpc\":\"2.0\",\"method\":\"diagnosticsBegin\"}".to_string());
    let mut first = ExpectedMessage::new(Some(42));
    first.expect_contains("capabilities");
    let mut second = ExpectedMessage::new(None);
    second.expect_contains("diagnosticsBegin");
    let mut results = out.output;
    assert!(expect_messages(&mut results, &[&first, &second]).is_ok());
    assert!(results.is_empty());

    let mut results = vec!["{\"jsonrpc\":\"2.0\",\"id\":41}".to_string()];
    assert!(matches!(
        expect_messages(&mut results, &[&first]),
        Err(MessageMismatch::UnexpectedId { expected: 42 })
    ));
    assert_eq!(results.len(), 1);
    assert!(matches!(expect_messages(&mut results, &[]), Err(MessageMismatch::Count { found: 1, expected: 0 })));
}

#[test]
fn message_check_errors() {
    let e = ExpectedMessage::new(Some(1));
    assert!(matches!(check_message("not json", &e), Err(MessageMismatch::NotJson)));
    assert!(matches!(check_message("{\"id\":1}", &e), Err(MessageMismatch::MissingJsonrpc)));
    assert!(matches!(check_message("{\"jsonrpc\":\"1.0\",\"id\":1}", &e), Err(MessageMismatch::BadJsonrpc)));
    assert!(matches!(check_message("{\"jsonrpc\":2,\"id\":1}", &e), Err(MessageMismatch::BadJsonrpc)));
    assert!(matches!(check_message("{\"jsonrpc\":\"2.0\"}", &e), Err(MessageMismatch::MissingId)));
    assert!(matches!(check_message("{\"jsonrpc\":\"2.0\",\"id\":\"1\"}", &e), Err(MessageMismatch::UnexpectedId { expected: 1 })));
    let mut f = ExpectedMessage::new(None);
    f.expect_contains("absent");
    match check_message("{\"jsonrpc\":\"2.0\"}", &f) {
        Err(MessageMismatch::MissingText(t)) => assert_eq!(t, "absent"),
        other => panic!("unexpected {:?}", other),
    }
    assert!(check_message("{\"jsonrpc\":\"2.0\",\"id\":1}", &e).is_ok());
}

#[test]
fn cargo_clippy_arguments() {
    let s = |v: &[&str]| v.iter().map(|x| x.to_string()).collect::<Vec<String>>();
    assert!(wants_help(&s(&["cargo-clippy", "clippy", "-h"])));
    assert!(!wants_help(&s(&["cargo-clippy", "clippy", "--helpme"])));
    assert!(wants_version(&s(&["cargo-clippy", "--version"])));
    let (cargo, lints) = split_args(&s(&["--all", "--", "-D", "clippy"]));
    assert_eq!(cargo, s(&["check", "--all"]));
    assert_eq!(lints, "-D__CLIPPY_HACKERY__clippy__CLIPPY_HACKERY__");
    let (cargo, lints) = split_args(&s(&["--release"]));
    assert_eq!(cargo, s(&["check", "--release"]));
    assert_eq!(lints, "");
    let (cargo, lints) = split_args(&s(&["--", "--", "x"]));
    assert_eq!(cargo, s(&["check"]));
    assert_eq!(lints, "--__CLIPPY_HACKERY__x__CLIPPY_HACKERY__");
    assert_eq!(exit_result(true, Some(3)), Ok(()));
    assert_eq!(exit_result(false, Some(3)), Err(3));
    assert_eq!(exit_result(false, None), Err(-1));
}
