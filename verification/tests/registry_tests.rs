use stabilize::record::{parse_record, LineOut, parse_line};
use stabilize::registry::{failure_line, interpret_search_output, Reply};

fn interpret(output: &str, name: &str) -> Reply {
    let owned = output.to_string();
    interpret_search_output(Some(&owned), name)
}

#[test]
fn search_output_with_comment_and_marker() {
    let out = "foo = \"1.2.3\"    # A handy library\n... and 17 crates more";
    match interpret(out, "foo") {
        Reply::Version(v) => assert_eq!(v, "1.2.3"),
        _ => panic!("expected a version"),
    }
}

#[test]
fn multi_line_record_finds_the_queried_name() {
    let out = "foo = \"1.2.3\"  # one\nfoo-extras = \"0.2.0\"  # two\n...";
    match interpret(out, "foo-extras") {
        Reply::Version(v) => assert_eq!(v, "0.2.0"),
        _ => panic!("expected a version"),
    }
}

#[test]
fn empty_output_is_not_found() {
    assert!(matches!(interpret("", "foo"), Reply::NotFound));
}

#[test]
fn output_that_is_only_a_marker_is_not_found() {
    assert!(matches!(interpret("\n...", "foo"), Reply::NotFound));
}

#[test]
fn malformed_output_is_a_bad_response() {
    assert!(matches!(interpret("this is not a record", "foo"), Reply::BadResponse));
    assert!(matches!(interpret("foo = unquoted", "foo"), Reply::BadResponse));
    assert!(matches!(interpret("= \"1.0\"", "foo"), Reply::BadResponse));
    assert!(matches!(interpret("foo = \"1.0", "foo"), Reply::BadResponse));
}

#[test]
fn record_without_the_queried_name_is_a_bad_response() {
    assert!(matches!(interpret("bar = \"1.0.0\"", "foo"), Reply::BadResponse));
}

#[test]
fn duplicate_keys_are_a_bad_response() {
    let out = "foo = \"1.0.0\"\nfoo = \"2.0.0\"";
    assert!(matches!(interpret(out, "foo"), Reply::BadResponse));
}

#[test]
fn escapes_in_values_are_rejected() {
    assert!(matches!(interpret("foo = \"1.0\\\"x\"", "foo"), Reply::BadResponse));
}

#[test]
fn unrunnable_search_is_a_client_error() {
    assert!(matches!(interpret_search_output(None, "foo"), Reply::ClientError));
}

#[test]
fn blank_and_comment_lines_are_allowed() {
    let out = "# heading\n\nfoo = \"0.3.1\"\n   \t\n";
    match interpret(out, "foo") {
        Reply::Version(v) => assert_eq!(v, "0.3.1"),
        _ => panic!("expected a version"),
    }
}

#[test]
fn failure_messages() {
    assert_eq!(
        failure_line(&Reply::ClientError, "foo"),
        "Error running search"
    );
    assert_eq!(
        failure_line(&Reply::NotFound, "foo"),
        "crates.io has no crate named \"foo\""
    );
    assert_eq!(
        failure_line(&Reply::BadResponse, "foo"),
        "search returned invalid data"
    );
}

#[test]
fn parse_line_shapes() {
    assert!(matches!(parse_line(""), LineOut::Blank));
    assert!(matches!(parse_line("   # only a comment"), LineOut::Blank));
    match parse_line("  my_crate-2 = \"0.1.0\"   # note") {
        LineOut::Pair(k, v) => {
            assert_eq!(k, "my_crate-2");
            assert_eq!(v, "0.1.0");
        },
        _ => panic!("expected a pair"),
    }
    assert!(matches!(parse_line("key \"no equals\""), LineOut::Bad));
    assert!(matches!(parse_line("key = \"v\" trailing"), LineOut::Bad));
}

#[test]
fn parse_record_collects_pairs_in_order() {
    let pairs = parse_record("a = \"1\"\nb = \"2\"").expect("record parses");
    assert_eq!(pairs.len(), 2);
    assert_eq!(pairs[0].0, "a");
    assert_eq!(pairs[0].1, "1");
    assert_eq!(pairs[1].0, "b");
    assert_eq!(pairs[1].1, "2");
    assert!(parse_record("a = \"1\"\nnonsense").is_none());
}
