//! Decoding the build tool's framed event records.

use sprinkle::events::{next_event, read_events, BuildEvent, StreamError};

fn target_json() -> String {
    let mut t = String::new();
    t.push_str("{\"name\":\"app\",\"kind\":[\"bin\"],\"crate_types\":[\"bin\"],");
    t.push_str("\"src_path\":\"/w/src/main.rs\",\"edition\":\"2018\"}");
    t
}

fn artifact_line() -> Vec<u8> {
    let mut l = String::new();
    l.push_str("{\"reason\":\"compiler-artifact\",");
    l.push_str("\"package_id\":\"pkg 0.1.0 (path+file:///w/pkg)\",");
    l.push_str("\"target\":");
    l.push_str(&target_json());
    l.push_str(",\"profile\":{\"opt_level\":\"0\",\"debug_assertions\":true,");
    l.push_str("\"overflow_checks\":true,\"test\":false},");
    l.push_str("\"features\":[],");
    l.push_str("\"filenames\":[\"/w/target/debug/app\"],");
    l.push_str("\"executable\":null,\"fresh\":false}");
    l.into_bytes()
}

fn message_line() -> Vec<u8> {
    let mut l = String::new();
    l.push_str("{\"reason\":\"compiler-message\",");
    l.push_str("\"package_id\":\"pkg 0.1.0 (path+file:///w/pkg)\",");
    l.push_str("\"target\":");
    l.push_str(&target_json());
    l.push_str(",\"message\":{\"message\":\"unused variable\",\"code\":null,");
    l.push_str("\"level\":\"warning\",\"spans\":[],\"children\":[],");
    l.push_str("\"rendered\":\"warning: unused variable\"}}");
    l.into_bytes()
}

fn finished_line() -> Vec<u8> {
    b"{\"reason\":\"build-finished\",\"success\":true}".to_vec()
}

#[test]
fn decodes_artifact_record() {
    let ev = next_event(&artifact_line()).expect("well-formed record");
    match ev {
        BuildEvent::Artifact(a) => {
            assert_eq!(a.package_id, b"pkg 0.1.0 (path+file:///w/pkg)".to_vec());
            assert_eq!(a.target_kinds, vec![b"bin".to_vec()]);
            assert_eq!(a.target_name, b"app".to_vec());
            assert_eq!(a.output_paths, vec![b"/w/target/debug/app".to_vec()]);
        },
        other => panic!("expected an artifact, got {:?}", other),
    }
}

#[test]
fn decodes_diagnostic_record() {
    let ev = next_event(&message_line()).expect("well-formed record");
    match ev {
        BuildEvent::Diagnostic(d) => {
            assert_eq!(d.rendered, Some(b"warning: unused variable".to_vec()));
        },
        other => panic!("expected a diagnostic, got {:?}", other),
    }
}

#[test]
fn other_records_are_passed_through() {
    let ev = next_event(&finished_line()).expect("well-formed record");
    assert_eq!(ev, BuildEvent::Other);
}

#[test]
fn malformed_record_is_fatal() {
    assert_eq!(
        next_event(&b"not a record".to_vec()),
        Err(StreamError::MalformedRecord)
    );
}

#[test]
fn stream_order_is_preserved() {
    let lines = vec![message_line(), artifact_line(), finished_line()];
    let evs = read_events(&lines).expect("all records well-formed");
    assert_eq!(evs.len(), 3);
    assert!(matches!(evs[0], BuildEvent::Diagnostic(_)));
    assert!(matches!(evs[1], BuildEvent::Artifact(_)));
    assert_eq!(evs[2], BuildEvent::Other);
}

#[test]
fn stream_stops_at_first_malformed_record() {
    let lines = vec![artifact_line(), b"garbage".to_vec(), finished_line()];
    let fault = read_events(&lines).expect_err("middle record is malformed");
    assert_eq!(fault.position, 1);
}
