use vdl_bridge::codec::{command_line, decode, encode, Command};
use vdl_bridge::greet;
use vdl_bridge::session::{Action, Input, Phase, SendFailure, Session};
use vdl_bridge::stream::{drain_primary, log_entry, warning_for};

fn video_command() -> Command {
    Command::start_download("https://example.com/watch?v=abc".to_string(), "video".to_string(), 1080)
}

fn streaming_session() -> Session {
    let mut s = Session::new(video_command());
    assert!(matches!(s.step(Input::Invoke), Action::Spawn));
    assert!(matches!(s.step(Input::SpawnFinished(Ok(()))), Action::Send(_)));
    assert!(matches!(s.step(Input::SendFinished(Ok(()))), Action::Reply(Ok(()))));
    s
}

fn event_name(v: &serde_json::Value) -> String {
    v.get("event").and_then(|e| e.as_str()).unwrap_or("").to_string()
}

#[test]
fn greet_names_the_caller() {
    assert_eq!(greet("Ada"), "Hello, Ada! You've been greeted from Rust!");
}

#[test]
fn start_download_command_fields() {
    let c = video_command();
    assert_eq!(c.method, "start_download");
    assert_eq!(c.url, "https://example.com/watch?v=abc");
    assert_eq!(c.mode, "video");
    assert_eq!(c.resolution, 1080);
}

#[test]
fn encode_gives_the_exact_wire_text() {
    assert_eq!(
        encode(&video_command()),
        "{\"method\":\"start_download\",\"params\":{\"mode\":\"video\",\"resolution\":1080,\"url\":\"https://example.com/watch?v=abc\"}}"
    );
}

#[test]
fn encode_matches_serde_json_object_text() {
    let c = Command::start_download("u".to_string(), "audio".to_string(), 720);
    let mut params = serde_json::Map::new();
    params.insert("url".to_string(), serde_json::Value::String("u".to_string()));
    params.insert("mode".to_string(), serde_json::Value::String("audio".to_string()));
    params.insert("resolution".to_string(), serde_json::Value::from(720u32));
    let mut top = serde_json::Map::new();
    top.insert("method".to_string(), serde_json::Value::String("start_download".to_string()));
    top.insert("params".to_string(), serde_json::Value::Object(params));
    assert_eq!(encode(&c), serde_json::Value::Object(top).to_string());
}

#[test]
fn encode_escapes_quotes_and_line_breaks() {
    let c = Command::start_download("a\"b\nc\\d".to_string(), "video".to_string(), 1);
    let text = encode(&c);
    assert!(!text.contains('\n'));
    assert!(text.contains("\"url\":\"a\\\"b\\nc\\\\d\""));
}

#[test]
fn encode_resolution_edges() {
    let zero = Command::start_download("x".to_string(), "video".to_string(), 0);
    assert!(encode(&zero).contains("\"resolution\":0,"));
    let max = Command::start_download("x".to_string(), "video".to_string(), u32::MAX);
    assert!(encode(&max).contains("\"resolution\":4294967295,"));
}

#[test]
fn command_line_ends_with_one_line_break() {
    let c = video_command();
    let line = command_line(&c);
    assert_eq!(line, format!("{}\n", encode(&c)));
    assert_eq!(line.matches('\n').count(), 1);
}

#[test]
fn decode_round_trips_the_command() {
    let c = Command::start_download("https://e.org/v?x=\"1\"\n".to_string(), "video".to_string(), 1080);
    let v = decode(&encode(&c)).ok().unwrap();
    assert_eq!(v["method"], serde_json::Value::String("start_download".to_string()));
    assert_eq!(v["params"]["url"], serde_json::Value::String(c.url.clone()));
    assert_eq!(v["params"]["mode"], serde_json::Value::String("video".to_string()));
    assert_eq!(v["params"]["resolution"].as_u64(), Some(1080));
    assert_eq!(v.as_object().unwrap().len(), 2);
    assert_eq!(v["params"].as_object().unwrap().len(), 3);
}

#[test]
fn decode_accepts_an_object() {
    let v = decode("{\"event\":\"progress\",\"percent\":42}").ok().unwrap();
    assert_eq!(event_name(&v), "progress");
    assert_eq!(v["percent"].as_u64(), Some(42));
}

#[test]
fn decode_rejects_malformed_text() {
    match decode("not json") {
        Err(e) => assert_eq!(e.line, "not json"),
        Ok(_) => panic!("malformed line accepted"),
    }
    assert!(decode("").is_err());
    assert!(decode("{\"event\":").is_err());
}

#[test]
fn malformed_line_does_not_end_the_stream() {
    let lines = vec![
        "{\"event\":\"start\"}".to_string(),
        "not json".to_string(),
        "{\"event\":\"done\"}".to_string(),
    ];
    let out = drain_primary(&lines);
    assert_eq!(out.len(), 2);
    assert_eq!(event_name(&out[0]), "start");
    assert_eq!(event_name(&out[1]), "done");
}

#[test]
fn valid_lines_arrive_in_order() {
    let lines: Vec<String> = (0..20).map(|i| format!("{{\"event\":\"e{}\",\"n\":{}}}", i, i)).collect();
    let out = drain_primary(&lines);
    assert_eq!(out.len(), 20);
    for (i, v) in out.iter().enumerate() {
        assert_eq!(event_name(v), format!("e{}", i));
        assert_eq!(v["n"].as_u64(), Some(i as u64));
    }
}

#[test]
fn empty_stream_delivers_nothing() {
    assert!(drain_primary(&Vec::new()).is_empty());
}

#[test]
fn warning_and_log_texts() {
    assert_eq!(warning_for("oops"), "Failed to parse JSON: oops");
    assert_eq!(log_entry("Traceback"), "[worker stderr] Traceback");
}

#[test]
fn successful_invocation_sends_once_then_replies() {
    let mut s = Session::new(video_command());
    assert_eq!(s.phase, Phase::Idle);
    assert!(matches!(s.step(Input::Invoke), Action::Spawn));
    assert_eq!(s.phase, Phase::Spawning);
    match s.step(Input::SpawnFinished(Ok(()))) {
        Action::Send(t) => assert_eq!(t, command_line(&video_command())),
        _ => panic!("expected the command line"),
    }
    assert_eq!(s.phase, Phase::CommandSent);
    assert!(matches!(s.step(Input::SendFinished(Ok(()))), Action::Reply(Ok(()))));
    assert_eq!(s.phase, Phase::Streaming);
    assert!(s.primary_open && s.diagnostic_open);
    assert!(matches!(s.step(Input::SpawnFinished(Ok(()))), Action::Nothing));
    assert!(matches!(s.step(Input::SendFinished(Ok(()))), Action::Nothing));
    assert!(matches!(s.step(Input::Invoke), Action::Nothing));
}

#[test]
fn spawn_failure_is_reported_and_final() {
    let mut s = Session::new(video_command());
    s.step(Input::Invoke);
    match s.step(Input::SpawnFinished(Err("No such file or directory (os error 2)".to_string()))) {
        Action::Reply(Err(e)) => assert_eq!(e, "Failed to spawn Python: No such file or directory (os error 2)"),
        _ => panic!("expected an error reply"),
    }
    assert_eq!(s.phase, Phase::Failed);
    assert!(matches!(s.step(Input::PrimaryLine("{\"event\":\"start\"}".to_string())), Action::Nothing));
    assert!(matches!(s.step(Input::SendFinished(Ok(()))), Action::Nothing));
    assert_eq!(s.phase, Phase::Failed);
}

#[test]
fn send_failures_are_reported() {
    let cases = vec![
        (SendFailure::NoInput, "Failed to get stdin"),
        (SendFailure::Write("Broken pipe".to_string()), "Failed to write to stdin: Broken pipe"),
        (SendFailure::Flush("Broken pipe".to_string()), "Failed to flush stdin: Broken pipe"),
    ];
    for (f, want) in cases {
        let mut s = Session::new(video_command());
        s.step(Input::Invoke);
        s.step(Input::SpawnFinished(Ok(())));
        match s.step(Input::SendFinished(Err(f))) {
            Action::Reply(Err(e)) => assert_eq!(e, want),
            _ => panic!("expected an error reply"),
        }
        assert_eq!(s.phase, Phase::Failed);
    }
}

#[test]
fn streaming_publishes_valid_lines_and_warns_on_others() {
    let mut s = streaming_session();
    match s.step(Input::PrimaryLine("{\"event\":\"start\"}".to_string())) {
        Action::Publish(v) => assert_eq!(event_name(&v), "start"),
        _ => panic!("expected a publish"),
    }
    match s.step(Input::PrimaryLine("not json".to_string())) {
        Action::Warn(w) => assert_eq!(w, "Failed to parse JSON: not json"),
        _ => panic!("expected a warning"),
    }
    match s.step(Input::PrimaryLine("{\"event\":\"done\"}".to_string())) {
        Action::Publish(v) => assert_eq!(event_name(&v), "done"),
        _ => panic!("expected a publish"),
    }
}

#[test]
fn diagnostic_lines_are_logged_never_published() {
    let mut s = streaming_session();
    let mut published = Vec::new();
    let noisy = vec!["{\"event\":\"fake\"}".to_string(), "x".repeat(10000), "".to_string()];
    for (i, d) in noisy.into_iter().enumerate() {
        match s.step(Input::DiagnosticLine(d.clone())) {
            Action::Log(t) => assert_eq!(t, format!("[worker stderr] {}", d)),
            _ => panic!("diagnostic line not logged"),
        }
        if let Action::Publish(v) = s.step(Input::PrimaryLine(format!("{{\"event\":\"p{}\"}}", i))) {
            published.push(event_name(&v));
        }
    }
    assert_eq!(published, vec!["p0", "p1", "p2"]);
}

#[test]
fn both_channels_closing_drains_the_session() {
    let mut s = streaming_session();
    assert!(matches!(s.step(Input::DiagnosticClosed), Action::Nothing));
    assert_eq!(s.phase, Phase::Streaming);
    assert!(matches!(s.step(Input::DiagnosticLine("late".to_string())), Action::Nothing));
    assert!(matches!(s.step(Input::PrimaryLine("{\"a\":1}".to_string())), Action::Publish(_)));
    assert!(matches!(s.step(Input::PrimaryClosed), Action::Nothing));
    assert_eq!(s.phase, Phase::Drained);
    assert!(matches!(s.step(Input::PrimaryLine("{\"a\":1}".to_string())), Action::Nothing));
}

#[test]
fn reply_comes_before_any_channel_ends() {
    let s = streaming_session();
    assert_eq!(s.phase, Phase::Streaming);
    assert!(s.primary_open);
    assert!(s.diagnostic_open);
}
