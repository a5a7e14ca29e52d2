use rapidraw_cli::preset::{parse_preset, preset_from};
use rapidraw_cli::server::{
    advance, answer, reject, response_line, Incoming, Job, JobResult, Turn, READY,
};
use serde_json::Value;

fn json(text: &str) -> Value {
    serde_json::from_str(text).expect("valid")
}

fn job(id: Option<Value>) -> Job {
    Job {
        id,
        input: "i.dng".to_string(),
        preset: "p.rrdata".to_string(),
        output: "o.png".to_string(),
        quality: 70,
        resize: Some(100),
    }
}

fn read(line: &str) -> Turn {
    advance(Turn::Read, Incoming::Line(line.to_string()))
}

/// The line that a turn writes.
fn written(turn: Turn) -> String {
    match turn {
        Turn::Write(line) => line,
        _ => panic!("nothing to write"),
    }
}

#[test]
fn server_starts_and_is_ready() {
    let turn = advance(Turn::Start, Incoming::Started);
    assert_eq!(READY, "ready");
    assert!(matches!(&turn, Turn::Announce(text) if text == "ready"));
    assert!(matches!(advance(turn, Incoming::Announced), Turn::Read));
}

#[test]
fn server_without_gpu_stops() {
    let turn = advance(Turn::Start, Incoming::Failed("no adapter".to_string()));
    assert!(matches!(turn, Turn::Stop(Err(reason)) if reason == "no adapter"));
}

#[test]
fn blank_lines_are_passed_over() {
    for blank in ["", " ", "\t \r", "\u{a0}\u{3000}", "\u{2028}\u{85}\u{b}"] {
        assert!(matches!(read(blank), Turn::Read));
    }
}

#[test]
fn lines_are_trimmed() {
    for line in ["{}", "  {} ", "\u{feff}{}\r", "\u{1680}{}\u{205f}"] {
        match read(line) {
            Turn::Parse(text) => assert_eq!(text, line.trim()),
            _ => panic!("not parsed"),
        }
    }
    assert!(matches!(read(" a b "), Turn::Parse(text) if text == "a b"));
    assert!(matches!(read("\u{200b}"), Turn::Parse(text) if text == "\u{200b}"));
}

#[test]
fn job_is_rendered_as_it_asks() {
    let turn = advance(Turn::Parse("{}".to_string()), Incoming::Job(job(Some(json("7")))));
    match turn {
        Turn::Render { id, request } => {
            assert_eq!(id, Some(json("7")));
            assert_eq!(request.input, "i.dng");
            assert_eq!(request.preset, "p.rrdata");
            assert_eq!(request.output, "o.png");
            assert_eq!(request.quality, 70);
            assert_eq!(request.resize, Some(100));
        }
        _ => panic!("not rendered"),
    }
}

#[test]
fn done_job_is_answered() {
    let turn = advance(Turn::Parse("{}".to_string()), Incoming::Job(job(Some(json("\"a\"")))));
    let turn = advance(turn, Incoming::Rendered(1234));
    assert_eq!(written(turn), "{\"ok\":true,\"id\":\"a\",\"ms\":1234}\n");
}

#[test]
fn done_job_without_id_is_answered_without() {
    let turn = advance(Turn::Parse("{}".to_string()), Incoming::Job(job(None)));
    let turn = advance(turn, Incoming::Rendered(0));
    assert_eq!(written(turn), "{\"ok\":true,\"ms\":0}\n");
}

#[test]
fn failed_job_is_answered() {
    let turn = advance(Turn::Parse("{}".to_string()), Incoming::Job(job(Some(json("[1,null]")))));
    let turn = advance(turn, Incoming::Failed("a \"b\"\nc".to_string()));
    let line = written(turn);
    assert_eq!(line, "{\"ok\":false,\"id\":[1,null],\"error\":\"a \\\"b\\\"\\nc\"}\n");
    assert_eq!(json(&line)["error"].as_str(), Some("a \"b\"\nc"));
}

#[test]
fn line_that_is_no_job_is_answered() {
    let turn = advance(
        Turn::Parse("nonsense".to_string()),
        Incoming::Failed("expected ident at line 1 column 2".to_string()),
    );
    assert_eq!(
        written(turn),
        "{\"ok\":false,\"error\":\"invalid job JSON: expected ident at line 1 column 2\"}\n"
    );
}

#[test]
fn server_reads_on_after_an_answer() {
    let turn = advance(Turn::Write("x\n".to_string()), Incoming::Written);
    assert!(matches!(turn, Turn::Read));
}

#[test]
fn end_of_input_stops_the_server_well() {
    let turn = advance(Turn::Read, Incoming::EndOfInput);
    assert!(matches!(turn, Turn::Stop(Ok(()))));
    assert!(matches!(advance(turn, Incoming::Line("{}".to_string())), Turn::Stop(Ok(()))));
}

#[test]
fn broken_pipes_stop_the_server() {
    let turn = advance(Turn::Read, Incoming::Failed("not UTF-8".to_string()));
    assert!(matches!(turn, Turn::Stop(Err(reason)) if reason == "not UTF-8"));
    let turn = advance(Turn::Write("x\n".to_string()), Incoming::Failed("gone".to_string()));
    assert!(matches!(turn, Turn::Stop(Err(reason)) if reason == "gone"));
}

#[test]
fn what_is_no_answer_changes_nothing() {
    assert!(matches!(advance(Turn::Read, Incoming::Written), Turn::Read));
    assert!(matches!(advance(Turn::Start, Incoming::EndOfInput), Turn::Start));
    let turn = advance(Turn::Parse("t".to_string()), Incoming::Rendered(5));
    assert!(matches!(turn, Turn::Parse(text) if text == "t"));
}

#[test]
fn every_line_gets_one_answer() {
    let mut turn = Turn::Read;
    let mut answers = vec![];
    for line in ["", "good", "  ", "bad", "good"] {
        turn = advance(turn, Incoming::Line(line.to_string()));
        if let Turn::Parse(text) = &turn {
            let incoming = if text == "good" {
                Incoming::Job(job(Some(json("1"))))
            } else {
                Incoming::Failed("e".to_string())
            };
            turn = advance(turn, incoming);
        }
        if let Turn::Render { .. } = &turn {
            turn = advance(turn, Incoming::Rendered(2));
        }
        if let Turn::Write(line) = &turn {
            answers.push(line.clone());
            turn = advance(turn, Incoming::Written);
        }
        assert!(matches!(turn, Turn::Read));
    }
    assert_eq!(
        answers,
        [
            "{\"ok\":true,\"id\":1,\"ms\":2}\n",
            "{\"ok\":false,\"error\":\"invalid job JSON: e\"}\n",
            "{\"ok\":true,\"id\":1,\"ms\":2}\n",
        ]
    );
}

#[test]
fn answers_keep_to_one_line() {
    let reason: String = (0u8..=0x7f).map(char::from).collect();
    let id = Value::String(reason.clone());
    let line = response_line(&answer(Some(id.clone()), Err(reason.clone())));
    assert_eq!(line.matches('\n').count(), 1);
    assert!(line.ends_with("}\n"));
    assert_eq!(json(&line)["error"].as_str(), Some(reason.as_str()));
    assert_eq!(json(&line)["id"], id);
    let expected = format!(
        "{{\"ok\":false,\"id\":{},\"error\":{}}}\n",
        serde_json::to_string(&id).expect("written"),
        serde_json::to_string(&reason).expect("written"),
    );
    assert_eq!(line, expected);
}

#[test]
fn control_characters_are_escaped() {
    let line = response_line(&answer(None, Err("\u{1}\u{1f}\u{8}\u{c}\t\r\\é\u{7f}".to_string())));
    assert_eq!(
        line,
        "{\"ok\":false,\"error\":\"\\u0001\\u001f\\b\\f\\t\\r\\\\é\u{7f}\"}\n"
    );
}

#[test]
fn flag_of_an_answer_is_written_as_it_is() {
    let line = response_line(&JobResult::Done { ok: false, id: None, ms: 1 });
    assert_eq!(line, "{\"ok\":false,\"ms\":1}\n");
    let line = response_line(&JobResult::Failed { ok: true, id: None, error: String::new() });
    assert_eq!(line, "{\"ok\":true,\"error\":\"\"}\n");
}

#[test]
fn rejection_has_no_id() {
    match reject("why") {
        JobResult::Failed { ok, id, error } => {
            assert!(!ok);
            assert_eq!(id, None);
            assert_eq!(error, "invalid job JSON: why");
        }
        JobResult::Done { .. } => panic!("not rejected"),
    }
}

#[test]
fn answer_has_the_time_or_the_reason() {
    match answer(Some(json("2")), Ok(9)) {
        JobResult::Done { ok, id, ms } => {
            assert!(ok);
            assert_eq!(id, Some(json("2")));
            assert_eq!(ms, 9);
        }
        JobResult::Failed { .. } => panic!("failed"),
    }
    match answer(None, Err("r".to_string())) {
        JobResult::Failed { ok, id, error } => {
            assert!(!ok);
            assert_eq!(id, None);
            assert_eq!(error, "r");
        }
        JobResult::Done { .. } => panic!("done"),
    }
}

#[test]
fn preset_names_its_lookup_table() {
    let preset = parse_preset("{\"lutPath\": \"a/b.cube\", \"exposure\": 1}").expect("valid");
    assert_eq!(preset.lut_path.as_deref(), Some("a/b.cube"));
    assert_eq!(preset.document, json("{\"lutPath\": \"a/b.cube\", \"exposure\": 1}"));
}

#[test]
fn preset_may_name_no_lookup_table() {
    for text in ["{}", "{\"lutPath\": null}", "{\"lutPath\": 3}", "{\"LutPath\": \"x\"}", "[]", "7"] {
        assert_eq!(parse_preset(text).expect("valid").lut_path, None);
    }
}

#[test]
fn preset_that_is_no_json_is_refused() {
    let error = parse_preset("{").err().expect("refused");
    let reason = serde_json::from_str::<Value>("{").unwrap_err();
    assert_eq!(error, format!("Preset JSON parse error: {reason}"));
    let error = preset_from(Err("why".to_string())).err().expect("refused");
    assert_eq!(error, "Preset JSON parse error: why");
}

#[test]
fn preset_comes_from_a_value() {
    let preset = preset_from(Ok(json("{\"lutPath\": \"\"}"))).expect("valid");
    assert_eq!(preset.lut_path.as_deref(), Some(""));
}

#[test]
fn answers_tell_results_apart() {
    let done = response_line(&answer(None, Ok(1)));
    assert_ne!(done, response_line(&answer(None, Ok(10))));
    assert_ne!(done, response_line(&answer(None, Err("1".to_string()))));
    let newline = response_line(&answer(None, Err("\n".to_string())));
    assert_ne!(newline, response_line(&answer(None, Err("\\n".to_string()))));
}

/// The answers to lines, of which those that begin with a brace are jobs.
fn answers(lines: &[&str]) -> Vec<String> {
    let mut turn = Turn::Read;
    let mut answers = vec![];
    for line in lines {
        turn = advance(turn, Incoming::Line(line.to_string()));
        if let Turn::Parse(text) = &turn {
            let incoming = if text.starts_with('{') {
                Incoming::Job(job(Some(Value::String(text.clone()))))
            } else {
                Incoming::Failed(format!("no job: {text}"))
            };
            turn = advance(turn, incoming);
        }
        if let Turn::Render { .. } = &turn {
            turn = advance(turn, Incoming::Rendered(1));
        }
        if let Turn::Write(line) = &turn {
            answers.push(line.clone());
            turn = advance(turn, Incoming::Written);
        }
    }
    answers
}

#[test]
fn space_changes_no_answer() {
    let plain = answers(&["{}", "x y", "{ }"]);
    let spaced = answers(&["", "  {}\r", "\t", "x y ", " ", "\u{a0}{ }", ""]);
    assert_eq!(plain.len(), 3);
    assert_eq!(plain, spaced);
}

#[test]
fn settings_of_a_preset_are_kept_whole() {
    let text = "{\"exposure\": 0.5, \"curve\": [1, 2], \"crop\": {\"x\": null}, \"on\": true}";
    assert_eq!(parse_preset(text).expect("valid").document, json(text));
}
