//! The suggestion half of the pipeline: table lookup, generator
//! outcomes, candidate formatting, and the protocol stream.

use navi::error::PipelineError;
use navi::formatter::format_candidates;
use navi::formatter::split_candidates;
use navi::generator::generator_text;
use navi::generator::GeneratorOutcome;
use navi::pipeline::empty_state_response;
use navi::pipeline::lookup_miss_response;
use navi::pipeline::plan_step;
use navi::pipeline::present_candidates;
use navi::pipeline::suggestions_step;
use navi::pipeline::Plan;
use navi::pipeline::ProtocolRecord;
use navi::pipeline::StepDecision;
use navi::table::SuggestionTable;

fn git_table() -> SuggestionTable {
    let mut t = SuggestionTable::new();
    t.add(
        "git".to_string(),
        "branch".to_string(),
        "git branch --format '%(refname:short)'".to_string(),
    );
    t
}

#[test]
fn table_lookup_hit_and_miss() {
    let t = git_table();
    assert_eq!(
        t.get("git", "branch").unwrap().command,
        "git branch --format '%(refname:short)'"
    );
    assert!(t.get("git", "remote").is_none());
    assert!(t.get("docker", "branch").is_none());
}

#[test]
fn table_first_registration_wins() {
    let mut t = git_table();
    t.add("git".to_string(), "branch".to_string(), "echo other".to_string());
    assert_eq!(
        t.get("git", "branch").unwrap().command,
        "git branch --format '%(refname:short)'"
    );
}

#[test]
fn plan_fully_resolved_snippet() {
    let p = plan_step("git status", "git", &git_table());
    assert_eq!(p, Plan::NoReference);
}

#[test]
fn plan_generates_for_leftmost_placeholder() {
    let p = plan_step("git checkout <branch>", "git", &git_table());
    assert_eq!(
        p,
        Plan::Generate {
            varname: "branch".to_string(),
            command: "git branch --format '%(refname:short)'".to_string(),
        }
    );
}

#[test]
fn plan_lookup_miss() {
    let p = plan_step("git checkout <branch>", "git", &SuggestionTable::new());
    assert_eq!(p, Plan::NoSuggestions { varname: "branch".to_string() });
}

#[test]
fn empty_state_signal() {
    let r = empty_state_response();
    assert_eq!(
        r.records,
        vec![ProtocolRecord::Start { varname: None }, ProtocolRecord::End]
    );
    assert!(r.error.is_none());
}

#[test]
fn lookup_miss_still_terminates_the_stream() {
    let r = lookup_miss_response("git", "branch");
    assert_eq!(r.records.len(), 2);
    assert_eq!(
        r.records[0],
        ProtocolRecord::Start { varname: Some("branch".to_string()) }
    );
    assert_eq!(r.records[1], ProtocolRecord::End);
    let e = r.error.unwrap();
    assert_eq!(
        e,
        PipelineError::Lookup { tag: "git".to_string(), variable: "branch".to_string() }
    );
    assert_eq!(e.message(), "No suggestions");
}

#[test]
fn step_ready_for_resolved_snippet() {
    match suggestions_step("git status", "git", &git_table()) {
        StepDecision::Ready(r) => {
            assert_eq!(
                r.records,
                vec![ProtocolRecord::Start { varname: None }, ProtocolRecord::End]
            );
            assert!(r.error.is_none());
        }
        other => panic!("expected a ready step, got {:?}", other),
    }
}

#[test]
fn step_ready_for_lookup_miss() {
    match suggestions_step("git checkout <branch>", "git", &SuggestionTable::new()) {
        StepDecision::Ready(r) => {
            assert_eq!(r.records.len(), 2);
            assert_eq!(r.records[1], ProtocolRecord::End);
            assert_eq!(
                r.error.unwrap(),
                PipelineError::Lookup { tag: "git".to_string(), variable: "branch".to_string() }
            );
        }
        other => panic!("expected a ready step, got {:?}", other),
    }
}

#[test]
fn step_asks_for_the_registered_generator() {
    match suggestions_step("git checkout <branch>", "git", &git_table()) {
        StepDecision::RunGenerator { varname, command } => {
            assert_eq!(varname, "branch");
            assert_eq!(command, "git branch --format '%(refname:short)'");
        }
        other => panic!("expected a generator run, got {:?}", other),
    }
}

#[test]
fn split_keeps_inner_and_drops_final_empty_line() {
    assert_eq!(split_candidates("a\nb\n"), vec!["a", "b"]);
    assert_eq!(split_candidates("a\n\n"), vec!["a", ""]);
    assert_eq!(split_candidates("a\nb"), vec!["a", "b"]);
    assert_eq!(split_candidates(""), vec![""]);
}

#[test]
fn format_two_candidates() {
    let items = format_candidates("curl <url>", "url", "https://a.com\nhttps://b.com\n");
    assert_eq!(items.len(), 2);
    assert_eq!(items[0].title, "https://a.com");
    assert_eq!(items[0].payload, "curl https://a.com");
    assert_eq!(items[1].title, "https://b.com");
    assert_eq!(items[1].payload, "curl https://b.com");
}

#[test]
fn generator_spawn_failure_carries_the_command() {
    let r = generator_text("boom", GeneratorOutcome::SpawnFailed);
    assert_eq!(r.unwrap_err(), PipelineError::Spawn { command: "boom".to_string() });
}

#[test]
fn generator_invalid_text_is_an_encoding_error() {
    let r = generator_text("cmd", GeneratorOutcome::Captured(vec![0xff, 0xfe, 0x20]));
    assert_eq!(r.unwrap_err(), PipelineError::Encoding);
}

#[test]
fn generator_valid_text_is_returned_whole() {
    let r = generator_text("cmd", GeneratorOutcome::Captured(b"one\ntwo\n".to_vec()));
    assert_eq!(r.unwrap(), "one\ntwo\n");
}

#[test]
fn present_candidates_builds_the_full_stream() {
    let outcome = GeneratorOutcome::Captured(b"https://a.com\nhttps://b.com\n".to_vec());
    let r = present_candidates("curl <url>", "url", "list-urls", outcome);
    assert!(r.error.is_none());
    assert_eq!(r.records.len(), 4);
    assert_eq!(
        r.records[0],
        ProtocolRecord::Start { varname: Some("url".to_string()) }
    );
    match &r.records[1] {
        ProtocolRecord::Item { item } => {
            assert_eq!(item.title, "https://a.com");
            assert_eq!(item.payload, "curl https://a.com");
        }
        other => panic!("expected an item record, got {:?}", other),
    }
    match &r.records[2] {
        ProtocolRecord::Item { item } => {
            assert_eq!(item.title, "https://b.com");
            assert_eq!(item.payload, "curl https://b.com");
        }
        other => panic!("expected an item record, got {:?}", other),
    }
    assert_eq!(r.records[3], ProtocolRecord::End);
}

#[test]
fn present_candidates_never_emits_a_partial_list() {
    // invalid text: the whole capture is refused, the stream still closes
    let outcome = GeneratorOutcome::Captured(vec![b'o', b'k', b'\n', 0xff]);
    let r = present_candidates("curl <url>", "url", "list-urls", outcome);
    assert_eq!(r.error.unwrap(), PipelineError::Encoding);
    assert_eq!(r.records.len(), 2);
    assert_eq!(
        r.records[0],
        ProtocolRecord::Start { varname: Some("url".to_string()) }
    );
    assert_eq!(r.records[1], ProtocolRecord::End);
}

#[test]
fn present_candidates_spawn_failure_still_terminates() {
    let r = present_candidates("curl <url>", "url", "list-urls", GeneratorOutcome::SpawnFailed);
    assert_eq!(
        r.error.unwrap(),
        PipelineError::Spawn { command: "list-urls".to_string() }
    );
    assert_eq!(r.records.len(), 2);
    assert_eq!(r.records[1], ProtocolRecord::End);
}

#[test]
fn spawn_message_names_the_command() {
    let e = PipelineError::Spawn { command: "git branch".to_string() };
    assert_eq!(e.message(), "Unable to run the suggestion command: git branch");
    assert_eq!(PipelineError::Encoding.message(), "Suggestions are invalid utf8");
}
