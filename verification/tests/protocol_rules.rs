use memlink::protocol::{
    AgentId, AgentRole, Params, Payload, ProtocolError, ProtocolVersion, RunMode, Target,
    TraceContext,
};

#[test]
fn versions_with_same_major_and_newer_minor_are_compatible() {
    let local = ProtocolVersion { major: 1, minor: 2 };
    assert!(local.compatible_with(&ProtocolVersion { major: 1, minor: 1 }).is_ok());
    assert!(local.compatible_with(&local).is_ok());
    assert_eq!(
        local.compatible_with(&ProtocolVersion { major: 2, minor: 0 }),
        Err("major version mismatch: local=1 remote=2".to_owned())
    );
    assert_eq!(
        ProtocolVersion { major: 1, minor: 0 }.compatible_with(&ProtocolVersion { major: 1, minor: 3 }),
        Err("local minor 0 older than remote minor 3".to_owned())
    );
    let default = ProtocolVersion::default();
    assert_eq!((default.major, default.minor), (1, 0));
}

#[test]
fn run_modes_parse_from_their_names() {
    assert_eq!(RunMode::parse("text").ok(), Some(RunMode::Text));
    assert_eq!(RunMode::parse("structured").ok(), Some(RunMode::Structured));
    match RunMode::parse("Structured") {
        Err(ProtocolError::InvalidRunMode(text)) => assert_eq!(text, "Structured"),
        Ok(_) => panic!("names are case sensitive"),
    }
    assert_eq!(RunMode::Text.as_str(), "text");
    assert_eq!(RunMode::Structured.as_str(), "structured");
}

#[test]
fn trace_child_is_one_step_further() {
    let root = TraceContext::new(7, 8);
    assert_eq!(root.step, 0);
    assert_eq!(root.parent_message_id, None);
    let child = root.child(99);
    assert_eq!(child.experiment_id, 7);
    assert_eq!(child.task_id, 8);
    assert_eq!(child.parent_message_id, Some(99));
    assert_eq!(child.step, 1);
    assert_eq!(child.child(100).step, 2);
}

#[test]
fn agent_ids_and_debug_names() {
    let id = AgentId::new("planner");
    assert_eq!(id.as_str(), "planner");
    assert_eq!(id, AgentId::new("planner"));
    assert_eq!(AgentRole::Summarizer.debug_name(), "Summarizer");
    assert_eq!(Target::Agent(AgentId::new("summarizer")).debug_text(), "Agent(AgentId(\"summarizer\"))");
    assert_eq!(Target::Role(AgentRole::Retriever).debug_text(), "Role(Retriever)");
    assert_eq!(Target::Runtime.debug_text(), "Runtime");
}

#[test]
fn params_keep_the_last_value_per_key() {
    let mut p = Params::new();
    p.insert("topic".to_owned(), "a".to_owned());
    p.insert("prompt".to_owned(), "b".to_owned());
    p.insert("topic".to_owned(), "c".to_owned());
    assert_eq!(p.get("topic"), Some("c".to_owned()));
    assert_eq!(p.get("prompt"), Some("b".to_owned()));
    assert_eq!(p.get("tags"), None);
    assert_eq!(p.entries.len(), 2);
}

#[test]
fn text_payload_counts_its_own_characters() {
    let text = Payload::Text("héllo".to_owned());
    assert_eq!(text.text_chars("ignored json"), 5);
    let other = Payload::Empty;
    assert_eq!(other.text_chars("\"Empty\""), 7);
}

#[test]
fn params_list_their_keys_in_order() {
    let mut p = Params::new();
    p.insert("topic".to_owned(), "a".to_owned());
    p.insert("code".to_owned(), "b".to_owned());
    p.insert("prompt".to_owned(), "c".to_owned());
    p.insert("Zeta".to_owned(), "d".to_owned());
    p.insert("group".to_owned(), "e".to_owned());
    let keys: Vec<&str> = p.entries.iter().map(|(k, _)| k.as_str()).collect();
    assert_eq!(keys, vec!["Zeta", "code", "group", "prompt", "topic"]);
    assert_eq!(p.get("code"), Some("b".to_owned()));
}

#[test]
fn protocol_errors_show_the_rejected_text() {
    let err = RunMode::parse("Text").unwrap_err();
    assert_eq!(err.message(), "invalid run mode: Text");
}
