use memlink::evaluator::EventKind;
use memlink::protocol::{
    AgentId, AgentRole, MemoryHit, Message, MessageKind, Payload, RunMode, StateFormat, Target,
    TraceContext,
};
use memlink::runtime::{
    adopted_count, agent_for_role, compact_memory_hits, default_agents, embedding_meta,
    evidence_count, evidence_meta, executor_reply, tool_output_meta,
    extract_result, message_from_task, no_tool_result, planner_reply, retrieval_query,
    retriever_reply, summarizer_reply, synthetic_evidence, task_params, BenchSuite, BuiltinAgent,
    RunAction, TaskPhase, TaskRun, TaskSpec,
};
use memlink::state::{InMemoryStateStore, StateMeta};

fn task(code: Option<&str>) -> TaskSpec {
    TaskSpec {
        id: Some("test".to_owned()),
        group: "knowledge".to_owned(),
        topic: "StateRef shared memory".to_owned(),
        prompt: "Explain structured memory reuse".to_owned(),
        tags: vec!["stateref".to_owned(), "summary".to_owned()],
        code: code.map(str::to_owned),
    }
}

fn hit(id: u128, score: f32) -> MemoryHit {
    MemoryHit {
        memory_id: id,
        topic: "t".repeat(100),
        summary: "s".repeat(100),
        score_bits: score.to_bits(),
        reason: "keyword=1.00".to_owned(),
        tags: vec!["stateref".to_owned()],
    }
}

#[test]
fn agents_are_found_by_role() {
    let agents = default_agents();
    assert_eq!(agents.len(), 4);
    assert_eq!(agent_for_role(&agents, AgentRole::Executor), Ok(BuiltinAgent::Executor));
    assert_eq!(
        agent_for_role(&agents, AgentRole::Runtime),
        Err("agent not found: Runtime".to_owned())
    );
    assert_eq!(BuiltinAgent::Retriever.capabilities().len(), 2);
    assert_eq!(BuiltinAgent::Summarizer.id(), AgentId::new("summarizer"));
}

#[test]
fn task_parameters_hold_the_task() {
    let p = task_params(&task(Some("print(1)")));
    assert_eq!(p.get("group"), Some("knowledge".to_owned()));
    assert_eq!(p.get("topic"), Some("StateRef shared memory".to_owned()));
    assert_eq!(p.get("tags"), Some("stateref,summary".to_owned()));
    assert_eq!(p.get("code"), Some("print(1)".to_owned()));
    assert_eq!(task_params(&task(None)).get("code"), None);
    let evidence = synthetic_evidence(&p);
    assert_eq!(evidence[1], "StateRef shared memory: StateRef avoids re-sending large evidence payloads");
}

#[test]
fn requests_follow_the_mode() {
    let planner = AgentId::new("planner");
    let structured = message_from_task(RunMode::Structured, &task(None), &planner);
    assert_eq!(structured.kind, MessageKind::ActionRequest);
    assert!(matches!(structured.payload, Payload::ActionRequest(_)));
    let text = message_from_task(RunMode::Text, &task(None), &planner);
    assert!(matches!(text.payload, Payload::Text(_)));
    let q = retrieval_query(&structured);
    assert_eq!(q.topic, "StateRef shared memory");
    assert_eq!(q.prompt, "Explain structured memory reuse");
    assert_eq!(q.tags, vec!["stateref", "summary"]);
    assert_eq!(q.text, "StateRef shared memory Explain structured memory reuse");
}

#[test]
fn planner_plans_around_the_topic() {
    let request = message_from_task(RunMode::Structured, &task(None), &AgentId::new("planner"));
    let reply = planner_reply(&request);
    match &reply.payload {
        Payload::ActionResult(r) => {
            assert!(r.success);
            assert_eq!(
                r.result.get("plan"),
                Some("1) search reusable memory for StateRef shared memory; 2) collect evidence; 3) summarize and persist memory".to_owned())
            );
            assert_eq!(r.result.get("next"), Some("retriever".to_owned()));
        }
        _ => panic!("planner answers with a result"),
    }
}

#[test]
fn hits_at_or_above_a_fifth_are_adopted() {
    let hits = vec![hit(1, 0.2), hit(2, 0.19), hit(3, 0.9), hit(4, f32::NAN), hit(5, -0.5)];
    assert_eq!(adopted_count(&hits), 2);
    let compact = compact_memory_hits(&hits);
    assert_eq!(compact.len(), 3);
    assert_eq!(compact[0].topic.chars().count(), 80);
    assert_eq!(compact[0].summary.chars().count(), 96);
    assert_eq!(compact[2].memory_id, 3);
}

#[test]
fn bench_suites_need_a_task_and_cycle_through_them() {
    let empty = BenchSuite { tasks: Vec::new() };
    assert_eq!(
        empty.checked("suites/x.toml").err(),
        Some("suite file suites/x.toml must contain at least one task".to_owned())
    );
    let suite = BenchSuite { tasks: vec![task(None), task(Some("x"))] }.checked("s").expect("tasks");
    assert!(suite.task_for_round(0).code.is_none());
    assert!(suite.task_for_round(3).code.is_some());
}

#[test]
fn structured_task_without_code_runs_planner_retriever_summarizer() {
    let mut states = InMemoryStateStore::new();
    let trace = TraceContext::new(1, 2);
    let (mut run, first) = TaskRun::start(trace, RunMode::Structured, task(None));
    assert!(run.records_adverts());
    let request = match first {
        RunAction::Ask { agent, request } => {
            assert_eq!(agent, BuiltinAgent::Planner);
            request
        }
        RunAction::Finish { .. } => panic!("a task starts with the planner"),
    };
    let plan = planner_reply(&request);
    let next = run.advance(plan);
    assert_eq!(run.phase, TaskPhase::Retrieving);
    let request = match next {
        RunAction::Ask { agent, request } => {
            assert_eq!(agent, BuiltinAgent::Retriever);
            request
        }
        RunAction::Finish { .. } => panic!("the retriever comes next"),
    };
    let query = retrieval_query(&request);
    assert_eq!(query.topic, "StateRef shared memory");
    let evidence = states.put(
        b"{}".to_vec(),
        StateMeta {
            producer: AgentId::new("retriever"),
            format: StateFormat::EvidencePackJson,
            shape: None,
            ttl: None,
        },
    );
    let hits = vec![hit(7, 0.5)];
    let retrieval = retriever_reply(RunMode::Structured, &hits, "{}", vec![evidence.clone()]);
    let next = run.advance(retrieval);
    assert_eq!(run.phase, TaskPhase::Summarizing);
    let request = match next {
        RunAction::Ask { agent, request } => {
            assert_eq!(agent, BuiltinAgent::Summarizer);
            request
        }
        RunAction::Finish { .. } => panic!("without code the summarizer comes next"),
    };
    assert_eq!(request.state_refs.len(), 1);
    assert_eq!(request.state_refs[0].state_id, evidence.state_id);
    let summary = summarizer_reply("done".to_owned(), Some(99), request.state_refs.clone());
    match run.advance(summary) {
        RunAction::Finish { answer, memory_hits, state_transfers, events } => {
            assert_eq!(answer, "done");
            assert_eq!(memory_hits, 1);
            assert_eq!(state_transfers, 1);
            assert_eq!(events.len(), 1);
            match &events[0] {
                EventKind::StateTransfer { state_id, consumer, producer, .. } => {
                    assert_eq!(*state_id, evidence.state_id);
                    assert_eq!(consumer, "summarizer");
                    assert_eq!(producer, "retriever");
                }
                _ => panic!("a state transfer"),
            }
        }
        RunAction::Ask { .. } => panic!("the task is done"),
    }
    assert_eq!(run.phase, TaskPhase::Finished);
}

#[test]
fn text_task_with_code_asks_the_executor() {
    let (mut run, first) = TaskRun::start(TraceContext::new(1, 3), RunMode::Text, task(Some("print(21 * 2)")));
    assert!(!run.records_adverts());
    let request = match first {
        RunAction::Ask { request, .. } => request,
        RunAction::Finish { .. } => panic!("planner first"),
    };
    assert!(matches!(request.payload, Payload::Text(_)));
    run.advance(planner_reply(&request));
    let next = run.advance(retriever_reply(RunMode::Text, &Vec::new(), "{\"topic\":\"x\"}", Vec::new()));
    assert_eq!(run.phase, TaskPhase::Executing);
    match next {
        RunAction::Ask { agent, request } => {
            assert_eq!(agent, BuiltinAgent::Executor);
            assert!(request.state_refs.is_empty());
        }
        RunAction::Finish { .. } => panic!("the executor runs the code"),
    }
    let next = run.advance(executor_reply(RunMode::Text, "{\"stdout\":\"42\"}", Vec::new()));
    match next {
        RunAction::Ask { agent, request } => {
            assert_eq!(agent, BuiltinAgent::Summarizer);
            assert_eq!(request.to.debug_text(), "Agent(AgentId(\"summarizer\"))");
            match &request.payload {
                Payload::Text(t) => assert!(t.starts_with("Summarize task 'StateRef shared memory' using 3 prior messages.")),
                _ => panic!("text mode"),
            }
        }
        RunAction::Finish { .. } => panic!("the summarizer comes last"),
    }
    let summary = Message::new(
        AgentId::new("summarizer"),
        Target::Runtime,
        MessageKind::ActionResult,
        Payload::Text("inline answer".to_owned()),
        Vec::new(),
    );
    match run.advance(summary) {
        RunAction::Finish { answer, memory_hits, state_transfers, events } => {
            assert_eq!(answer, "inline answer");
            assert_eq!(memory_hits, 0);
            assert_eq!(state_transfers, 0);
            assert!(events.is_empty());
        }
        RunAction::Ask { .. } => panic!("done"),
    }
}

#[test]
fn the_stand_in_tool_result_says_no_tool_ran() {
    let m = no_tool_result();
    assert_eq!(m.from, AgentId::new("executor"));
    match &m.payload {
        Payload::ActionResult(r) => {
            assert_eq!(r.result.get("result"), Some("no tool execution requested".to_owned()))
        }
        _ => panic!("a result"),
    }
    assert_eq!(extract_result(&m), "");
}

#[test]
fn the_analysis_script_quotes_the_code_as_json() {
    let request = memlink::runtime::analysis_request("print(\"hi\")\n# TODO", Vec::new());
    assert_eq!(
        request.code,
        "code = \"print(\\\"hi\\\")\\n# TODO\"\nprint({\"line_count\": len(code.splitlines()), \"todo_count\": code.count(\"TODO\")})"
    );
    assert_eq!(request.timeout_ms, 2000);
    assert_eq!(request.max_output_bytes, 8192);
    assert_eq!(memlink::runtime::code_stats("a\nb # TODO\nTODO TODO"), (3, 3));
}

#[test]
fn summary_answers_name_what_was_used() {
    assert_eq!(
        memlink::runtime::summary_answer(RunMode::Structured, "topic", "why", 2, 1, &Payload::Empty),
        "Structured answer for 'topic': reused state_refs=2, evidence_items=1, prompt='why'"
    );
    assert_eq!(
        memlink::runtime::summary_answer(RunMode::Text, "topic", "why", 0, 0, &Payload::Text("héllo".to_owned())),
        "Text answer for 'topic': summarized 5 inline characters for prompt='why'"
    );
}

#[test]
fn text_mode_replies_carry_no_state_handles() {
    let mut states = InMemoryStateStore::new();
    let r = states.put(
        b"x".to_vec(),
        StateMeta { producer: AgentId::new("executor"), format: StateFormat::ToolOutputJson, shape: None, ttl: None },
    );
    assert_eq!(memlink::state::checksum_of(b"x").value, r.checksum.value);
    let text = executor_reply(RunMode::Text, "{}", vec![r.clone()]);
    assert!(text.state_refs.is_empty());
    let structured = executor_reply(RunMode::Structured, "{}", vec![r.clone()]);
    assert_eq!(structured.state_refs.len(), 1);
    assert!(retriever_reply(RunMode::Text, &Vec::new(), "{}", vec![r.clone()]).state_refs.is_empty());
    assert!(memlink::runtime::shares_memory(RunMode::Structured));
    assert!(!memlink::runtime::shares_memory(RunMode::Text));
    let no_memory = summarizer_reply("answer".to_owned(), None, Vec::new());
    match &no_memory.payload {
        Payload::ActionResult(res) => {
            assert_eq!(res.result.get("answer"), Some("answer".to_owned()));
            assert_eq!(res.result.get("memory_id"), None);
        }
        _ => panic!("a result"),
    }
    let with_memory = summarizer_reply("answer".to_owned(), Some(0x67e5_5044_10b1_426f_9247_bb68_0e5f_e0c8), Vec::new());
    match &with_memory.payload {
        Payload::ActionResult(res) => assert_eq!(
            res.result.get("memory_id"),
            Some("67e55044-10b1-426f-9247-bb680e5fe0c8".to_owned())
        ),
        _ => panic!("a result"),
    }
}

#[test]
fn the_summary_memory_names_its_source_topic_and_summary() {
    let record = memlink::runtime::summary_memory(
        "StateRef memory",
        "why",
        "Structured answer",
        &vec!["stateref".to_owned()],
        &Vec::new(),
    );
    assert_eq!(record.source_agent, AgentId::new("summarizer"));
    assert_eq!(record.task_topic, "StateRef memory");
    assert_eq!(record.summary, "Structured answer");
    assert_eq!(record.tags, vec!["stateref"]);
    assert_eq!(record.keywords, vec!["answer", "memory", "stateref", "structured", "why"]);
    assert!(record.evidence_refs.is_empty());
}

#[test]
fn the_summarizer_counts_readable_evidence_only() {
    let mut states = InMemoryStateStore::new();
    let evidence = states.put(b"{}".to_vec(), evidence_meta());
    let embedding = states.put(vec![0u8; 8], embedding_meta(2));
    let tool = states.put(b"{}".to_vec(), tool_output_meta());
    let refs = vec![evidence, embedding, tool];
    assert_eq!(evidence_count(&refs, &vec![true, true, true]), 2);
    assert_eq!(evidence_count(&refs, &vec![true, true, false]), 1);
    assert_eq!(evidence_count(&refs, &vec![false, true, false]), 0);
    assert_eq!(evidence_count(&Vec::new(), &Vec::new()), 0);
}

#[test]
fn the_analysis_script_escapes_control_characters() {
    let request = memlink::runtime::analysis_request("a\u{1}\tb\\\u{7f}é", Vec::new());
    assert!(request.code.starts_with("code = \"a\\u0001\\tb\\\\\u{7f}é\"\nprint("));
}
