//! The four built-in agents (planner, retriever, executor, summarizer),
//! what they ask and answer, and the order in which a task visits them.
use crate::evaluator::EventKind;
use crate::platform::{debug_str, json_quote, json_string_literal, uuid_string, uuid_text};
use crate::protocol::{
    action_name, format_name, role_name, target_debug, ActionRequest, ActionResult, ActionType,
    AgentId, AgentRole, Capability, CostHint, MemoryHit, MemoryHitPayload, Message, MessageKind,
    Params, Payload, RunMode, StateFormat, StateRef, Target, TaskId, TraceContext,
};
use crate::sandbox::{bool_text, SandboxLanguage, SandboxRequest};
use crate::state::StateMeta;
use crate::memory::{MemoryRecord, MemoryReuseEvent};
use crate::platform::{new_id, now_micros};
use crate::text::{
    chars_of, clone_strings, count_lines, count_matches, decimal, join, join_strings,
    line_count, match_count, prefix, push_decimal, push_str, string_views, take_chars,
};
use crate::words::{csv_items, infer_topic, inferred_topic, keywords, keywords_of, split_csv};
use vstd::prelude::*;

verus! {

broadcast use vstd::string::group_string_axioms;

/// The parameter keys that agents use are different strings.
pub proof fn lemma_param_keys_distinct()
    ensures
        "group"@ != "topic"@,
        "group"@ != "prompt"@,
        "group"@ != "tags"@,
        "group"@ != "code"@,
        "topic"@ != "prompt"@,
        "topic"@ != "tags"@,
        "topic"@ != "code"@,
        "prompt"@ != "tags"@,
        "prompt"@ != "code"@,
        "tags"@ != "code"@,
        "answer"@ != "memory_id"@,
        "plan"@ != "next"@,
{
    reveal_strlit("group");
    reveal_strlit("topic");
    reveal_strlit("prompt");
    reveal_strlit("tags");
    reveal_strlit("code");
    reveal_strlit("answer");
    reveal_strlit("memory_id");
    reveal_strlit("plan");
    reveal_strlit("next");
    assert("group"@[0] != "topic"@[0]);
    assert("group"@[0] != "prompt"@[0]);
    assert("group"@[0] != "tags"@[0]);
    assert("group"@[0] != "code"@[0]);
    assert("topic"@[1] != "prompt"@[1]);
    assert("topic"@.len() != "tags"@.len());
    assert("topic"@[0] != "code"@[0]);
    assert("prompt"@[0] != "tags"@[0]);
    assert("prompt"@[0] != "code"@[0]);
    assert("tags"@[0] != "code"@[0]);
    assert("answer"@[0] != "memory_id"@[0]);
    assert("plan"@[0] != "next"@[0]);
}

// ---------------------------------------------------------------------------
// Tasks
// ---------------------------------------------------------------------------
/// A task to run.
#[derive(Debug, Clone)]
pub struct TaskSpec {
    pub id: Option<String>,
    pub group: String,
    pub topic: String,
    pub prompt: String,
    pub tags: Vec<String>,
    pub code: Option<String>,
}

/// A list of tasks run in rounds.
#[derive(Debug, Clone)]
pub struct BenchSuite {
    pub tasks: Vec<TaskSpec>,
}

impl BenchSuite {
    /// The suite read from the file at `path`, refused when it holds no
    /// task.
    pub fn checked(self, path: &str) -> (r: Result<BenchSuite, String>)
        ensures
            self.tasks@.len() > 0 ==> r == Ok::<BenchSuite, String>(self),
            self.tasks@.len() == 0 ==> (r matches Err(m) && m@ == "suite file "@ + path@
                + " must contain at least one task"@),
    {
        if self.tasks.len() == 0 {
            let mut m = String::from_str("suite file ");
            push_str(&mut m, path);
            push_str(&mut m, " must contain at least one task");
            Err(m)
        } else {
            Ok(self)
        }
    }

    /// The task of a round: the suite's tasks in turn.
    pub fn task_for_round(&self, round: usize) -> (t: &TaskSpec)
        requires
            self.tasks@.len() > 0,
        ensures
            *t == self.tasks@[round as int % self.tasks@.len() as int],
    {
        &self.tasks[round % self.tasks.len()]
    }
}

/// What a finished task reports.
#[derive(Debug, Clone)]
pub struct TaskOutcome {
    pub task_id: TaskId,
    pub mode: RunMode,
    pub answer: String,
    pub memory_hits: usize,
    pub state_transfers: usize,
    pub duration_ms: u64,
}

// ---------------------------------------------------------------------------
// The built-in agents
// ---------------------------------------------------------------------------
/// One of the built-in agents.
#[derive(Debug, Clone, Copy, PartialEq, Eq, Structural)]
pub enum BuiltinAgent {
    Planner,
    Retriever,
    Executor,
    Summarizer,
}

/// The agent's id.
pub open spec fn agent_name(agent: BuiltinAgent) -> Seq<char> {
    match agent {
        BuiltinAgent::Planner => "planner"@,
        BuiltinAgent::Retriever => "retriever"@,
        BuiltinAgent::Executor => "executor"@,
        BuiltinAgent::Summarizer => "summarizer"@,
    }
}

/// The agent's role.
pub open spec fn agent_role(agent: BuiltinAgent) -> AgentRole {
    match agent {
        BuiltinAgent::Planner => AgentRole::Planner,
        BuiltinAgent::Retriever => AgentRole::Retriever,
        BuiltinAgent::Executor => AgentRole::Executor,
        BuiltinAgent::Summarizer => AgentRole::Summarizer,
    }
}

/// The actions an agent offers.
pub open spec fn agent_actions(agent: BuiltinAgent) -> Seq<ActionType> {
    match agent {
        BuiltinAgent::Planner => seq![ActionType::PlanTask],
        BuiltinAgent::Retriever => seq![ActionType::SearchMemory, ActionType::ExtractEvidence],
        BuiltinAgent::Executor => seq![ActionType::ExecuteTool],
        BuiltinAgent::Summarizer => seq![ActionType::Summarize],
    }
}

/// The capability record of an agent for one action: JSON objects in,
/// JSON objects or state handles out, embeddings, evidence packs and tool
/// output accepted, 10 ms and 256 characters expected.
pub open spec fn capability_spec(c: Capability, agent_id: Seq<char>, role: AgentRole, action: ActionType) -> bool {
    &&& c.agent_id.0@ == agent_id
    &&& c.role == role
    &&& c.action == action
    &&& c.input_schema@ == "json-object"@
    &&& c.output_schema@ == "json-object-or-state-ref"@
    &&& c.accepted_state_formats@ == seq![
        StateFormat::EmbeddingF32,
        StateFormat::EvidencePackJson,
        StateFormat::ToolOutputJson,
    ]
    &&& c.cost_hint == (CostHint { expected_ms: 10, text_chars: 256 })
}

/// The capability record of an agent for one action.
pub fn capability(agent_id: AgentId, role: AgentRole, action: ActionType) -> (c: Capability)
    ensures
        capability_spec(c, agent_id.0@, role, action),
{
    let mut formats: Vec<StateFormat> = Vec::new();
    formats.push(StateFormat::EmbeddingF32);
    formats.push(StateFormat::EvidencePackJson);
    formats.push(StateFormat::ToolOutputJson);
    assert(formats@ =~= seq![
        StateFormat::EmbeddingF32,
        StateFormat::EvidencePackJson,
        StateFormat::ToolOutputJson,
    ]);
    Capability {
        agent_id,
        role,
        action,
        input_schema: String::from_str("json-object"),
        output_schema: String::from_str("json-object-or-state-ref"),
        accepted_state_formats: formats,
        cost_hint: CostHint { expected_ms: 10, text_chars: 256 },
    }
}

impl BuiltinAgent {
    /// The agent's id.
    pub fn id(&self) -> (a: AgentId)
        ensures
            a.0@ == agent_name(*self),
    {
        match self {
            BuiltinAgent::Planner => AgentId::new("planner"),
            BuiltinAgent::Retriever => AgentId::new("retriever"),
            BuiltinAgent::Executor => AgentId::new("executor"),
            BuiltinAgent::Summarizer => AgentId::new("summarizer"),
        }
    }

    /// The agent's role.
    pub fn role(&self) -> (r: AgentRole)
        ensures
            r == agent_role(*self),
    {
        match self {
            BuiltinAgent::Planner => AgentRole::Planner,
            BuiltinAgent::Retriever => AgentRole::Retriever,
            BuiltinAgent::Executor => AgentRole::Executor,
            BuiltinAgent::Summarizer => AgentRole::Summarizer,
        }
    }

    /// The capabilities the agent advertises, one per action it offers.
    pub fn capabilities(&self) -> (caps: Vec<Capability>)
        ensures
            caps@.len() == agent_actions(*self).len(),
            forall|i: int|
                0 <= i < caps@.len() ==> capability_spec(
                    #[trigger] caps@[i],
                    agent_name(*self),
                    agent_role(*self),
                    agent_actions(*self)[i],
                ),
    {
        let mut caps: Vec<Capability> = Vec::new();
        match self {
            BuiltinAgent::Planner => {
                caps.push(capability(self.id(), self.role(), ActionType::PlanTask));
            },
            BuiltinAgent::Retriever => {
                caps.push(capability(self.id(), self.role(), ActionType::SearchMemory));
                caps.push(capability(self.id(), self.role(), ActionType::ExtractEvidence));
            },
            BuiltinAgent::Executor => {
                caps.push(capability(self.id(), self.role(), ActionType::ExecuteTool));
            },
            BuiltinAgent::Summarizer => {
                caps.push(capability(self.id(), self.role(), ActionType::Summarize));
            },
        }
        caps
    }
}

/// The built-in agents in the order a runtime registers them.
pub open spec fn default_agent_list() -> Seq<BuiltinAgent> {
    seq![
        BuiltinAgent::Planner,
        BuiltinAgent::Retriever,
        BuiltinAgent::Executor,
        BuiltinAgent::Summarizer,
    ]
}

/// The built-in agents: planner, retriever, executor and summarizer.
pub fn default_agents() -> (agents: Vec<BuiltinAgent>)
    ensures
        agents@ == default_agent_list(),
{
    let mut agents: Vec<BuiltinAgent> = Vec::new();
    agents.push(BuiltinAgent::Planner);
    agents.push(BuiltinAgent::Retriever);
    agents.push(BuiltinAgent::Executor);
    agents.push(BuiltinAgent::Summarizer);
    assert(agents@ =~= default_agent_list());
    agents
}

/// The first agent of the list that plays the role; the error names the
/// missing role.
pub fn agent_for_role(agents: &Vec<BuiltinAgent>, role: AgentRole) -> (r: Result<
    BuiltinAgent,
    String,
>)
    ensures
        match r {
            Ok(a) => agent_role(a) == role && exists|i: int|
                0 <= i < agents@.len() && agents@[i] == a && forall|j: int|
                    0 <= j < i ==> agent_role(#[trigger] agents@[j]) != role,
            Err(msg) => msg@ == "agent not found: "@ + role_name(role) && forall|j: int|
                0 <= j < agents@.len() ==> agent_role(#[trigger] agents@[j]) != role,
        },
{
    let mut i: usize = 0;
    while i < agents.len()
        invariant
            i <= agents.len(),
            forall|j: int| 0 <= j < i ==> agent_role(#[trigger] agents@[j]) != role,
        decreases agents.len() - i,
    {
        if agents[i].role() == role {
            return Ok(agents[i]);
        }
        i = i + 1;
    }
    let mut msg = String::from_str("agent not found: ");
    let name = role.debug_name();
    push_str(&mut msg, name.as_str());
    Err(msg)
}

// ---------------------------------------------------------------------------
// Parameters
// ---------------------------------------------------------------------------
/// The parameters of a task: group, topic, prompt, the tags joined by
/// commas, and the code when there is some; nothing else.
pub open spec fn task_params_spec(p: Params, task: TaskSpec) -> bool {
    &&& p.wf()
    &&& p.value_of("group"@) == Some(task.group@)
    &&& p.value_of("topic"@) == Some(task.topic@)
    &&& p.value_of("prompt"@) == Some(task.prompt@)
    &&& p.value_of("tags"@) == Some(join(string_views(task.tags@), ","@))
    &&& p.value_of("code"@) == match task.code {
        Some(c) => Some(c@),
        None => None,
    }
    &&& forall|k: Seq<char>|
        k != "group"@ && k != "topic"@ && k != "prompt"@ && k != "tags"@ && k != "code"@
            ==> #[trigger] p.value_of(k) is None
}

/// The parameters of a task.
pub fn task_params(task: &TaskSpec) -> (p: Params)
    ensures
        task_params_spec(p, *task),
{
    proof {
        lemma_param_keys_distinct();
    }
    let mut p = Params::new();
    p.insert(String::from_str("group"), task.group.clone());
    p.insert(String::from_str("topic"), task.topic.clone());
    p.insert(String::from_str("prompt"), task.prompt.clone());
    p.insert(String::from_str("tags"), join_strings(&task.tags, ","));
    match &task.code {
        Some(code) => {
            p.insert(String::from_str("code"), code.clone());
        },
        None => {},
    }
    p
}

/// The parameters an agent reads from a message: those of an action
/// request; for a text message the text as the prompt and its guessed
/// topic; none otherwise.
pub open spec fn message_params_spec(p: Params, payload: Payload) -> bool {
    &&& p.wf()
    &&& match payload {
        Payload::ActionRequest(request) => p.pairs() == request.params.pairs(),
        Payload::Text(text) => {
            &&& p.value_of("prompt"@) == Some(text@)
            &&& p.value_of("topic"@) == Some(inferred_topic(text@))
            &&& forall|k: Seq<char>|
                k != "prompt"@ && k != "topic"@ ==> #[trigger] p.value_of(k) is None
        },
        _ => forall|k: Seq<char>| #[trigger] p.value_of(k) is None,
    }
}

/// The parameters an agent reads from a message.
pub fn params_from_message(msg: &Message) -> (p: Params)
    requires
        msg.payload matches Payload::ActionRequest(r) ==> r.params.wf(),
    ensures
        message_params_spec(p, msg.payload),
{
    match &msg.payload {
        Payload::ActionRequest(request) => request.params.duplicate(),
        Payload::Text(text) => {
            proof {
                lemma_param_keys_distinct();
            }
            let mut p = Params::new();
            p.insert(String::from_str("prompt"), text.clone());
            p.insert(String::from_str("topic"), infer_topic(text.as_str()));
            p
        },
        _ => Params::new(),
    }
}

/// The value under `key`, or `default` when there is none.
pub open spec fn param_or(p: Params, key: Seq<char>, default: Seq<char>) -> Seq<char> {
    match p.value_of(key) {
        Some(v) => v,
        None => default,
    }
}

/// The value under `key`, or `default` when there is none.
pub fn get_or(p: &Params, key: &str, default: &str) -> (s: String)
    ensures
        s@ == param_or(*p, key@, default@),
{
    match p.get(key) {
        Some(v) => v,
        None => String::from_str(default),
    }
}

/// The three pieces of evidence made up for a topic (`task` when the
/// parameters name none).
pub open spec fn synthetic_evidence_spec(params: Params) -> Seq<Seq<char>> {
    let topic = param_or(params, "topic"@, "task"@);
    seq![
        topic + ": structured protocol keeps action and parameters machine-readable"@,
        topic + ": StateRef avoids re-sending large evidence payloads"@,
        topic + ": shared memory enables linked follow-up reuse"@,
    ]
}

/// Makes up three pieces of evidence about the topic.
pub fn synthetic_evidence(params: &Params) -> (r: Vec<String>)
    ensures
        string_views(r@) == synthetic_evidence_spec(*params),
{
    let topic = get_or(params, "topic", "task");
    let mut a = topic.clone();
    push_str(&mut a, ": structured protocol keeps action and parameters machine-readable");
    let mut b = topic.clone();
    push_str(&mut b, ": StateRef avoids re-sending large evidence payloads");
    let mut c = topic.clone();
    push_str(&mut c, ": shared memory enables linked follow-up reuse");
    let mut r: Vec<String> = Vec::new();
    r.push(a);
    r.push(b);
    r.push(c);
    assert(string_views(r@) =~= synthetic_evidence_spec(*params));
    r
}

// ---------------------------------------------------------------------------
// Reading messages
// ---------------------------------------------------------------------------
/// A short description of a message's payload: the first 240 characters of
/// a text, the action and outcome of a result, the number of memory hits
/// or capabilities, the requested action, the query, the error code, or
/// `empty`.
pub open spec fn payload_brief(payload: Payload) -> Seq<char> {
    match payload {
        Payload::Text(text) => prefix(text@, 240),
        Payload::ActionResult(result) => action_name(result.action) + ":"@ + bool_text(
            result.success,
        ),
        Payload::MemoryHit(hit) => "memory_hits="@ + decimal(hit.hits@.len()),
        Payload::ActionRequest(request) => "request="@ + action_name(request.action),
        Payload::Capabilities(capabilities) => "capabilities="@ + decimal(capabilities@.len()),
        Payload::MemoryQuery { query, .. } => "memory_query="@ + query@,
        Payload::Error(error) => "error="@ + error.code@,
        Payload::Empty => "empty"@,
    }
}

/// A short description of a message's payload.
pub fn payload_summary(payload: &Payload) -> (s: String)
    ensures
        s@ == payload_brief(*payload),
{
    match payload {
        Payload::Text(text) => take_chars(text.as_str(), 240),
        Payload::ActionResult(result) => {
            let mut s = result.action.debug_name();
            push_str(&mut s, ":");
            if result.success {
                push_str(&mut s, "true");
            } else {
                push_str(&mut s, "false");
            }
            s
        },
        Payload::MemoryHit(hit) => {
            let mut s = String::from_str("memory_hits=");
            push_decimal(&mut s, hit.hits.len() as u128);
            s
        },
        Payload::ActionRequest(request) => {
            let mut s = String::from_str("request=");
            let name = request.action.debug_name();
            push_str(&mut s, name.as_str());
            s
        },
        Payload::Capabilities(capabilities) => {
            let mut s = String::from_str("capabilities=");
            push_decimal(&mut s, capabilities.len() as u128);
            s
        },
        Payload::MemoryQuery { query, .. } => {
            let mut s = String::from_str("memory_query=");
            push_str(&mut s, query.as_str());
            s
        },
        Payload::Error(error) => {
            let mut s = String::from_str("error=");
            push_str(&mut s, error.code.as_str());
            s
        },
        Payload::Empty => String::from_str("empty"),
    }
}

/// The short descriptions of the messages' payloads.
pub open spec fn briefs(messages: Seq<Message>) -> Seq<Seq<char>> {
    Seq::new(messages.len(), |i: int| payload_brief(messages[i].payload))
}

/// The descriptions of several messages joined by ` | `.
#[verifier::rlimit(40)]
pub fn compact_message_summaries(messages: &Vec<Message>) -> (s: String)
    ensures
        s@ == join(briefs(messages@), " | "@),
{
    let mut parts: Vec<String> = Vec::new();
    let mut i: usize = 0;
    while i < messages.len()
        invariant
            i <= messages.len(),
            string_views(parts@) == briefs(messages@).take(i as int),
        decreases messages.len() - i,
    {
        let ghost prev = parts@;
        let brief = payload_summary(&messages[i].payload);
        parts.push(brief);
        proof {
            crate::text::lemma_string_views_push(prev, brief);
        }
        i = i + 1;
        assert(string_views(parts@) =~= briefs(messages@).take(i as int));
    }
    assert(briefs(messages@).take(messages.len() as int) =~= briefs(messages@));
    join_strings(&parts, " | ")
}

/// A memory hit shortened for a reply: topic cut to 80 characters and
/// summary to 96, the rest unchanged.
pub open spec fn compact_hit_spec(c: MemoryHit, h: MemoryHit) -> bool {
    &&& c.memory_id == h.memory_id
    &&& c.topic@ == prefix(h.topic@, 80)
    &&& c.summary@ == prefix(h.summary@, 96)
    &&& c.score_bits == h.score_bits
    &&& c.reason@ == h.reason@
    &&& string_views(c.tags@) == string_views(h.tags@)
}

/// The first three hits, shortened for a reply.
pub fn compact_memory_hits(hits: &Vec<MemoryHit>) -> (r: Vec<MemoryHit>)
    ensures
        r@.len() == if hits@.len() < 3 {
            hits@.len()
        } else {
            3
        },
        forall|i: int| 0 <= i < r@.len() ==> compact_hit_spec(#[trigger] r@[i], hits@[i]),
{
    let mut r: Vec<MemoryHit> = Vec::new();
    let mut i: usize = 0;
    while i < hits.len() && i < 3
        invariant
            i <= hits.len(),
            i <= 3,
            r@.len() == i,
            forall|k: int| 0 <= k < i ==> compact_hit_spec(#[trigger] r@[k], hits@[k]),
        decreases hits.len() - i,
    {
        let h = &hits[i];
        let c = MemoryHit {
            memory_id: h.memory_id,
            topic: take_chars(h.topic.as_str(), 80),
            summary: take_chars(h.summary.as_str(), 96),
            score_bits: h.score_bits,
            reason: h.reason.clone(),
            tags: clone_strings(&h.tags),
        };
        r.push(c);
        i = i + 1;
    }
    r
}

/// The answer a message carries: the `answer` entry of an action result
/// (empty when missing), the text of a text message, empty otherwise.
pub open spec fn answer_of(payload: Payload) -> Seq<char> {
    match payload {
        Payload::ActionResult(result) => param_or(result.result, "answer"@, ""@),
        Payload::Text(text) => text@,
        _ => Seq::empty(),
    }
}

/// The answer a message carries.
pub fn extract_result(message: &Message) -> (s: String)
    ensures
        s@ == answer_of(message.payload),
{
    match &message.payload {
        Payload::ActionResult(result) => get_or(&result.result, "answer", ""),
        Payload::Text(text) => text.clone(),
        _ => String::new(),
    }
}

/// How many memory hits a reply carries: those of a memory-hit payload,
/// none for any other.
pub open spec fn hit_count_of(payload: Payload) -> nat {
    match payload {
        Payload::MemoryHit(p) => p.hits@.len(),
        _ => 0,
    }
}

/// How many memory hits a reply carries.
pub fn memory_hit_count(message: &Message) -> (n: usize)
    ensures
        n == hit_count_of(message.payload),
        message.payload matches Payload::MemoryHit(p) ==> n == p.hits@.len(),
        !(message.payload is MemoryHit) ==> n == 0,
{
    match &message.payload {
        Payload::MemoryHit(p) => p.hits.len(),
        _ => 0,
    }
}

// ---------------------------------------------------------------------------
// Requests
// ---------------------------------------------------------------------------
/// The payload of a request for `action` about a task: in text mode the
/// given text, in structured mode an action request with the task's
/// parameters that requires the same action.
pub open spec fn request_payload_spec(
    p: Payload,
    mode: RunMode,
    action: ActionType,
    text: Seq<char>,
    task: TaskSpec,
) -> bool {
    match mode {
        RunMode::Text => p matches Payload::Text(t) && t@ == text,
        RunMode::Structured => p matches Payload::ActionRequest(r) && r.action == action
            && r.required_capability == Some(action) && task_params_spec(r.params, task),
    }
}

/// The request payload for an action.
fn request_payload(mode: RunMode, action: ActionType, text: String, task: &TaskSpec) -> (p: Payload)
    ensures
        request_payload_spec(p, mode, action, text@, *task),
{
    match mode {
        RunMode::Text => Payload::Text(text),
        RunMode::Structured => Payload::ActionRequest(
            ActionRequest { action, params: task_params(task), required_capability: Some(action) },
        ),
    }
}

/// The code of a task, or nothing.
pub open spec fn code_or_empty(task: TaskSpec) -> Seq<char> {
    match task.code {
        Some(c) => c@,
        None => Seq::empty(),
    }
}

/// The text-mode request that asks the planner to plan a task.
pub open spec fn plan_text(task: TaskSpec) -> Seq<char> {
    "Please plan this"@ + " task. group="@ + task.group@ + " topic="@ + task.topic@ + " tags="@ + join(
        string_views(task.tags@),
        ","@,
    ) + " prompt="@ + task.prompt@ + " code="@ + code_or_empty(task)
}

/// A message from the runtime (or from `from`) to an agent.
pub open spec fn addressed(m: Message, from: Seq<char>, to: Seq<char>, kind: MessageKind) -> bool {
    &&& m.from.0@ == from
    &&& m.to matches Target::Agent(a) && a.0@ == to
    &&& m.kind == kind
    &&& m.metrics == (crate::protocol::MessageMetrics {
        text_chars: 0,
        encoded_bytes: 0,
        state_bytes: 0,
    })
}

/// The request that asks the planner to plan a task.
pub fn message_from_task(mode: RunMode, task: &TaskSpec, planner_id: &AgentId) -> (m: Message)
    ensures
        addressed(m, "runtime"@, planner_id.0@, MessageKind::ActionRequest),
        request_payload_spec(m.payload, mode, ActionType::PlanTask, plan_text(*task), *task),
        m.state_refs@.len() == 0,
{
    let mut text = String::from_str("Please plan this");
    push_str(&mut text, " task. group=");
    push_str(&mut text, task.group.as_str());
    push_str(&mut text, " topic=");
    push_str(&mut text, task.topic.as_str());
    push_str(&mut text, " tags=");
    let tags = join_strings(&task.tags, ",");
    push_str(&mut text, tags.as_str());
    push_str(&mut text, " prompt=");
    push_str(&mut text, task.prompt.as_str());
    push_str(&mut text, " code=");
    match &task.code {
        Some(code) => push_str(&mut text, code.as_str()),
        None => {},
    }
    let payload = request_payload(mode, ActionType::PlanTask, text, task);
    Message::new(
        AgentId::new("runtime"),
        Target::Agent(planner_id.duplicate()),
        MessageKind::ActionRequest,
        payload,
        Vec::new(),
    )
}

/// The text-mode request that hands a task on to the next agent.
pub open spec fn next_text(action: ActionType, task: TaskSpec) -> Seq<char> {
    "Execute "@ + action_name(action) + " for topic '"@ + task.topic@ + "'. Full context: "@
        + task.prompt@ + ". Tags: "@ + join(string_views(task.tags@), ", "@)
        + ". Previous state is inlined in text mode."@
}

/// The request from one agent to the next for an action, carrying the
/// given state handles.
pub fn next_request(
    from: AgentId,
    to: AgentId,
    action: ActionType,
    task: &TaskSpec,
    mode: RunMode,
    state_refs: Vec<StateRef>,
) -> (m: Message)
    ensures
        addressed(m, from.0@, to.0@, MessageKind::ActionRequest),
        request_payload_spec(m.payload, mode, action, next_text(action, *task), *task),
        m.state_refs == state_refs,
{
    let mut text = String::from_str("Execute ");
    let name = action.debug_name();
    push_str(&mut text, name.as_str());
    push_str(&mut text, " for topic '");
    push_str(&mut text, task.topic.as_str());
    push_str(&mut text, "'. Full context: ");
    push_str(&mut text, task.prompt.as_str());
    push_str(&mut text, ". Tags: ");
    let tags = join_strings(&task.tags, ", ");
    push_str(&mut text, tags.as_str());
    push_str(&mut text, ". Previous state is inlined in text mode.");
    let payload = request_payload(mode, action, text, task);
    Message::new(from, Target::Agent(to), MessageKind::ActionRequest, payload, state_refs)
}

/// The text-mode request that asks the summarizer to conclude a task.
pub open spec fn summary_text_request(task: TaskSpec, messages: Seq<Message>) -> Seq<char> {
    "Summarize task '"@ + task.topic@ + "' using "@ + decimal(messages.len())
        + " prior messages. Text mode keeps evidence inline but avoids StateRef handles. Prior summaries: "@
        + join(briefs(messages), " | "@)
}

/// The request that asks the summarizer to conclude a task from the
/// earlier replies, carrying their state handles.
pub fn summary_request(
    task: &TaskSpec,
    mode: RunMode,
    summarizer_id: &AgentId,
    messages: &Vec<Message>,
    state_refs: Vec<StateRef>,
) -> (m: Message)
    ensures
        addressed(m, "runtime"@, summarizer_id.0@, MessageKind::ActionRequest),
        request_payload_spec(
            m.payload,
            mode,
            ActionType::Summarize,
            summary_text_request(*task, messages@),
            *task,
        ),
        m.state_refs == state_refs,
{
    let mut text = String::from_str("Summarize task '");
    push_str(&mut text, task.topic.as_str());
    push_str(&mut text, "' using ");
    push_decimal(&mut text, messages.len() as u128);
    push_str(
        &mut text,
        " prior messages. Text mode keeps evidence inline but avoids StateRef handles. Prior summaries: ",
    );
    let briefs = compact_message_summaries(messages);
    push_str(&mut text, briefs.as_str());
    let payload = request_payload(mode, ActionType::Summarize, text, task);
    Message::new(
        AgentId::new("runtime"),
        Target::Agent(summarizer_id.duplicate()),
        MessageKind::ActionRequest,
        payload,
        state_refs,
    )
}

/// The message in which the runtime advertises an agent's capabilities to
/// it.
pub fn capability_advert(agent: BuiltinAgent) -> (m: Message)
    ensures
        addressed(m, "runtime"@, agent_name(agent), MessageKind::CapabilityAdvertise),
        m.payload matches Payload::Capabilities(caps) && caps@.len() == agent_actions(
            agent,
        ).len() && forall|i: int|
            0 <= i < caps@.len() ==> capability_spec(
                #[trigger] caps@[i],
                agent_name(agent),
                agent_role(agent),
                agent_actions(agent)[i],
            ),
        m.state_refs@.len() == 0,
{
    Message::new(
        AgentId::new("runtime"),
        Target::Agent(agent.id()),
        MessageKind::CapabilityAdvertise,
        Payload::Capabilities(agent.capabilities()),
        Vec::new(),
    )
}

// ---------------------------------------------------------------------------
// Events
// ---------------------------------------------------------------------------
/// The event that registers an agent: its id, its role's name and how many
/// capabilities it has.
pub open spec fn registered_spec(e: EventKind, agent: BuiltinAgent) -> bool {
    e matches EventKind::AgentRegistered { agent_id, role, capability_count } && agent_id@
        == agent_name(agent) && role@ == role_name(agent_role(agent)) && capability_count
        == agent_actions(agent).len()
}

/// The event that registers an agent.
pub fn agent_registered(agent: BuiltinAgent) -> (e: EventKind)
    ensures
        registered_spec(e, agent),
{
    let caps = agent.capabilities();
    let id = agent.id();
    EventKind::AgentRegistered {
        agent_id: id.0,
        role: agent.role().debug_name(),
        capability_count: caps.len(),
    }
}

/// The event that a state moved to `consumer`.
pub open spec fn transfer_spec(e: EventKind, r: StateRef, consumer: Seq<char>) -> bool {
    e matches EventKind::StateTransfer { state_id, format, byte_len, producer, consumer: c }
        && state_id == r.state_id && format@ == format_name(r.format) && byte_len == r.byte_len
        && producer@ == r.producer.0@ && c@ == consumer
}

/// The event that a state moved to `consumer`.
pub fn state_transfer(r: &StateRef, consumer: &str) -> (e: EventKind)
    ensures
        transfer_spec(e, *r, consumer@),
{
    EventKind::StateTransfer {
        state_id: r.state_id,
        format: r.format.debug_name(),
        byte_len: r.byte_len,
        producer: r.producer.0.clone(),
        consumer: String::from_str(consumer),
    }
}

/// The events recorded for a message: its metrics, then one transfer to
/// the message's target for each state it carries.
pub open spec fn message_events_spec(events: Seq<EventKind>, m: Message) -> bool {
    &&& events.len() == 1 + m.state_refs@.len()
    &&& events[0] matches EventKind::MessageMetric {
        from,
        to,
        kind,
        text_chars,
        encoded_bytes,
        state_bytes,
    } && from@ == m.from.0@ && to@ == target_debug(m.to) && kind == m.kind && text_chars
        == m.metrics.text_chars && encoded_bytes == m.metrics.encoded_bytes && state_bytes
        == m.metrics.state_bytes
    &&& forall|i: int|
        0 <= i < m.state_refs@.len() ==> transfer_spec(
            #[trigger] events[i + 1],
            m.state_refs@[i],
            target_debug(m.to),
        )
}

/// The events recorded for a message.
pub fn message_events(m: &Message) -> (events: Vec<EventKind>)
    ensures
        message_events_spec(events@, *m),
{
    let to = m.to.debug_text();
    let mut events: Vec<EventKind> = Vec::new();
    events.push(
        EventKind::MessageMetric {
            from: m.from.0.clone(),
            to: to.clone(),
            kind: m.kind,
            text_chars: m.metrics.text_chars,
            encoded_bytes: m.metrics.encoded_bytes,
            state_bytes: m.metrics.state_bytes,
        },
    );
    let mut i: usize = 0;
    while i < m.state_refs.len()
        invariant
            i <= m.state_refs.len(),
            to@ == target_debug(m.to),
            events@.len() == 1 + i,
            events@[0] matches EventKind::MessageMetric {
                from,
                to: t,
                kind,
                text_chars,
                encoded_bytes,
                state_bytes,
            } && from@ == m.from.0@ && t@ == target_debug(m.to) && kind == m.kind && text_chars
                == m.metrics.text_chars && encoded_bytes == m.metrics.encoded_bytes && state_bytes
                == m.metrics.state_bytes,
            forall|k: int|
                0 <= k < i ==> transfer_spec(
                    #[trigger] events@[k + 1],
                    m.state_refs@[k],
                    target_debug(m.to),
                ),
        decreases m.state_refs.len() - i,
    {
        let e = state_transfer(&m.state_refs[i], to.as_str());
        events.push(e);
        i = i + 1;
    }
    events
}

/// The transfers recorded once the summarizer has answered: one for each
/// state its answer carries, consumed by the summarizer.
pub fn summary_transfers(summary: &Message) -> (events: Vec<EventKind>)
    ensures
        events@.len() == summary.state_refs@.len(),
        forall|i: int|
            0 <= i < events@.len() ==> transfer_spec(
                #[trigger] events@[i],
                summary.state_refs@[i],
                "summarizer"@,
            ),
{
    let mut events: Vec<EventKind> = Vec::new();
    let mut i: usize = 0;
    while i < summary.state_refs.len()
        invariant
            i <= summary.state_refs.len(),
            events@.len() == i,
            forall|k: int|
                0 <= k < i ==> transfer_spec(
                    #[trigger] events@[k],
                    summary.state_refs@[k],
                    "summarizer"@,
                ),
        decreases summary.state_refs.len() - i,
    {
        events.push(state_transfer(&summary.state_refs[i], "summarizer"));
        i = i + 1;
    }
    events
}

/// The event that closes a task.
pub fn task_finished(mode: RunMode, duration_ms: u64) -> (e: EventKind)
    ensures
        e == (EventKind::TaskFinished { mode, success: true, duration_ms }),
{
    EventKind::TaskFinished { mode, success: true, duration_ms }
}

// ---------------------------------------------------------------------------
// What the agents answer
// ---------------------------------------------------------------------------
/// The plan the planner writes for a topic.
pub open spec fn plan_for(topic: Seq<char>) -> Seq<char> {
    "1) search reusable memory for "@ + topic
        + "; 2) collect evidence; 3) summarize and persist memory"@
}

/// A parameter of a request as an agent reads it: from the parameters of
/// an action request; for a text message the text is the prompt and its
/// guessed topic the topic; `default` for anything missing.
pub open spec fn request_param(payload: Payload, key: Seq<char>, default: Seq<char>) -> Seq<char> {
    match payload {
        Payload::ActionRequest(r) => param_or(r.params, key, default),
        Payload::Text(t) => if key == "prompt"@ {
            t@
        } else if key == "topic"@ {
            inferred_topic(t@)
        } else {
            default
        },
        _ => default,
    }
}

/// Reading a parameter from the parameters of a message is reading it from
/// the message.
pub proof fn lemma_request_param(p: Params, payload: Payload, key: Seq<char>, default: Seq<char>)
    requires
        message_params_spec(p, payload),
    ensures
        param_or(p, key, default) == request_param(payload, key, default),
{
    lemma_param_keys_distinct();
}

/// Reads a parameter of a request.
pub fn read_param(request: &Message, params: &Params, key: &str, default: &str) -> (s: String)
    requires
        message_params_spec(*params, request.payload),
    ensures
        s@ == request_param(request.payload, key@, default@),
{
    proof {
        lemma_request_param(*params, request.payload, key@, default@);
    }
    get_or(params, key, default)
}

/// The planner's answer to a request.
pub fn planner_reply(request: &Message) -> (reply: Message)
    requires
        request.payload matches Payload::ActionRequest(r) ==> r.params.wf(),
    ensures
        reply.from.0@ == "planner"@,
        reply.to == Target::Role(AgentRole::Retriever),
        reply.kind == MessageKind::ActionResult,
        reply.state_refs@.len() == 0,
        reply.payload matches Payload::ActionResult(r) && r.action == ActionType::PlanTask
            && r.success && r.memory_candidates@.len() == 0 && r.result.wf() && r.result.value_of(
            "plan"@,
        ) == Some(plan_for(request_param(request.payload, "topic"@, "unknown"@)))
            && r.result.value_of("next"@) == Some("retriever"@) && forall|k: Seq<char>|
            k != "plan"@ && k != "next"@ ==> #[trigger] r.result.value_of(k) is None,
{
    proof {
        lemma_param_keys_distinct();
    }
    let params = params_from_message(request);
    let topic = read_param(request, &params, "topic", "unknown");
    let mut plan = String::from_str("1) search reusable memory for ");
    push_str(&mut plan, topic.as_str());
    push_str(&mut plan, "; 2) collect evidence; 3) summarize and persist memory");
    let mut result = Params::new();
    result.insert(String::from_str("plan"), plan);
    result.insert(String::from_str("next"), String::from_str("retriever"));
    Message::new(
        AgentId::new("planner"),
        Target::Role(AgentRole::Retriever),
        MessageKind::ActionResult,
        Payload::ActionResult(
            ActionResult {
                action: ActionType::PlanTask,
                success: true,
                result,
                memory_candidates: Vec::new(),
            },
        ),
        Vec::new(),
    )
}

/// The bits of the `f32` score 0.20 from which a memory hit is adopted.
pub const ADOPTION_THRESHOLD_BITS: u32 = 0x3E4C_CCCDu32;

/// Whether a hit scores at least 0.20.
pub open spec fn adopted(hit: MemoryHit) -> bool {
    crate::protocol::f32_bits_at_least(hit.score_bits, ADOPTION_THRESHOLD_BITS)
}

/// Whether a hit is adopted.
pub fn is_adopted(hit: &MemoryHit) -> (b: bool)
    ensures
        b == adopted(*hit),
{
    hit.score_bits >= ADOPTION_THRESHOLD_BITS && hit.score_bits <= crate::protocol::F32_INFINITY_BITS
}

/// How many hits are adopted.
pub open spec fn adopted_total(hits: Seq<MemoryHit>) -> nat
    decreases hits.len(),
{
    if hits.len() == 0 {
        0
    } else {
        adopted_total(hits.drop_last()) + if adopted(hits.last()) {
            1nat
        } else {
            0nat
        }
    }
}

/// Counts the adopted hits.
pub fn adopted_count(hits: &Vec<MemoryHit>) -> (n: usize)
    ensures
        n == adopted_total(hits@),
{
    let mut n: usize = 0;
    let mut i: usize = 0;
    while i < hits.len()
        invariant
            i <= hits.len(),
            n <= i,
            n == adopted_total(hits@.take(i as int)),
        decreases hits.len() - i,
    {
        assert(hits@.take(i + 1 as int).drop_last() == hits@.take(i as int));
        if is_adopted(&hits[i]) {
            n = n + 1;
        }
        i = i + 1;
    }
    assert(hits@.take(hits.len() as int) == hits@);
    n
}

/// What the retriever looks up.
pub struct RetrievalQuery {
    pub topic: String,
    pub prompt: String,
    pub tags: Vec<String>,
    pub text: String,
}

/// What the retriever looks up for a request: the prompt (empty when
/// missing), the topic (the prompt when missing), the comma-separated tags,
/// and the query text `topic prompt`.
pub fn retrieval_query(request: &Message) -> (q: RetrievalQuery)
    requires
        request.payload matches Payload::ActionRequest(r) ==> r.params.wf(),
    ensures
        q.prompt@ == request_param(request.payload, "prompt"@, ""@),
        q.topic@ == request_param(request.payload, "topic"@, q.prompt@),
        string_views(q.tags@) == csv_items(request_param(request.payload, "tags"@, ""@)),
        q.text@ == q.topic@ + " "@ + q.prompt@,
{
    let params = params_from_message(request);
    let prompt = read_param(request, &params, "prompt", "");
    let topic = read_param(request, &params, "topic", prompt.as_str());
    let tag_text = read_param(request, &params, "tags", "");
    let tags = split_csv(tag_text.as_str());
    let mut text = topic.clone();
    push_str(&mut text, " ");
    push_str(&mut text, prompt.as_str());
    RetrievalQuery { topic, prompt, tags, text }
}

/// The event that records a memory query: the topic, the number of hits
/// and the number adopted.
pub fn memory_query_event(topic: &str, hit_count: usize, adopted: usize) -> (e: EventKind)
    ensures
        e matches EventKind::MemoryQuery { query, hit_count: h, adopted_count: a } && query@
            == topic@ && h == hit_count && a == adopted,
{
    EventKind::MemoryQuery {
        query: String::from_str(topic),
        hit_count,
        adopted_count: adopted,
    }
}

/// The record that a task adopted a hit, stamped with the current time.
pub fn reuse_event(hit: &MemoryHit, task_id: TaskId) -> (e: MemoryReuseEvent)
    ensures
        e.memory_id == hit.memory_id,
        e.task_id == task_id,
        e.adopted,
        e.reason@ == hit.reason@,
{
    MemoryReuseEvent {
        memory_id: hit.memory_id,
        task_id,
        adopted: true,
        reason: hit.reason.clone(),
        created_at: now_micros(),
    }
}

/// An hour, the life of the states that agents store, in microseconds.
pub const STATE_TTL_MICROS: u64 = 3_600_000_000u64;

/// How many memories the retriever asks for at most.
pub const SEARCH_LIMIT: usize = 5usize;

/// The length of the embeddings that agents compute for queries and
/// summaries.
pub const EMBEDDING_DIMS: usize = 32usize;

/// How the retriever describes the evidence pack it stores.
pub fn evidence_meta() -> (m: StateMeta)
    ensures
        m.producer.0@ == "retriever"@,
        m.format == StateFormat::EvidencePackJson,
        m.shape is None,
        m.ttl == Some(STATE_TTL_MICROS),
{
    StateMeta {
        producer: AgentId::new("retriever"),
        format: StateFormat::EvidencePackJson,
        shape: None,
        ttl: Some(STATE_TTL_MICROS),
    }
}

/// How the retriever describes the query embedding it stores.
pub fn embedding_meta(dims: usize) -> (m: StateMeta)
    ensures
        m.producer.0@ == "retriever"@,
        m.format == StateFormat::EmbeddingF32,
        m.shape matches Some(s) && s@ == seq![dims],
        m.ttl == Some(STATE_TTL_MICROS),
{
    let mut shape: Vec<usize> = Vec::new();
    shape.push(dims);
    StateMeta {
        producer: AgentId::new("retriever"),
        format: StateFormat::EmbeddingF32,
        shape: Some(shape),
        ttl: Some(STATE_TTL_MICROS),
    }
}

/// The retriever's answer: in structured mode the first three hits,
/// shortened, with the stored states; in text mode the evidence inline and
/// no state handle.
pub fn retriever_reply(
    mode: RunMode,
    hits: &Vec<MemoryHit>,
    evidence_json: &str,
    state_refs: Vec<StateRef>,
) -> (m: Message)
    ensures
        m.from.0@ == "retriever"@,
        m.to == Target::Role(AgentRole::Summarizer),
        m.kind == MessageKind::MemoryHit,
        m.state_refs@ == handed(mode, state_refs@),
        match mode {
            RunMode::Structured => m.payload matches Payload::MemoryHit(p) && p.hits@.len() == (
            if hits@.len() < 3 {
                hits@.len()
            } else {
                3
            }) && forall|i: int|
                0 <= i < p.hits@.len() ==> compact_hit_spec(#[trigger] p.hits@[i], hits@[i]),
            RunMode::Text => m.payload matches Payload::Text(t) && t@
                == "Retrieved evidence and memories inline: "@ + evidence_json@,
        },
{
    let payload = match mode {
        RunMode::Structured => Payload::MemoryHit(
            MemoryHitPayload { hits: compact_memory_hits(hits) },
        ),
        RunMode::Text => {
            let mut t = String::from_str("Retrieved evidence and memories inline: ");
            push_str(&mut t, evidence_json);
            Payload::Text(t)
        },
    };
    let handed_refs = if shares_memory(mode) {
        state_refs
    } else {
        Vec::new()
    };
    Message::new(
        AgentId::new("retriever"),
        Target::Role(AgentRole::Summarizer),
        MessageKind::MemoryHit,
        payload,
        handed_refs,
    )
}

/// The line and `TODO` counts of a piece of code.
pub fn code_stats(code: &str) -> (r: (usize, usize))
    ensures
        r.0 == line_count(code@),
        r.1 == match_count(code@, "TODO"@),
{
    proof {
        reveal_strlit("TODO");
    }
    (count_lines(code), count_matches(code, "TODO"))
}

/// The Python script that counts the lines and `TODO`s of the code inside
/// the sandbox.
pub open spec fn analysis_script_text(code: Seq<char>) -> Seq<char> {
    "code = "@ + json_string_literal(code)
        + "\nprint({\"line_count\": len(code.splitlines()), \"todo_count\": code.count(\"TODO\")})"@
}

/// The sandbox request that analyses a piece of code: the analysis script
/// in Python with the given input states, 2 s and 8 KiB of output.
pub fn analysis_request(code: &str, input_refs: Vec<StateRef>) -> (r: SandboxRequest)
    ensures
        r.code@ == analysis_script_text(code@),
        r.language == SandboxLanguage::Python,
        r.input_refs == input_refs,
        r.timeout_ms == 2000,
        r.max_output_bytes == 8 * 1024,
{
    let mut script = String::from_str("code = ");
    let quoted = json_quote(code);
    push_str(&mut script, quoted.as_str());
    push_str(
        &mut script,
        "\nprint({\"line_count\": len(code.splitlines()), \"todo_count\": code.count(\"TODO\")})",
    );
    SandboxRequest {
        code: script,
        language: SandboxLanguage::Python,
        input_refs,
        timeout_ms: 2_000,
        max_output_bytes: 8 * 1024,
    }
}

/// How the executor describes the tool output it stores.
pub fn tool_output_meta() -> (m: StateMeta)
    ensures
        m.producer.0@ == "executor"@,
        m.format == StateFormat::ToolOutputJson,
        m.shape is None,
        m.ttl == Some(STATE_TTL_MICROS),
{
    StateMeta {
        producer: AgentId::new("executor"),
        format: StateFormat::ToolOutputJson,
        shape: None,
        ttl: Some(STATE_TTL_MICROS),
    }
}

/// A successful result of an action with one entry.
pub open spec fn single_result(p: Payload, action: ActionType, key: Seq<char>, value: Seq<char>) -> bool {
    p matches Payload::ActionResult(r) && r.action == action && r.success
        && r.memory_candidates@.len() == 0 && r.result.wf() && r.result.value_of(key) == Some(value)
        && forall|k: Seq<char>| k != key ==> #[trigger] r.result.value_of(k) is None
}

fn single_result_payload(action: ActionType, key: &str, value: String) -> (p: Payload)
    ensures
        single_result(p, action, key@, value@),
{
    let mut result = Params::new();
    result.insert(String::from_str(key), value);
    Payload::ActionResult(
        ActionResult { action, success: true, result, memory_candidates: Vec::new() },
    )
}

/// The executor's answer: in structured mode a successful tool result that
/// points at the attached state; in text mode the tool output inline and
/// no state handle.
pub fn executor_reply(mode: RunMode, result_json: &str, state_refs: Vec<StateRef>) -> (m: Message)
    ensures
        m.from.0@ == "executor"@,
        m.to == Target::Role(AgentRole::Summarizer),
        m.kind == MessageKind::ActionResult,
        m.state_refs@ == handed(mode, state_refs@),
        match mode {
            RunMode::Structured => single_result(
                m.payload,
                ActionType::ExecuteTool,
                "tool_output_ref"@,
                "attached"@,
            ),
            RunMode::Text => m.payload matches Payload::Text(t) && t@ == "Tool output inline: "@
                + result_json@,
        },
{
    let payload = match mode {
        RunMode::Structured => single_result_payload(
            ActionType::ExecuteTool,
            "tool_output_ref",
            String::from_str("attached"),
        ),
        RunMode::Text => {
            let mut t = String::from_str("Tool output inline: ");
            push_str(&mut t, result_json);
            Payload::Text(t)
        },
    };
    let handed_refs = if shares_memory(mode) {
        state_refs
    } else {
        Vec::new()
    };
    Message::new(
        AgentId::new("executor"),
        Target::Role(AgentRole::Summarizer),
        MessageKind::ActionResult,
        payload,
        handed_refs,
    )
}

/// The executor result that stands in when a task has no code: a
/// successful tool result saying that no tool ran.
pub fn no_tool_result() -> (m: Message)
    ensures
        addressed(m, "executor"@, "summarizer"@, MessageKind::ActionResult),
        single_result(m.payload, ActionType::ExecuteTool, "result"@, "no tool execution requested"@),
        m.state_refs@.len() == 0,
{
    let payload = single_result_payload(
        ActionType::ExecuteTool,
        "result",
        String::from_str("no tool execution requested"),
    );
    Message::new(
        AgentId::new("executor"),
        Target::Agent(AgentId::new("summarizer")),
        MessageKind::ActionResult,
        payload,
        Vec::new(),
    )
}

/// The formats that the summarizer reads as evidence.
pub open spec fn evidence_format(format: StateFormat) -> bool {
    format == StateFormat::EvidencePackJson || format == StateFormat::ToolOutputJson
}

/// Whether the summarizer reads a state of this format as evidence.
pub fn reads_evidence(format: StateFormat) -> (b: bool)
    ensures
        b == evidence_format(format),
{
    match format {
        StateFormat::EvidencePackJson => true,
        StateFormat::ToolOutputJson => true,
        _ => false,
    }
}

/// How many of the handles are evidence whose state could be read;
/// `readable[i]` tells whether fetching `refs[i]` succeeded.
pub open spec fn evidence_total(refs: Seq<StateRef>, readable: Seq<bool>) -> nat
    decreases refs.len(),
{
    if refs.len() == 0 {
        0
    } else {
        evidence_total(refs.drop_last(), readable.take(refs.len() - 1)) + if evidence_format(
            refs.last().format,
        ) && readable[refs.len() - 1] {
            1nat
        } else {
            0nat
        }
    }
}

/// Counts the evidence states that could be read: those of an evidence
/// format whose fetch succeeded.
pub fn evidence_count(refs: &Vec<StateRef>, readable: &Vec<bool>) -> (n: usize)
    requires
        refs.len() == readable.len(),
    ensures
        n == evidence_total(refs@, readable@),
{
    let mut n: usize = 0;
    let mut i: usize = 0;
    while i < refs.len()
        invariant
            i <= refs.len() == readable.len(),
            n <= i,
            n == evidence_total(refs@.take(i as int), readable@.take(i as int)),
        decreases refs.len() - i,
    {
        assert(refs@.take(i + 1 as int).drop_last() == refs@.take(i as int));
        assert(readable@.take(i + 1 as int).take(i as int) == readable@.take(i as int));
        if reads_evidence(refs[i].format) && readable[i] {
            n = n + 1;
        }
        i = i + 1;
    }
    assert(refs@.take(refs.len() as int) == refs@);
    assert(readable@.take(readable.len() as int) == readable@);
    n
}

/// What the summarizer works from.
pub struct SummaryInputs {
    pub topic: String,
    pub prompt: String,
    pub tags: Vec<String>,
}

/// What the summarizer works from: the topic (`general` when missing), the
/// prompt (empty when missing) and the comma-separated tags.
pub fn summary_inputs(request: &Message) -> (s: SummaryInputs)
    requires
        request.payload matches Payload::ActionRequest(r) ==> r.params.wf(),
    ensures
        s.topic@ == request_param(request.payload, "topic"@, "general"@),
        s.prompt@ == request_param(request.payload, "prompt"@, ""@),
        string_views(s.tags@) == csv_items(request_param(request.payload, "tags"@, ""@)),
{
    let params = params_from_message(request);
    let topic = read_param(request, &params, "topic", "general");
    let prompt = read_param(request, &params, "prompt", "");
    let tag_text = read_param(request, &params, "tags", "");
    SummaryInputs { topic, prompt, tags: split_csv(tag_text.as_str()) }
}

/// The characters of a text payload; none for any other.
pub open spec fn inline_chars(payload: Payload) -> nat {
    match payload {
        Payload::Text(t) => t@.len(),
        _ => 0,
    }
}

/// The summarizer's answer text: in structured mode it names the topic,
/// the number of states it was handed, the number of evidence items it
/// read and the prompt; in text mode the topic, the characters of the
/// inline request and the prompt.
pub open spec fn summary_answer_text(
    mode: RunMode,
    topic: Seq<char>,
    prompt: Seq<char>,
    state_ref_count: nat,
    evidence_count: nat,
    request: Payload,
) -> Seq<char> {
    match mode {
        RunMode::Structured => "Structured answer for '"@ + topic + "': reused state_refs="@
            + decimal(state_ref_count) + ", evidence_items="@ + decimal(evidence_count)
            + ", prompt='"@ + prompt + "'"@,
        RunMode::Text => "Text answer for '"@ + topic + "': summarized "@ + decimal(
            inline_chars(request),
        ) + " inline characters for prompt='"@ + prompt + "'"@,
    }
}

/// Writes the summarizer's answer text.
pub fn summary_answer(
    mode: RunMode,
    topic: &str,
    prompt: &str,
    state_ref_count: usize,
    evidence_count: usize,
    request: &Payload,
) -> (s: String)
    ensures
        s@ == summary_answer_text(
            mode,
            topic@,
            prompt@,
            state_ref_count as nat,
            evidence_count as nat,
            *request,
        ),
{
    match mode {
        RunMode::Structured => {
            let mut s = String::from_str("Structured answer for '");
            push_str(&mut s, topic);
            push_str(&mut s, "': reused state_refs=");
            push_decimal(&mut s, state_ref_count as u128);
            push_str(&mut s, ", evidence_items=");
            push_decimal(&mut s, evidence_count as u128);
            push_str(&mut s, ", prompt='");
            push_str(&mut s, prompt);
            push_str(&mut s, "'");
            s
        },
        RunMode::Text => {
            let count: usize = match request {
                Payload::Text(t) => chars_of(t.as_str()).len(),
                _ => 0,
            };
            let mut s = String::from_str("Text answer for '");
            push_str(&mut s, topic);
            push_str(&mut s, "': summarized ");
            push_decimal(&mut s, count as u128);
            push_str(&mut s, " inline characters for prompt='");
            push_str(&mut s, prompt);
            push_str(&mut s, "'");
            s
        },
    }
}

/// The text the summary's embedding is made from: topic, answer and tags.
pub fn summary_embedding_text(topic: &str, summary: &str, tags: &Vec<String>) -> (s: String)
    ensures
        s@ == topic@ + " "@ + summary@ + " "@ + join(string_views(tags@), " "@),
{
    let mut s = String::from_str(topic);
    push_str(&mut s, " ");
    push_str(&mut s, summary);
    push_str(&mut s, " ");
    let t = join_strings(tags, " ");
    push_str(&mut s, t.as_str());
    s
}

/// The keywords remembered with a summary: those of its topic, prompt and
/// answer together.
pub fn summary_keywords(topic: &str, prompt: &str, summary: &str) -> (r: Vec<String>)
    ensures
        string_views(r@) == keywords_of(topic@ + " "@ + prompt@ + " "@ + summary@),
{
    let mut s = String::from_str(topic);
    push_str(&mut s, " ");
    push_str(&mut s, prompt);
    push_str(&mut s, " ");
    push_str(&mut s, summary);
    keywords(s.as_str())
}

/// What the summarizer remembers of a task, but for the embedding: a fresh
/// id, itself as the source, the current time, the topic, the answer, the
/// tags, the keywords of topic, prompt and answer, and the states it was
/// handed as evidence.
pub fn summary_memory(
    topic: &str,
    prompt: &str,
    summary: &str,
    tags: &Vec<String>,
    evidence: &Vec<StateRef>,
) -> (r: MemoryRecord)
    ensures
        r.source_agent.0@ == "summarizer"@,
        r.task_topic@ == topic@,
        r.summary@ == summary@,
        string_views(r.tags@) == string_views(tags@),
        string_views(r.keywords@) == keywords_of(topic@ + " "@ + prompt@ + " "@ + summary@),
        same_refs(r.evidence_refs@, evidence@),
{
    MemoryRecord {
        memory_id: new_id(),
        source_agent: AgentId::new("summarizer"),
        created_at: now_micros(),
        task_topic: String::from_str(topic),
        summary: String::from_str(summary),
        tags: clone_strings(tags),
        keywords: summary_keywords(topic, prompt, summary),
        evidence_refs: duplicate_refs(evidence),
    }
}

/// The event that a memory was written by the summarizer.
pub fn memory_written_event(memory_id: u128, topic: &str) -> (e: EventKind)
    ensures
        e matches EventKind::MemoryWritten { memory_id: m, topic: t, source_agent } && m
            == memory_id && t@ == topic@ && source_agent@ == "summarizer"@,
{
    EventKind::MemoryWritten {
        memory_id,
        topic: String::from_str(topic),
        source_agent: String::from_str("summarizer"),
    }
}

/// The summarizer's answer to the runtime: a successful summary result
/// with the answer and, when it wrote one, the id of the memory it wrote,
/// carrying the states it was handed.
pub fn summarizer_reply(summary: String, memory_id: Option<u128>, state_refs: Vec<StateRef>) -> (m: Message)
    ensures
        m.from.0@ == "summarizer"@,
        m.to == Target::Runtime,
        m.kind == MessageKind::ActionResult,
        m.state_refs == state_refs,
        m.payload matches Payload::ActionResult(r) && r.action == ActionType::Summarize && r.success
            && r.memory_candidates@.len() == 0 && r.result.wf() && r.result.value_of("answer"@)
            == Some(summary@) && r.result.value_of("memory_id"@) == (match memory_id {
            Some(id) => Some(uuid_text(id)),
            None => None::<Seq<char>>,
        }) && forall|k: Seq<char>|
            k != "answer"@ && k != "memory_id"@ ==> #[trigger] r.result.value_of(k) is None,
{
    proof {
        lemma_param_keys_distinct();
    }
    let mut result = Params::new();
    result.insert(String::from_str("answer"), summary);
    match memory_id {
        Some(id) => {
            result.insert(String::from_str("memory_id"), uuid_string(id));
        },
        None => {},
    }
    Message::new(
        AgentId::new("summarizer"),
        Target::Runtime,
        MessageKind::ActionResult,
        Payload::ActionResult(
            ActionResult {
                action: ActionType::Summarize,
                success: true,
                result,
                memory_candidates: Vec::new(),
            },
        ),
        state_refs,
    )
}

// ---------------------------------------------------------------------------
// The course of a task
// ---------------------------------------------------------------------------
/// Copies of state handles.
pub fn duplicate_refs(refs: &Vec<StateRef>) -> (r: Vec<StateRef>)
    ensures
        r@.len() == refs@.len(),
        forall|i: int| 0 <= i < r@.len() ==> crate::protocol::same_state_ref(#[trigger] r@[i], refs@[i]),
{
    let mut r: Vec<StateRef> = Vec::new();
    let mut i: usize = 0;
    while i < refs.len()
        invariant
            i <= refs.len(),
            r@.len() == i,
            forall|k: int| 0 <= k < i ==> crate::protocol::same_state_ref(#[trigger] r@[k], refs@[k]),
        decreases refs.len() - i,
    {
        r.push(refs[i].duplicate());
        i = i + 1;
    }
    r
}

/// Handles that agree one by one.
pub open spec fn same_refs(a: Seq<StateRef>, b: Seq<StateRef>) -> bool {
    a.len() == b.len() && forall|i: int|
        0 <= i < a.len() ==> crate::protocol::same_state_ref(#[trigger] a[i], b[i])
}

/// Where a task stands.
#[derive(Debug, Clone, Copy, PartialEq, Eq, Structural)]
pub enum TaskPhase {
    /// Waiting for the plan.
    Planning,
    /// Waiting for the retrieved memories and evidence.
    Retrieving,
    /// Waiting for the tool output.
    Executing,
    /// Waiting for the summary.
    Summarizing,
    /// Done.
    Finished,
}

/// Whether a run in this mode shares state and memory between agents:
/// only a structured run stores states and hands them over, searches and
/// reuses remembered items, and remembers its summaries; text mode is the
/// baseline without shared state or memory.
pub open spec fn sharing(mode: RunMode) -> bool {
    mode == RunMode::Structured
}

/// Whether a run in this mode shares state and memory between agents.
pub fn shares_memory(mode: RunMode) -> (b: bool)
    ensures
        b == sharing(mode),
{
    match mode {
        RunMode::Structured => true,
        RunMode::Text => false,
    }
}

/// The state handles a request of a run in this mode carries: the given
/// ones in structured mode, none in text mode.
pub open spec fn handed(mode: RunMode, refs: Seq<StateRef>) -> Seq<StateRef> {
    if sharing(mode) {
        refs
    } else {
        Seq::empty()
    }
}

/// The phase after a reply: plan, retrieval, tool output (only for a task
/// with code), summary, done.
pub open spec fn next_phase(phase: TaskPhase, has_code: bool) -> TaskPhase {
    match phase {
        TaskPhase::Planning => TaskPhase::Retrieving,
        TaskPhase::Retrieving => if has_code {
            TaskPhase::Executing
        } else {
            TaskPhase::Summarizing
        },
        TaskPhase::Executing => TaskPhase::Summarizing,
        _ => TaskPhase::Finished,
    }
}

/// A reply's hit count is the number of hits it lists, whatever they
/// score: a payload with `n` hits counts `n`, two payloads with as many
/// hits count the same, and a payload of any other kind counts none.
pub proof fn law_memory_hits_count_every_hit(a: MemoryHitPayload, b: MemoryHitPayload, other: Payload)
    requires
        !(other is MemoryHit),
    ensures
        hit_count_of(Payload::MemoryHit(a)) == a.hits@.len(),
        a.hits@.len() == b.hits@.len() ==> hit_count_of(Payload::MemoryHit(a)) == hit_count_of(
            Payload::MemoryHit(b),
        ),
        hit_count_of(other) == 0,
{
}

/// Every task is done after four replies when it has code and after three
/// when it has none, and is not done before.
pub proof fn law_task_finishes(has_code: bool)
    ensures
        has_code ==> {
            &&& next_phase(TaskPhase::Planning, has_code) != TaskPhase::Finished
            &&& next_phase(next_phase(TaskPhase::Planning, has_code), has_code) != TaskPhase::Finished
            &&& next_phase(next_phase(next_phase(TaskPhase::Planning, has_code), has_code), has_code)
                != TaskPhase::Finished
            &&& next_phase(
                next_phase(next_phase(next_phase(TaskPhase::Planning, has_code), has_code), has_code),
                has_code,
            ) == TaskPhase::Finished
        },
        !has_code ==> {
            &&& next_phase(TaskPhase::Planning, has_code) != TaskPhase::Finished
            &&& next_phase(next_phase(TaskPhase::Planning, has_code), has_code) != TaskPhase::Finished
            &&& next_phase(next_phase(next_phase(TaskPhase::Planning, has_code), has_code), has_code)
                == TaskPhase::Finished
        },
{
}

/// What the runtime does next for a task.
pub enum RunAction {
    /// Record `request`, hand it to `agent`, record the reply and give it
    /// back to `advance`.
    Ask { agent: BuiltinAgent, request: Message },
    /// The task is done: record `events`, then the task's end.
    Finish { answer: String, memory_hits: usize, state_transfers: usize, events: Vec<EventKind> },
}

/// One task on its way through the agents: the planner, the retriever,
/// the executor when the task has code, and the summarizer.
pub struct TaskRun {
    pub trace: TraceContext,
    pub mode: RunMode,
    pub task: TaskSpec,
    pub phase: TaskPhase,
    pub plan: Option<Message>,
    pub retrieval: Option<Message>,
    pub executor_result: Option<Message>,
}

/// An action that asks `agent` with a request addressed from `from` to the
/// agent, for `action`, with the text-mode text `text` and the handles
/// `refs`.
pub open spec fn asks_spec(
    a: RunAction,
    agent: BuiltinAgent,
    from: Seq<char>,
    action: ActionType,
    mode: RunMode,
    text: Seq<char>,
    task: TaskSpec,
    refs: Seq<StateRef>,
) -> bool {
    a matches RunAction::Ask { agent: g, request } && g == agent && addressed(
        request,
        from,
        agent_name(agent),
        MessageKind::ActionRequest,
    ) && request_payload_spec(request.payload, mode, action, text, task) && same_refs(
        request.state_refs@,
        refs,
    )
}

impl TaskRun {
    /// The messages that a phase has collected so far.
    pub open spec fn wf(&self) -> bool {
        match self.phase {
            TaskPhase::Planning => true,
            TaskPhase::Retrieving => self.plan is Some,
            TaskPhase::Executing => self.plan is Some && self.retrieval is Some,
            TaskPhase::Summarizing => self.retrieval is Some,
            TaskPhase::Finished => true,
        }
    }

    /// Starts a task: the first step asks the planner to plan it.
    pub fn start(trace: TraceContext, mode: RunMode, task: TaskSpec) -> (r: (TaskRun, RunAction))
        ensures
            r.0.wf(),
            r.0.phase == TaskPhase::Planning,
            r.0.trace == trace,
            r.0.mode == mode,
            r.0.task == task,
            asks_spec(
                r.1,
                BuiltinAgent::Planner,
                "runtime"@,
                ActionType::PlanTask,
                mode,
                plan_text(task),
                task,
                Seq::empty(),
            ),
    {
        let planner = BuiltinAgent::Planner.id();
        let request = message_from_task(mode, &task, &planner);
        let run = TaskRun {
            trace,
            mode,
            task,
            phase: TaskPhase::Planning,
            plan: None,
            retrieval: None,
            executor_result: None,
        };
        (run, RunAction::Ask { agent: BuiltinAgent::Planner, request })
    }

    /// Whether the handshake records the capability adverts: only in
    /// structured mode.
    pub fn records_adverts(&self) -> (b: bool)
        ensures
            b == (self.mode == RunMode::Structured),
    {
        match self.mode {
            RunMode::Structured => true,
            RunMode::Text => false,
        }
    }

    /// Takes an agent's reply and says what comes next: after the plan,
    /// ask the retriever to search memory; after the retrieval, ask the
    /// executor to run the task's code, or, when there is none, stand in a
    /// "no tool" result and ask the summarizer; after the tool output, ask
    /// the summarizer with the plan, retrieval and tool result and the
    /// states of the last two; after the summary, finish with its answer.
    pub fn advance(&mut self, reply: Message) -> (a: RunAction)
        requires
            old(self).wf(),
            old(self).phase != TaskPhase::Finished,
        ensures
            final(self).wf(),
            final(self).trace == old(self).trace,
            final(self).mode == old(self).mode,
            final(self).task == old(self).task,
            final(self).phase == next_phase(old(self).phase, old(self).task.code is Some),
            old(self).mode == RunMode::Text ==> (a matches RunAction::Ask { request, .. }
                ==> request.state_refs@.len() == 0),
            match old(self).phase {
                TaskPhase::Planning => {
                    &&& final(self).phase == TaskPhase::Retrieving
                    &&& final(self).plan == Some(reply)
                    &&& asks_spec(
                        a,
                        BuiltinAgent::Retriever,
                        "planner"@,
                        ActionType::SearchMemory,
                        old(self).mode,
                        next_text(ActionType::SearchMemory, old(self).task),
                        old(self).task,
                        Seq::empty(),
                    )
                },
                TaskPhase::Retrieving => if old(self).task.code is Some {
                    &&& final(self).phase == TaskPhase::Executing
                    &&& final(self).retrieval == Some(reply)
                    &&& asks_spec(
                        a,
                        BuiltinAgent::Executor,
                        "retriever"@,
                        ActionType::ExecuteTool,
                        old(self).mode,
                        next_text(ActionType::ExecuteTool, old(self).task),
                        old(self).task,
                        handed(old(self).mode, reply.state_refs@),
                    )
                } else {
                    &&& final(self).phase == TaskPhase::Summarizing
                    &&& final(self).retrieval is Some
                    &&& final(self).executor_result matches Some(e) && single_result(
                        e.payload,
                        ActionType::ExecuteTool,
                        "result"@,
                        "no tool execution requested"@,
                    ) && e.state_refs@.len() == 0 && asks_spec(
                        a,
                        BuiltinAgent::Summarizer,
                        "runtime"@,
                        ActionType::Summarize,
                        old(self).mode,
                        summary_text_request(
                            old(self).task,
                            seq![old(self).plan.unwrap(), reply, e],
                        ),
                        old(self).task,
                        handed(old(self).mode, reply.state_refs@),
                    )
                },
                TaskPhase::Executing => {
                    &&& final(self).phase == TaskPhase::Summarizing
                    &&& final(self).executor_result == Some(reply)
                    &&& asks_spec(
                        a,
                        BuiltinAgent::Summarizer,
                        "runtime"@,
                        ActionType::Summarize,
                        old(self).mode,
                        summary_text_request(
                            old(self).task,
                            seq![old(self).plan.unwrap(), old(self).retrieval.unwrap(), reply],
                        ),
                        old(self).task,
                        handed(old(self).mode, old(self).retrieval.unwrap().state_refs@ + reply.state_refs@),
                    )
                },
                _ => {
                    &&& final(self).phase == TaskPhase::Finished
                    &&& a matches RunAction::Finish {
                        answer,
                        memory_hits,
                        state_transfers,
                        events,
                    } && answer@ == answer_of(reply.payload) && memory_hits == hit_count_of(
                        old(self).retrieval.unwrap().payload,
                    ) && (old(self).retrieval.unwrap().payload matches Payload::MemoryHit(p)
                        ==> memory_hits == p.hits@.len()) && state_transfers == reply.state_refs@.len() && events@.len()
                        == reply.state_refs@.len() && forall|i: int|
                        0 <= i < events@.len() ==> transfer_spec(
                            #[trigger] events@[i],
                            reply.state_refs@[i],
                            "summarizer"@,
                        )
                },
            },
    {
        match self.phase {
            TaskPhase::Planning => {
                let request = next_request(
                    BuiltinAgent::Planner.id(),
                    BuiltinAgent::Retriever.id(),
                    ActionType::SearchMemory,
                    &self.task,
                    self.mode,
                    Vec::new(),
                );
                self.plan = Some(reply);
                self.phase = TaskPhase::Retrieving;
                RunAction::Ask { agent: BuiltinAgent::Retriever, request }
            },
            TaskPhase::Retrieving => {
                let refs = if shares_memory(self.mode) {
                    duplicate_refs(&reply.state_refs)
                } else {
                    Vec::new()
                };
                if self.task.code.is_some() {
                    let request = next_request(
                        BuiltinAgent::Retriever.id(),
                        BuiltinAgent::Executor.id(),
                        ActionType::ExecuteTool,
                        &self.task,
                        self.mode,
                        refs,
                    );
                    self.retrieval = Some(reply);
                    self.phase = TaskPhase::Executing;
                    RunAction::Ask { agent: BuiltinAgent::Executor, request }
                } else {
                    let stand_in = no_tool_result();
                    let plan = self.plan.take().unwrap();
                    let ghost gp = plan;
                    let ghost gr = reply;
                    let ghost ge = stand_in;
                    let mut messages: Vec<Message> = Vec::new();
                    messages.push(plan);
                    messages.push(reply);
                    messages.push(stand_in);
                    assert(messages@ =~= seq![gp, gr, ge]);
                    let summarizer = BuiltinAgent::Summarizer.id();
                    let request = summary_request(
                        &self.task,
                        self.mode,
                        &summarizer,
                        &messages,
                        refs,
                    );
                    let stand_in_back = messages.pop().unwrap();
                    let retrieval_back = messages.pop().unwrap();
                    let plan_back = messages.pop().unwrap();
                    self.plan = Some(plan_back);
                    self.retrieval = Some(retrieval_back);
                    self.executor_result = Some(stand_in_back);
                    self.phase = TaskPhase::Summarizing;
                    RunAction::Ask { agent: BuiltinAgent::Summarizer, request }
                }
            },
            TaskPhase::Executing => {
                let plan = self.plan.take().unwrap();
                let retrieval = self.retrieval.take().unwrap();
                let mut refs = duplicate_refs(&retrieval.state_refs);
                let ghost first = retrieval.state_refs@;
                let ghost second = reply.state_refs@;
                let mut i: usize = 0;
                while i < reply.state_refs.len()
                    invariant
                        i <= second.len(),
                        second == reply.state_refs@,
                        first == retrieval.state_refs@,
                        refs@.len() == first.len() + i,
                        forall|k: int|
                            0 <= k < first.len() ==> crate::protocol::same_state_ref(
                                #[trigger] refs@[k],
                                first[k],
                            ),
                        forall|k: int|
                            0 <= k < i ==> crate::protocol::same_state_ref(
                                #[trigger] refs@[first.len() + k],
                                second[k],
                            ),
                    decreases second.len() - i,
                {
                    refs.push(reply.state_refs[i].duplicate());
                    i = i + 1;
                }
                assert(same_refs(refs@, first + second)) by {
                    assert forall|k: int| 0 <= k < refs@.len() implies crate::protocol::same_state_ref(
                        #[trigger] refs@[k],
                        (first + second)[k],
                    ) by {
                        if k >= first.len() {
                            let j = k - first.len();
                            assert(refs@[first.len() + j] == refs@[k]);
                        }
                    }
                }
                let ghost gp = plan;
                let ghost gr = retrieval;
                let ghost ge = reply;
                let mut messages: Vec<Message> = Vec::new();
                messages.push(plan);
                messages.push(retrieval);
                messages.push(reply);
                assert(messages@ =~= seq![gp, gr, ge]);
                let summarizer = BuiltinAgent::Summarizer.id();
                let refs = if shares_memory(self.mode) {
                    refs
                } else {
                    Vec::new()
                };
                let request = summary_request(&self.task, self.mode, &summarizer, &messages, refs);
                let executed = messages.pop().unwrap();
                let retrieval_back = messages.pop().unwrap();
                let plan_back = messages.pop().unwrap();
                self.plan = Some(plan_back);
                self.retrieval = Some(retrieval_back);
                self.executor_result = Some(executed);
                self.phase = TaskPhase::Summarizing;
                RunAction::Ask { agent: BuiltinAgent::Summarizer, request }
            },
            _ => {
                let retrieval = self.retrieval.as_ref().unwrap();
                let memory_hits = memory_hit_count(retrieval);
                let answer = extract_result(&reply);
                let events = summary_transfers(&reply);
                let state_transfers = reply.state_refs.len();
                self.phase = TaskPhase::Finished;
                RunAction::Finish { answer, memory_hits, state_transfers, events }
            },
        }
    }
}

} // verus!
