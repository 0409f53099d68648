//! The wire model that agents exchange: run modes, versions, trace
//! contexts, agent identities, actions, state handles and messages.
//!
//! Identifiers are 128-bit values (the bits of a UUID) and timestamps are
//! microseconds since the Unix epoch.
use crate::platform::{new_id, now_micros};
use crate::text::{chars_of, decimal, push_decimal, push_str};
use crate::words::{
    char_seq_lt, chars_lt, lemma_char_seq_lt_irreflexive, lemma_char_seq_lt_total,
    lemma_char_seq_lt_trans,
};
use vstd::prelude::*;

verus! {

pub type MessageId = u128;

pub type StateId = u128;

pub type MemoryId = u128;

pub type TaskId = u128;

pub type ExperimentId = u128;

/// Microseconds since the Unix epoch.
pub type Timestamp = i64;

// ---------------------------------------------------------------------------
// Run mode
// ---------------------------------------------------------------------------
/// How agents talk to each other in a run.
#[derive(Debug, Clone, Copy, PartialEq, Eq, Structural)]
pub enum RunMode {
    /// Free text messages.
    Text,
    /// Structured actions and state handles.
    Structured,
}

/// The name under which a run mode is written and parsed.
pub open spec fn run_mode_name(mode: RunMode) -> Seq<char> {
    match mode {
        RunMode::Text => "text"@,
        RunMode::Structured => "structured"@,
    }
}

/// Errors of the protocol layer.
#[derive(Debug)]
pub enum ProtocolError {
    /// The text names no run mode.
    InvalidRunMode(String),
}

/// The text shown for a protocol error.
pub open spec fn protocol_error_text(e: ProtocolError) -> Seq<char> {
    match e {
        ProtocolError::InvalidRunMode(text) => "invalid run mode: "@ + text@,
    }
}

impl ProtocolError {
    /// The error's message.
    pub fn message(&self) -> (m: String)
        ensures
            m@ == protocol_error_text(*self),
    {
        match self {
            ProtocolError::InvalidRunMode(text) => {
                let mut m = String::from_str("invalid run mode: ");
                push_str(&mut m, text.as_str());
                m
            },
        }
    }
}

/// Whether two character vectors are equal.
pub fn chars_equal(a: &Vec<char>, b: &Vec<char>) -> (r: bool)
    ensures
        r == (a@ == b@),
{
    if a.len() != b.len() {
        return false;
    }
    let mut i: usize = 0;
    while i < a.len()
        invariant
            i <= a.len() == b.len(),
            forall|k: int| 0 <= k < i ==> a@[k] == b@[k],
        decreases a.len() - i,
    {
        if a[i] != b[i] {
            return false;
        }
        i = i + 1;
    }
    assert(a@ =~= b@);
    true
}

/// Whether two strings hold the same characters.
pub fn str_equal(a: &str, b: &str) -> (r: bool)
    ensures
        r == (a@ == b@),
{
    let x = chars_of(a);
    let y = chars_of(b);
    chars_equal(&x, &y)
}

impl RunMode {
    /// The mode's name, as `Display` writes it.
    pub fn as_str(&self) -> (s: String)
        ensures
            s@ == run_mode_name(*self),
    {
        match self {
            RunMode::Text => String::from_str("text"),
            RunMode::Structured => String::from_str("structured"),
        }
    }

    /// Parses a run mode from its name; any other text is
    /// `InvalidRunMode` carrying that text.
    pub fn parse(value: &str) -> (r: Result<RunMode, ProtocolError>)
        ensures
            match r {
                Ok(mode) => run_mode_name(mode) == value@,
                Err(ProtocolError::InvalidRunMode(text)) => text@ == value@ && value@ != "text"@
                    && value@ != "structured"@,
            },
    {
        if str_equal(value, "text") {
            Ok(RunMode::Text)
        } else if str_equal(value, "structured") {
            Ok(RunMode::Structured)
        } else {
            Err(ProtocolError::InvalidRunMode(String::from_str(value)))
        }
    }
}

// ---------------------------------------------------------------------------
// Protocol version
// ---------------------------------------------------------------------------
/// A protocol version.
#[derive(Debug, Clone, Copy, PartialEq, Eq, Structural)]
pub struct ProtocolVersion {
    pub major: u16,
    pub minor: u16,
}

/// Whether a local version can talk to a remote one: the majors are equal
/// and the local minor is not older.
pub open spec fn versions_compatible(local: ProtocolVersion, remote: ProtocolVersion) -> bool {
    local.major == remote.major && local.minor >= remote.minor
}

/// The message that explains an incompatibility.
pub open spec fn incompatibility_message(local: ProtocolVersion, remote: ProtocolVersion) -> Seq<
    char,
> {
    if local.major != remote.major {
        "major version mismatch: local="@ + decimal(local.major as nat) + " remote="@ + decimal(
            remote.major as nat,
        )
    } else {
        "local minor "@ + decimal(local.minor as nat) + " older than remote minor "@ + decimal(
            remote.minor as nat,
        )
    }
}

impl ProtocolVersion {
    /// Checks compatibility: the major versions must match exactly and the
    /// local minor must not be older than the remote minor. On failure the
    /// error says which rule was broken.
    pub fn compatible_with(&self, remote: &ProtocolVersion) -> (r: Result<(), String>)
        ensures
            r is Ok <==> versions_compatible(*self, *remote),
            r matches Err(message) ==> message@ == incompatibility_message(*self, *remote),
    {
        if self.major != remote.major {
            let mut s = String::from_str("major version mismatch: local=");
            push_decimal(&mut s, self.major as u128);
            push_str(&mut s, " remote=");
            push_decimal(&mut s, remote.major as u128);
            return Err(s);
        }
        if self.minor < remote.minor {
            let mut s = String::from_str("local minor ");
            push_decimal(&mut s, self.minor as u128);
            push_str(&mut s, " older than remote minor ");
            push_decimal(&mut s, remote.minor as u128);
            return Err(s);
        }
        Ok(())
    }
}

/// Every version is compatible with itself.
pub proof fn law_version_compatible_with_itself(v: ProtocolVersion)
    ensures
        versions_compatible(v, v),
{
}

/// Compatibility carries over a chain: a version compatible with one that
/// is compatible with a third is compatible with the third.
pub proof fn law_version_compatible_transitive(a: ProtocolVersion, b: ProtocolVersion, c: ProtocolVersion)
    requires
        versions_compatible(a, b),
        versions_compatible(b, c),
    ensures
        versions_compatible(a, c),
{
}

impl Default for ProtocolVersion {
    /// Version 1.0.
    fn default() -> (v: Self)
        ensures
            v.major == 1 && v.minor == 0,
    {
        ProtocolVersion { major: 1, minor: 0 }
    }
}

// ---------------------------------------------------------------------------
// Trace context
// ---------------------------------------------------------------------------
/// Where a message stands in an experiment's task.
#[derive(Debug, Clone, Copy, PartialEq, Eq, Structural)]
pub struct TraceContext {
    pub experiment_id: ExperimentId,
    pub task_id: TaskId,
    pub parent_message_id: Option<MessageId>,
    pub step: u32,
}

impl TraceContext {
    /// The root context of a task: no parent, step 0.
    pub fn new(experiment_id: ExperimentId, task_id: TaskId) -> (t: Self)
        ensures
            t.experiment_id == experiment_id,
            t.task_id == task_id,
            t.parent_message_id is None,
            t.step == 0,
    {
        TraceContext { experiment_id, task_id, parent_message_id: None, step: 0 }
    }

    /// The context one step further, under the given parent message.
    pub fn child(&self, parent_message_id: MessageId) -> (t: Self)
        requires
            self.step < u32::MAX,
        ensures
            t.experiment_id == self.experiment_id,
            t.task_id == self.task_id,
            t.parent_message_id == Some(parent_message_id),
            t.step == self.step + 1,
    {
        TraceContext {
            experiment_id: self.experiment_id,
            task_id: self.task_id,
            parent_message_id: Some(parent_message_id),
            step: self.step + 1,
        }
    }
}

// ---------------------------------------------------------------------------
// Agents and addressing
// ---------------------------------------------------------------------------
/// The name of an agent.
#[derive(Debug, Clone, PartialEq, Eq, PartialOrd, Ord, Hash)]
pub struct AgentId(pub String);

impl AgentId {
    /// An agent id with the given name.
    pub fn new(value: &str) -> (a: Self)
        ensures
            a.0@ == value@,
    {
        AgentId(String::from_str(value))
    }

    /// The name, as `Display` writes it.
    pub fn as_str(&self) -> (s: &str)
        ensures
            s@ == self.0@,
    {
        self.0.as_str()
    }

    /// A copy of the id.
    pub fn duplicate(&self) -> (a: Self)
        ensures
            a.0@ == self.0@,
    {
        AgentId(self.0.clone())
    }
}

/// The part an agent plays.
#[derive(Debug, Clone, Copy, PartialEq, Eq, Structural)]
pub enum AgentRole {
    Planner,
    Retriever,
    Executor,
    Summarizer,
    Runtime,
}

/// The role's name, as `Debug` writes it.
pub open spec fn role_name(role: AgentRole) -> Seq<char> {
    match role {
        AgentRole::Planner => "Planner"@,
        AgentRole::Retriever => "Retriever"@,
        AgentRole::Executor => "Executor"@,
        AgentRole::Summarizer => "Summarizer"@,
        AgentRole::Runtime => "Runtime"@,
    }
}

impl AgentRole {
    /// The role's name, as `Debug` writes it.
    pub fn debug_name(&self) -> (s: String)
        ensures
            s@ == role_name(*self),
    {
        match self {
            AgentRole::Planner => String::from_str("Planner"),
            AgentRole::Retriever => String::from_str("Retriever"),
            AgentRole::Executor => String::from_str("Executor"),
            AgentRole::Summarizer => String::from_str("Summarizer"),
            AgentRole::Runtime => String::from_str("Runtime"),
        }
    }
}

/// Where a message goes.
#[derive(Debug, Clone)]
pub enum Target {
    Agent(AgentId),
    Role(AgentRole),
    Runtime,
    Broadcast,
}

/// The target as `Debug` writes it: `Agent(AgentId("planner"))`,
/// `Role(Retriever)`, `Runtime` or `Broadcast`.
pub open spec fn target_debug(target: Target) -> Seq<char> {
    match target {
        Target::Agent(id) => "Agent(AgentId("@ + crate::platform::debug_str(id.0@) + "))"@,
        Target::Role(role) => "Role("@ + role_name(role) + ")"@,
        Target::Runtime => "Runtime"@,
        Target::Broadcast => "Broadcast"@,
    }
}

impl Target {
    /// The target as `Debug` writes it.
    pub fn debug_text(&self) -> (s: String)
        ensures
            s@ == target_debug(*self),
    {
        match self {
            Target::Agent(id) => {
                let mut s = String::from_str("Agent(AgentId(");
                let quoted = crate::platform::debug_quote(id.0.as_str());
                push_str(&mut s, quoted.as_str());
                push_str(&mut s, "))");
                s
            },
            Target::Role(role) => {
                let mut s = String::from_str("Role(");
                let name = role.debug_name();
                push_str(&mut s, name.as_str());
                push_str(&mut s, ")");
                s
            },
            Target::Runtime => String::from_str("Runtime"),
            Target::Broadcast => String::from_str("Broadcast"),
        }
    }

    /// A copy of the target.
    pub fn duplicate(&self) -> (t: Self)
        ensures
            t == *self || (t matches Target::Agent(a) && self matches Target::Agent(b) && a.0@
                == b.0@),
            target_debug(t) == target_debug(*self),
    {
        match self {
            Target::Agent(id) => Target::Agent(id.duplicate()),
            Target::Role(role) => Target::Role(*role),
            Target::Runtime => Target::Runtime,
            Target::Broadcast => Target::Broadcast,
        }
    }
}

/// What a message is.
#[derive(Debug, Clone, Copy, PartialEq, Eq, Structural)]
pub enum MessageKind {
    Handshake,
    CapabilityAdvertise,
    ActionRequest,
    ActionResult,
    StateTransfer,
    MemoryQuery,
    MemoryHit,
    Error,
}

/// What an agent is asked to do.
#[derive(Debug, Clone, Copy, PartialEq, Eq, Structural)]
pub enum ActionType {
    PlanTask,
    SearchMemory,
    SearchExternal,
    ExtractEvidence,
    ExecuteTool,
    Summarize,
    StoreMemory,
    EvaluateRun,
}

/// The action's name, as `Debug` writes it.
pub open spec fn action_name(action: ActionType) -> Seq<char> {
    match action {
        ActionType::PlanTask => "PlanTask"@,
        ActionType::SearchMemory => "SearchMemory"@,
        ActionType::SearchExternal => "SearchExternal"@,
        ActionType::ExtractEvidence => "ExtractEvidence"@,
        ActionType::ExecuteTool => "ExecuteTool"@,
        ActionType::Summarize => "Summarize"@,
        ActionType::StoreMemory => "StoreMemory"@,
        ActionType::EvaluateRun => "EvaluateRun"@,
    }
}

impl ActionType {
    /// The action's name, as `Debug` writes it.
    pub fn debug_name(&self) -> (s: String)
        ensures
            s@ == action_name(*self),
    {
        match self {
            ActionType::PlanTask => String::from_str("PlanTask"),
            ActionType::SearchMemory => String::from_str("SearchMemory"),
            ActionType::SearchExternal => String::from_str("SearchExternal"),
            ActionType::ExtractEvidence => String::from_str("ExtractEvidence"),
            ActionType::ExecuteTool => String::from_str("ExecuteTool"),
            ActionType::Summarize => String::from_str("Summarize"),
            ActionType::StoreMemory => String::from_str("StoreMemory"),
            ActionType::EvaluateRun => String::from_str("EvaluateRun"),
        }
    }
}

/// How the bytes of a state are to be read.
#[derive(Debug, Clone, Copy, PartialEq, Eq, Structural)]
pub enum StateFormat {
    EmbeddingF32,
    TaskGraphJson,
    EvidencePackJson,
    ToolOutputJson,
    TextUtf8,
}

/// The format's name, as `Debug` writes it.
pub open spec fn format_name(format: StateFormat) -> Seq<char> {
    match format {
        StateFormat::EmbeddingF32 => "EmbeddingF32"@,
        StateFormat::TaskGraphJson => "TaskGraphJson"@,
        StateFormat::EvidencePackJson => "EvidencePackJson"@,
        StateFormat::ToolOutputJson => "ToolOutputJson"@,
        StateFormat::TextUtf8 => "TextUtf8"@,
    }
}

impl StateFormat {
    /// The format's name, as `Debug` writes it.
    pub fn debug_name(&self) -> (s: String)
        ensures
            s@ == format_name(*self),
    {
        match self {
            StateFormat::EmbeddingF32 => String::from_str("EmbeddingF32"),
            StateFormat::TaskGraphJson => String::from_str("TaskGraphJson"),
            StateFormat::EvidencePackJson => String::from_str("EvidencePackJson"),
            StateFormat::ToolOutputJson => String::from_str("ToolOutputJson"),
            StateFormat::TextUtf8 => String::from_str("TextUtf8"),
        }
    }
}

/// Where the bytes of a state are kept.
#[derive(Debug, Clone, Copy, PartialEq, Eq, Structural)]
pub enum StateTransport {
    InMemory,
    MmapFile,
}

/// A digest of a state's bytes.
#[derive(Debug, Clone)]
pub struct Checksum {
    pub algorithm: String,
    pub value: String,
}

/// A handle on a state that an agent stored: enough to fetch and check it.
#[derive(Debug, Clone)]
pub struct StateRef {
    pub state_id: StateId,
    pub producer: AgentId,
    pub format: StateFormat,
    pub shape: Option<Vec<usize>>,
    pub byte_len: u64,
    pub transport: StateTransport,
    pub checksum: Checksum,
    pub created_at: Timestamp,
    pub expires_at: Option<Timestamp>,
}

/// Two optional shapes with the same dimensions.
pub open spec fn same_shape(a: Option<Vec<usize>>, b: Option<Vec<usize>>) -> bool {
    match (a, b) {
        (Some(x), Some(y)) => x@ == y@,
        (None, None) => true,
        _ => false,
    }
}

/// Two state handles that agree on every field.
pub open spec fn same_state_ref(a: StateRef, b: StateRef) -> bool {
    &&& a.state_id == b.state_id
    &&& a.producer.0@ == b.producer.0@
    &&& a.format == b.format
    &&& same_shape(a.shape, b.shape)
    &&& a.byte_len == b.byte_len
    &&& a.transport == b.transport
    &&& a.checksum.algorithm@ == b.checksum.algorithm@
    &&& a.checksum.value@ == b.checksum.value@
    &&& a.created_at == b.created_at
    &&& a.expires_at == b.expires_at
}

impl StateRef {
    /// A copy of the handle.
    pub fn duplicate(&self) -> (r: Self)
        ensures
            same_state_ref(r, *self),
    {
        let shape = match &self.shape {
            Some(dims) => Some(dims.clone()),
            None => None,
        };
        StateRef {
            state_id: self.state_id,
            producer: self.producer.duplicate(),
            format: self.format,
            shape,
            byte_len: self.byte_len,
            transport: self.transport,
            checksum: Checksum {
                algorithm: self.checksum.algorithm.clone(),
                value: self.checksum.value.clone(),
            },
            created_at: self.created_at,
            expires_at: self.expires_at,
        }
    }
}

/// The sum of the byte lengths of a list of state handles.
pub open spec fn total_state_bytes(refs: Seq<StateRef>) -> nat
    decreases refs.len(),
{
    if refs.len() == 0 {
        0
    } else {
        total_state_bytes(refs.drop_last()) + refs.last().byte_len as nat
    }
}

/// Adds up the byte lengths of state handles.
pub fn sum_state_bytes(refs: &Vec<StateRef>) -> (n: u64)
    requires
        total_state_bytes(refs@) <= u64::MAX,
    ensures
        n == total_state_bytes(refs@),
{
    let mut n: u64 = 0;
    let mut i: usize = 0;
    while i < refs.len()
        invariant
            i <= refs.len(),
            n == total_state_bytes(refs@.take(i as int)),
            total_state_bytes(refs@) <= u64::MAX,
        decreases refs.len() - i,
    {
        proof {
            lemma_total_state_bytes_prefix(refs@, i as int + 1);
        }
        assert(refs@.take(i + 1 as int).drop_last() == refs@.take(i as int));
        n = n + refs[i].byte_len;
        i = i + 1;
    }
    assert(refs@.take(refs.len() as int) == refs@);
    n
}

/// State bytes add up: no handles carry none, one more handle adds its
/// own byte length, and two lists together carry the bytes of both.
pub proof fn law_state_bytes_add_up(refs: Seq<StateRef>, more: Seq<StateRef>, r: StateRef)
    ensures
        total_state_bytes(Seq::<StateRef>::empty()) == 0,
        total_state_bytes(refs.push(r)) == total_state_bytes(refs) + r.byte_len,
        total_state_bytes(refs + more) == total_state_bytes(refs) + total_state_bytes(more),
    decreases more.len(),
{
    assert(refs.push(r).drop_last() == refs);
    if more.len() == 0 {
        assert(refs + more == refs);
    } else {
        law_state_bytes_add_up(refs, more.drop_last(), r);
        assert((refs + more).drop_last() == refs + more.drop_last());
        assert((refs + more).last() == more.last());
    }
}

/// A prefix never carries more bytes than the whole list.
pub proof fn lemma_total_state_bytes_prefix(refs: Seq<StateRef>, k: int)
    requires
        0 <= k <= refs.len(),
    ensures
        total_state_bytes(refs.take(k)) <= total_state_bytes(refs),
    decreases refs.len(),
{
    if k < refs.len() {
        assert(refs.drop_last().take(k) == refs.take(k));
        lemma_total_state_bytes_prefix(refs.drop_last(), k);
    } else {
        assert(refs.take(k) == refs);
    }
}

// ---------------------------------------------------------------------------
// Capabilities and parameters
// ---------------------------------------------------------------------------
/// What an action is expected to cost.
#[derive(Debug, Clone, Copy, PartialEq, Eq, Structural)]
pub struct CostHint {
    pub expected_ms: u64,
    pub text_chars: u64,
}

/// One action that an agent offers.
#[derive(Debug, Clone)]
pub struct Capability {
    pub agent_id: AgentId,
    pub role: AgentRole,
    pub action: ActionType,
    pub input_schema: String,
    pub output_schema: String,
    pub accepted_state_formats: Vec<StateFormat>,
    pub cost_hint: CostHint,
}

/// Per-message traffic counts.
#[derive(Debug, Clone, Copy, PartialEq, Eq, Structural)]
pub struct MessageMetrics {
    pub text_chars: u64,
    pub encoded_bytes: u64,
    pub state_bytes: u64,
}

impl Default for MessageMetrics {
    /// All counts zero.
    fn default() -> (m: Self)
        ensures
            m.text_chars == 0 && m.encoded_bytes == 0 && m.state_bytes == 0,
    {
        MessageMetrics { text_chars: 0, encoded_bytes: 0, state_bytes: 0 }
    }
}

/// The characters of each key and value.
pub open spec fn pair_views(entries: Seq<(String, String)>) -> Seq<(Seq<char>, Seq<char>)> {
    Seq::new(entries.len(), |i: int| (entries[i].0@, entries[i].1@))
}

/// The value stored under a key in a list of distinct-keyed entries.
pub open spec fn lookup(entries: Seq<(Seq<char>, Seq<char>)>, key: Seq<char>) -> Option<Seq<char>>
    decreases entries.len(),
{
    if entries.len() == 0 {
        None
    } else if entries.last().0 == key {
        Some(entries.last().1)
    } else {
        lookup(entries.drop_last(), key)
    }
}

/// No key occurs twice.
pub open spec fn distinct_keys(entries: Seq<(Seq<char>, Seq<char>)>) -> bool {
    forall|i: int, j: int|
        0 <= i < j < entries.len() ==> (#[trigger] entries[i]).0 != (#[trigger] entries[j]).0
}

/// The keys come in strictly increasing code-point order, as a `BTreeMap`
/// walks them.
pub open spec fn sorted_keys(entries: Seq<(Seq<char>, Seq<char>)>) -> bool {
    forall|i: int, j: int|
        0 <= i < j < entries.len() ==> char_seq_lt(
            (#[trigger] entries[i]).0,
            (#[trigger] entries[j]).0,
        )
}

/// Strictly ordered keys are distinct.
pub proof fn lemma_sorted_keys_distinct(entries: Seq<(Seq<char>, Seq<char>)>)
    requires
        sorted_keys(entries),
    ensures
        distinct_keys(entries),
{
    assert forall|i: int, j: int| 0 <= i < j < entries.len() implies (
    #[trigger] entries[i]).0 != (#[trigger] entries[j]).0 by {
        lemma_char_seq_lt_irreflexive(entries[i].0);
    }
}

/// With distinct keys, the lookup of the key at position `i` gives the value
/// at position `i`.
pub proof fn lemma_lookup_at(entries: Seq<(Seq<char>, Seq<char>)>, i: int)
    requires
        distinct_keys(entries),
        0 <= i < entries.len(),
    ensures
        lookup(entries, entries[i].0) == Some(entries[i].1),
    decreases entries.len(),
{
    if i < entries.len() - 1 {
        assert(entries.last().0 != entries[i].0);
        assert(entries.drop_last()[i] == entries[i]);
        lemma_lookup_at(entries.drop_last(), i);
    }
}

/// A key that no entry has is not found.
pub proof fn lemma_lookup_absent(entries: Seq<(Seq<char>, Seq<char>)>, key: Seq<char>)
    requires
        forall|i: int| 0 <= i < entries.len() ==> (#[trigger] entries[i]).0 != key,
    ensures
        lookup(entries, key) is None,
    decreases entries.len(),
{
    if entries.len() > 0 {
        assert(entries.last() == entries[entries.len() - 1]);
        assert forall|i: int| 0 <= i < entries.drop_last().len() implies (
        #[trigger] entries.drop_last()[i]).0 != key by {
            assert(entries.drop_last()[i] == entries[i]);
        }
        lemma_lookup_absent(entries.drop_last(), key);
    }
}

/// Putting a pair with a fresh key at any position finds that pair under its
/// key and leaves every other lookup as it was.
pub proof fn lemma_lookup_insert_fresh(
    entries: Seq<(Seq<char>, Seq<char>)>,
    i: int,
    pair: (Seq<char>, Seq<char>),
)
    requires
        distinct_keys(entries),
        0 <= i <= entries.len(),
        forall|m: int| 0 <= m < entries.len() ==> (#[trigger] entries[m]).0 != pair.0,
    ensures
        distinct_keys(entries.insert(i, pair)),
        lookup(entries.insert(i, pair), pair.0) == Some(pair.1),
        forall|k: Seq<char>|
            k != pair.0 ==> lookup(entries.insert(i, pair), k) == lookup(entries, k),
{
    let e2 = entries.insert(i, pair);
    assert forall|a: int, b: int| 0 <= a < b < e2.len() implies (#[trigger] e2[a]).0 != (
    #[trigger] e2[b]).0 by {
        if a < i {
            if b < i {
                assert(entries[a].0 != entries[b].0);
            } else if b > i {
                assert(entries[a].0 != entries[b - 1].0);
            }
        } else if a == i {
            assert(e2[b] == entries[b - 1]);
        } else {
            assert(entries[a - 1].0 != entries[b - 1].0);
        }
    }
    assert(e2[i] == pair);
    lemma_lookup_at(e2, i);
    assert forall|k: Seq<char>| k != pair.0 implies lookup(e2, k) == lookup(entries, k) by {
        if exists|j: int| 0 <= j < entries.len() && (#[trigger] entries[j]).0 == k {
            let j = choose|j: int| 0 <= j < entries.len() && (#[trigger] entries[j]).0 == k;
            lemma_lookup_at(entries, j);
            if j < i {
                assert(e2[j] == entries[j]);
                lemma_lookup_at(e2, j);
            } else {
                assert(e2[j + 1] == entries[j]);
                lemma_lookup_at(e2, j + 1);
            }
        } else {
            lemma_lookup_absent(entries, k);
            assert forall|m: int| 0 <= m < e2.len() implies (#[trigger] e2[m]).0 != k by {
                if m < i {
                    assert(e2[m] == entries[m]);
                } else if m > i {
                    assert(e2[m] == entries[m - 1]);
                }
            }
            lemma_lookup_absent(e2, k);
        }
    }
}

/// String parameters by name: a map from keys to values, each key at most
/// once, kept in key order.
#[derive(Debug, Clone)]
pub struct Params {
    pub entries: Vec<(String, String)>,
}

impl Params {
    /// The keys and values, in key order.
    pub open spec fn pairs(&self) -> Seq<(Seq<char>, Seq<char>)> {
        pair_views(self.entries@)
    }

    /// Keys in strictly increasing order, so each occurs once.
    pub open spec fn wf(&self) -> bool {
        sorted_keys(self.pairs())
    }

    /// The value under `key`, if any.
    pub open spec fn value_of(&self, key: Seq<char>) -> Option<Seq<char>> {
        lookup(self.pairs(), key)
    }

    /// No parameters.
    pub fn new() -> (p: Self)
        ensures
            p.wf(),
            p.pairs() == Seq::<(Seq<char>, Seq<char>)>::empty(),
            forall|k: Seq<char>| p.value_of(k) is None,
    {
        let p = Params { entries: Vec::new() };
        assert(p.pairs() =~= Seq::<(Seq<char>, Seq<char>)>::empty());
        p
    }

    /// A copy with the same keys and values.
    pub fn duplicate(&self) -> (p: Self)
        ensures
            p.pairs() == self.pairs(),
    {
        let mut entries: Vec<(String, String)> = Vec::new();
        let mut i: usize = 0;
        while i < self.entries.len()
            invariant
                i <= self.entries.len(),
                pair_views(entries@) == pair_views(self.entries@).take(i as int),
            decreases self.entries.len() - i,
        {
            let ghost prev = entries@;
            let k = self.entries[i].0.clone();
            let v = self.entries[i].1.clone();
            assert(prev.len() == i) by {
                assert(pair_views(prev).len() == prev.len());
            }
            entries.push((k, v));
            assert(entries@.len() == i + 1);
            assert(entries@[i as int].0@ == self.entries@[i as int].0@);
            assert forall|m: int| 0 <= m < i + 1 implies #[trigger] pair_views(entries@)[m]
                == pair_views(self.entries@)[m] by {
                if m < i {
                    assert(entries@[m] == prev[m]);
                    assert(pair_views(prev)[m] == pair_views(self.entries@).take(i as int)[m]);
                }
            }
            i = i + 1;
            assert(pair_views(entries@) =~= pair_views(self.entries@).take(i as int));
        }
        assert(pair_views(self.entries@).take(self.entries.len() as int) =~= pair_views(
            self.entries@,
        ));
        Params { entries }
    }

    /// The value under `key`, copied.
    pub fn get(&self, key: &str) -> (r: Option<String>)
        ensures
            match r {
                Some(v) => self.value_of(key@) == Some(v@),
                None => self.value_of(key@) is None,
            },
    {
        let k = chars_of(key);
        let mut i = self.entries.len();
        assert(self.pairs().take(i as int) == self.pairs());
        while i > 0
            invariant
                i <= self.entries.len(),
                k@ == key@,
                lookup(self.pairs(), key@) == lookup(self.pairs().take(i as int), key@),
            decreases i,
        {
            let ghost prefix = self.pairs().take(i as int);
            assert(prefix.drop_last() == self.pairs().take(i - 1));
            assert(prefix.last() == (self.entries@[i - 1].0@, self.entries@[i - 1].1@));
            let here = chars_of(self.entries[i - 1].0.as_str());
            if chars_equal(&here, &k) {
                return Some(self.entries[i - 1].1.clone());
            }
            i = i - 1;
        }
        None
    }

    /// Sets `key` to `value`, replacing an earlier value under the key; a new
    /// key takes its place in key order.
    pub fn insert(&mut self, key: String, value: String)
        requires
            old(self).wf(),
        ensures
            final(self).wf(),
            final(self).value_of(key@) == Some(value@),
            forall|k: Seq<char>| k != key@ ==> final(self).value_of(k) == old(self).value_of(k),
    {
        let k = chars_of(key.as_str());
        let mut i: usize = 0;
        while i < self.entries.len()
            invariant
                i <= self.entries.len(),
                self.entries@ == old(self).entries@,
                sorted_keys(old(self).pairs()),
                k@ == key@,
                forall|m: int| 0 <= m < i ==> char_seq_lt((#[trigger] self.entries@[m]).0@, key@),
            ensures
                i <= self.entries.len(),
                self.entries@ == old(self).entries@,
                forall|m: int| 0 <= m < i ==> char_seq_lt((#[trigger] self.entries@[m]).0@, key@),
                i < self.entries.len() ==> !char_seq_lt(self.entries@[i as int].0@, key@),
            decreases self.entries.len() - i,
        {
            let here = chars_of(self.entries[i].0.as_str());
            if !chars_lt(&here, &k) {
                break;
            }
            i = i + 1;
        }
        let ghost before = self.pairs();
        let ghost kv = key@;
        let ghost vv = value@;
        proof {
            lemma_sorted_keys_distinct(before);
        }
        if i < self.entries.len() {
            let here = chars_of(self.entries[i].0.as_str());
            if chars_equal(&here, &k) {
                self.entries.set(i, (key, value));
                assert(self.pairs() =~= before.update(i as int, (kv, vv)));
                proof {
                    lemma_lookup_update(before, i as int, (kv, vv));
                    assert forall|a: int, b: int| 0 <= a < b < self.pairs().len() implies char_seq_lt(
                        (#[trigger] self.pairs()[a]).0,
                        (#[trigger] self.pairs()[b]).0,
                    ) by {
                        assert(before[a].0 == self.pairs()[a].0);
                        assert(before[b].0 == self.pairs()[b].0);
                    }
                }
                return;
            }
            proof {
                lemma_char_seq_lt_total(before[i as int].0, kv);
            }
        }
        // Every key before position `i` is smaller and every key from `i` on
        // is larger, so `key` is new and belongs at `i`.
        proof {
            assert forall|m: int| 0 <= m < i implies char_seq_lt((#[trigger] before[m]).0, kv) by {
                assert(self.entries@[m].0@ == before[m].0);
            }
            assert forall|m: int| i <= m < before.len() implies char_seq_lt(
                kv,
                (#[trigger] before[m]).0,
            ) by {
                if m > i {
                    lemma_char_seq_lt_trans(kv, before[i as int].0, before[m].0);
                }
            }
            assert forall|m: int| 0 <= m < before.len() implies (#[trigger] before[m]).0 != kv by {
                lemma_char_seq_lt_irreflexive(kv);
                if m < i {
                    assert(char_seq_lt(before[m].0, kv));
                } else {
                    assert(char_seq_lt(kv, before[m].0));
                }
            }
        }
        self.entries.insert(i, (key, value));
        assert(self.pairs() =~= before.insert(i as int, (kv, vv)));
        proof {
            lemma_lookup_insert_fresh(before, i as int, (kv, vv));
            let after = self.pairs();
            assert forall|a: int, b: int| 0 <= a < b < after.len() implies char_seq_lt(
                (#[trigger] after[a]).0,
                (#[trigger] after[b]).0,
            ) by {
                if b < i {
                    assert(after[a] == before[a] && after[b] == before[b]);
                } else if b == i {
                    assert(after[a] == before[a]);
                    assert(char_seq_lt(before[a].0, kv));
                } else if a < i {
                    assert(after[a] == before[a]);
                    assert(after[b] == before[b - 1]);
                    assert(char_seq_lt(before[a].0, kv));
                    assert(char_seq_lt(kv, before[b - 1].0));
                    lemma_char_seq_lt_trans(before[a].0, kv, before[b - 1].0);
                } else if a == i {
                    assert(char_seq_lt(kv, before[b - 1].0));
                    assert(after[b] == before[b - 1]);
                } else {
                    assert(after[a] == before[a - 1]);
                    assert(after[b] == before[b - 1]);
                }
            }
        }
    }
}

/// Replacing the value at a key's only position changes the lookup of that
/// key alone.
pub proof fn lemma_lookup_update(
    entries: Seq<(Seq<char>, Seq<char>)>,
    i: int,
    pair: (Seq<char>, Seq<char>),
)
    requires
        distinct_keys(entries),
        0 <= i < entries.len(),
        entries[i].0 == pair.0,
    ensures
        distinct_keys(entries.update(i, pair)),
        lookup(entries.update(i, pair), pair.0) == Some(pair.1),
        forall|k: Seq<char>| k != pair.0 ==> lookup(entries.update(i, pair), k) == lookup(entries, k),
    decreases entries.len(),
{
    let e2 = entries.update(i, pair);
    assert forall|a: int, b: int| 0 <= a < b < e2.len() implies (#[trigger] e2[a]).0 != (
    #[trigger] e2[b]).0 by {
        assert(entries[a].0 != entries[b].0);
    }
    if i == entries.len() - 1 {
        assert(e2.drop_last() == entries.drop_last());
        assert forall|k: Seq<char>| k != pair.0 implies lookup(e2, k) == lookup(entries, k) by {
            assert(e2.last() == pair);
        }
    } else {
        assert(e2.drop_last() == entries.drop_last().update(i, pair));
        assert(distinct_keys(entries.drop_last()));
        lemma_lookup_update(entries.drop_last(), i, pair);
        assert(entries.last().0 != pair.0);
        assert(e2.last() == entries.last());
        assert forall|k: Seq<char>| k != pair.0 implies lookup(e2, k) == lookup(entries, k) by {
            if entries.last().0 != k {
                assert(lookup(e2.drop_last(), k) == lookup(entries.drop_last(), k));
            }
        }
    }
}

// ---------------------------------------------------------------------------
// Actions, memories, errors, payloads
// ---------------------------------------------------------------------------
/// A request for an action.
#[derive(Debug, Clone)]
pub struct ActionRequest {
    pub action: ActionType,
    pub params: Params,
    pub required_capability: Option<ActionType>,
}

/// What an action produced.
#[derive(Debug, Clone)]
pub struct ActionResult {
    pub action: ActionType,
    pub success: bool,
    pub result: Params,
    pub memory_candidates: Vec<MemoryCandidate>,
}

/// Something an agent proposes to remember.
#[derive(Debug, Clone)]
pub struct MemoryCandidate {
    pub topic: String,
    pub summary: String,
    pub tags: Vec<String>,
    pub keywords: Vec<String>,
    pub evidence_refs: Vec<StateRef>,
}

/// Search hits for a memory query.
#[derive(Debug, Clone)]
pub struct MemoryHitPayload {
    pub hits: Vec<MemoryHit>,
}

/// One remembered item that matched a query. `score_bits` holds the IEEE
/// bits of the `f32` score; for the non-negative scores that a search
/// gives, the bits are ordered as the scores are.
#[derive(Debug, Clone)]
pub struct MemoryHit {
    pub memory_id: MemoryId,
    pub topic: String,
    pub summary: String,
    pub score_bits: u32,
    pub reason: String,
    pub tags: Vec<String>,
}

/// The bits of `f32` +infinity, the largest bit pattern of a non-negative
/// number: above them lie NaN and the negative numbers.
pub const F32_INFINITY_BITS: u32 = 0x7F80_0000u32;

/// Whether the `f32` with bits `bits` is at least the positive number with
/// bits `threshold`: non-negative numbers are ordered as their bits, and
/// NaN and negative numbers are below any positive threshold.
pub open spec fn f32_bits_at_least(bits: u32, threshold: u32) -> bool {
    threshold <= bits && bits <= F32_INFINITY_BITS
}

/// Whether the `f32` with bits `bits` is greater than the positive number
/// with bits `threshold`.
pub open spec fn f32_bits_above(bits: u32, threshold: u32) -> bool {
    threshold < bits && bits <= F32_INFINITY_BITS
}

/// An error reply.
#[derive(Debug, Clone)]
pub struct ErrorPayload {
    pub code: String,
    pub message: String,
    pub retryable: bool,
    pub diagnostics_ref: Option<StateRef>,
}

/// The body of a message.
#[derive(Debug, Clone)]
pub enum Payload {
    Empty,
    Text(String),
    Capabilities(Vec<Capability>),
    ActionRequest(ActionRequest),
    ActionResult(ActionResult),
    MemoryQuery { query: String, tags: Vec<String>, limit: usize },
    MemoryHit(MemoryHitPayload),
    Error(ErrorPayload),
}

/// The text size of a payload: the characters of a text payload, and for
/// any other payload the characters of its JSON form `json`.
pub open spec fn payload_text_chars(payload: Payload, json: Seq<char>) -> nat {
    match payload {
        Payload::Text(value) => value@.len(),
        _ => json.len(),
    }
}

impl Payload {
    /// Counts the text characters of the payload; `json` is the payload's
    /// JSON form, which is counted for every payload but text.
    pub fn text_chars(&self, json: &str) -> (n: u64)
        ensures
            n == payload_text_chars(*self, json@),
    {
        match self {
            Payload::Text(value) => {
                let cs = chars_of(value.as_str());
                cs.len() as u64
            },
            _ => {
                let cs = chars_of(json);
                cs.len() as u64
            },
        }
    }
}

// ---------------------------------------------------------------------------
// Messages
// ---------------------------------------------------------------------------
/// A message between agents.
#[derive(Debug, Clone)]
pub struct Message {
    pub message_id: MessageId,
    pub from: AgentId,
    pub to: Target,
    pub kind: MessageKind,
    pub payload: Payload,
    pub state_refs: Vec<StateRef>,
    pub metrics: MessageMetrics,
    pub created_at: Timestamp,
}

impl Message {
    /// A new message with a fresh id and the current time. Its metrics
    /// start at zero; `refresh_metrics` fills them in from the encodings.
    pub fn new(
        from: AgentId,
        to: Target,
        kind: MessageKind,
        payload: Payload,
        state_refs: Vec<StateRef>,
    ) -> (m: Self)
        ensures
            m.from == from,
            m.to == to,
            m.kind == kind,
            m.payload == payload,
            m.state_refs == state_refs,
            m.metrics == (MessageMetrics { text_chars: 0, encoded_bytes: 0, state_bytes: 0 }),
    {
        let message_id = new_id();
        let created_at = now_micros();
        Message {
            message_id,
            from,
            to,
            kind,
            payload,
            state_refs,
            metrics: MessageMetrics { text_chars: 0, encoded_bytes: 0, state_bytes: 0 },
            created_at,
        }
    }

    /// Recomputes the metrics: the payload's text characters (`payload_json`
    /// is the payload's JSON form), the encoded size of the message
    /// (`encoded_len`, its compact binary encoding), and the bytes of the
    /// states it refers to.
    pub fn refresh_metrics(&mut self, payload_json: &str, encoded_len: u64)
        requires
            total_state_bytes(old(self).state_refs@) <= u64::MAX,
        ensures
            final(self).metrics.text_chars == payload_text_chars(old(self).payload, payload_json@),
            final(self).metrics.encoded_bytes == encoded_len,
            final(self).metrics.state_bytes == total_state_bytes(old(self).state_refs@),
            final(self).message_id == old(self).message_id,
            final(self).from == old(self).from,
            final(self).to == old(self).to,
            final(self).kind == old(self).kind,
            final(self).payload == old(self).payload,
            final(self).state_refs == old(self).state_refs,
            final(self).created_at == old(self).created_at,
    {
        let text_chars = self.payload.text_chars(payload_json);
        let state_bytes = sum_state_bytes(&self.state_refs);
        self.metrics = MessageMetrics { text_chars, encoded_bytes: encoded_len, state_bytes };
    }
}

/// A message with its version and trace.
#[derive(Debug, Clone)]
pub struct ProtocolEnvelope {
    pub version: ProtocolVersion,
    pub trace: TraceContext,
    pub message: Message,
}

} // verus!
