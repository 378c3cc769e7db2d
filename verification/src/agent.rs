//! The per-task conversation state machine.
//!
//! One task is one multi-turn tool-calling conversation.  The loop waits
//! for the model, executes the tool calls of each assistant turn, appends
//! every result before the next model call, and ends when the model
//! answers without tool calls — or when cancellation strikes, in which
//! case the partial violations and history are kept.

use vstd::prelude::*;

use crate::text;
use crate::text::line_split;
use crate::types::Violation;
use crate::types::ViolationSpec;

verus! {

/// The mathematical value of a function call.
#[verifier::ext_equal]
pub struct FunctionCallSpec {
    pub name: Seq<char>,
    pub arguments: Seq<char>,
}

/// Function call details.
#[derive(Clone)]
pub struct FunctionCall {
    pub name: String,
    pub arguments: String,
}

impl View for FunctionCall {
    type V = FunctionCallSpec;

    open spec fn view(&self) -> FunctionCallSpec {
        FunctionCallSpec { name: self.name@, arguments: self.arguments@ }
    }
}

impl DeepView for FunctionCall {
    type V = FunctionCallSpec;

    open spec fn deep_view(&self) -> FunctionCallSpec {
        self@
    }
}

/// The mathematical value of a tool call.
#[verifier::ext_equal]
pub struct ToolCallSpec {
    pub id: Seq<char>,
    pub call_type: Seq<char>,
    pub function: FunctionCallSpec,
}

/// One tool call requested by the model.
#[derive(Clone)]
pub struct ToolCall {
    pub id: String,
    pub call_type: String,
    pub function: FunctionCall,
}

impl View for ToolCall {
    type V = ToolCallSpec;

    open spec fn view(&self) -> ToolCallSpec {
        ToolCallSpec { id: self.id@, call_type: self.call_type@, function: self.function@ }
    }
}

impl DeepView for ToolCall {
    type V = ToolCallSpec;

    open spec fn deep_view(&self) -> ToolCallSpec {
        self@
    }
}

/// The mathematical value of a conversation message.
#[verifier::ext_equal]
pub struct MessageSpec {
    pub role: Seq<char>,
    pub content: Option<Seq<char>>,
    pub tool_calls: Option<Seq<ToolCallSpec>>,
    pub tool_call_id: Option<Seq<char>>,
}

/// One conversation turn.
#[derive(Clone)]
pub struct Message {
    pub role: String,
    pub content: Option<String>,
    pub tool_calls: Option<Vec<ToolCall>>,
    pub tool_call_id: Option<String>,
}

impl View for Message {
    type V = MessageSpec;

    open spec fn view(&self) -> MessageSpec {
        MessageSpec {
            role: self.role@,
            content: self.content.deep_view(),
            tool_calls: self.tool_calls.deep_view(),
            tool_call_id: self.tool_call_id.deep_view(),
        }
    }
}

impl DeepView for Message {
    type V = MessageSpec;

    open spec fn deep_view(&self) -> MessageSpec {
        self@
    }
}

/// A text-only message of the given role.
pub open spec fn plain_message(role: Seq<char>, content: Seq<char>) -> MessageSpec {
    MessageSpec { role, content: Some(content), tool_calls: None, tool_call_id: None }
}

/// The tool-result message for one call.
pub open spec fn tool_result_message(call_id: Seq<char>, content: Seq<char>) -> MessageSpec {
    MessageSpec {
        role: "tool"@,
        content: Some(content),
        tool_calls: None,
        tool_call_id: Some(call_id),
    }
}

/// The mathematical value of a catalog entry.
#[verifier::ext_equal]
pub struct ToolInfoSpec {
    pub name: Seq<char>,
    pub description: Seq<char>,
}

/// One entry of the tool catalog offered to the model: a name and what
/// the capability does.  The parameter schemas live with the runtime
/// that owns the tools.
pub struct ToolInfo {
    pub name: String,
    pub description: String,
}

impl View for ToolInfo {
    type V = ToolInfoSpec;

    open spec fn view(&self) -> ToolInfoSpec {
        ToolInfoSpec { name: self.name@, description: self.description@ }
    }
}

impl DeepView for ToolInfo {
    type V = ToolInfoSpec;

    open spec fn deep_view(&self) -> ToolInfoSpec {
        self@
    }
}

/// What a runtime that owns tools implements: executing one call
/// against its state and answering with the result text the model sees.
/// Nothing is promised of an implementation; the conversation machine
/// records whatever comes back.
pub trait ToolExecutor<S> {
    fn execute(&mut self, tool_call: &ToolCall, state: &mut S) -> String;
}

/// Whether an assistant turn carries at least one tool call.
pub open spec fn turn_has_calls(tool_calls: Option<Seq<ToolCallSpec>>) -> bool {
    tool_calls matches Some(calls) && calls.len() > 0
}

/// Whether an assistant turn carries non-empty content.
pub open spec fn turn_has_content(content: Option<Seq<char>>) -> bool {
    content matches Some(c) && c.len() > 0
}

/// Where one task's conversation stands.
#[derive(PartialEq, Eq, Structural, Clone, Copy, Debug)]
pub enum TaskState {
    /// The history was sent; exactly one assistant message is awaited.
    AwaitingModel,
    /// The assistant turn carried tool calls whose results are still due.
    ExecutingTools,
    /// The model answered without tool calls and with content.
    Done,
    /// Cancellation struck before the model answered.
    Cancelled,
}

/// One task's conversation: an append-only message history, the
/// violations reported so far, and the machine state.
pub struct TaskRun {
    pub state: TaskState,
    pub messages: Vec<Message>,
    pub violations: Vec<Violation>,
    pub output: Option<String>,
}

impl TaskRun {
    /// Seeds the conversation with one system and one user message.
    pub fn new(system_text: String, user_text: String) -> (r: TaskRun)
        ensures
            r.state == TaskState::AwaitingModel,
            r.messages.deep_view() =~= seq![
                plain_message("system"@, system_text@),
                plain_message("user"@, user_text@),
            ],
            r.violations@.len() == 0,
            r.output is None,
    {
        let mut messages: Vec<Message> = Vec::new();
        messages.push(
            Message {
                role: String::from_str("system"),
                content: Some(system_text),
                tool_calls: None,
                tool_call_id: None,
            },
        );
        messages.push(
            Message {
                role: String::from_str("user"),
                content: Some(user_text),
                tool_calls: None,
                tool_call_id: None,
            },
        );
        TaskRun {
            state: TaskState::AwaitingModel,
            messages,
            violations: Vec::new(),
            output: None,
        }
    }

    /// Appends a plain message of the given role to the history.
    pub fn add_message(&mut self, role: &str, content: &str)
        ensures
            final(self).state == old(self).state,
            final(self).violations == old(self).violations,
            final(self).output == old(self).output,
            final(self).messages.deep_view() =~= old(self).messages.deep_view().push(
                plain_message(role@, content@),
            ),
    {
        self.messages.push(
            Message {
                role: String::from_str(role),
                content: Some(String::from_str(content)),
                tool_calls: None,
                tool_call_id: None,
            },
        );
    }

    /// Takes the one assistant message of a turn and decides what is
    /// next: tool calls put the task into `ExecutingTools`; no tool calls
    /// and non-empty content end it; an empty answer without calls asks
    /// the model again.
    pub fn on_assistant(&mut self, content: Option<String>, tool_calls: Option<Vec<ToolCall>>)
        requires
            old(self).state == TaskState::AwaitingModel,
        ensures
            final(self).violations == old(self).violations,
            final(self).messages.deep_view() =~= old(self).messages.deep_view().push(
                MessageSpec {
                    role: "assistant"@,
                    content: content.deep_view(),
                    tool_calls: tool_calls.deep_view(),
                    tool_call_id: None,
                },
            ),
            turn_has_calls(tool_calls.deep_view()) ==> final(self).state
                == TaskState::ExecutingTools && final(self).output == old(self).output,
            !turn_has_calls(tool_calls.deep_view()) && turn_has_content(content.deep_view())
                ==> final(self).state == TaskState::Done && final(self).output.deep_view()
                == content.deep_view(),
            !turn_has_calls(tool_calls.deep_view()) && !turn_has_content(content.deep_view())
                ==> final(self).state == TaskState::AwaitingModel && final(self).output == old(
                self,
            ).output,
    {
        let has_calls = match &tool_calls {
            Some(calls) => calls.len() > 0,
            None => false,
        };
        let done_content: Option<String> = if has_calls {
            None
        } else {
            match &content {
                Some(c) => {
                    if c.as_str().unicode_len() > 0 {
                        Some(c.clone())
                    } else {
                        None
                    }
                },
                None => None,
            }
        };
        self.messages.push(
            Message {
                role: String::from_str("assistant"),
                content,
                tool_calls,
                tool_call_id: None,
            },
        );
        if has_calls {
            self.state = TaskState::ExecutingTools;
        } else {
            match done_content {
                Some(c) => {
                    self.state = TaskState::Done;
                    self.output = Some(c);
                },
                None => {
                    self.state = TaskState::AwaitingModel;
                },
            }
        }
    }

    /// Appends the result of one tool call to the history, tied to the
    /// call's id.  Every result of a turn is appended before the next
    /// model call.
    pub fn record_tool_result(&mut self, call_id: &str, result: String)
        requires
            old(self).state == TaskState::ExecutingTools,
        ensures
            final(self).state == old(self).state,
            final(self).violations == old(self).violations,
            final(self).output == old(self).output,
            final(self).messages.deep_view() =~= old(self).messages.deep_view().push(
                tool_result_message(call_id@, result@),
            ),
    {
        self.messages.push(
            Message {
                role: String::from_str("tool"),
                content: Some(result),
                tool_calls: None,
                tool_call_id: Some(String::from_str(call_id)),
            },
        );
    }

    /// A call to a name the registry does not know: the turn is not
    /// aborted, the model sees an error result instead.
    pub fn unknown_tool(&mut self, call_id: &str, name: &str)
        requires
            old(self).state == TaskState::ExecutingTools,
        ensures
            final(self).state == old(self).state,
            final(self).violations == old(self).violations,
            final(self).output == old(self).output,
            final(self).messages.deep_view() =~= old(self).messages.deep_view().push(
                tool_result_message(call_id@, "Unknown tool: "@ + name@),
            ),
    {
        let mut text_out = String::from_str("Unknown tool: ");
        text::append_str(&mut text_out, name);
        self.record_tool_result(call_id, text_out);
    }

    /// The report tool: a non-empty list joins the task's accumulated
    /// violations and is acknowledged with "OK"; an empty list is
    /// rejected with an error result and accumulates nothing.
    pub fn apply_report(&mut self, call_id: &str, reported: Vec<Violation>)
        requires
            old(self).state == TaskState::ExecutingTools,
        ensures
            final(self).state == old(self).state,
            final(self).output == old(self).output,
            reported@.len() > 0 ==> final(self).violations.deep_view()
                =~= old(self).violations.deep_view() + reported.deep_view()
                && final(self).messages.deep_view() =~= old(self).messages.deep_view().push(
                tool_result_message(call_id@, "OK"@),
            ),
            reported@.len() == 0 ==> final(self).violations == old(self).violations
                && final(self).messages.deep_view() =~= old(self).messages.deep_view().push(
                tool_result_message(call_id@, "At least 1 violation is required"@),
            ),
    {
        if reported.len() == 0 {
            self.record_tool_result(call_id, String::from_str("At least 1 violation is required"));
            return ;
        }
        let ghost prev = self.violations.deep_view();
        let mut reported = reported;
        let mut i: usize = 0;
        while i < reported.len()
            invariant
                i <= reported@.len(),
                self.violations.deep_view() == prev + reported.deep_view().take(i as int),
                self.state == old(self).state,
                self.messages == old(self).messages,
                self.output == old(self).output,
                reported@.len() > 0,
            decreases reported.len() - i,
        {
            let ghost vprev = self.violations.deep_view();
            let v = reported[i].duplicate();
            self.violations.push(v);
            proof {
                assert(self.violations.deep_view() =~= vprev.push(
                    reported.deep_view()[i as int],
                ));
                assert(vprev.push(reported.deep_view()[i as int]) =~= prev
                    + reported.deep_view().take(i + 1));
            }
            i += 1;
        }
        proof {
            assert(reported.deep_view().take(reported@.len() as int) =~= reported.deep_view());
        }
        self.record_tool_result(call_id, String::from_str("OK"));
    }

    /// The think tool's acknowledgment, recorded as the call's result.
    pub fn apply_think(&mut self, call_id: &str, reasoning: &str)
        requires
            old(self).state == TaskState::ExecutingTools,
        ensures
            final(self).state == old(self).state,
            final(self).violations == old(self).violations,
            final(self).output == old(self).output,
            final(self).messages.deep_view() =~= old(self).messages.deep_view().push(
                tool_result_message(call_id@, think_response_spec(reasoning@)),
            ),
    {
        let r = think_response(reasoning);
        self.record_tool_result(call_id, r);
    }

    /// Every result of the turn is in; the model is asked again.
    pub fn finish_turn(&mut self)
        requires
            old(self).state == TaskState::ExecutingTools,
        ensures
            final(self).state == TaskState::AwaitingModel,
            final(self).violations == old(self).violations,
            final(self).messages == old(self).messages,
            final(self).output == old(self).output,
    {
        self.state = TaskState::AwaitingModel;
    }

    /// Cancellation strikes: the task ends now, keeping whatever partial
    /// violations and history it has.
    pub fn cancel(&mut self)
        ensures
            final(self).state == TaskState::Cancelled,
            final(self).violations == old(self).violations,
            final(self).messages == old(self).messages,
            final(self).output == old(self).output,
    {
        self.state = TaskState::Cancelled;
    }
}

/// Looks a tool up by name in the catalog: the first entry of that name,
/// or nothing, in which case the caller synthesizes an error result.
pub fn resolve_tool(catalog: &Vec<String>, name: &String) -> (r: Option<usize>)
    ensures
        r matches Some(i) ==> i < catalog@.len() && catalog.deep_view()[i as int] == name@
            && (forall|j: int| 0 <= j < i ==> catalog.deep_view()[j] != name@),
        r is None ==> forall|j: int|
            0 <= j < catalog@.len() ==> catalog.deep_view()[j] != name@,
{
    let mut i: usize = 0;
    while i < catalog.len()
        invariant
            i <= catalog@.len(),
            forall|j: int| 0 <= j < i ==> catalog.deep_view()[j] != name@,
        decreases catalog.len() - i,
    {
        if catalog[i].eq(name) {
            proof {
                assert(catalog.deep_view()[i as int] == catalog@[i as int]@);
            }
            return Some(i);
        }
        proof {
            assert(catalog.deep_view()[i as int] == catalog@[i as int]@);
        }
        i += 1;
    }
    None
}

/// How many lines of reasoning the think tool tolerates before noting
/// overthinking: brief reasoning is a few sentences.
pub open spec fn max_reasoning_lines() -> int {
    10
}

/// How many characters of reasoning the think tool tolerates, roughly
/// two to three paragraphs.
pub open spec fn max_reasoning_chars() -> int {
    1500
}

/// What the think tool answers: a plain acknowledgment, or a note when
/// the reasoning runs long.
pub open spec fn think_response_spec(reasoning: Seq<char>) -> Seq<char> {
    if line_split(reasoning).len() > max_reasoning_lines() || reasoning.len()
        > max_reasoning_chars() {
        "OK. Note: Overthinking detected ("@ + text::dec_str(line_split(reasoning).len() as int)
            + " lines, "@ + text::dec_str(reasoning.len() as int)
            + " chars). Keep reasoning concise and focused."@
    } else {
        "OK"@
    }
}

/// The think tool has no side effect: it acknowledges, and notes when the
/// reasoning it was handed runs long.
pub fn think_response(reasoning: &str) -> (r: String)
    ensures
        r@ == think_response_spec(reasoning@),
{
    let lines = text::split_lines(reasoning);
    let line_count = lines.len();
    let char_count = reasoning.unicode_len();
    proof {
        assert(lines@.map_values(|l: String| l@).len() == line_split(reasoning@).len());
    }
    if line_count > 10 || char_count > 1500 {
        let mut out = String::from_str("OK. Note: Overthinking detected (");
        let lc = crate::text::usize_to_string(line_count);
        text::append_str(&mut out, lc.as_str());
        text::append_str(&mut out, " lines, ");
        let cc = crate::text::usize_to_string(char_count);
        text::append_str(&mut out, cc.as_str());
        text::append_str(&mut out, " chars). Keep reasoning concise and focused.");
        out
    } else {
        String::from_str("OK")
    }
}

} // verus!
