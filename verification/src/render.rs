//! Rendering reports and traces as Markdown text, with the exact output
//! pinned down character by character.

use vstd::prelude::*;

use crate::agent::{Message, MessageSpec, ToolCallSpec, ToolInfo, ToolInfoSpec};
use crate::aggregate::{FileViolations, FileViolationsSpec, RuleTip, RuleTipSpec, RuleViolationsSpec,
    tip_lookup};
use crate::rule::RuleBody;
use crate::text;
use crate::text::{dec_str, join_sep, line_split, trim_spec, trim_end_spec};
use crate::types::{Violation, ViolationSpec};

verus! {

/// One violation line: its range and detail.
pub open spec fn format_violation_spec(v: ViolationSpec) -> Seq<char> {
    "- Lines "@ + dec_str(v.start_line as int) + "-"@ + dec_str(v.end_line as int) + ": "@
        + v.detail + "\n"@
}

/// Renders one violation as a list line.
pub fn format_violation(v: &Violation) -> (r: String)
    ensures
        r@ == format_violation_spec(v@),
{
    let mut out = String::from_str("- Lines ");
    let s = crate::text::usize_to_string(v.start_line as usize);
    text::append_str(&mut out, s.as_str());
    text::append_str(&mut out, "-");
    let e = crate::text::usize_to_string(v.end_line as usize);
    text::append_str(&mut out, e.as_str());
    text::append_str(&mut out, ": ");
    text::append_str(&mut out, v.detail.as_str());
    text::append_str(&mut out, "\n");
    proof {
        assert(out@ =~= format_violation_spec(v@));
    }
    out
}

/// The tip block for a rule, absent when the tip is blank.
pub open spec fn format_tip_spec(tip: Seq<char>) -> Option<Seq<char>> {
    if trim_spec(tip).len() == 0 {
        None
    } else {
        Some("\n**Tip:** "@ + trim_spec(tip) + "\n"@)
    }
}

/// Renders a remediation tip, dropping blank ones.
pub fn format_tip(tip: &str) -> (r: Option<String>)
    ensures
        r.deep_view() == format_tip_spec(tip@),
{
    let trimmed = text::trim(tip);
    if trimmed.unicode_len() == 0 {
        None
    } else {
        let mut out = String::from_str("\n**Tip:** ");
        text::append_str(&mut out, trimmed);
        text::append_str(&mut out, "\n");
        proof {
            assert(out@ =~= "\n**Tip:** "@ + trim_spec(tip@) + "\n"@);
        }
        Some(out)
    }
}

/// A rule heading within a file's section.
pub open spec fn format_rule_spec(rule: Seq<char>) -> Seq<char> {
    "## Rule: "@ + rule + "\n\n"@
}

/// Renders a rule heading.
pub fn format_rule(rule: &str) -> (r: String)
    ensures
        r@ == format_rule_spec(rule@),
{
    let mut out = String::from_str("## Rule: ");
    text::append_str(&mut out, rule);
    text::append_str(&mut out, "\n\n");
    proof {
        assert(out@ =~= format_rule_spec(rule@));
    }
    out
}

/// All violation lines of one group, in order.
pub open spec fn violations_block_spec(vs: Seq<ViolationSpec>) -> Seq<char>
    decreases vs.len(),
{
    if vs.len() == 0 {
        Seq::empty()
    } else {
        violations_block_spec(vs.drop_last()) + format_violation_spec(vs.last())
    }
}

/// One rule's section: heading, violation lines, and its tip if any.
pub open spec fn format_rule_violations_spec(
    rule: Seq<char>,
    vs: Seq<ViolationSpec>,
    tip: Option<Seq<char>>,
) -> Seq<char> {
    let tip_block = match tip {
        Some(t) => match format_tip_spec(t) {
            Some(b) => b,
            None => Seq::empty(),
        },
        None => Seq::empty(),
    };
    format_rule_spec(rule) + violations_block_spec(vs) + tip_block + "\n"@
}

/// Renders one rule's section of the report.
pub fn format_rule_violations(rule: &str, violations: &Vec<Violation>, tip: Option<&str>) -> (r:
    String)
    ensures
        r@ == format_rule_violations_spec(
            rule@,
            violations.deep_view(),
            match tip {
                Some(t) => Some(t@),
                None => None,
            },
        ),
{
    let ghost vdv = violations.deep_view();
    let mut out = format_rule(rule);
    let mut i: usize = 0;
    proof {
        assert(out@ =~= format_rule_spec(rule@) + violations_block_spec(vdv.take(0)));
    }
    while i < violations.len()
        invariant
            vdv == violations.deep_view(),
            i <= violations.len(),
            out@ == format_rule_spec(rule@) + violations_block_spec(vdv.take(i as int)),
        decreases violations.len() - i,
    {
        let line = format_violation(&violations[i]);
        text::append_str(&mut out, line.as_str());
        proof {
            assert(violations@[i as int]@ == vdv[i as int]);
            assert(vdv.take(i + 1).drop_last() =~= vdv.take(i as int));
            assert(vdv.take(i + 1).last() == vdv[i as int]);
            assert(out@ =~= format_rule_spec(rule@) + violations_block_spec(vdv.take(i + 1)));
        }
        i += 1;
    }
    proof {
        assert(vdv.take(violations@.len() as int) =~= vdv);
    }
    match tip {
        Some(t) => {
            match format_tip(t) {
                Some(b) => {
                    text::append_str(&mut out, b.as_str());
                },
                None => {},
            }
        },
        None => {},
    }
    text::append_str(&mut out, "\n");
    proof {
        assert(out@ =~= format_rule_violations_spec(
            rule@,
            vdv,
            match tip {
                Some(t) => Some(t@),
                None => None,
            },
        ));
    }
    out
}

/// One file's rule sections, in order.
pub open spec fn rules_block_spec(
    rules: Seq<RuleViolationsSpec>,
    tips: Seq<RuleTipSpec>,
) -> Seq<char>
    decreases rules.len(),
{
    if rules.len() == 0 {
        Seq::empty()
    } else {
        rules_block_spec(rules.drop_last(), tips) + format_rule_violations_spec(
            rules.last().rule_name,
            rules.last().violations,
            tip_lookup(tips, rules.last().rule_name),
        )
    }
}

/// The per-file sections of the report, in order.
pub open spec fn files_block_spec(
    groups: Seq<FileViolationsSpec>,
    tips: Seq<RuleTipSpec>,
) -> Seq<char>
    decreases groups.len(),
{
    if groups.len() == 0 {
        Seq::empty()
    } else {
        files_block_spec(groups.drop_last(), tips) + "# Violations in "@ + groups.last().file
            + "\n\n"@ + rules_block_spec(groups.last().rules, tips)
    }
}

/// The whole violation report.
pub open spec fn format_violations_spec(
    groups: Seq<FileViolationsSpec>,
    tips: Seq<RuleTipSpec>,
) -> Seq<char> {
    if groups.len() == 0 {
        "No violations found"@
    } else {
        trim_end_spec(files_block_spec(groups, tips))
    }
}

/// Renders the grouped violations as the final report: one section per
/// file, one subsection per rule with its violations and tip.
pub fn format_violations(groups: &Vec<FileViolations>, tips: &Vec<RuleTip>) -> (r: String)
    ensures
        r@ == format_violations_spec(groups.deep_view(), tips.deep_view()),
{
    if groups.len() == 0 {
        return String::from_str("No violations found");
    }
    let ghost gdv = groups.deep_view();
    let ghost tdv = tips.deep_view();
    let mut out = String::new();
    let mut i: usize = 0;
    proof {
        assert(out@ =~= files_block_spec(gdv.take(0), tdv));
    }
    while i < groups.len()
        invariant
            gdv == groups.deep_view(),
            tdv == tips.deep_view(),
            i <= groups.len(),
            out@ == files_block_spec(gdv.take(i as int), tdv),
        decreases groups.len() - i,
    {
        let fg = &groups[i];
        proof {
            assert(groups@[i as int]@ == gdv[i as int]);
        }
        text::append_str(&mut out, "# Violations in ");
        text::append_str(&mut out, fg.file.as_str());
        text::append_str(&mut out, "\n\n");
        let ghost rdv = gdv[i as int].rules;
        let mut j: usize = 0;
        let ghost base = out@;
        proof {
            assert(out@ =~= base + rules_block_spec(rdv.take(0), tdv));
        }
        while j < fg.rules.len()
            invariant
                gdv == groups.deep_view(),
                tdv == tips.deep_view(),
                i < groups.len(),
                fg == &groups[i as int],
                groups@[i as int]@ == gdv[i as int],
                rdv == gdv[i as int].rules,
                j <= fg.rules.len(),
                out@ == base + rules_block_spec(rdv.take(j as int), tdv),
            decreases fg.rules.len() - j,
        {
            let rg = &fg.rules[j];
            proof {
                assert(fg.rules@[j as int]@ == rdv[j as int]);
            }
            let tip = crate::aggregate::find_tip(tips, &rg.rule_name);
            let tip_ref: Option<&str> = match tip {
                Some(t) => Some(t.as_str()),
                None => None,
            };
            let section = format_rule_violations(rg.rule_name.as_str(), &rg.violations, tip_ref);
            text::append_str(&mut out, section.as_str());
            proof {
                assert(rdv.take(j + 1).drop_last() =~= rdv.take(j as int));
                assert(rdv.take(j + 1).last() == rdv[j as int]);
                assert(out@ =~= base + rules_block_spec(rdv.take(j + 1), tdv));
            }
            j += 1;
        }
        proof {
            assert(rdv.take(fg.rules@.len() as int) =~= rdv);
            assert(gdv.take(i + 1).drop_last() =~= gdv.take(i as int));
            assert(gdv.take(i + 1).last() == gdv[i as int]);
            assert(out@ =~= files_block_spec(gdv.take(i + 1), tdv));
        }
        i += 1;
    }
    proof {
        assert(gdv.take(groups@.len() as int) =~= gdv);
    }
    let trimmed = text::trim_end(out.as_str());
    String::from_str(trimmed)
}

/// Whether a line consists of backticks alone; empty lines count.
pub open spec fn all_backticks(l: Seq<char>) -> bool {
    forall|i: int| 0 <= i < l.len() ==> l[i] == '`'
}

/// The longest backtick-only line.
pub open spec fn max_tick_line(lines: Seq<Seq<char>>) -> int
    decreases lines.len(),
{
    if lines.len() == 0 {
        0
    } else {
        let m = max_tick_line(lines.drop_last());
        if all_backticks(lines.last()) && lines.last().len() > m {
            lines.last().len() as int
        } else {
            m
        }
    }
}

/// How long the fence for some content must be: one more backtick than
/// any backtick-only line in it, and at least three.  A machine word
/// caps it, far beyond any content that fits in memory.
pub open spec fn fence_len(content: Seq<char>) -> int {
    let m = max_tick_line(line_split(content)) + 1;
    if m > 3 {
        if m > usize::MAX {
            usize::MAX as int
        } else {
            m
        }
    } else {
        3
    }
}

/// The code fence that safely encloses `content`.
pub open spec fn fence_spec(content: Seq<char>) -> Seq<char> {
    Seq::new(fence_len(content) as nat, |i: int| '`')
}

fn line_is_backticks(l: &String) -> (r: bool)
    ensures
        r == all_backticks(l@),
{
    let n = l.as_str().unicode_len();
    let mut i: usize = 0;
    while i < n
        invariant
            n == l@.len(),
            i <= n,
            forall|j: int| 0 <= j < i ==> l@[j] == '`',
        decreases n - i,
    {
        if l.as_str().get_char(i) != '`' {
            return false;
        }
        i += 1;
    }
    true
}

/// A Markdown code fence long enough for the content: at least three
/// backticks, and more when the content itself holds backtick lines.
pub fn get_fence_backticks(content: &str) -> (r: String)
    ensures
        r@ == fence_spec(content@),
{
    let total = content.unicode_len();
    let lines = text::split_lines(content);
    let ghost lv = line_split(content@);
    proof {
        assert(total == content@.len());
        assert(lines@.map_values(|l: String| l@) == lv);
        text::lemma_line_split_lens(content@);
    }
    let mut m: usize = 0;
    let mut i: usize = 0;
    while i < lines.len()
        invariant
            lines@.map_values(|l: String| l@) == lv,
            lv == line_split(content@),
            i <= lines.len(),
            m == max_tick_line(lv.take(i as int)),
            m <= content@.len() <= usize::MAX,
        decreases lines.len() - i,
    {
        proof {
            text::lemma_line_split_lens(content@);
            assert(lv[i as int] == lines@[i as int]@);
            assert(lv.take(i + 1).drop_last() =~= lv.take(i as int));
            assert(lv.take(i + 1).last() == lv[i as int]);
        }
        if line_is_backticks(&lines[i]) {
            let len = lines[i].as_str().unicode_len();
            if len > m {
                m = len;
            }
        }
        i += 1;
    }
    proof {
        assert(lv.take(lines@.len() as int) =~= lv);
    }
    let want = if m >= 3 {
        if m < usize::MAX {
            m + 1
        } else {
            m
        }
    } else {
        3
    };
    proof {
        assert(want == fence_len(content@));
    }
    text::repeat_char('`', want)
}

/// Every line of the trimmed content quoted as a Markdown block quote.
pub open spec fn wrap_in_ref_block_spec(content: Seq<char>) -> Seq<char> {
    join_sep(
        line_split(trim_spec(content)).map_values(|l: Seq<char>| "> "@ + l),
        "\n"@,
    )
}

/// Quotes content as a Markdown block quote, line by line.
pub fn wrap_in_ref_block(content: &str) -> (r: String)
    ensures
        r@ == wrap_in_ref_block_spec(content@),
{
    let trimmed = text::trim(content);
    let lines = text::split_lines(trimmed);
    let ghost lv = line_split(trim_spec(content@));
    proof {
        assert(lines@.map_values(|l: String| l@) == lv);
    }
    let mut quoted: Vec<String> = Vec::new();
    let mut i: usize = 0;
    proof {
        assert(quoted@.map_values(|l: String| l@) =~= lv.take(0).map_values(
            |l: Seq<char>| "> "@ + l,
        ));
    }
    while i < lines.len()
        invariant
            lines@.map_values(|l: String| l@) == lv,
            i <= lines.len(),
            quoted@.map_values(|l: String| l@) == lv.take(i as int).map_values(
                |l: Seq<char>| "> "@ + l,
            ),
        decreases lines.len() - i,
    {
        let ghost prev = quoted@;
        let mut q = String::from_str("> ");
        text::append_str(&mut q, lines[i].as_str());
        quoted.push(q);
        proof {
            assert(lv[i as int] == lines@[i as int]@);
            assert(quoted@.map_values(|l: String| l@) =~= prev.map_values(
                |l: String| l@,
            ).push("> "@ + lv[i as int]));
            assert(quoted@.map_values(|l: String| l@) =~= lv.take(i + 1).map_values(
                |l: Seq<char>| "> "@ + l,
            ));
        }
        i += 1;
    }
    proof {
        assert(lv.take(lines@.len() as int) =~= lv);
    }
    text::join_strings(&quoted, "\n")
}

/// The focused-files section of a trace entry.
pub open spec fn file_lines_spec(files: Seq<Seq<char>>) -> Seq<char>
    decreases files.len(),
{
    if files.len() == 0 {
        Seq::empty()
    } else {
        file_lines_spec(files.drop_last()) + "- "@ + files.last() + "\n"@
    }
}

/// The focused-files section of a trace entry.
pub open spec fn format_focused_files_spec(files: Seq<Seq<char>>) -> Seq<char> {
    "## Focused Files\n\n"@ + file_lines_spec(files) + "\n"@
}

/// Renders the focused-files section of a trace entry.
pub fn format_focused_files(files: &Vec<String>) -> (r: String)
    ensures
        r@ == format_focused_files_spec(files.deep_view()),
{
    let ghost fdv = files.deep_view();
    let mut out = String::from_str("## Focused Files\n\n");
    let mut i: usize = 0;
    proof {
        assert(out@ =~= "## Focused Files\n\n"@ + file_lines_spec(fdv.take(0)));
    }
    while i < files.len()
        invariant
            fdv == files.deep_view(),
            i <= files.len(),
            out@ == "## Focused Files\n\n"@ + file_lines_spec(fdv.take(i as int)),
        decreases files.len() - i,
    {
        text::append_str(&mut out, "- ");
        text::append_str(&mut out, files[i].as_str());
        text::append_str(&mut out, "\n");
        proof {
            assert(files@[i as int]@ == fdv[i as int]);
            assert(fdv.take(i + 1).drop_last() =~= fdv.take(i as int));
            assert(fdv.take(i + 1).last() == fdv[i as int]);
            assert(out@ =~= "## Focused Files\n\n"@ + file_lines_spec(fdv.take(i + 1)));
        }
        i += 1;
    }
    proof {
        assert(fdv.take(files@.len() as int) =~= fdv);
    }
    text::append_str(&mut out, "\n");
    proof {
        assert(out@ =~= format_focused_files_spec(fdv));
    }
    out
}

/// A message's content: fenced verbatim for tool results, quoted for
/// everything else.
pub open spec fn format_message_content_spec(role: Seq<char>, content: Seq<char>) -> Seq<char> {
    if role == "tool"@ {
        fence_spec(content) + "\n"@ + content + "\n"@ + fence_spec(content) + "\n\n"@
    } else {
        wrap_in_ref_block_spec(content) + "\n\n"@
    }
}

/// Renders a message's content for the trace.
pub fn format_message_content(role: &str, content: &str) -> (r: String)
    ensures
        r@ == format_message_content_spec(role@, content@),
{
    if text::str_eq(role, "tool") {
        let fence = get_fence_backticks(content);
        let mut out = fence.clone();
        proof {
            assert(out@ == fence@);
        }
        text::append_str(&mut out, "\n");
        text::append_str(&mut out, content);
        text::append_str(&mut out, "\n");
        text::append_str(&mut out, fence.as_str());
        text::append_str(&mut out, "\n\n");
        proof {
            assert(out@ =~= format_message_content_spec(role@, content@));
        }
        out
    } else {
        let mut out = wrap_in_ref_block(content);
        text::append_str(&mut out, "\n\n");
        proof {
            assert(out@ =~= format_message_content_spec(role@, content@));
        }
        out
    }
}

/// An elapsed time in hundredths of a second, written in seconds with
/// two decimal places.
pub open spec fn elapsed_str(centis: u64) -> Seq<char> {
    dec_str(centis as int / 100) + "."@ + (if centis as int % 100 < 10 {
        "0"@ + dec_str(centis as int % 100)
    } else {
        dec_str(centis as int % 100)
    })
}

/// Renders an elapsed time in seconds with two decimal places.
pub fn format_elapsed(centis: u64) -> (r: String)
    ensures
        r@ == elapsed_str(centis),
{
    let secs = centis / 100;
    let frac = centis % 100;
    let mut out = crate::text::u64_to_string(secs);
    text::append_str(&mut out, ".");
    if frac < 10 {
        text::append_str(&mut out, "0");
    }
    let f = crate::text::u64_to_string(frac);
    text::append_str(&mut out, f.as_str());
    proof {
        assert(out@ =~= elapsed_str(centis));
    }
    out
}

/// One message's heading in the trace.
pub open spec fn format_message_header_spec(
    index: int,
    role: Seq<char>,
    timestamp: Seq<char>,
    elapsed_centis: u64,
) -> Seq<char> {
    "### "@ + dec_str(index + 1) + ". "@ + role + " @ "@ + timestamp + " (+"@ + elapsed_str(
        elapsed_centis,
    ) + "s)\n\n"@
}

/// Renders one message's heading.
pub fn format_message_header(index: usize, role: &str, timestamp: &str, elapsed_centis: u64)
    -> (r: String)
    requires
        index < usize::MAX,
    ensures
        r@ == format_message_header_spec(index as int, role@, timestamp@, elapsed_centis),
{
    let mut out = String::from_str("### ");
    let n = crate::text::usize_to_string(index + 1);
    text::append_str(&mut out, n.as_str());
    text::append_str(&mut out, ". ");
    text::append_str(&mut out, role);
    text::append_str(&mut out, " @ ");
    text::append_str(&mut out, timestamp);
    text::append_str(&mut out, " (+");
    let e = format_elapsed(elapsed_centis);
    text::append_str(&mut out, e.as_str());
    text::append_str(&mut out, "s)\n\n");
    proof {
        assert(out@ =~= format_message_header_spec(
            index as int,
            role@,
            timestamp@,
            elapsed_centis,
        ));
    }
    out
}

/// One tool call of an assistant turn, named with its raw argument
/// payload fenced as JSON.
pub open spec fn format_tool_call_spec(tc: ToolCallSpec) -> Seq<char> {
    "- **"@ + tc.function.name + "**\n\n```json\n"@ + tc.function.arguments + "\n```\n\n"@
}

/// Renders one tool call of an assistant turn.
pub fn format_tool_call(tc: &crate::agent::ToolCall) -> (r: String)
    ensures
        r@ == format_tool_call_spec(tc@),
{
    let mut out = String::from_str("- **");
    text::append_str(&mut out, tc.function.name.as_str());
    text::append_str(&mut out, "**\n\n```json\n");
    text::append_str(&mut out, tc.function.arguments.as_str());
    text::append_str(&mut out, "\n```\n\n");
    proof {
        assert(out@ =~= format_tool_call_spec(tc@));
    }
    out
}

/// One message of a trace with when it arrived and how long the step
/// before it took, the timestamp already rendered as text.
pub struct TimedMessage {
    pub message: Message,
    pub timestamp: String,
    pub elapsed_centis: u64,
}

/// The mathematical value of a timed message.
#[verifier::ext_equal]
pub struct TimedMessageSpec {
    pub message: MessageSpec,
    pub timestamp: Seq<char>,
    pub elapsed_centis: u64,
}

impl View for TimedMessage {
    type V = TimedMessageSpec;

    open spec fn view(&self) -> TimedMessageSpec {
        TimedMessageSpec {
            message: self.message@,
            timestamp: self.timestamp@,
            elapsed_centis: self.elapsed_centis,
        }
    }
}

impl DeepView for TimedMessage {
    type V = TimedMessageSpec;

    open spec fn deep_view(&self) -> TimedMessageSpec {
        self@
    }
}

/// All tool-call lines of one turn.
pub open spec fn tool_calls_block_spec(calls: Seq<ToolCallSpec>) -> Seq<char>
    decreases calls.len(),
{
    if calls.len() == 0 {
        Seq::empty()
    } else {
        tool_calls_block_spec(calls.drop_last()) + format_tool_call_spec(calls.last())
    }
}

/// Whether a role's content is collapsed behind a details block.
pub open spec fn role_is_collapsed(role: Seq<char>) -> bool {
    role == "system"@ || role == "user"@ || role == "tool"@
}

/// One whole message of the trace: heading, content, and tool calls.
pub open spec fn format_message_spec(msg: TimedMessageSpec, index: int) -> Seq<char> {
    let header = format_message_header_spec(
        index,
        msg.message.role,
        msg.timestamp,
        msg.elapsed_centis,
    );
    let content_part = match msg.message.content {
        Some(c) => if c.len() > 0 {
            if role_is_collapsed(msg.message.role) {
                header + "<details>\n<summary>Show content</summary>\n\n"@
                    + format_message_content_spec(msg.message.role, c) + "</details>\n\n"@
            } else {
                header + format_message_content_spec(msg.message.role, c)
            }
        } else if msg.message.tool_calls is None {
            header + "Empty message.\n\n"@
        } else {
            header
        },
        None => Seq::empty(),
    };
    match msg.message.tool_calls {
        Some(calls) => {
            let with_header = if content_part.len() == 0 {
                header
            } else {
                content_part
            };
            with_header + "#### Tool Calls\n\n"@ + tool_calls_block_spec(calls)
        },
        None => content_part,
    }
}

/// Renders one message of the trace.
pub fn format_message(msg: &TimedMessage, index: usize) -> (r: String)
    requires
        index < usize::MAX,
    ensures
        r@ == format_message_spec(msg@, index as int),
{
    let mut out = String::new();
    match &msg.message.content {
        Some(c) => {
            let header = format_message_header(
                index,
                msg.message.role.as_str(),
                msg.timestamp.as_str(),
                msg.elapsed_centis,
            );
            text::append_str(&mut out, header.as_str());
            if c.as_str().unicode_len() > 0 {
                let collapsed = text::str_eq(msg.message.role.as_str(), "system") || text::str_eq(
                    msg.message.role.as_str(),
                    "user",
                ) || text::str_eq(msg.message.role.as_str(), "tool");
                let body = format_message_content(msg.message.role.as_str(), c.as_str());
                if collapsed {
                    text::append_str(&mut out, "<details>\n<summary>Show content</summary>\n\n");
                    text::append_str(&mut out, body.as_str());
                    text::append_str(&mut out, "</details>\n\n");
                } else {
                    text::append_str(&mut out, body.as_str());
                }
            } else {
                match &msg.message.tool_calls {
                    Some(_) => {},
                    None => {
                        text::append_str(&mut out, "Empty message.\n\n");
                    },
                }
            }
        },
        None => {},
    }
    match &msg.message.tool_calls {
        Some(calls) => {
            if out.as_str().unicode_len() == 0 {
                let header = format_message_header(
                    index,
                    msg.message.role.as_str(),
                    msg.timestamp.as_str(),
                    msg.elapsed_centis,
                );
                text::append_str(&mut out, header.as_str());
            }
            text::append_str(&mut out, "#### Tool Calls\n\n");
            let ghost cdv = calls.deep_view();
            let ghost base = out@;
            let mut i: usize = 0;
            proof {
                assert(out@ =~= base + tool_calls_block_spec(cdv.take(0)));
            }
            while i < calls.len()
                invariant
                    cdv == calls.deep_view(),
                    i <= calls.len(),
                    out@ == base + tool_calls_block_spec(cdv.take(i as int)),
                decreases calls.len() - i,
            {
                let line = format_tool_call(&calls[i]);
                text::append_str(&mut out, line.as_str());
                proof {
                    assert(calls@[i as int]@ == cdv[i as int]);
                    assert(cdv.take(i + 1).drop_last() =~= cdv.take(i as int));
                    assert(cdv.take(i + 1).last() == cdv[i as int]);
                    assert(out@ =~= base + tool_calls_block_spec(cdv.take(i + 1)));
                }
                i += 1;
            }
            proof {
                assert(cdv.take(calls@.len() as int) =~= cdv);
            }
        },
        None => {},
    }
    proof {
        assert(out@ =~= format_message_spec(msg@, index as int));
    }
    out
}

/// The catalog section of a trace entry, one line per tool.
pub open spec fn tool_lines_spec(tools: Seq<ToolInfoSpec>) -> Seq<char>
    decreases tools.len(),
{
    if tools.len() == 0 {
        Seq::empty()
    } else {
        tool_lines_spec(tools.drop_last()) + "- **"@ + tools.last().name + "**: "@
            + tools.last().description + "\n"@
    }
}

/// The collapsed catalog section of a trace entry.
pub open spec fn format_tools_spec(tools: Seq<ToolInfoSpec>) -> Seq<char> {
    "## Tools\n\n<details>\n<summary>Show tools</summary>\n\n"@ + tool_lines_spec(tools)
        + "\n</details>\n\n"@
}

/// Renders the tool catalog offered to the model for one task.
pub fn format_tools(tools: &Vec<ToolInfo>) -> (r: String)
    ensures
        r@ == format_tools_spec(tools.deep_view()),
{
    let ghost tdv = tools.deep_view();
    let mut out = String::from_str("## Tools\n\n<details>\n<summary>Show tools</summary>\n\n");
    let ghost base = out@;
    let mut i: usize = 0;
    proof {
        assert(out@ =~= base + tool_lines_spec(tdv.take(0)));
    }
    while i < tools.len()
        invariant
            tdv == tools.deep_view(),
            i <= tools.len(),
            out@ == base + tool_lines_spec(tdv.take(i as int)),
            base == "## Tools\n\n<details>\n<summary>Show tools</summary>\n\n"@,
        decreases tools.len() - i,
    {
        text::append_str(&mut out, "- **");
        text::append_str(&mut out, tools[i].name.as_str());
        text::append_str(&mut out, "**: ");
        text::append_str(&mut out, tools[i].description.as_str());
        text::append_str(&mut out, "\n");
        proof {
            assert(tools@[i as int]@ == tdv[i as int]);
            assert(tdv.take(i + 1).drop_last() =~= tdv.take(i as int));
            assert(tdv.take(i + 1).last() == tdv[i as int]);
            assert(out@ =~= base + tool_lines_spec(tdv.take(i + 1)));
        }
        i += 1;
    }
    proof {
        assert(tdv.take(tools@.len() as int) =~= tdv);
    }
    text::append_str(&mut out, "\n</details>\n\n");
    proof {
        assert(out@ =~= format_tools_spec(tdv));
    }
    out
}

/// A trace entry's rule section, the instruction collapsed and quoted.
pub open spec fn format_trace_rule_spec(
    rule_name: Seq<char>,
    rule_instruction: Seq<char>,
) -> Seq<char> {
    "## Rule: "@ + rule_name + "\n\n<details>\n<summary>Show rule</summary>\n\n"@
        + wrap_in_ref_block_spec(rule_instruction) + "\n\n</details>\n\n"@
}

/// Renders a trace entry's rule section.
pub fn format_trace_rule(rule_name: &str, rule_instruction: &str) -> (r: String)
    ensures
        r@ == format_trace_rule_spec(rule_name@, rule_instruction@),
{
    let mut out = String::from_str("## Rule: ");
    text::append_str(&mut out, rule_name);
    text::append_str(&mut out, "\n\n<details>\n<summary>Show rule</summary>\n\n");
    let quoted = wrap_in_ref_block(rule_instruction);
    text::append_str(&mut out, quoted.as_str());
    text::append_str(&mut out, "\n\n</details>\n\n");
    proof {
        assert(out@ =~= format_trace_rule_spec(rule_name@, rule_instruction@));
    }
    out
}

/// One worker's full trace record: rule, focused files, elapsed time,
/// tool catalog, and the complete message history.
pub struct TraceEntry {
    pub worker_id: String,
    pub rule: RuleBody,
    pub files: Vec<String>,
    pub elapsed_centis: u64,
    pub tools: Vec<ToolInfo>,
    pub messages: Vec<TimedMessage>,
}

/// The trace artifact as a whole, versioned for rendering later.
pub struct TraceFile {
    pub version: String,
    pub entries: Vec<TraceEntry>,
}

/// The violation artifact as a whole, versioned for rendering later.
pub struct ViolationFile {
    pub version: String,
    pub violations: Vec<FileViolations>,
    pub tips: Vec<RuleTip>,
}

/// All messages of one entry, each under its heading.
pub open spec fn messages_block_spec(msgs: Seq<TimedMessageSpec>, n: int) -> Seq<char>
    decreases n,
{
    if n <= 0 {
        Seq::empty()
    } else {
        messages_block_spec(msgs, n - 1) + format_message_spec(msgs[n - 1], n - 1)
    }
}

/// One whole trace entry as Markdown.
pub open spec fn trace_entry_spec(
    worker_id: Seq<char>,
    rule_name: Seq<char>,
    rule_instruction: Seq<char>,
    files: Seq<Seq<char>>,
    elapsed_centis: u64,
    tools: Seq<ToolInfoSpec>,
    msgs: Seq<TimedMessageSpec>,
) -> Seq<char> {
    "# Worker: "@ + worker_id + " (Elapsed: "@ + elapsed_str(elapsed_centis) + "s)\n\n"@
        + format_trace_rule_spec(rule_name, rule_instruction) + format_focused_files_spec(files)
        + format_tools_spec(tools) + "## Messages\n\n"@ + messages_block_spec(
        msgs,
        msgs.len() as int,
    ) + "---\n\n"@
}

/// All trace entries, in worker order.
pub open spec fn format_trace_markdown_spec(entries: Seq<TraceEntry>, n: int) -> Seq<char>
    decreases n,
{
    if n <= 0 {
        Seq::empty()
    } else {
        let e = entries[n - 1];
        format_trace_markdown_spec(entries, n - 1) + trace_entry_spec(
            e.worker_id@,
            e.rule@.name,
            e.rule@.instruction,
            e.files.deep_view(),
            e.elapsed_centis,
            e.tools.deep_view(),
            e.messages.deep_view(),
        )
    }
}

/// Renders the full execution trace: per worker its rule, focused files,
/// elapsed time, tool catalog, and complete message history.
#[verifier::rlimit(60)]
pub fn format_trace_markdown(traces: &Vec<TraceEntry>) -> (r: String)
    ensures
        r@ == format_trace_markdown_spec(traces@, traces@.len() as int),
{
    let mut out = String::new();
    let mut i: usize = 0;
    proof {
        assert(out@ =~= format_trace_markdown_spec(traces@, 0));
    }
    while i < traces.len()
        invariant
            i <= traces.len(),
            out@ == format_trace_markdown_spec(traces@, i as int),
        decreases traces.len() - i,
    {
        let e = &traces[i];
        text::append_str(&mut out, "# Worker: ");
        text::append_str(&mut out, e.worker_id.as_str());
        text::append_str(&mut out, " (Elapsed: ");
        let el = format_elapsed(e.elapsed_centis);
        text::append_str(&mut out, el.as_str());
        text::append_str(&mut out, "s)\n\n");
        let tr = format_trace_rule(e.rule.name.as_str(), e.rule.instruction.as_str());
        text::append_str(&mut out, tr.as_str());
        let ff = format_focused_files(&e.files);
        text::append_str(&mut out, ff.as_str());
        let ft = format_tools(&e.tools);
        text::append_str(&mut out, ft.as_str());
        text::append_str(&mut out, "## Messages\n\n");
        let ghost mdv = e.messages.deep_view();
        let ghost base = out@;
        let mut j: usize = 0;
        proof {
            assert(out@ =~= base + messages_block_spec(mdv, 0));
        }
        while j < e.messages.len()
            invariant
                i < traces@.len(),
                e == &traces@[i as int],
                mdv == e.messages.deep_view(),
                j <= e.messages.len(),
                out@ == base + messages_block_spec(mdv, j as int),
            decreases e.messages.len() - j,
        {
            let m = format_message(&e.messages[j], j);
            text::append_str(&mut out, m.as_str());
            proof {
                assert(e.messages@[j as int]@ == mdv[j as int]);
                assert(out@ =~= base + messages_block_spec(mdv, j + 1));
            }
            j += 1;
        }
        text::append_str(&mut out, "---\n\n");
        proof {
            assert(out@ =~= format_trace_markdown_spec(traces@, i + 1));
        }
        i += 1;
    }
    out
}


/// The scope list of one suggested rule.
pub open spec fn scope_lines_spec(patterns: Seq<Seq<char>>) -> Seq<char>
    decreases patterns.len(),
{
    if patterns.len() == 0 {
        Seq::empty()
    } else {
        scope_lines_spec(patterns.drop_last()) + "- `"@ + patterns.last() + "`\n"@
    }
}

/// One suggested rule as Markdown.
pub open spec fn rule_markdown_spec(rule: crate::rule::RuleSpec) -> Seq<char> {
    "## "@ + rule.name + "\n\n"@ + (if rule.description.len() > 0 {
        "**Description:** "@ + rule.description + "\n\n"@
    } else {
        Seq::empty()
    }) + "**Instruction:** "@ + rule.instruction + "\n\n"@ + (match rule.tip {
        Some(t) => "**Tip:** "@ + t + "\n\n"@,
        None => Seq::empty(),
    }) + "**Blocking:** "@ + (if rule.blocking {
        "true"@
    } else {
        "false"@
    }) + "\n\n"@ + (if rule.scope.len() > 0 {
        "**Scope:**\n"@ + scope_lines_spec(rule.scope) + "\n"@
    } else {
        Seq::empty()
    }) + "---\n\n"@
}

/// All suggested rules as Markdown.
pub open spec fn rules_markdown_spec(rules: Seq<crate::rule::RuleSpec>) -> Seq<char>
    decreases rules.len(),
{
    if rules.len() == 0 {
        "# Suggested Rules\n\n"@
    } else {
        rules_markdown_spec(rules.drop_last()) + rule_markdown_spec(rules.last())
    }
}

fn format_one_rule_markdown(rule: &RuleBody) -> (r: String)
    ensures
        r@ == rule_markdown_spec(rule@),
{
    let mut out = String::from_str("## ");
    text::append_str(&mut out, rule.name.as_str());
    text::append_str(&mut out, "\n\n");
    if rule.description.as_str().unicode_len() > 0 {
        text::append_str(&mut out, "**Description:** ");
        text::append_str(&mut out, rule.description.as_str());
        text::append_str(&mut out, "\n\n");
    }
    text::append_str(&mut out, "**Instruction:** ");
    text::append_str(&mut out, rule.instruction.as_str());
    text::append_str(&mut out, "\n\n");
    match &rule.tip {
        Some(t) => {
            text::append_str(&mut out, "**Tip:** ");
            text::append_str(&mut out, t.as_str());
            text::append_str(&mut out, "\n\n");
        },
        None => {},
    }
    text::append_str(&mut out, "**Blocking:** ");
    if rule.blocking {
        text::append_str(&mut out, "true");
    } else {
        text::append_str(&mut out, "false");
    }
    text::append_str(&mut out, "\n\n");
    if rule.scope.len() > 0 {
        text::append_str(&mut out, "**Scope:**\n");
        let ghost sdv = rule@.scope;
        let ghost base = out@;
        let mut j: usize = 0;
        proof {
            assert(out@ =~= base + scope_lines_spec(sdv.take(0)));
        }
        while j < rule.scope.len()
            invariant
                sdv == rule@.scope,
                j <= rule.scope.len(),
                out@ == base + scope_lines_spec(sdv.take(j as int)),
            decreases rule.scope.len() - j,
        {
            text::append_str(&mut out, "- `");
            text::append_str(&mut out, rule.scope[j].as_str());
            text::append_str(&mut out, "`\n");
            proof {
                assert(rule.scope@[j as int]@ == sdv[j as int]);
                assert(sdv.take(j + 1).drop_last() =~= sdv.take(j as int));
                assert(sdv.take(j + 1).last() == sdv[j as int]);
                assert(out@ =~= base + scope_lines_spec(sdv.take(j + 1)));
            }
            j += 1;
        }
        proof {
            assert(sdv.take(rule.scope@.len() as int) =~= sdv);
        }
        text::append_str(&mut out, "\n");
    } else {
        proof {
            assert(rule@.scope.len() == 0);
        }
    }
    text::append_str(&mut out, "---\n\n");
    proof {
        assert(out@ =~= rule_markdown_spec(rule@));
    }
    out
}

/// Renders suggested rules as Markdown, with name, instruction, scope
/// and tip.
pub fn format_rules_markdown(rules: &Vec<RuleBody>) -> (r: String)
    ensures
        r@ == rules_markdown_spec(rules@.map_values(|ru: RuleBody| ru@)),
{
    let ghost rdv = rules@.map_values(|ru: RuleBody| ru@);
    let mut out = String::from_str("# Suggested Rules\n\n");
    let mut i: usize = 0;
    proof {
        assert(out@ =~= rules_markdown_spec(rdv.take(0)));
    }
    while i < rules.len()
        invariant
            rdv == rules@.map_values(|ru: RuleBody| ru@),
            i <= rules.len(),
            out@ == rules_markdown_spec(rdv.take(i as int)),
        decreases rules.len() - i,
    {
        let piece = format_one_rule_markdown(&rules[i]);
        text::append_str(&mut out, piece.as_str());
        proof {
            assert(rdv[i as int] == rules@[i as int]@);
            assert(rdv.take(i + 1).drop_last() =~= rdv.take(i as int));
            assert(rdv.take(i + 1).last() == rdv[i as int]);
            assert(out@ =~= rules_markdown_spec(rdv.take(i + 1)));
        }
        i += 1;
    }
    proof {
        assert(rdv.take(rules@.len() as int) =~= rdv);
    }
    out
}

/// The artifact formats the renderers write.
#[derive(PartialEq, Eq, Structural, Clone, Copy, Debug)]
pub enum OutputFormat {
    /// Machine-parseable structured output.
    Json,
    /// Human-readable narrative output.
    Markdown,
}

/// Which format an artifact path asks for: `.json`, `.md`, or neither,
/// which is an error the caller reports.
pub fn output_format(path: &str) -> (r: Option<OutputFormat>)
    ensures
        text::ends_with(path@, ".json"@) ==> r == Some(OutputFormat::Json),
        !text::ends_with(path@, ".json"@) && text::ends_with(path@, ".md"@) ==> r == Some(
            OutputFormat::Markdown,
        ),
        !text::ends_with(path@, ".json"@) && !text::ends_with(path@, ".md"@) ==> r is None,
{
    if text::ends_with_str(path, ".json") {
        Some(OutputFormat::Json)
    } else if text::ends_with_str(path, ".md") {
        Some(OutputFormat::Markdown)
    } else {
        None
    }
}


} // verus!
