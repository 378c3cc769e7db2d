//! Pagination of tool output: cutting text by characters or lines, with
//! hints that tell the model how to read on.

use vstd::prelude::*;

use crate::text;
use crate::text::{dec_str, join_sep, line_split};

verus! {

/// Result of a truncation operation.
pub struct TruncateResult {
    pub content: String,
    pub truncated: bool,
}

/// Where a character window over `total` starts and ends.
pub open spec fn clamp_window(total: int, start: int, len: int) -> (int, int) {
    let s = if start < total {
        start
    } else {
        total
    };
    let e = if s + len < total {
        s + len
    } else {
        total
    };
    (s, e)
}

/// Whether a window cut anything off the end.
pub open spec fn chars_cut(content: Seq<char>, start: int, len: int) -> bool {
    clamp_window(content.len() as int, start, len).1 < content.len()
}

/// The text of a character window, with the cut marker when it cut.
pub open spec fn truncate_chars_spec(content: Seq<char>, start: int, len: int) -> Seq<char> {
    let (s, e) = clamp_window(content.len() as int, start, len);
    content.subrange(s, e) + if e < content.len() {
        "\n\n---\ntruncated ["@ + dec_str(e) + "/"@ + dec_str(content.len() as int) + " chars]"@
    } else {
        Seq::empty()
    }
}

/// Cuts text to a character window, marking a cut end.
pub fn truncate_text_by_chars(content: String, start: usize, len: usize) -> (r: TruncateResult)
    ensures
        r.content@ == truncate_chars_spec(content@, start as int, len as int),
        r.truncated == chars_cut(content@, start as int, len as int),
{
    let total = content.as_str().unicode_len();
    let s = if start < total {
        start
    } else {
        total
    };
    let e = if len < total - s {
        s + len
    } else {
        total
    };
    let mut out = String::from_str(content.as_str().substring_char(s, e));
    let truncated = e < total;
    if truncated {
        text::append_str(&mut out, "\n\n---\ntruncated [");
        let es = crate::text::usize_to_string(e);
        text::append_str(&mut out, es.as_str());
        text::append_str(&mut out, "/");
        let ts = crate::text::usize_to_string(total);
        text::append_str(&mut out, ts.as_str());
        text::append_str(&mut out, " chars]");
    }
    proof {
        assert(out@ =~= truncate_chars_spec(content@, start as int, len as int));
    }
    TruncateResult { content: out, truncated }
}

/// Whether a line window cut anything off the end.
pub open spec fn lines_cut(content: Seq<char>, start: int, len: int) -> bool {
    clamp_window(line_split(content).len() as int, start, len).1 < line_split(content).len()
}

/// The text of a line window, with the cut marker when it cut.
pub open spec fn truncate_lines_spec(content: Seq<char>, start: int, len: int) -> Seq<char> {
    let lines = line_split(content);
    let (s, e) = clamp_window(lines.len() as int, start, len);
    join_sep(lines.subrange(s, e), "\n"@) + if e < lines.len() {
        "\n\n---\ntruncated ["@ + dec_str(e) + "/"@ + dec_str(lines.len() as int) + " lines]"@
    } else {
        Seq::empty()
    }
}

/// Cuts text to a line window, marking a cut end.
pub fn truncate_text_by_lines(content: String, start: usize, len: usize) -> (r: TruncateResult)
    ensures
        r.content@ == truncate_lines_spec(content@, start as int, len as int),
        r.truncated == lines_cut(content@, start as int, len as int),
{
    let ghost lv = line_split(content@);
    let lines = text::split_lines(content.as_str());
    proof {
        assert(lines@.map_values(|l: String| l@) == lv);
    }
    let total = lines.len();
    let s = if start < total {
        start
    } else {
        total
    };
    let e = if len < total - s {
        s + len
    } else {
        total
    };
    let mut window: Vec<String> = Vec::new();
    let mut i: usize = s;
    proof {
        assert(window@.map_values(|l: String| l@) =~= lv.subrange(s as int, s as int));
    }
    while i < e
        invariant
            lines@.map_values(|l: String| l@) == lv,
            s <= i <= e <= lines@.len(),
            window@.map_values(|l: String| l@) == lv.subrange(s as int, i as int),
        decreases e - i,
    {
        let ghost prev = window@;
        window.push(lines[i].clone());
        proof {
            assert(lines@[i as int]@ == lv[i as int]);
            assert(window@.map_values(|l: String| l@) =~= prev.map_values(
                |l: String| l@,
            ).push(lv[i as int]));
            assert(window@.map_values(|l: String| l@) =~= lv.subrange(s as int, i + 1));
        }
        i += 1;
    }
    let mut out = text::join_strings(&window, "\n");
    let truncated = e < total;
    if truncated {
        text::append_str(&mut out, "\n\n---\ntruncated [");
        let es = crate::text::usize_to_string(e);
        text::append_str(&mut out, es.as_str());
        text::append_str(&mut out, "/");
        let ts = crate::text::usize_to_string(total);
        text::append_str(&mut out, ts.as_str());
        text::append_str(&mut out, " lines]");
    }
    proof {
        assert(out@ =~= truncate_lines_spec(content@, start as int, len as int));
    }
    TruncateResult { content: out, truncated }
}

/// Whether a single line runs past the cap.
pub open spec fn line_cut(content: Seq<char>, max_len: int) -> bool {
    content.len() > max_len
}

/// One line cut to the cap, with the cut marker when it was cut.
pub open spec fn truncate_single_spec(content: Seq<char>, max_len: int) -> Seq<char> {
    if content.len() > max_len {
        content.subrange(0, max_len) + "... [truncated "@ + dec_str(max_len) + "/"@ + dec_str(
            content.len() as int,
        ) + " chars]"@
    } else {
        content
    }
}

/// Cuts a single line to a maximum length, marking a cut.
pub fn truncate_single_line(content: String, max_len: usize) -> (r: TruncateResult)
    ensures
        r.content@ == truncate_single_spec(content@, max_len as int),
        r.truncated == line_cut(content@, max_len as int),
{
    let total = content.as_str().unicode_len();
    let truncated = total > max_len;
    if truncated {
        let mut out = String::from_str(content.as_str().substring_char(0, max_len));
        text::append_str(&mut out, "... [truncated ");
        let ms = crate::text::usize_to_string(max_len);
        text::append_str(&mut out, ms.as_str());
        text::append_str(&mut out, "/");
        let ts = crate::text::usize_to_string(total);
        text::append_str(&mut out, ts.as_str());
        text::append_str(&mut out, " chars]");
        proof {
            assert(out@ =~= truncate_single_spec(content@, max_len as int));
        }
        TruncateResult { content: out, truncated }
    } else {
        TruncateResult { content, truncated }
    }
}

/// A character window with a follow-up hint when something was cut.
pub open spec fn truncate_with_hint_spec(content: Seq<char>, start: int, num: int) -> Seq<char> {
    if chars_cut(content, start, num) {
        truncate_chars_spec(content, start, num) + "\nHint: Use start_char="@ + dec_str(
            start + num,
        ) + " to read more."@
    } else {
        truncate_chars_spec(content, start, num)
    }
}

/// Cuts tool output to a character window and, when something was cut,
/// tells the model where to continue reading.
pub fn truncate_with_hint(content: String, start: usize, num: usize) -> (r: String)
    ensures
        r@ == truncate_with_hint_spec(content@, start as int, num as int),
{
    let t = truncate_text_by_chars(content, start, num);
    let mut out = t.content;
    if t.truncated {
        text::append_str(&mut out, "\nHint: Use start_char=");
        let ns = crate::text::sum_to_string(start, num);
        text::append_str(&mut out, ns.as_str());
        text::append_str(&mut out, " to read more.");
    }
    proof {
        assert(out@ =~= truncate_with_hint_spec(content@, start as int, num as int));
    }
    out
}

/// The rendering of one file line: cut to the cap, with a hint naming
/// the line when it was cut.
pub open spec fn hinted_line_spec(l: Seq<char>, lineno: int, max_line_len: int) -> Seq<char> {
    if line_cut(l, max_line_len) {
        truncate_single_spec(l, max_line_len) + " [Hint: Line "@ + dec_str(lineno)
            + " truncated, use max_line_len to increase limit]"@
    } else {
        l
    }
}

/// All hinted lines of a window, joined.
pub open spec fn hinted_lines_spec(
    lines: Seq<Seq<char>>,
    start_line: int,
    max_line_len: int,
) -> Seq<Seq<char>> {
    lines.map(|idx: int, l: Seq<char>| hinted_line_spec(l, start_line + idx, max_line_len))
}

/// What reading a file hands the model: the requested line window, long
/// lines cut with a hint, and a follow-up hint when lines remain.
pub open spec fn process_file_content_spec(
    content: Seq<char>,
    start_line: int,
    num_lines: int,
    max_line_len: int,
) -> Seq<char> {
    let windowed = truncate_lines_spec(content, start_line, num_lines);
    let body = join_sep(
        hinted_lines_spec(line_split(windowed), start_line, max_line_len),
        "\n"@,
    );
    if lines_cut(content, start_line, num_lines) {
        body + "\nHint: Use start_line="@ + dec_str(start_line + num_lines) + " to read more."@
    } else {
        body
    }
}

/// Prepares file contents for the model: the requested line window, long
/// lines cut with a hint, and a follow-up hint when lines remain.
pub fn process_file_content(
    content: String,
    start_line: usize,
    num_lines: usize,
    max_line_len: usize,
) -> (r: String)
    ensures
        r@ == process_file_content_spec(
            content@,
            start_line as int,
            num_lines as int,
            max_line_len as int,
        ),
{
    let windowed = truncate_text_by_lines(content, start_line, num_lines);
    let lines = text::split_lines(windowed.content.as_str());
    let ghost lv = line_split(windowed.content@);
    proof {
        assert(lines@.map_values(|l: String| l@) == lv);
    }
    let mut hinted: Vec<String> = Vec::new();
    let mut i: usize = 0;
    proof {
        assert(hinted@.map_values(|l: String| l@) =~= hinted_lines_spec(
            lv,
            start_line as int,
            max_line_len as int,
        ).take(0));
    }
    while i < lines.len()
        invariant
            lines@.map_values(|l: String| l@) == lv,
            i <= lines.len(),
            hinted@.map_values(|l: String| l@) == hinted_lines_spec(
                lv,
                start_line as int,
                max_line_len as int,
            ).take(i as int),
        decreases lines.len() - i,
    {
        let ghost prev = hinted@;
        let lr = truncate_single_line(lines[i].clone(), max_line_len);
        let mut piece = lr.content;
        if lr.truncated {
            text::append_str(&mut piece, " [Hint: Line ");
            let ln = crate::text::sum_to_string(start_line, i);
            text::append_str(&mut piece, ln.as_str());
            text::append_str(&mut piece, " truncated, use max_line_len to increase limit]");
        }
        hinted.push(piece);
        proof {
            assert(lines@[i as int]@ == lv[i as int]);
            assert(hinted@.map_values(|l: String| l@) =~= prev.map_values(
                |l: String| l@,
            ).push(hinted_line_spec(lv[i as int], start_line + i, max_line_len as int)));
            assert(hinted@.map_values(|l: String| l@) =~= hinted_lines_spec(
                lv,
                start_line as int,
                max_line_len as int,
            ).take(i + 1));
        }
        i += 1;
    }
    proof {
        assert(hinted_lines_spec(lv, start_line as int, max_line_len as int).take(
            lines@.len() as int,
        ) =~= hinted_lines_spec(lv, start_line as int, max_line_len as int));
    }
    let mut out = text::join_strings(&hinted, "\n");
    if windowed.truncated {
        text::append_str(&mut out, "\nHint: Use start_line=");
        let ns = crate::text::sum_to_string(start_line, num_lines);
        text::append_str(&mut out, ns.as_str());
        text::append_str(&mut out, " to read more.");
    }
    proof {
        assert(out@ =~= process_file_content_spec(
            content@,
            start_line as int,
            num_lines as int,
            max_line_len as int,
        ));
    }
    out
}

} // verus!
