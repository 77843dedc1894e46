//! Decisions of the assistant-CLI integration: classifying an executable
//! path, reading a lookup tool's output, and choosing the message reported
//! when a run fails. The process spawning and stream plumbing around these
//! stay outside the library.
use vstd::prelude::*;

use crate::text::{
    chars_of, contains_seq, ends_with_seq, str_contains, str_ends_with, string_of_char_range,
};

verus! {

/// One event of the streamed assistant conversation.
pub struct AssistantStreamEvent {
    pub event_type: String,
    pub content: String,
    pub conversation_id: String,
}

impl AssistantStreamEvent {
    pub fn new(event_type: String, content: String, conversation_id: String) -> (r:
        AssistantStreamEvent)
        ensures
            r.event_type@ == event_type@,
            r.content@ == content@,
            r.conversation_id@ == conversation_id@,
    {
        AssistantStreamEvent { event_type, content, conversation_id }
    }
}

/// A path that must be run through the shell: an npm-installed batch file,
/// by extension or by location.
pub open spec fn npm_cmd_path(s: Seq<char>) -> bool {
    ||| ends_with_seq(s, (".cmd")@)
    ||| ends_with_seq(s, (".CMD")@)
    ||| contains_seq(s, ("\\npm\\")@)
    ||| contains_seq(s, ("/npm/")@)
    ||| contains_seq(s, ("\\AppData\\Roaming\\npm")@)
}

/// Whether the executable at `path` is an npm-installed batch file.
pub fn is_npm_cmd_path(path: &str) -> (b: bool)
    ensures
        b == npm_cmd_path(path@),
{
    if str_ends_with(path, ".cmd") {
        return true;
    }
    if str_ends_with(path, ".CMD") {
        return true;
    }
    if str_contains(path, "\\npm\\") {
        return true;
    }
    if str_contains(path, "/npm/") {
        return true;
    }
    str_contains(path, "\\AppData\\Roaming\\npm")
}

/// An npm path reported without its batch extension gets it back.
pub open spec fn cmd_adjusted(s: Seq<char>) -> Seq<char> {
    if contains_seq(s, ("npm")@) && !ends_with_seq(s, (".cmd")@) {
        s + (".cmd")@
    } else {
        s
    }
}

/// Restore the batch extension on an npm path that lacks it.
pub fn ensure_cmd_extension(path: &str) -> (r: String)
    ensures
        r@ == cmd_adjusted(path@),
{
    if str_contains(path, "npm") && !str_ends_with(path, ".cmd") {
        let mut s = String::from_str(path);
        s.append(".cmd");
        s
    } else {
        String::from_str(path)
    }
}

/// ASCII whitespace, as it appears around a path in a lookup tool's output.
pub open spec fn is_space_char(c: char) -> bool {
    c == ' ' || c == '\t' || c == '\r' || c == '\n'
}

/// The first line of `s`: everything before the first line feed.
pub open spec fn first_line_of(s: Seq<char>) -> Seq<char>
    decreases s.len(),
{
    if s.len() == 0 {
        s
    } else if s[0] == '\n' {
        Seq::empty()
    } else {
        seq![s[0]] + first_line_of(s.drop_first())
    }
}

/// `s` with leading and trailing ASCII whitespace removed.
pub open spec fn trimmed(s: Seq<char>) -> Seq<char>
    decreases s.len(),
{
    if s.len() == 0 {
        s
    } else if is_space_char(s[0]) {
        trimmed(s.drop_first())
    } else if is_space_char(s[s.len() - 1]) {
        trimmed(s.drop_last())
    } else {
        s
    }
}

/// The path a lookup tool reported: its output's first line, trimmed;
/// nothing when that line is empty.
pub open spec fn located_path(output: Seq<char>) -> Option<Seq<char>> {
    if trimmed(first_line_of(output)).len() == 0 {
        None
    } else {
        Some(trimmed(first_line_of(output)))
    }
}

fn space_test(c: char) -> (b: bool)
    ensures
        b == is_space_char(c),
{
    c == ' ' || c == '\t' || c == '\r' || c == '\n'
}

/// Extract the reported path from a lookup tool's output.
pub fn first_located_path(output: &str) -> (r: Option<String>)
    ensures
        match located_path(output@) {
            Some(p) => r matches Some(x) && x@ == p,
            None => r is None,
        },
{
    let v = chars_of(output);
    // end of the first line
    let mut line_end: usize = 0;
    while line_end < v.len() && v[line_end] != '\n'
        invariant
            line_end <= v@.len(),
            forall|k: int| 0 <= k < line_end ==> v@[k] != '\n',
        decreases v@.len() - line_end,
    {
        line_end = line_end + 1;
    }
    proof {
        lemma_first_line_prefix(v@, line_end as int);
    }
    // trim the line
    let mut lo: usize = 0;
    while lo < line_end && space_test(v[lo])
        invariant
            lo <= line_end <= v@.len(),
            forall|k: int| 0 <= k < lo ==> is_space_char(v@[k]),
        decreases line_end - lo,
    {
        lo = lo + 1;
    }
    let mut hi: usize = line_end;
    while hi > lo && space_test(v[hi - 1])
        invariant
            lo <= hi <= line_end <= v@.len(),
            forall|k: int| 0 <= k < lo ==> is_space_char(v@[k]),
            forall|k: int| hi <= k < line_end ==> is_space_char(v@[k]),
        decreases hi,
    {
        hi = hi - 1;
    }
    proof {
        let line = v@.subrange(0, line_end as int);
        assert(forall|k: int| 0 <= k < lo ==> is_space_char(line[k]));
        assert(forall|k: int| hi <= k < line.len() ==> is_space_char(line[k]));
        lemma_trimmed_range(line, lo as int, hi as int);
        assert(line.subrange(lo as int, hi as int) =~= v@.subrange(lo as int, hi as int));
    }
    if lo == hi {
        proof {
            assert(v@.subrange(lo as int, hi as int) =~= Seq::<char>::empty());
        }
        None
    } else {
        Some(string_of_char_range(&v, lo, hi))
    }
}

/// Trimming removes exactly the whitespace margins.
proof fn lemma_trimmed_range(s: Seq<char>, lo: int, hi: int)
    requires
        0 <= lo <= hi <= s.len(),
        forall|k: int| 0 <= k < lo ==> is_space_char(s[k]),
        forall|k: int| hi <= k < s.len() ==> is_space_char(s[k]),
        lo < hi ==> !is_space_char(s[lo]) && !is_space_char(s[hi - 1]),
    ensures
        trimmed(s) == s.subrange(lo, hi),
    decreases s.len(),
{
    if s.len() == 0 {
        assert(s.subrange(0, 0) =~= s);
    } else if is_space_char(s[0]) {
        if lo > 0 {
            let t = s.drop_first();
            assert(forall|k: int| 0 <= k < lo - 1 ==> is_space_char(t[k]));
            assert(forall|k: int| hi - 1 <= k < t.len() ==> is_space_char(t[k]));
            lemma_trimmed_range(t, lo - 1, hi - 1);
            assert(t.subrange(lo - 1, hi - 1) =~= s.subrange(lo, hi));
        } else {
            // the whole line is whitespace
            assert(lo == hi);
            let t = s.drop_first();
            assert(forall|k: int| 0 <= k < t.len() ==> is_space_char(t[k]));
            lemma_trimmed_range(t, 0, 0);
            assert(t.subrange(0, 0) =~= s.subrange(lo, hi));
        }
    } else if is_space_char(s[s.len() - 1]) {
        assert(hi < s.len());
        let t = s.drop_last();
        assert(forall|k: int| 0 <= k < lo ==> is_space_char(t[k]));
        assert(forall|k: int| hi <= k < t.len() ==> is_space_char(t[k]));
        lemma_trimmed_range(t, lo, hi);
        assert(t.subrange(lo, hi) =~= s.subrange(lo, hi));
    } else {
        assert(lo == 0);
        assert(hi == s.len());
        assert(s.subrange(0, s.len() as int) =~= s);
    }
}

/// The first line of a text is the prefix that stops at the first line feed.
proof fn lemma_first_line_prefix(s: Seq<char>, e: int)
    requires
        0 <= e <= s.len(),
        forall|k: int| 0 <= k < e ==> s[k] != '\n',
        e < s.len() ==> s[e] == '\n',
    ensures
        first_line_of(s) == s.subrange(0, e),
    decreases s.len(),
{
    if s.len() == 0 {
        assert(s.subrange(0, 0) =~= s);
    } else if s[0] == '\n' {
        assert(e == 0);
        assert(s.subrange(0, 0) =~= Seq::<char>::empty());
    } else {
        assert(e >= 1);
        lemma_first_line_prefix(s.drop_first(), e - 1);
        assert(s.drop_first().subrange(0, e - 1) =~= s.subrange(1, e));
        assert(seq![s[0]] + s.subrange(1, e) =~= s.subrange(0, e));
    }
}

/// The message shown when a run of the assistant CLI fails, chosen from the
/// process's exit status and captured output, exactly one rule applying:
/// exhausted credits, an authentication problem, any other diagnostic text,
/// silence, or unusable output (truncated to its first 500 characters).
pub open spec fn failure_report(
    status_text: Seq<char>,
    stderr_text: Seq<char>,
    stdout_text: Seq<char>,
) -> Seq<char> {
    if contains_seq(stderr_text, ("out of")@) || contains_seq(stderr_text, ("credits")@)
        || contains_seq(stderr_text, ("disabled")@) {
        ("API credits exhausted. Add credits or sign in with a subscription.")@
    } else if contains_seq(stderr_text, ("Login")@) || contains_seq(stderr_text, ("auth")@) {
        ("Authentication issue: ")@ + stderr_text
    } else if stderr_text.len() > 0 {
        ("Error: ")@ + stderr_text
    } else if stdout_text.len() == 0 {
        ("Assistant CLI exited with status ")@ + status_text + (
        " but produced no output. Stderr was empty. This may indicate an authentication issue."
        )@
    } else {
        ("Assistant CLI exited with status: ")@ + status_text + (" - Output: ")@ + prefix_chars(
            stdout_text,
            500,
        )
    }
}

/// The first `n` characters of `s`, or all of it when shorter.
pub open spec fn prefix_chars(s: Seq<char>, n: int) -> Seq<char> {
    if s.len() <= n {
        s
    } else {
        s.subrange(0, n)
    }
}

/// Compose the failure message for a run of the assistant CLI.
pub fn assistant_failure_message(status_text: &str, stderr_text: &str, stdout_text: &str) -> (r:
    String)
    ensures
        r@ == failure_report(status_text@, stderr_text@, stdout_text@),
{
    if str_contains(stderr_text, "out of") || str_contains(stderr_text, "credits")
        || str_contains(stderr_text, "disabled") {
        String::from_str(
            "API credits exhausted. Add credits or sign in with a subscription.",
        )
    } else if str_contains(stderr_text, "Login") || str_contains(stderr_text, "auth") {
        let mut s = String::from_str("Authentication issue: ");
        s.append(stderr_text);
        s
    } else if !stderr_text.is_empty() {
        let mut s = String::from_str("Error: ");
        s.append(stderr_text);
        s
    } else if stdout_text.is_empty() {
        let mut s = String::from_str("Assistant CLI exited with status ");
        s.append(status_text);
        s.append(
            " but produced no output. Stderr was empty. This may indicate an authentication issue.",
        );
        s
    } else {
        let mut s = String::from_str("Assistant CLI exited with status: ");
        s.append(status_text);
        s.append(" - Output: ");
        let v = chars_of(stdout_text);
        let cut: usize = if v.len() <= 500 {
            v.len()
        } else {
            500
        };
        let head = string_of_char_range(&v, 0, cut);
        s.append(head.as_str());
        proof {
            assert(head@ =~= prefix_chars(stdout_text@, 500));
        }
        s
    }
}

/// What a finished run of the assistant CLI amounts to.
pub enum AssistantOutcome {
    /// The run succeeded and produced this full response.
    Done(String),
    /// The run failed; this message describes why.
    Failed(String),
}

/// A run is done when it exited successfully and said something; everything
/// else is reported as a failure, with the chosen message.
pub fn assistant_outcome(
    exited_ok: bool,
    status_text: &str,
    stderr_text: &str,
    stdout_text: &str,
) -> (r: AssistantOutcome)
    ensures
        (exited_ok && stdout_text@.len() > 0) ==> (r matches AssistantOutcome::Done(d) && d@
            == stdout_text@),
        !(exited_ok && stdout_text@.len() > 0) ==> (r matches AssistantOutcome::Failed(f) && f@
            == failure_report(status_text@, stderr_text@, stdout_text@)),
{
    if exited_ok && !stdout_text.is_empty() {
        AssistantOutcome::Done(String::from_str(stdout_text))
    } else {
        AssistantOutcome::Failed(assistant_failure_message(status_text, stderr_text, stdout_text))
    }
}

} // verus!
