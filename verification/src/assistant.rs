//! Assistant chat types and the check for acknowledgement phrases echoed back
//! by speech recognition.

use vstd::prelude::*;
use vstd::string::*;
use crate::fastparse::{fast_parse, try_fast_parse};
use crate::intent::{lowercase, normalized, to_lowercase, ActionParams, KeywordAction};
use crate::text::{
    char_pos, char_pos_exec, chars_of, ends_with, ends_with_str, eq_any_str, eq_str, join,
    join_chars, last_char_pos, last_char_pos_exec, push_all, push_str, slice_chars, split_ws,
    starts_with, starts_with_str, string_of, trim, trim_chars, trim_end_matches,
    trim_end_matches_exec, trim_start_matches, trim_start_matches_exec, views, vviews, words,
};

verus! {

#[derive(Debug, Clone)]
pub struct ChatMessage {
    pub role: String,
    pub content: String,
}

#[derive(Debug, Clone)]
pub struct AssistantResponse {
    pub text: String,
    pub actions: Vec<ActionResult>,
}

#[derive(Debug, Clone)]
pub struct ActionResult {
    pub action: String,
    pub success: bool,
    pub message: String,
}

/// `trim_end_matches(['.', '?', '!', ','])`.
pub open spec fn trim_end_punct(s: Seq<char>) -> Seq<char>
    decreases s.len(),
{
    if s.len() > 0 && (s.last() == '.' || s.last() == '?' || s.last() == '!' || s.last() == ',') {
        trim_end_punct(s.drop_last())
    } else {
        s
    }
}

/// Acknowledgement phrases the assistant itself speaks.
pub open spec fn ack_phrases() -> Seq<Seq<char>> {
    seq![
        "yes"@,
        "yes sir"@,
        "yes, sir"@,
        "ja"@,
        "ja sir"@,
        "ja, sir"@,
        "right here, sir"@,
        "right here sir"@,
        "at your service, sir"@,
        "at your service sir"@,
        "listening, sir"@,
        "listening sir"@,
        "go ahead, sir"@,
        "go ahead sir"@,
        "i'm here, sir"@,
        "i'm here sir"@,
        "im here sir"@,
        "standing by, sir"@,
        "standing by sir"@,
    ]
}

/// A transcript that is the assistant's own acknowledgement picked up by the
/// microphone: a known phrase, or at most four words ending in "sir".
pub open spec fn ack_leakage(text: Seq<char>) -> bool {
    let l = trim(trim_end_punct(lowercase(text)));
    ack_phrases().contains(l) || (words(l).len() <= 4 && ends_with(l, "sir"@))
}

/// Whether a transcript is just the assistant's own acknowledgement.
pub fn is_ack_leakage(text: &str) -> (r: bool)
    ensures
        r == ack_leakage(text@),
{
    let lower = to_lowercase(text);
    let v = chars_of(lower.as_str());
    let mut n = v.len();
    assert(v@.take(n as int) =~= v@);
    while n > 0 && (v[n - 1] == '.' || v[n - 1] == '?' || v[n - 1] == '!' || v[n - 1] == ',')
        invariant
            n <= v.len(),
            trim_end_punct(v@) == trim_end_punct(v@.take(n as int)),
        decreases n,
    {
        assert(v@.take(n as int).drop_last() =~= v@.take(n - 1));
        n = n - 1;
    }
    let mut cut: Vec<char> = Vec::new();
    let mut i: usize = 0;
    while i < n
        invariant
            i <= n <= v.len(),
            cut@ == v@.take(i as int),
        decreases n - i,
    {
        cut.push(v[i]);
        i = i + 1;
    }
    assert(v@.take(n as int) == cut@);
    assert(trim_end_punct(cut@) == cut@);
    let l = trim_chars(&cut);
    let phrases: [&str; 19] = [
        "yes",
        "yes sir",
        "yes, sir",
        "ja",
        "ja sir",
        "ja, sir",
        "right here, sir",
        "right here sir",
        "at your service, sir",
        "at your service sir",
        "listening, sir",
        "listening sir",
        "go ahead, sir",
        "go ahead sir",
        "i'm here, sir",
        "i'm here sir",
        "im here sir",
        "standing by, sir",
        "standing by sir",
    ];
    assert(views(phrases@) =~= ack_phrases());
    if eq_any_str(&l, &phrases) {
        return true;
    }
    let ws = split_ws(&l);
    ws.len() <= 4 && ends_with_str(&l, "sir")
}


// ─── Replies and tool calls ───────────────────────────────────

/// One action requested by the model or by the keyword fast path. `P` is the
/// representation of its parameters.
#[derive(Debug, Clone)]
pub struct ToolCall<P> {
    pub action: String,
    pub params: P,
}

/// What is known before any action runs: the reply to speak, the raw model
/// output to fall back on, and the actions to execute.
#[derive(Debug, Clone)]
pub struct PreparedAssistantResponse<P> {
    pub reply: String,
    pub fallback_text: String,
    pub calls: Vec<ToolCall<P>>,
}

/// The JSON object a model reply holds: `{"reply": ..., "actions": [...]}`.
#[derive(Debug, Clone)]
pub struct LlmReply<P> {
    pub reply: Option<String>,
    pub actions: Vec<ToolCall<P>>,
}

/// Actions that only read state; their results are what gets said.
pub open spec fn query_actions() -> Seq<Seq<char>> {
    seq![
        "system_info"@,
        "fan_status"@,
        "pi_status"@,
        "tent_status"@,
        "snapshot_list"@,
        "timer_info"@,
        "system_status"@,
    ]
}

pub open spec fn is_query(action: Seq<char>) -> bool {
    query_actions().contains(action)
}

pub fn is_query_action(action: &str) -> (r: bool)
    ensures
        r == is_query(action@),
{
    let names: [&str; 7] = [
        "system_info",
        "fan_status",
        "pi_status",
        "tent_status",
        "snapshot_list",
        "timer_info",
        "system_status",
    ];
    assert(views(names@) =~= query_actions());
    eq_any_str(&chars_of(action), &names)
}

/// Some call asks for information rather than changing anything.
pub fn has_query_calls<P>(calls: &[ToolCall<P>]) -> (r: bool)
    ensures
        r == exists|i: int| 0 <= i < calls@.len() && is_query(#[trigger] calls@[i].action@),
{
    let mut i: usize = 0;
    while i < calls.len()
        invariant
            i <= calls@.len(),
            forall|j: int| 0 <= j < i ==> !is_query(#[trigger] calls@[j].action@),
        decreases calls.len() - i,
    {
        if is_query_action(calls[i].action.as_str()) {
            return true;
        }
        i = i + 1;
    }
    false
}

/// Messages of the successful queries, in order.
pub open spec fn query_messages(results: Seq<ActionResult>) -> Seq<Seq<char>>
    decreases results.len(),
{
    if results.len() == 0 {
        seq![]
    } else {
        let rest = query_messages(results.drop_last());
        let r = results.last();
        if r.success && is_query(r.action@) {
            rest.push(r.message@)
        } else {
            rest
        }
    }
}

/// A result as one line of the summary: a tick or a cross, then the message.
pub open spec fn result_line(r: ActionResult) -> Seq<char> {
    (if r.success { "✓ "@ } else { "✗ "@ }) + r.message@
}

pub open spec fn result_lines(results: Seq<ActionResult>) -> Seq<Seq<char>>
    decreases results.len(),
{
    if results.len() == 0 {
        seq![]
    } else {
        result_lines(results.drop_last()).push(result_line(results.last()))
    }
}

/// The text answered for a chat turn: without actions the reply (or the raw
/// model output when the reply is empty); with actions the query answers
/// joined by ". ", else the reply, else one line per result.
pub open spec fn composed_text(
    reply: Seq<char>,
    fallback: Seq<char>,
    has_calls: bool,
    results: Seq<ActionResult>,
) -> Seq<char> {
    if !has_calls {
        if reply.len() == 0 { fallback } else { reply }
    } else if query_messages(results).len() > 0 {
        join(query_messages(results), ". "@)
    } else if reply.len() > 0 {
        reply
    } else {
        join(result_lines(results), "\n"@)
    }
}

fn query_messages_of(results: &[ActionResult]) -> (r: Vec<Vec<char>>)
    ensures
        vviews(r@) == query_messages(results@),
{
    let mut r: Vec<Vec<char>> = Vec::new();
    let mut i: usize = 0;
    while i < results.len()
        invariant
            i <= results@.len(),
            vviews(r@) == query_messages(results@.take(i as int)),
        decreases results.len() - i,
    {
        let ghost before = r@;
        assert(results@.take(i + 1).drop_last() =~= results@.take(i as int));
        if results[i].success && is_query_action(results[i].action.as_str()) {
            r.push(chars_of(results[i].message.as_str()));
            assert(vviews(r@) =~= vviews(before).push(results@[i as int].message@));
        }
        i = i + 1;
    }
    assert(results@.take(results@.len() as int) =~= results@);
    r
}

fn result_lines_of(results: &[ActionResult]) -> (r: Vec<Vec<char>>)
    ensures
        vviews(r@) == result_lines(results@),
{
    let mut r: Vec<Vec<char>> = Vec::new();
    let mut i: usize = 0;
    while i < results.len()
        invariant
            i <= results@.len(),
            vviews(r@) == result_lines(results@.take(i as int)),
        decreases results.len() - i,
    {
        let ghost before = r@;
        assert(results@.take(i + 1).drop_last() =~= results@.take(i as int));
        let mut line: Vec<char> = Vec::new();
        if results[i].success {
            push_str(&mut line, "✓ ");
        } else {
            push_str(&mut line, "✗ ");
        }
        let m = chars_of(results[i].message.as_str());
        push_all(&mut line, &m);
        r.push(line);
        assert(vviews(r@) =~= vviews(before).push(result_line(results@[i as int])));
        i = i + 1;
    }
    assert(results@.take(results@.len() as int) =~= results@);
    r
}

/// The answer text of a chat turn once its actions have run.
pub fn compose_assistant_text<P>(
    prepared: &PreparedAssistantResponse<P>,
    results: &[ActionResult],
) -> (r: String)
    ensures
        r@ == composed_text(
            prepared.reply@,
            prepared.fallback_text@,
            prepared.calls@.len() > 0,
            results@,
        ),
{
    if prepared.calls.len() == 0 {
        if prepared.reply.unicode_len() == 0 {
            return prepared.fallback_text.clone();
        }
        return prepared.reply.clone();
    }
    let q = query_messages_of(results);
    if q.len() > 0 {
        return string_of(&join_chars(&q, ". "));
    }
    if prepared.reply.unicode_len() > 0 {
        return prepared.reply.clone();
    }
    let lines = result_lines_of(results);
    string_of(&join_chars(&lines, "\n"))
}

/// What is said at once when actions run in the background.
pub open spec fn voice_ack(reply: Seq<char>) -> Seq<char> {
    if trim(reply).len() > 0 { reply } else { "Understood, Sir."@ }
}

pub fn default_voice_ack<P>(prepared: &PreparedAssistantResponse<P>) -> (r: String)
    ensures
        r@ == voice_ack(prepared.reply@),
{
    let t = trim_chars(&chars_of(prepared.reply.as_str()));
    if t.len() > 0 {
        prepared.reply.clone()
    } else {
        let s = "Understood, Sir.";
        s.to_string()
    }
}

/// How a voice command proceeds: `None` when its actions run before the
/// answer (no actions, or some query among them); otherwise the
/// acknowledgement to speak while the actions run in the background.
pub fn voice_command_plan<P>(prepared: &PreparedAssistantResponse<P>) -> (r: Option<String>)
    ensures
        r is None <==> (prepared.calls@.len() == 0 || exists|i: int|
            0 <= i < prepared.calls@.len() && is_query(#[trigger] prepared.calls@[i].action@)),
        r matches Some(ack) ==> ack@ == voice_ack(prepared.reply@),
{
    if prepared.calls.len() == 0 || has_query_calls(prepared.calls.as_slice()) {
        None
    } else {
        Some(default_voice_ack(prepared))
    }
}

/// The keyword fast path's calls, one per recognised action.
pub open spec fn fast_calls_match(calls: Seq<ToolCall<ActionParams>>, acts: Seq<KeywordAction>) -> bool {
    &&& calls.len() == acts.len()
    &&& forall|i: int| 0 <= i < calls.len() ==> (#[trigger] calls[i]).action@ == acts[i].action@
        && calls[i].params == acts[i].params
}

fn calls_of(acts: Vec<KeywordAction>) -> (r: Vec<ToolCall<ActionParams>>)
    ensures
        fast_calls_match(r@, acts@),
{
    let mut r: Vec<ToolCall<ActionParams>> = Vec::new();
    let mut i: usize = 0;
    while i < acts.len()
        invariant
            i <= acts@.len(),
            fast_calls_match(r@, acts@.take(i as int)),
        decreases acts.len() - i,
    {
        let a = acts[i];
        r.push(ToolCall { action: a.action.to_string(), params: a.params });
        i = i + 1;
    }
    assert(acts@.take(acts@.len() as int) =~= acts@);
    r
}

/// The answer prepared without the model: when the last message is the
/// user's and the keyword parser understands it.
pub fn prepare_fast_path(history: &[ChatMessage]) -> (r: Option<PreparedAssistantResponse<ActionParams>>)
    ensures
        match r {
            Some(p) => {
                &&& history@.len() > 0
                &&& history@.last().role@ == "user"@
                &&& p.fallback_text@.len() == 0
                &&& fast_parse(normalized(history@.last().content@)) matches Some((reply, acts))
                    && p.reply@ == reply && fast_calls_match(p.calls@, acts)
            },
            None => history@.len() == 0 || history@.last().role@ != "user"@
                || fast_parse(normalized(history@.last().content@)) is None,
        },
{
    if history.len() == 0 {
        return None;
    }
    let last = &history[history.len() - 1];
    if !eq_str(&chars_of(last.role.as_str()), "user") {
        return None;
    }
    match try_fast_parse(last.content.as_str()) {
        Some((reply, acts)) => Some(PreparedAssistantResponse {
            reply,
            fallback_text: String::new(),
            calls: calls_of(acts),
        }),
        None => None,
    }
}

// ─── Reading the model's reply ────────────────────────────────

/// The model output with surrounding whitespace and code fences removed.
pub open spec fn response_cleaned(content: Seq<char>) -> Seq<char> {
    let t = trim(content);
    if starts_with(t, "```"@) {
        trim(trim_end_matches(trim_start_matches(trim_start_matches(t, "```json"@), "```"@), "```"@))
    } else {
        t
    }
}

/// The part from the first `{` to the last `}`.
pub open spec fn response_brace_slice(c: Seq<char>) -> Option<Seq<char>> {
    if char_pos(c, '{') < c.len() {
        match last_char_pos(c, '}') {
            Some(e) => Some(c.subrange(char_pos(c, '{') as int, e + 1 as int)),
            None => None,
        }
    } else {
        None
    }
}

/// A last `}` more than one place before the first `{`: the slice between
/// them does not exist.
pub open spec fn braces_reversed(c: Seq<char>) -> bool {
    char_pos(c, '{') < c.len() && match last_char_pos(c, '}') {
        Some(e) => char_pos(c, '{') > e + 1,
        None => false,
    }
}

fn cleaned_of(content: &str) -> (r: Vec<char>)
    ensures
        r@ == response_cleaned(content@),
{
    let t = trim_chars(&chars_of(content));
    let cleaned = if starts_with_str(&t, "```") {
        let a = trim_start_matches_exec(&t, "```json");
        let b = trim_start_matches_exec(&a, "```");
        let c = trim_end_matches_exec(&b, "```");
        trim_chars(&c)
    } else {
        slice_chars(&t, 0, t.len())
    };
    assert(t@.subrange(0, t@.len() as int) =~= t@);
    cleaned
}

/// Whether the cleaned model output has its last `}` more than one place
/// before its first `{`, so that no brace slice can be cut from it.
pub fn response_braces_reversed(content: &str) -> (r: bool)
    ensures
        r == braces_reversed(response_cleaned(content@)),
{
    let cleaned = cleaned_of(content);
    let start = char_pos_exec(&cleaned, '{');
    if start < cleaned.len() {
        match last_char_pos_exec(&cleaned, '}') {
            Some(e) => start > e + 1,
            None => false,
        }
    } else {
        false
    }
}

/// What of a model output is tried as JSON: the trimmed output, the cleaned
/// output when it starts with `{`, and the brace slice of the cleaned output.
pub fn response_candidates(content: &str) -> (r: (String, Option<String>, Option<String>))
    requires
        !braces_reversed(response_cleaned(content@)),
    ensures
        r.0@ == trim(content@),
        match r.1 {
            Some(w) => starts_with(response_cleaned(content@), "{"@) && w@ == response_cleaned(content@),
            None => !starts_with(response_cleaned(content@), "{"@),
        },
        match r.2 {
            Some(b) => response_brace_slice(response_cleaned(content@)) == Some(b@),
            None => response_brace_slice(response_cleaned(content@)) is None,
        },
{
    let t = trim_chars(&chars_of(content));
    let cleaned = cleaned_of(content);
    let whole = if starts_with_str(&cleaned, "{") {
        Some(string_of(&cleaned))
    } else {
        None
    };
    let start = char_pos_exec(&cleaned, '{');
    let slice = if start < cleaned.len() {
        match last_char_pos_exec(&cleaned, '}') {
            Some(e) => Some(string_of(&slice_chars(&cleaned, start, e + 1))),
            None => None,
        }
    } else {
        None
    };
    (string_of(&t), whole, slice)
}

/// What one parsed object yields: its actions (when there are any) and the
/// reply, or nothing when it has neither.
pub open spec fn reply_outcome<P>(p: LlmReply<P>) -> Option<(Option<Seq<ToolCall<P>>>, Seq<char>)> {
    let reply = match p.reply {
        Some(r) => r@,
        None => Seq::<char>::empty(),
    };
    if p.actions@.len() > 0 {
        Some((Some(p.actions@), reply))
    } else if reply.len() > 0 {
        Some((None, reply))
    } else {
        None
    }
}

pub open spec fn parsed_outcome<P>(p: Option<LlmReply<P>>) -> Option<(Option<Seq<ToolCall<P>>>, Seq<char>)> {
    match p {
        Some(x) => reply_outcome(x),
        None => None,
    }
}

pub open spec fn opt_view<P>(o: Option<Vec<ToolCall<P>>>) -> Option<Seq<ToolCall<P>>> {
    match o {
        Some(v) => Some(v@),
        None => None,
    }
}

fn outcome_of<P>(p: LlmReply<P>) -> (r: Option<(Option<Vec<ToolCall<P>>>, String)>)
    ensures
        match r {
            Some((a, s)) => reply_outcome(p) == Some((opt_view(a), s@)),
            None => reply_outcome(p) is None,
        },
{
    let reply = match p.reply {
        Some(r) => r,
        None => String::new(),
    };
    if p.actions.len() > 0 {
        Some((Some(p.actions), reply))
    } else if reply.unicode_len() > 0 {
        Some((None, reply))
    } else {
        None
    }
}

/// The actions and reply read from a model output, given what the two JSON
/// candidates parsed to: the first candidate that yields something wins, and
/// otherwise the whole trimmed output is the reply.
pub fn parse_response_from<P>(
    trimmed: String,
    whole: Option<LlmReply<P>>,
    slice: Option<LlmReply<P>>,
) -> (r: (Option<Vec<ToolCall<P>>>, String))
    ensures
        match parsed_outcome(whole) {
            Some(o) => (opt_view(r.0), r.1@) == o,
            None => match parsed_outcome(slice) {
                Some(o) => (opt_view(r.0), r.1@) == o,
                None => r.0 is None && r.1@ == trimmed@,
            },
        },
{
    if let Some(p) = whole {
        if let Some(o) = outcome_of(p) {
            return o;
        }
    }
    if let Some(p) = slice {
        if let Some(o) = outcome_of(p) {
            return o;
        }
    }
    (None, trimmed)
}

} // verus!
