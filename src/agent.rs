//! Agents, their tools, and the chat messages exchanged with their models.

use vstd::prelude::*;

verus! {

/// An autonomous agent with a role, a model and the tools it may use.
#[derive(Debug, Clone)]
pub struct Agent {
    pub id: String,
    pub name: String,
    pub role: String,
    pub persona: String,
    /// Id of the model the agent uses.
    pub model: String,
    /// Ids of the tools the agent may use.
    pub tools: Vec<String>,
}

impl Agent {
    /// Whether the agent may use tool `tool_id`.
    pub fn has_tool(&self, tool_id: &str) -> (r: bool)
        ensures
            r == exists|i: int| 0 <= i < self.tools@.len() && self.tools@[i]@ == tool_id@,
    {
        let mut i: usize = 0;
        while i < self.tools.len()
            invariant
                i <= self.tools@.len(),
                forall|j: int| 0 <= j < i ==> self.tools@[j]@ != tool_id@,
            decreases self.tools@.len() - i,
        {
            if crate::text::text_eq(self.tools[i].as_str(), tool_id) {
                return true;
            }
            i = i + 1;
        }
        false
    }

    /// The id of the agent's model.
    pub fn model_name(&self) -> (r: &str)
        ensures
            r@ == self.model@,
    {
        self.model.as_str()
    }
}

/// A capability an agent may be given.
#[derive(Debug, Clone)]
pub struct Tool {
    pub id: String,
    pub name: String,
    pub description: String,
}

/// Where tasks are tracked.
#[derive(Debug, Clone, Copy, PartialEq, Eq, Structural)]
pub enum ProjectManagementVendor {
    Beads,
    Noop,
}

impl Default for ProjectManagementVendor {
    fn default() -> (r: Self)
        ensures
            r == ProjectManagementVendor::Noop,
    {
        ProjectManagementVendor::Noop
    }
}

/// A file handed to an agent as context.
#[derive(Debug, Clone)]
pub struct ContextFile {
    pub file_path: String,
    pub file_type: String,
    pub file_description: String,
}

/// Progress of an agent's task; a failure carries its message.
#[derive(Debug, Clone, PartialEq, Eq)]
pub enum TaskState {
    ToBeDone,
    InProgress,
    Completed,
    Failed(String),
}

/// Who speaks in a chat.
#[derive(Debug, Clone, Copy, PartialEq, Eq, Structural)]
pub enum MessageRole {
    System,
    User,
    Assistant,
}

/// One message of a chat with a model.
#[derive(Debug, Clone)]
pub struct ChatMessage {
    pub role: MessageRole,
    pub content: String,
}

/// The message part of a chat reply.
#[derive(Debug, Clone)]
pub struct ChatResponseMessage {
    pub role: String,
    pub content: String,
}

/// A model's chat reply with its timing and token counts.
#[derive(Debug, Clone)]
pub struct ChatResponse {
    pub message: ChatResponseMessage,
    pub done: bool,
    pub total_duration: Option<u64>,
    pub prompt_eval_count: Option<u32>,
    pub eval_count: Option<u32>,
}

/// What a model server reports about a model.
#[derive(Debug, Clone)]
pub struct ModelInfo {
    pub parent_model: String,
    pub format: String,
    pub family: String,
    pub families: Option<Vec<String>>,
    pub parameter_size: String,
    pub quantization_level: String,
}

/// Why a configuration could not be used.
#[derive(Debug, Clone, PartialEq, Eq)]
pub enum ConfigError {
    FileRead(String),
    TomlParse(String),
    Invalid(String),
    MissingField(String),
}

/// Why a model request failed.
#[derive(Debug, Clone, PartialEq, Eq)]
pub enum ModelError {
    HttpError(String),
    InvalidResponse(String),
    ModelNotFound(String),
    ApiError(String),
}

} // verus!

verus! {

/// `s` starts with `p`.
pub open spec fn starts_with(s: Seq<char>, p: Seq<char>) -> bool {
    p.len() <= s.len() && s.subrange(0, p.len() as int) == p
}

/// Index of the first `\n` in `s`, or its length.
pub open spec fn line_end(s: Seq<char>) -> int
    decreases s.len(),
{
    if s.len() == 0 {
        0
    } else if s[0] == '\n' {
        0
    } else {
        1 + line_end(s.drop_first())
    }
}

/// A line without the carriage return that may end it.
pub open spec fn without_cr(l: Seq<char>) -> Seq<char> {
    if l.len() > 0 && l.last() == '\r' {
        l.drop_last()
    } else {
        l
    }
}

/// The first line of `s` (lines end at `\n`, a final `\r` dropped) whose
/// trimmed text starts with `key`.
pub open spec fn first_line_with(s: Seq<char>, key: Seq<char>) -> Option<Seq<char>>
    decreases s.len(),
{
    if s.len() == 0 {
        None
    } else {
        let e = if line_end(s) < 0 {
            0
        } else if line_end(s) > s.len() {
            s.len() as int
        } else {
            line_end(s)
        };
        let line = without_cr(s.subrange(0, e));
        if starts_with(crate::text::trimmed(line), key) {
            Some(line)
        } else if e >= s.len() {
            None
        } else {
            first_line_with(s.subrange(e + 1, s.len() as int), key)
        }
    }
}

/// Length of the leading run of characters that are whitespace (`ws`) or not.
pub open spec fn run_len(s: Seq<char>, ws: bool) -> int
    decreases s.len(),
{
    if s.len() > 0 && crate::text::is_ws(s[0]) == ws {
        1 + run_len(s.drop_first(), ws)
    } else {
        0
    }
}

/// The second whitespace-separated word of `l`.
pub open spec fn second_word(l: Seq<char>) -> Option<Seq<char>> {
    let a = run_len(l, true);
    let r1 = l.subrange(a, l.len() as int);
    let b = run_len(r1, false);
    let r2 = r1.subrange(b, r1.len() as int);
    let c = run_len(r2, true);
    let r3 = r2.subrange(c, r2.len() as int);
    let d = run_len(r3, false);
    if d > 0 {
        Some(r3.subrange(0, d))
    } else {
        None
    }
}

proof fn lemma_run_len_bounds(s: Seq<char>, ws: bool)
    ensures
        0 <= run_len(s, ws) <= s.len(),
        forall|i: int| 0 <= i < run_len(s, ws) ==> crate::text::is_ws(s[i]) == ws,
        run_len(s, ws) < s.len() ==> crate::text::is_ws(s[run_len(s, ws)]) != ws,
    decreases s.len(),
{
    if s.len() > 0 && crate::text::is_ws(s[0]) == ws {
        lemma_run_len_bounds(s.drop_first(), ws);
        assert forall|i: int| 0 <= i < run_len(s, ws) implies crate::text::is_ws(s[i]) == ws by {
            if i > 0 {
                assert(s[i] == s.drop_first()[i - 1]);
            }
        }
    }
}

proof fn lemma_line_end_bounds(s: Seq<char>)
    ensures
        0 <= line_end(s) <= s.len(),
        forall|i: int| 0 <= i < line_end(s) ==> s[i] != '\n',
        line_end(s) < s.len() ==> s[line_end(s)] == '\n',
    decreases s.len(),
{
    if s.len() > 0 && s[0] != '\n' {
        lemma_line_end_bounds(s.drop_first());
        assert forall|i: int| 0 <= i < line_end(s) implies s[i] != '\n' by {
            if i > 0 {
                assert(s[i] == s.drop_first()[i - 1]);
            }
        }
    }
}

/// Length of the run starting at `from` in `s`.
fn run_from(s: &str, from: usize, ws: bool) -> (r: usize)
    requires
        from <= s@.len(),
    ensures
        r as int == run_len(s@.subrange(from as int, s@.len() as int), ws),
        from + r <= s@.len(),
{
    let n = s.unicode_len();
    let mut i: usize = from;
    proof {
        lemma_run_len_bounds(s@.subrange(from as int, n as int), ws);
    }
    while i < n && crate::text::is_whitespace(s.get_char(i)) == ws
        invariant
            n == s@.len(),
            from <= i <= n,
            run_len(s@.subrange(from as int, n as int), ws) == (i - from) + run_len(
                s@.subrange(i as int, n as int),
                ws,
            ),
        decreases n - i,
    {
        proof {
            assert(s@.subrange(i as int, n as int).drop_first() =~= s@.subrange(i + 1, n as int));
        }
        i = i + 1;
    }
    i - from
}

/// Whether the trimmed text of `l` starts with `key`.
fn trimmed_starts_with(l: &str, key: &str) -> (r: bool)
    ensures
        r == starts_with(crate::text::trimmed(l@), key@),
{
    let t = crate::text::trim(l);
    let k = key.unicode_len();
    if k > t.unicode_len() {
        return false;
    }
    crate::text::text_eq(t.substring_char(0, k), key)
}

/// The value of parameter `key` in a model's parameter listing: the second
/// word of the first line whose trimmed text starts with `key`.
pub fn extract_param(params: &str, key: &str) -> (r: Option<String>)
    ensures
        match r {
            Some(v) => first_line_with(params@, key@) matches Some(l) && second_word(l) == Some(v@),
            None => first_line_with(params@, key@) is None || (first_line_with(params@, key@) matches Some(
                l,
            ) && second_word(l) is None),
        },
{
    let n = params.unicode_len();
    let mut start: usize = 0;
    proof {
        assert(params@.subrange(0, n as int) =~= params@);
    }
    while start < n
        invariant
            n == params@.len(),
            start <= n,
            first_line_with(params@, key@) == first_line_with(params@.subrange(start as int, n as int), key@),
        decreases n - start,
    {
        let ghost rest = params@.subrange(start as int, n as int);
        let mut end: usize = start;
        while end < n && params.get_char(end) != '\n'
            invariant
                start <= end <= n,
                n == params@.len(),
                rest == params@.subrange(start as int, n as int),
                line_end(rest) == (end - start) + line_end(params@.subrange(end as int, n as int)),
            decreases n - end,
        {
            proof {
                assert(params@.subrange(end as int, n as int).drop_first() =~= params@.subrange(end + 1, n as int));
            }
            end = end + 1;
        }
        proof {
            lemma_line_end_bounds(rest);
            assert(line_end(rest) == end - start);
            assert(rest.subrange(0, end - start) =~= params@.subrange(start as int, end as int));
        }
        let raw = params.substring_char(start, end);
        let m = raw.unicode_len();
        let line = if m > 0 && raw.get_char(m - 1) == '\r' {
            raw.substring_char(0, m - 1)
        } else {
            raw
        };
        proof {
            if m > 0 && raw@[m - 1] == '\r' {
                assert(raw@.subrange(0, m - 1) =~= raw@.drop_last());
            }
        }
        if trimmed_starts_with(line, key) {
            let l = line.unicode_len();
            let a = run_from(line, 0, true);
            let b = run_from(line, a, false);
            let c = run_from(line, a + b, true);
            let d = run_from(line, a + b + c, false);
            proof {
                let r1 = line@.subrange(a as int, l as int);
                let r2 = r1.subrange(b as int, r1.len() as int);
                let r3 = r2.subrange(c as int, r2.len() as int);
                assert(line@.subrange(0, l as int) =~= line@);
                assert(line@.subrange((a + b) as int, l as int) =~= r2);
                assert(line@.subrange((a + b + c) as int, l as int) =~= r3);
                assert(line@.subrange((a + b + c) as int, (a + b + c + d) as int) =~= r3.subrange(0, d as int));
            }
            if d > 0 {
                return Some(line.substring_char(a + b + c, a + b + c + d).to_string());
            }
            return None;
        }
        if end >= n {
            return None;
        }
        proof {
            assert(rest.subrange(end - start + 1, rest.len() as int) =~= params@.subrange(end + 1, n as int));
        }
        start = end + 1;
    }
    None
}

} // verus!
