//! The provider-agnostic side of model access: error values, which provider
//! an environment selects, the fallback decision, and extraction of the text
//! from the two response shapes the providers return. HTTP stays outside.

use vstd::prelude::*;
use crate::chars::{has_prefix, text_eq, text_starts_with};
use crate::text::{chars_of, string_of};

verus! {

#[derive(Debug)]
pub enum LlmError {
    MissingApiKey,
    UnsupportedProvider(String),
    Http(String),
    BadResponse(String),
}

pub enum LlmErrorView {
    MissingApiKey,
    UnsupportedProvider(Seq<char>),
    Http(Seq<char>),
    BadResponse(Seq<char>),
}

impl View for LlmError {
    type V = LlmErrorView;

    open spec fn view(&self) -> LlmErrorView {
        match *self {
            LlmError::MissingApiKey => LlmErrorView::MissingApiKey,
            LlmError::UnsupportedProvider(s) => LlmErrorView::UnsupportedProvider(s@),
            LlmError::Http(s) => LlmErrorView::Http(s@),
            LlmError::BadResponse(s) => LlmErrorView::BadResponse(s@),
        }
    }
}

pub open spec fn llm_error_message(e: LlmErrorView) -> Seq<char> {
    match e {
        LlmErrorView::MissingApiKey => "ANTHROPIC_API_KEY is required when LLM_PROVIDER=anthropic (keys come from env, never code)"@,
        LlmErrorView::UnsupportedProvider(s) => "unsupported LLM_PROVIDER: "@ + s + " (expected `mock` or `anthropic`)"@,
        LlmErrorView::Http(s) => "llm http error: "@ + s,
        LlmErrorView::BadResponse(s) => "unexpected llm response shape: "@ + s,
    }
}

impl LlmError {
    /// The human-readable message of the error.
    pub fn message(&self) -> (m: String)
        ensures
            m@ == llm_error_message(self@),
    {
        match self {
            LlmError::MissingApiKey => String::from_str(
                "ANTHROPIC_API_KEY is required when LLM_PROVIDER=anthropic (keys come from env, never code)",
            ),
            LlmError::UnsupportedProvider(s) => {
                let mut m = String::from_str("unsupported LLM_PROVIDER: ");
                m.append(s.as_str());
                m.append(" (expected `mock` or `anthropic`)");
                m
            },
            LlmError::Http(s) => {
                let mut m = String::from_str("llm http error: ");
                m.append(s.as_str());
                m
            },
            LlmError::BadResponse(s) => {
                let mut m = String::from_str("unexpected llm response shape: ");
                m.append(s.as_str());
                m
            },
        }
    }
}

/// The fixed source the offline provider proposes for the demo fixture.
pub const FIXED_LIB_RS: &'static str = "pub fn sum(values: &[i64]) -> i64 {\n    values.iter().sum()\n}\n";

/// Deterministic offline provider: it answers planner prompts (those that
/// start with `TASK: PLAN`) with the known-good fix for the demo fixture.
#[derive(Debug, Clone, Copy)]
pub struct MockLlmProvider;

impl MockLlmProvider {
    /// Whether the prompt is a planner prompt the mock answers.
    pub fn handles(prompt: &str) -> (b: bool)
        ensures
            b == has_prefix(prompt@, "TASK: PLAN"@),
    {
        text_starts_with(prompt, "TASK: PLAN")
    }

    /// The refusal for any other prompt.
    pub fn refusal() -> (e: LlmError)
        ensures
            e@ == LlmErrorView::BadResponse("mock provider only handles TASK: PLAN prompts"@),
    {
        LlmError::BadResponse(String::from_str("mock provider only handles TASK: PLAN prompts"))
    }

    /// The plan the mock proposes: one whole-file edit of `src/lib.rs`.
    pub fn plan() -> (p: crate::plan::FixPlan)
        ensures
            p.summary@ == "Make sum include every element"@,
            p.root_cause@ == "the slice expression dropped the final element"@,
            p.edits@.len() == 1,
            p.edits@[0].path@ == "src/lib.rs"@,
            p.edits@[0].content@ == FIXED_LIB_RS@,
    {
        let mut edits: Vec<crate::plan::PlannedEdit> = Vec::new();
        edits.push(crate::plan::PlannedEdit {
            path: String::from_str("src/lib.rs"),
            content: String::from_str(FIXED_LIB_RS),
        });
        crate::plan::FixPlan {
            summary: String::from_str("Make sum include every element"),
            root_cause: String::from_str("the slice expression dropped the final element"),
            edits,
        }
    }
}

/// Tries the primary provider; on any error falls back to the backup.
#[derive(Debug)]
pub struct FallbackProvider<P, B> {
    pub primary: P,
    pub backup: B,
}

/// What the fallback chain does with the primary's answer.
#[derive(Debug)]
pub enum FallbackStep {
    /// The primary answered; that is the result.
    Answer(String),
    /// The primary failed with this error; ask the backup and return its result.
    AskBackup(LlmError),
}

impl<P, B> FallbackProvider<P, B> {
    pub fn on_primary(&self, primary: Result<String, LlmError>) -> (s: FallbackStep)
        ensures
            match primary {
                Ok(t) => s == FallbackStep::Answer(t),
                Err(e) => s == FallbackStep::AskBackup(e),
            },
    {
        match primary {
            Ok(t) => FallbackStep::Answer(t),
            Err(e) => FallbackStep::AskBackup(e),
        }
    }
}

/// The provider an `LLM_PROVIDER` setting selects.
#[derive(Debug)]
pub enum ProviderChoice {
    Groq,
    Google,
    Anthropic,
    Mock,
    Unsupported(String),
}

/// `groq`, `google` and `anthropic` pick a real provider; `mock` or an empty
/// setting (and an unset one, read as `mock`) stay offline; anything else is
/// refused by name.
pub fn choose_provider(name: Option<&str>) -> (c: ProviderChoice)
    ensures
        match name {
            None => c is Mock,
            Some(n) => if n@ == "groq"@ {
                c is Groq
            } else if n@ == "google"@ {
                c is Google
            } else if n@ == "anthropic"@ {
                c is Anthropic
            } else if n@ == "mock"@ || n@.len() == 0 {
                c is Mock
            } else {
                c matches ProviderChoice::Unsupported(s) && s@ == n@
            },
        },
{
    match name {
        None => ProviderChoice::Mock,
        Some(n) => {
            if text_eq(n, "groq") {
                ProviderChoice::Groq
            } else if text_eq(n, "google") {
                ProviderChoice::Google
            } else if text_eq(n, "anthropic") {
                ProviderChoice::Anthropic
            } else if text_eq(n, "mock") || chars_of(n).len() == 0 {
                ProviderChoice::Mock
            } else {
                ProviderChoice::Unsupported(String::from_str(n))
            }
        },
    }
}

/// The Google backup is armed behind a real, non-Google primary whenever a
/// Google key is configured.
pub fn fallback_armed(choice: &ProviderChoice, google_configured: bool) -> (b: bool)
    ensures
        b == (google_configured && (*choice is Groq || *choice is Anthropic)),
{
    google_configured && match choice {
        ProviderChoice::Groq | ProviderChoice::Anthropic => true,
        _ => false,
    }
}

/// Extracts the text of an OpenAI-style chat completion, given the JSON
/// parse of the body (`Err` with the parser's message) and, when it parsed,
/// the string at `choices[0].message.content` if there is one.
pub fn openai_chat_text(parsed: Result<Option<String>, String>) -> (r: Result<String, LlmError>)
    ensures
        match parsed {
            Err(e) => r matches Err(err) && err@ == LlmErrorView::BadResponse(e@),
            Ok(Some(t)) => r == Ok::<String, LlmError>(t),
            Ok(None) => r matches Err(err) && err@ == LlmErrorView::BadResponse("choices[0].message.content missing"@),
        },
{
    match parsed {
        Err(e) => Err(LlmError::BadResponse(e)),
        Ok(Some(t)) => Ok(t),
        Ok(None) => Err(LlmError::BadResponse(String::from_str("choices[0].message.content missing"))),
    }
}

/// The first part with a non-empty text, if any.
pub open spec fn first_nonempty(parts: Seq<Option<String>>, i: int) -> Option<Seq<char>>
    decreases parts.len() - i,
{
    if i < 0 || i >= parts.len() {
        None
    } else if parts[i] is Some && parts[i]->0@.len() > 0 {
        Some(parts[i]->0@)
    } else {
        first_nonempty(parts, i + 1)
    }
}

/// Extracts the text of a Gemini `generateContent` response, given the JSON
/// parse of the body and, when it parsed, `candidates[0].content.parts` (if
/// an array) as the string `text` of each part (if it has one).
pub fn gemini_text(parsed: Result<Option<Vec<Option<String>>>, String>) -> (r: Result<String, LlmError>)
    ensures
        match parsed {
            Err(e) => r matches Err(err) && err@ == LlmErrorView::BadResponse(e@),
            Ok(None) => r matches Err(err) && err@ == LlmErrorView::BadResponse("candidates[0].content.parts missing"@),
            Ok(Some(parts)) => match first_nonempty(parts@, 0) {
                Some(t) => r matches Ok(s) && s@ == t,
                None => r matches Err(err) && err@ == LlmErrorView::BadResponse("no text part in gemini response"@),
            },
        },
{
    match parsed {
        Err(e) => Err(LlmError::BadResponse(e)),
        Ok(None) => Err(LlmError::BadResponse(String::from_str("candidates[0].content.parts missing"))),
        Ok(Some(parts)) => {
            let mut i: usize = 0;
            #[verifier::loop_isolation(false)]
            while i < parts.len()
                invariant
                    i <= parts@.len(),
                    first_nonempty(parts@, 0) == first_nonempty(parts@, i as int),
                decreases parts@.len() - i,
            {
                if let Some(t) = &parts[i] {
                    if t.unicode_len() > 0 {
                        return Ok(t.clone());
                    }
                }
                i = i + 1;
            }
            Err(LlmError::BadResponse(String::from_str("no text part in gemini response")))
        },
    }
}

/// The first content block that carries text, if any.
pub open spec fn first_text(blocks: Seq<Option<String>>, i: int) -> Option<Seq<char>>
    decreases blocks.len() - i,
{
    if i < 0 || i >= blocks.len() {
        None
    } else if blocks[i] is Some {
        Some(blocks[i]->0@)
    } else {
        first_text(blocks, i + 1)
    }
}

/// Extracts the reply of an Anthropic Messages response from the `text` of
/// each of its content blocks: the first block that has one (empty or not).
pub fn anthropic_text(blocks: Vec<Option<String>>) -> (r: Result<String, LlmError>)
    ensures
        match first_text(blocks@, 0) {
            Some(t) => r matches Ok(s) && s@ == t,
            None => r matches Err(err) && err@ == LlmErrorView::BadResponse("no text block in response"@),
        },
{
    let mut i: usize = 0;
    while i < blocks.len()
        invariant
            i <= blocks@.len(),
            first_text(blocks@, 0) == first_text(blocks@, i as int),
        decreases blocks@.len() - i,
    {
        if let Some(t) = &blocks[i] {
            return Ok(t.clone());
        }
        i = i + 1;
    }
    Err(LlmError::BadResponse(String::from_str("no text block in response")))
}

/// At most `max` characters; a cut text ends in an ellipsis.
pub open spec fn truncated(s: Seq<char>, max: nat) -> Seq<char> {
    if s.len() <= max { s } else { s.subrange(0, max as int) + seq!['\u{2026}'] }
}

pub fn truncate(s: String, max_chars: usize) -> (r: String)
    ensures
        r@ == truncated(s@, max_chars as nat),
{
    let v = chars_of(s.as_str());
    if v.len() <= max_chars {
        s
    } else {
        let mut out: Vec<char> = Vec::new();
        let mut i: usize = 0;
        while i < max_chars
            invariant
                i <= max_chars < v@.len(),
                out@ == v@.subrange(0, i as int),
            decreases max_chars - i,
        {
            out.push(v[i]);
            assert(out@ =~= v@.subrange(0, i + 1));
            i = i + 1;
        }
        out.push('\u{2026}');
        string_of(out.as_slice())
    }
}


/// What `serde_json::from_str::<serde_json::Value>(body)` followed by
/// `Value::pointer(pointer)` and `Value::as_str` yields: `Err` with the
/// parser's message when `body` is not JSON, otherwise the string found at
/// the pointer, if there is one.
pub uninterp spec fn json_string_at(body: Seq<char>, pointer: Seq<char>) -> Result<Option<Seq<char>>, Seq<char>>;

/// What `serde_json::from_str::<serde_json::Value>(body)` followed by
/// `Value::pointer(pointer)`, `Value::as_array` and, for each element,
/// `element[field].as_str()` yields: `Err` with the parser's message when
/// `body` is not JSON; `None` when there is no array at the pointer;
/// otherwise the string `field` of each element, where it has one.
pub uninterp spec fn json_field_strings_at(body: Seq<char>, pointer: Seq<char>, field: Seq<char>) -> Result<Option<Seq<Option<Seq<char>>>>, Seq<char>>;

pub open spec fn opt_text_view(o: Option<String>) -> Option<Seq<char>> {
    match o {
        Some(s) => Some(s@),
        None => None,
    }
}

pub open spec fn read_string_ok(r: Result<Option<String>, String>, named: Result<Option<Seq<char>>, Seq<char>>) -> bool {
    match (r, named) {
        (Ok(o), Ok(n)) => opt_text_view(o) == n,
        (Err(e), Err(m)) => e@ == m,
        _ => false,
    }
}

pub open spec fn read_strings_ok(
    r: Result<Option<Vec<Option<String>>>, String>,
    named: Result<Option<Seq<Option<Seq<char>>>>, Seq<char>>,
) -> bool {
    match (r, named) {
        (Ok(Some(v)), Ok(Some(n))) => v@.map_values(|o: Option<String>| opt_text_view(o)) == n,
        (Ok(None), Ok(None)) => true,
        (Err(e), Err(m)) => e@ == m,
        _ => false,
    }
}

/// Parses `body` with `serde_json::from_str` into a `serde_json::Value` and
/// reads the string at a JSON pointer (`Value::pointer`, `Value::as_str`).
/// The contract ties the result to `json_string_at` of both arguments; what
/// JSON parsing accepts is left to the crate.
#[verifier::external_body]
pub(crate) fn read_json_string(body: &str, pointer: &str) -> (r: Result<Option<String>, String>)
    ensures
        read_string_ok(r, json_string_at(body@, pointer@)),
{
    serde_json::from_str::<serde_json::Value>(body)
        .map(|v| v.pointer(pointer).and_then(|x| x.as_str()).map(str::to_owned))
        .map_err(|e| e.to_string())
}

/// Parses `body` with `serde_json::from_str` into a `serde_json::Value` and
/// reads, from the array at a JSON pointer, the string `field` of each
/// element (`Value::pointer`, `Value::as_array`, indexing, `Value::as_str`).
/// The contract ties the result to `json_field_strings_at` of the arguments.
#[verifier::external_body]
pub(crate) fn read_json_field_strings(body: &str, pointer: &str, field: &str) -> (r: Result<Option<Vec<Option<String>>>, String>)
    ensures
        read_strings_ok(r, json_field_strings_at(body@, pointer@, field@)),
{
    serde_json::from_str::<serde_json::Value>(body)
        .map(|v| {
            v.pointer(pointer)
                .and_then(|x| x.as_array())
                .map(|parts| parts.iter().map(|p| p[field].as_str().map(str::to_owned)).collect())
        })
        .map_err(|e| e.to_string())
}

/// What `serde_json::from_str::<serde_json::Value>(body)` followed by
/// `Value::pointer(pointer)`, `Value::as_array` and, for each element,
/// `element[field].as_u64()` yields: `Err` with the parser's message when
/// `body` is not JSON; `None` when there is no array at the pointer;
/// otherwise the unsigned integer `field` of each element, where it has one.
pub uninterp spec fn json_field_u64s_at(body: Seq<char>, pointer: Seq<char>, field: Seq<char>) -> Result<Option<Seq<Option<u64>>>, Seq<char>>;

pub open spec fn read_u64s_ok(
    r: Result<Option<Vec<Option<u64>>>, String>,
    named: Result<Option<Seq<Option<u64>>>, Seq<char>>,
) -> bool {
    match (r, named) {
        (Ok(Some(v)), Ok(Some(n))) => v@ == n,
        (Ok(None), Ok(None)) => true,
        (Err(e), Err(m)) => e@ == m,
        _ => false,
    }
}

/// Parses `body` with `serde_json::from_str` into a `serde_json::Value` and
/// reads, from the array at a JSON pointer, the unsigned integer `field` of
/// each element (`Value::pointer`, `Value::as_array`, indexing,
/// `Value::as_u64`). The contract ties the result to `json_field_u64s_at`.
#[verifier::external_body]
pub(crate) fn read_json_field_u64s(body: &str, pointer: &str, field: &str) -> (r: Result<Option<Vec<Option<u64>>>, String>)
    ensures
        read_u64s_ok(r, json_field_u64s_at(body@, pointer@, field@)),
{
    serde_json::from_str::<serde_json::Value>(body)
        .map(|v| v.pointer(pointer).and_then(|x| x.as_array()).map(|xs| xs.iter().map(|x| x[field].as_u64()).collect()))
        .map_err(|e| e.to_string())
}

/// The text of an OpenAI-style chat completion body:
/// `choices[0].message.content`. Index `0` selects from an array only, so a
/// `choices` that is not an array has no such content.
pub fn parse_openai_chat(body: &str) -> (r: Result<String, LlmError>)
    ensures
        match json_field_strings_at(body@, "/choices"@, "message"@) {
            Err(m) => r matches Err(err) && err@ == LlmErrorView::BadResponse(m),
            Ok(None) => r matches Err(err) && err@ == LlmErrorView::BadResponse("choices[0].message.content missing"@),
            Ok(Some(_)) => match json_string_at(body@, "/choices/0/message/content"@) {
                Err(m) => r matches Err(err) && err@ == LlmErrorView::BadResponse(m),
                Ok(Some(t)) => r matches Ok(s) && s@ == t,
                Ok(None) => r matches Err(err) && err@ == LlmErrorView::BadResponse("choices[0].message.content missing"@),
            },
        },
{
    match read_json_field_strings(body, "/choices", "message") {
        Err(e) => Err(LlmError::BadResponse(e)),
        Ok(None) => Err(LlmError::BadResponse(String::from_str("choices[0].message.content missing"))),
        Ok(Some(_)) => openai_chat_text(read_json_string(body, "/choices/0/message/content")),
    }
}

/// The first non-empty text part of a Gemini `generateContent` body:
/// `candidates[0].content.parts[*].text`. Index `0` selects from an array
/// only, so a `candidates` that is not an array has no parts.
pub fn parse_gemini(body: &str) -> (r: Result<String, LlmError>)
    ensures
        match json_field_strings_at(body@, "/candidates"@, "content"@) {
            Err(m) => r matches Err(err) && err@ == LlmErrorView::BadResponse(m),
            Ok(None) => r matches Err(err) && err@ == LlmErrorView::BadResponse("candidates[0].content.parts missing"@),
            Ok(Some(_)) => match json_field_strings_at(body@, "/candidates/0/content/parts"@, "text"@) {
                Err(m) => r matches Err(err) && err@ == LlmErrorView::BadResponse(m),
                Ok(None) => r matches Err(err) && err@ == LlmErrorView::BadResponse("candidates[0].content.parts missing"@),
                Ok(Some(parts)) => match first_nonempty_text(parts, 0) {
                    Some(t) => r matches Ok(s) && s@ == t,
                    None => r matches Err(err) && err@ == LlmErrorView::BadResponse("no text part in gemini response"@),
                },
            },
        },
{
    match read_json_field_strings(body, "/candidates", "content") {
        Err(e) => return Err(LlmError::BadResponse(e)),
        Ok(None) => return Err(LlmError::BadResponse(String::from_str("candidates[0].content.parts missing"))),
        Ok(Some(_)) => {},
    }
    let parsed = read_json_field_strings(body, "/candidates/0/content/parts", "text");
    let ghost pv = parsed;
    let r = gemini_text(parsed);
    proof {
        match pv {
            Ok(Some(v)) => lemma_first_nonempty_views(v@, 0),
            _ => {},
        }
    }
    r
}

/// The first non-empty text among the parts' texts, if any.
pub open spec fn first_nonempty_text(parts: Seq<Option<Seq<char>>>, i: int) -> Option<Seq<char>>
    decreases parts.len() - i,
{
    if i < 0 || i >= parts.len() {
        None
    } else if parts[i] is Some && parts[i]->0.len() > 0 {
        parts[i]
    } else {
        first_nonempty_text(parts, i + 1)
    }
}

proof fn lemma_first_nonempty_views(v: Seq<Option<String>>, i: int)
    ensures
        first_nonempty(v, i) == first_nonempty_text(v.map_values(|o: Option<String>| opt_text_view(o)), i),
    decreases v.len() - i,
{
    if 0 <= i < v.len() {
        lemma_first_nonempty_views(v, i + 1);
    }
}

} // verus!
