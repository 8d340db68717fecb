//! What the summarization agent computes around its request to the model:
//! the prompt that goes out and the cleaning of the answer that comes back.

use crate::config::ConfigError;
use crate::text::{chars_of, find_last, last_occurrence, occurs_at, starts_with, trim_bounds, trimmed};
use vstd::prelude::*;
use vstd::string::*;

verus! {

/// What went wrong in the agent.
#[derive(Debug, Clone, PartialEq, Eq)]
pub enum AgentError {
    /// The request to the model failed.
    RequestFailed(String),
    /// The answer of the model is no summary.
    ParseError(String),
    /// The configuration does not allow a request.
    ConfigError(ConfigError),
}

/// The Gemini models that can be chosen.
#[derive(Debug, Clone, Copy, PartialEq, Eq, Structural)]
pub enum GeminiChoice {
    Gemini20Flash,
    Gemini25Flash,
    Gemini25Pro,
}

/// The model that a name stands for; an unknown name stands for Gemini 2.0 Flash.
pub open spec fn model_named(name: Seq<char>) -> GeminiChoice {
    if name == "gemini-2.5-flash"@ {
        GeminiChoice::Gemini25Flash
    } else if name == "gemini-2.5-pro"@ {
        GeminiChoice::Gemini25Pro
    } else {
        GeminiChoice::Gemini20Flash
    }
}

/// Parse a model string into a model choice
pub fn parse_gemini_model(model: &str) -> (choice: GeminiChoice)
    ensures
        choice == model_named(model@),
{
    let name = model.to_owned();
    if name == "gemini-2.5-flash".to_owned() {
        GeminiChoice::Gemini25Flash
    } else if name == "gemini-2.5-pro".to_owned() {
        GeminiChoice::Gemini25Pro
    } else {
        GeminiChoice::Gemini20Flash
    }
}

/// What the prompt says between the instructions and the text: the shape
/// that the answer must have.
pub const ANSWER_FORMAT: &'static str = "\n\nYou MUST respond with valid JSON matching this exact schema:\n{\n  \"title\": \"string - a concise title for the content\",\n  \"conclusion\": \"string - the main takeaway or conclusion of the article in 1-2 sentences\",\n  \"key_points\": [\"array of key takeaways\"],\n  \"entities\": [\"array of named entities like people, organizations, technologies\"],\n  \"action_items\": [\"array of actionable items or next steps, can be empty\"]\n}\n\nDo not include any markdown formatting, code blocks, or explanations. Only output the raw JSON object.\n\n---\n\n";

/// The prompt for a text: the persona, the instructions, the shape of the
/// answer and the text.
pub open spec fn prompt_for(persona: Seq<char>, instructions: Seq<char>, text: Seq<char>) -> Seq<char> {
    persona + "\n\n"@ + instructions + ANSWER_FORMAT@ + text
}

/// Builds the prompt that is sent to the model.
pub fn build_prompt(persona: &str, instructions: &str, text: &str) -> (prompt: String)
    ensures
        prompt@ == prompt_for(persona@, instructions@, text@),
{
    let mut prompt = persona.to_owned();
    prompt.append("\n\n");
    prompt.append(instructions);
    prompt.append(ANSWER_FORMAT);
    prompt.append(text);
    prompt
}

/// The fence that opens and closes a block of code.
pub open spec fn fence() -> Seq<char> {
    seq!['`', '`', '`']
}

/// The fence that opens a block of JSON.
pub open spec fn json_fence() -> Seq<char> {
    seq!['`', '`', '`', 'j', 's', 'o', 'n']
}

/// The answer without the code fences around it: the text is trimmed; where
/// it then begins with a fence, what stands between that fence, with its
/// `json` tag if it has one, and the last fence is taken and trimmed. A
/// text that opens a fence without closing it is only trimmed.
pub open spec fn without_fences(text: Seq<char>) -> Seq<char> {
    let t = trimmed(text);
    if occurs_at(fence(), t, 0) {
        let body = if occurs_at(json_fence(), t, 0) {
            t.skip(7)
        } else {
            t.skip(3)
        };
        match last_occurrence(fence(), body) {
            Some(end) => trimmed(body.take(end)),
            None => t,
        }
    } else {
        t
    }
}

fn sub_vec(chars: &Vec<char>, from: usize, to: usize) -> (part: Vec<char>)
    requires
        from <= to <= chars@.len(),
    ensures
        part@ == chars@.subrange(from as int, to as int),
{
    let mut part: Vec<char> = Vec::new();
    let mut i = from;
    while i < to
        invariant
            from <= i <= to <= chars@.len(),
            part@ == chars@.subrange(from as int, i as int),
        decreases to - i,
    {
        part.push(chars[i]);
        assert(part@ =~= chars@.subrange(from as int, i + 1));
        i = i + 1;
    }
    assert(part@ =~= chars@.subrange(from as int, to as int));
    part
}

/// Strip markdown code block wrappers from JSON response
pub fn strip_markdown_json(text: &str) -> (out: String)
    ensures
        out@ == without_fences(text@),
{
    let chars = chars_of(text);
    let (start, end) = trim_bounds(&chars);
    let t = sub_vec(&chars, start, end);
    let fence_chars: Vec<char> = vec!['`', '`', '`'];
    let json_chars: Vec<char> = vec!['`', '`', '`', 'j', 's', 'o', 'n'];
    assert(fence_chars@ =~= fence());
    assert(json_chars@ =~= json_fence());
    if starts_with(&t, &fence_chars) {
        let skip: usize = if starts_with(&t, &json_chars) {
            7
        } else {
            3
        };
        let body = sub_vec(&t, skip, t.len());
        assert(body@ =~= t@.skip(skip as int));
        match find_last(&body, &fence_chars) {
            Some(close) => {
                let inner = sub_vec(&body, 0, close);
                assert(inner@ =~= body@.take(close as int));
                let (from, to) = trim_bounds(&inner);
                let base = start + skip;
                assert(text@.subrange(base + from, base + to) =~= trimmed(inner@));
                return text.substring_char(base + from, base + to).to_owned();
            },
            None => {},
        }
    }
    text.substring_char(start, end).to_owned()
}

} // verus!
