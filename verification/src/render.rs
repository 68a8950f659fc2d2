//! The render pipeline: substitution of bound values for the placeholders
//! of a prompt's content, with the stored content as the fallback.
//!
//! The substitution is the `tera` engine's, and the pipeline hands it plain
//! templates only: text in which every pair of opening braces begins a
//! placeholder that holds one word of ASCII letters, digits and
//! underscores, `{{ word }}`, and in which no other tag of the engine opens.
//! The engine reads the word in one of three ways:
//!
//! - as a name, which it looks up among the bound values;
//! - as a whole number, or as `true`, `false`, `True` or `False`, which it
//!   writes as they stand;
//! - as its own name `__tera_context`, for which it writes every bound
//!   value.
//!
//! It evaluates no operator, filter, function or other tag, so that what it
//! makes of a plain template depends on the content and the bound values
//! alone.
//!
//! The engine fails on a name without a bound value, and on a word that
//! is none of the three. On any failure of the engine, and on any content
//! that is no plain template, the pipeline returns the stored content as it
//! is, so that no template makes a prompt unretrievable.

use vstd::prelude::*;
use vstd::string::*;

verus! {

/// A value that a client binds to a variable.
#[derive(Debug, Clone, PartialEq, Eq)]
pub enum BoundValue {
    /// A text, which is rendered as it is.
    Text(String),
    /// Any other value (null, a boolean, a number, a list or an object),
    /// held as its JSON text. The engine is handed the value that is read
    /// from the text, and renders it in its own way; a text from which no
    /// value is read is handed over as a text.
    Json(String),
}

/// A value as the engine holds it.
pub enum EngineValue {
    /// A text, by its characters.
    Text(Seq<char>),
    /// A value of any other kind. Of `code` nothing is said but that it
    /// stands for the value: equal values have equal codes.
    Other(Seq<char>),
}

/// How the content of a retrieval came about.
#[derive(Clone, Copy, Debug, PartialEq, Eq, Structural)]
pub enum Rendering {
    /// Nothing was to be rendered: no bindings were supplied, or there is
    /// no content. The content is the stored content.
    NotAsked,
    /// The engine rendered the content.
    Rendered,
    /// The content is no plain template, or the engine failed. The content
    /// is the stored content.
    FellBack,
}

/// A value bound to a variable name.
#[derive(Debug, Clone, PartialEq, Eq)]
pub struct Binding {
    pub name: String,
    pub value: BoundValue,
}

/// The bytes that have a meaning in a plain template.
pub const BRACE_OPEN: u8 = 123;

pub const BRACE_CLOSE: u8 = 125;

pub const PERCENT: u8 = 37;

pub const HASH: u8 = 35;

pub const SPACE: u8 = 32;

/// Whether a byte may stand in a name: an ASCII letter, an ASCII digit or
/// an underscore.
pub open spec fn is_name_byte(byte: u8) -> bool {
    (97 <= byte <= 122) || (65 <= byte <= 90) || (48 <= byte <= 57) || byte == 95
}

/// Whether the bytes from `at` on go on a plain template. `phase` says
/// where the scan stands: 0 in text, 1 in a placeholder before its name,
/// 2 in the name, 3 in the placeholder after the name.
///
/// In text, two opening braces begin a placeholder, and an opening brace
/// before a percent sign or a hash is refused. A placeholder holds spaces,
/// one name and spaces, and ends with two closing braces.
pub open spec fn plain_from(bytes: Seq<u8>, at: int, phase: int) -> bool
    decreases bytes.len() - at,
{
    if at >= bytes.len() {
        phase == 0
    } else {
        let byte = bytes[at];
        let next = if at + 1 < bytes.len() {
            bytes[at + 1]
        } else {
            SPACE
        };
        if phase == 0 {
            if byte != BRACE_OPEN {
                plain_from(bytes, at + 1, 0)
            } else if next == BRACE_OPEN {
                plain_from(bytes, at + 2, 1)
            } else {
                next != PERCENT && next != HASH && plain_from(bytes, at + 1, 0)
            }
        } else if byte == SPACE {
            plain_from(
                bytes,
                at + 1,
                if phase == 1 {
                    1
                } else {
                    3
                },
            )
        } else if is_name_byte(byte) {
            phase != 3 && plain_from(bytes, at + 1, 2)
        } else {
            byte == BRACE_CLOSE && next == BRACE_CLOSE && phase != 1 && plain_from(bytes, at + 2, 0)
        }
    }
}

/// Whether the bytes are a plain template.
pub open spec fn is_plain_template(bytes: Seq<u8>) -> bool {
    plain_from(bytes, 0, 0)
}

/// Whether a content is a plain template.
pub open spec fn is_plain_content(content: Seq<char>) -> bool {
    is_plain_template(vstd::utf8::encode_utf8(content))
}

/// The substitution engine's set of bound values.
#[verifier::external_type_specification]
#[verifier::external_body]
pub struct ExContext(tera::Context);

/// The substitution engine's error.
#[verifier::external_type_specification]
#[verifier::external_body]
pub struct ExEngineError(tera::Error);

/// The values that a context binds, by variable name: each value that the
/// context stores, read as an `EngineValue`.
pub uninterp spec fn context_values(context: tera::Context) -> Map<Seq<char>, EngineValue>;

/// The value that `serde_json::from_str` reads from a JSON text, read as an
/// `EngineValue`; `None` where it reads none.
pub uninterp spec fn json_read(json: Seq<char>) -> Option<EngineValue>;

/// What `tera::Tera::one_off` makes, without escaping, of a plain template
/// and the bound values: the text, or `None` where it fails.
pub uninterp spec fn engine_rendering(
    content: Seq<char>,
    values: Map<Seq<char>, EngineValue>,
) -> Option<Seq<char>>;

/// `tera::Context::new`. Believed of it: the new context binds nothing.
#[verifier::external_body]
fn context_new() -> (context: tera::Context)
    ensures
        (context_values(context) == Map::<Seq<char>, EngineValue>::empty()),
{
    tera::Context::new()
}

/// `tera::Context::insert` with a text as the value. Believed of it: the
/// name is bound to the text, in place of what it was bound to before, and
/// no other name changes.
#[verifier::external_body]
fn context_insert_text(context: &mut tera::Context, name: &str, text: &str)
    ensures
        context_values(*final(context)) == context_values(*old(context)).insert(
            name@,
            EngineValue::Text(text@),
        ),
{
    context.insert(name, text);
}

/// `serde_json::from_str` on a JSON text and, where it reads a value,
/// `tera::Context::insert` with that value. Believed of it: it reports
/// whether a value was read; where one was, the name is bound to it, in
/// place of what the name was bound to before, and no other name changes;
/// where none was, the context is as it was.
#[verifier::external_body]
fn context_insert_json(context: &mut tera::Context, name: &str, json: &str) -> (bound: bool)
    ensures
        bound == json_read(json@) is Some,
        bound ==> context_values(*final(context)) == context_values(*old(context)).insert(
            name@,
            json_read(json@)->0,
        ),
        !bound ==> context_values(*final(context)) == context_values(*old(context)),
{
    match serde_json::from_str::<serde_json::Value>(json) {
        Ok(value) => {
            context.insert(name, &value);
            true
        },
        Err(_) => false,
    }
}

/// `tera::Tera::one_off` without escaping, on a plain template only.
///
/// Believed of it: on a plain template the engine parses text and
/// placeholders of one word each. A word is a name that it looks up in the
/// context, a whole number or a truth value that it writes as it stands,
/// or its own name for all bound values. It evaluates no operator, filter,
/// function or other tag, so that it returns, and its result depends on the
/// content and the bound values alone.
#[verifier::external_body]
fn one_off(content: &str, context: &tera::Context) -> (rendered: Result<String, tera::Error>)
    requires
        is_plain_content(content@),
    ensures
        rendered matches Ok(text) ==> engine_rendering(content@, context_values(*context)) == Some(
            text@,
        ),
        rendered is Err ==> engine_rendering(content@, context_values(*context)) is None,
{
    tera::Tera::one_off(content, context, false)
}

/// The value that the engine is handed for a bound value: a text as it
/// is; for a JSON text the value that is read from it, and the text itself
/// where none is read.
pub open spec fn engine_value(value: BoundValue) -> EngineValue {
    match value {
        BoundValue::Text(text) => EngineValue::Text(text@),
        BoundValue::Json(json) => match json_read(json@) {
            Some(read) => read,
            None => EngineValue::Text(json@),
        },
    }
}

/// The values that a list of bindings gives to the names, a later binding
/// of a name replacing an earlier one.
pub open spec fn bound_values(bindings: Seq<Binding>) -> Map<Seq<char>, EngineValue>
    decreases bindings.len(),
{
    if bindings.len() == 0 {
        Map::empty()
    } else {
        bound_values(bindings.drop_last()).insert(
            bindings.last().name@,
            engine_value(bindings.last().value),
        )
    }
}

/// What the engine made of a template.
#[derive(Debug, Clone, PartialEq, Eq)]
pub enum RenderOutcome {
    /// The template with its placeholders replaced.
    Rendered(String),
    /// The content is no plain template, or the engine could not fill it.
    Failed,
}

/// The text of an outcome: none where the engine failed.
pub open spec fn outcome_text(outcome: RenderOutcome) -> Option<Seq<char>> {
    match outcome {
        RenderOutcome::Rendered(text) => Some(text@),
        RenderOutcome::Failed => None,
    }
}

/// Whether content is handed to the engine at all: only when bindings were
/// supplied and there is content to render.
pub open spec fn wants_rendering(content: Seq<char>, bindings: Seq<Binding>) -> bool {
    bindings.len() > 0 && content.len() > 0
}

/// What a substitution gives: what the engine makes of the content and the
/// bound values where the content is a plain template, and nothing else.
pub open spec fn substituted(content: Seq<char>, bindings: Seq<Binding>) -> Option<Seq<char>> {
    if is_plain_content(content) {
        engine_rendering(content, bound_values(bindings))
    } else {
        None
    }
}

/// The content that a retrieval returns: the rendered text, or the stored
/// content where the engine failed.
pub open spec fn delivered_content(stored: Seq<char>, outcome: RenderOutcome) -> Seq<char> {
    match outcome {
        RenderOutcome::Rendered(text) => text@,
        RenderOutcome::Failed => stored,
    }
}

/// The content of a retrieval with bindings: the stored content where no
/// bindings were supplied or there is no content, and else what the
/// substitution gives, or the stored content where it gives nothing.
pub open spec fn rendered_content(stored: Seq<char>, bindings: Seq<Binding>) -> Seq<char> {
    if wants_rendering(stored, bindings) {
        match substituted(stored, bindings) {
            Some(text) => text,
            None => stored,
        }
    } else {
        stored
    }
}

/// How the content of a retrieval comes about.
pub open spec fn rendering_of(stored: Seq<char>, bindings: Seq<Binding>) -> Rendering {
    if !wants_rendering(stored, bindings) {
        Rendering::NotAsked
    } else if substituted(stored, bindings) is Some {
        Rendering::Rendered
    } else {
        Rendering::FellBack
    }
}

/// Whether content is handed to the engine at all.
pub fn needs_rendering(content: &str, bindings: &Vec<Binding>) -> (needed: bool)
    ensures
        needed == wants_rendering(content@, bindings@),
{
    bindings.len() > 0 && !content.is_empty()
}

/// Whether a content is a plain template.
pub fn is_plain(content: &str) -> (plain: bool)
    ensures
        plain == is_plain_content(content@),
{
    let bytes = content.as_bytes();
    let length = bytes.len();
    let mut at: usize = 0;
    let mut phase: u8 = 0;
    while at < length
        invariant
            at <= length + 1,
            length == bytes@.len(),
            bytes@ == vstd::utf8::encode_utf8(content@),
            phase <= 3,
            is_plain_template(bytes@) == plain_from(bytes@, at as int, phase as int),
        decreases length + 1 - at,
    {
        let byte = bytes[at];
        let next = if at + 1 < length {
            bytes[at + 1]
        } else {
            SPACE
        };
        if phase == 0 {
            if byte != BRACE_OPEN {
                at += 1;
            } else if next == BRACE_OPEN {
                at += 2;
                phase = 1;
            } else if next == PERCENT || next == HASH {
                return false;
            } else {
                at += 1;
            }
        } else if byte == SPACE {
            at += 1;
            if phase != 1 {
                phase = 3;
            }
        } else if (97 <= byte && byte <= 122) || (65 <= byte && byte <= 90) || (48 <= byte && byte
            <= 57) || byte == 95 {
            if phase == 3 {
                return false;
            }
            at += 1;
            phase = 2;
        } else if byte == BRACE_CLOSE && next == BRACE_CLOSE && phase != 1 {
            at += 2;
            phase = 0;
        } else {
            return false;
        }
    }
    phase == 0
}

/// A context that binds what the bindings bind.
fn context_of(bindings: &Vec<Binding>) -> (context: tera::Context)
    ensures
        context_values(context) == bound_values(bindings@),
{
    let mut context = context_new();
    let mut index: usize = 0;
    while index < bindings.len()
        invariant
            index <= bindings.len(),
            context_values(context) == bound_values(bindings@.take(index as int)),
        decreases bindings.len() - index,
    {
        let binding = &bindings[index];
        match &binding.value {
            BoundValue::Text(text) => {
                context_insert_text(&mut context, binding.name.as_str(), text.as_str());
            },
            BoundValue::Json(json) => {
                if !context_insert_json(&mut context, binding.name.as_str(), json.as_str()) {
                    context_insert_text(&mut context, binding.name.as_str(), json.as_str());
                }
            },
        }
        proof {
            assert(bindings@.take(index + 1).drop_last() == bindings@.take(index as int));
        }
        index += 1;
    }
    proof {
        assert(bindings@.take(index as int) == bindings@);
    }
    context
}

/// Hands a plain template and the bindings to the engine and reports what
/// it made of them. Content that is no plain template is not handed to the
/// engine: the substitution has failed.
pub fn substitute(content: &str, bindings: &Vec<Binding>) -> (outcome: RenderOutcome)
    ensures
        outcome_text(outcome) == substituted(content@, bindings@),
{
    if !is_plain(content) {
        return RenderOutcome::Failed;
    }
    let context = context_of(bindings);
    match one_off(content, &context) {
        Ok(text) => RenderOutcome::Rendered(text),
        Err(_) => RenderOutcome::Failed,
    }
}

/// Chooses between the engine's text and the stored content. A failure of
/// the engine is absorbed here: the stored content is returned as it is.
pub fn deliver(stored: String, outcome: RenderOutcome) -> (content: String)
    ensures
        content@ == delivered_content(stored@, outcome),
{
    match outcome {
        RenderOutcome::Rendered(text) => text,
        RenderOutcome::Failed => stored,
    }
}

/// The content of a retrieval with bindings. Without bindings, or with
/// empty content, it is the stored content; otherwise it is what the engine
/// made of the content, or the stored content where the content is no plain
/// template or the engine failed.
pub fn render(stored: String, bindings: &Vec<Binding>) -> (content: String)
    ensures
        content@ == rendered_content(stored@, bindings@),
{
    if needs_rendering(stored.as_str(), bindings) {
        let outcome = substitute(stored.as_str(), bindings);
        deliver(stored, outcome)
    } else {
        stored
    }
}

} // verus!
