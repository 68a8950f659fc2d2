//! The prompt record shared by every layer.

use crate::models::ident::{hex_digit_of, random_bits, PromptId};
use crate::text::{
    copy_optional_text, copy_optional_texts, copy_text, same_optional_text, same_optional_texts,
    same_text,
};
use vstd::prelude::*;

verus! {

/// A stored template with its metadata.
#[derive(Debug, Clone, PartialEq, Eq)]
pub struct Prompt {
    /// Names the record; never changes once assigned.
    pub id: PromptId,
    /// A label for people; several prompts may share one.
    pub name: String,
    /// The template body, with placeholders for variables.
    pub content: String,
    /// A free classification.
    pub category: Option<String>,
    /// The variables that the template expects, in order. Advisory only.
    pub variables: Option<Vec<String>>,
    /// A free annotation.
    pub description: Option<String>,
}

/// What a prompt holds, as mathematical values.
pub struct PromptView {
    pub id: PromptId,
    pub name: Seq<char>,
    pub content: Seq<char>,
    pub category: Option<Seq<char>>,
    pub variables: Option<Seq<Seq<char>>>,
    pub description: Option<Seq<char>>,
}

impl PromptView {
    /// A prompt is valid when it has a name.
    pub open spec fn valid(self) -> bool {
        self.name.len() > 0
    }

    /// The same prompt under another identifier.
    pub open spec fn with_id(self, id: PromptId) -> PromptView {
        PromptView { id, ..self }
    }
}

impl View for Prompt {
    type V = PromptView;

    open spec fn view(&self) -> PromptView {
        PromptView {
            id: self.id,
            name: self.name@,
            content: self.content@,
            category: self.category.deep_view(),
            variables: self.variables.deep_view(),
            description: self.description.deep_view(),
        }
    }
}

impl DeepView for Prompt {
    type V = PromptView;

    open spec fn deep_view(&self) -> PromptView {
        self@
    }
}

/// Whether an identifier has the shape of a randomly drawn one: its
/// thirteenth hexadecimal digit is 4 and its seventeenth is 8, 9, a or b.
pub open spec fn is_random_shaped(id: PromptId) -> bool {
    &&& hex_digit_of(id.bits as nat, 19) == 4
    &&& 8 <= hex_digit_of(id.bits as nat, 15) <= 11
}

impl Prompt {
    /// A prompt without description under a fresh, randomly drawn
    /// identifier.
    pub fn new(
        name: String,
        content: String,
        category: Option<String>,
        variables: Option<Vec<String>>,
    ) -> (prompt: Prompt)
        ensures
            is_random_shaped(prompt.id),
            prompt@ == (PromptView {
                id: prompt.id,
                name: name@,
                content: content@,
                category: category.deep_view(),
                variables: variables.deep_view(),
                description: None,
            }),
    {
        Prompt {
            id: PromptId { bits: random_bits() },
            name,
            content,
            category,
            variables,
            description: None,
        }
    }

    /// Whether the prompt has a name.
    pub fn is_valid(&self) -> (valid: bool)
        ensures
            valid == self@.valid(),
    {
        self.name.as_str().unicode_len() > 0
    }

    /// A copy that holds the same values.
    pub fn duplicate(&self) -> (copy: Prompt)
        ensures
            copy@ == self@,
    {
        Prompt {
            id: self.id,
            name: copy_text(&self.name),
            content: copy_text(&self.content),
            category: copy_optional_text(&self.category),
            variables: copy_optional_texts(&self.variables),
            description: copy_optional_text(&self.description),
        }
    }

    /// Whether two prompts hold the same values.
    pub fn same_as(&self, other: &Prompt) -> (same: bool)
        ensures
            same == (self@ == other@),
    {
        self.id == other.id && same_text(&self.name, &other.name) && same_text(
            &self.content,
            &other.content,
        ) && same_optional_text(&self.category, &other.category) && same_optional_texts(
            &self.variables,
            &other.variables,
        ) && same_optional_text(&self.description, &other.description)
    }
}

} // verus!
