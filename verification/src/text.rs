//! Copies and comparisons of owned text, stated over its characters.

use vstd::prelude::*;
use vstd::string::*;

verus! {

/// The concatenation of two texts.
pub fn concat_text(left: &str, right: &str) -> (whole: String)
    ensures
        whole@ == left@ + right@,
{
    let mut whole = left.to_owned();
    whole.append(right);
    whole
}

/// A text between two others.
pub open spec fn framed(before: Seq<char>, text: Seq<char>, after: Seq<char>) -> Seq<char> {
    before + text + after
}

/// A text between two others.
pub fn frame(before: &str, text: &str, after: &str) -> (whole: String)
    ensures
        whole@ == framed(before@, text@, after@),
{
    let mut whole = before.to_owned();
    whole.append(text);
    whole.append(after);
    whole
}

/// A copy of a text.
pub fn copy_text(text: &String) -> (copy: String)
    ensures
        copy@ == text@,
{
    text.clone()
}

/// A copy of a text that may be absent.
pub fn copy_optional_text(text: &Option<String>) -> (copy: Option<String>)
    ensures
        copy.deep_view() == text.deep_view(),
{
    match text {
        Some(present) => Some(copy_text(present)),
        None => None,
    }
}

/// A copy of a list of texts, in the same order.
pub fn copy_texts(texts: &Vec<String>) -> (copy: Vec<String>)
    ensures
        copy.deep_view() == texts.deep_view(),
{
    let mut copy: Vec<String> = Vec::new();
    let mut index: usize = 0;
    while index < texts.len()
        invariant
            index <= texts.len(),
            copy.len() == index,
            forall|i: int| 0 <= i < index ==> copy[i]@ == texts[i]@,
        decreases texts.len() - index,
    {
        copy.push(copy_text(&texts[index]));
        index += 1;
    }
    assert(copy.deep_view() =~= texts.deep_view());
    copy
}

/// A copy of a list of texts that may be absent.
pub fn copy_optional_texts(texts: &Option<Vec<String>>) -> (copy: Option<Vec<String>>)
    ensures
        copy.deep_view() == texts.deep_view(),
{
    match texts {
        Some(present) => Some(copy_texts(present)),
        None => None,
    }
}

/// Whether two texts hold the same characters.
pub fn same_text(left: &String, right: &String) -> (same: bool)
    ensures
        same == (left@ == right@),
{
    *left == *right
}

/// Whether two texts that may be absent are both absent or hold the same
/// characters.
pub fn same_optional_text(left: &Option<String>, right: &Option<String>) -> (same: bool)
    ensures
        same == (left.deep_view() == right.deep_view()),
{
    match (left, right) {
        (Some(l), Some(r)) => same_text(l, r),
        (None, None) => true,
        _ => false,
    }
}

/// Whether two lists hold the same texts in the same order.
pub fn same_texts(left: &Vec<String>, right: &Vec<String>) -> (same: bool)
    ensures
        same == (left.deep_view() == right.deep_view()),
{
    if left.len() != right.len() {
        assert(left.deep_view().len() != right.deep_view().len());
        return false;
    }
    let mut index: usize = 0;
    while index < left.len()
        invariant
            index <= left.len(),
            left.len() == right.len(),
            forall|i: int| 0 <= i < index ==> left[i]@ == right[i]@,
        decreases left.len() - index,
    {
        if !same_text(&left[index], &right[index]) {
            assert(left.deep_view()[index as int] != right.deep_view()[index as int]);
            return false;
        }
        index += 1;
    }
    assert(left.deep_view() =~= right.deep_view());
    true
}

/// Whether two lists that may be absent are both absent or hold the same
/// texts in the same order.
pub fn same_optional_texts(left: &Option<Vec<String>>, right: &Option<Vec<String>>) -> (same: bool)
    ensures
        same == (left.deep_view() == right.deep_view()),
{
    match (left, right) {
        (Some(l), Some(r)) => same_texts(l, r),
        (None, None) => true,
        _ => false,
    }
}

} // verus!
