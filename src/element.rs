//! Classification of a single Markdown line into a structural element.
use vstd::prelude::*;

use crate::text::{element_text, find_char, get_element_text, position_of};

verus! {

/// Deepest header that a document may hold.
pub const MAX_DEPTH: usize = 5;

/// The structural kind of a line, read from its first character.
#[derive(Clone, Copy, Debug, PartialEq, Eq, Structural)]
pub enum SyntaxElementType {
    Header,
    UnorderedEntry,
    OrderedEntry,
}

/// Why a line cannot become an element.
#[derive(Clone, Copy, Debug, PartialEq, Eq, Structural)]
pub enum ElementError {
    /// The line holds no letter, so it has no text.
    NoText,
    /// A header whose depth is above `MAX_DEPTH`.
    TooDeep,
}

/// One structural line of a Markdown document.
#[derive(Debug)]
pub struct MarkdownSyntaxElement {
    /// Index of the first space of the line, or 0 where it has none.
    pub element_depth: usize,
    pub element_type: SyntaxElementType,
    /// `*` for a header, `-` for an unordered entry, the leading digit for an
    /// ordered entry.
    pub list_order: char,
    pub element_text: String,
}

/// What an element stands for.
pub struct ElementModel {
    pub depth: nat,
    pub kind: SyntaxElementType,
    pub order: char,
    pub text: Seq<char>,
}

impl View for MarkdownSyntaxElement {
    type V = ElementModel;

    open spec fn view(&self) -> ElementModel {
        ElementModel {
            depth: self.element_depth as nat,
            kind: self.element_type,
            order: self.list_order,
            text: self.element_text@,
        }
    }
}

pub open spec fn is_digit(c: char) -> bool {
    '0' <= c <= '9'
}

/// The kind of a line: `-` first makes an unordered entry, a digit first an
/// ordered entry, anything else a header.
pub open spec fn element_type_of(s: Seq<char>) -> SyntaxElementType {
    if s.len() > 0 && s[0] == '-' {
        SyntaxElementType::UnorderedEntry
    } else if s.len() > 0 && is_digit(s[0]) {
        SyntaxElementType::OrderedEntry
    } else {
        SyntaxElementType::Header
    }
}

/// The marker that an element of kind `t` read from line `s` carries.
pub open spec fn list_order_of(t: SyntaxElementType, s: Seq<char>) -> char {
    match t {
        SyntaxElementType::Header => '*',
        SyntaxElementType::UnorderedEntry => '-',
        SyntaxElementType::OrderedEntry => s[0],
    }
}

/// The index of the first space of a line, or 0 where it has none.
pub open spec fn depth_of(s: Seq<char>) -> nat {
    match find_char(s, ' ') {
        Some(k) => k,
        None => 0,
    }
}

/// The element that a non-blank line becomes, or why it cannot become one.
pub open spec fn element_of(s: Seq<char>) -> Result<ElementModel, ElementError> {
    let kind = element_type_of(s);
    if element_text(s).len() == 0 {
        Err(ElementError::NoText)
    } else if kind == SyntaxElementType::Header && depth_of(s) > MAX_DEPTH {
        Err(ElementError::TooDeep)
    } else {
        Ok(
            ElementModel {
                depth: depth_of(s),
                kind,
                order: list_order_of(kind, s),
                text: element_text(s),
            },
        )
    }
}

/// Classifies a line by its first character.
pub fn get_syntax_element_type(line: String) -> (r: SyntaxElementType)
    ensures
        r == element_type_of(line@),
{
    let s = line.as_str();
    if s.unicode_len() == 0 {
        return SyntaxElementType::Header;
    }
    let first = s.get_char(0);
    if first == '-' {
        SyntaxElementType::UnorderedEntry
    } else if '0' <= first && first <= '9' {
        SyntaxElementType::OrderedEntry
    } else {
        SyntaxElementType::Header
    }
}

/// The marker of an element of kind `element_type` read from `line`.
pub fn get_list_order(element_type: &SyntaxElementType, line: String) -> (r: char)
    requires
        *element_type == SyntaxElementType::OrderedEntry ==> line@.len() > 0,
    ensures
        r == list_order_of(*element_type, line@),
{
    match element_type {
        SyntaxElementType::Header => '*',
        SyntaxElementType::UnorderedEntry => '-',
        SyntaxElementType::OrderedEntry => line.as_str().get_char(0),
    }
}

/// Builds the element for one non-blank line.
pub fn build_syntax_element_struct(line: String) -> (r: Result<MarkdownSyntaxElement, ElementError>)
    ensures
        r matches Ok(e) ==> element_of(line@) == Ok::<ElementModel, ElementError>(e@),
        r matches Err(err) ==> element_of(line@) == Err::<ElementModel, ElementError>(err),
{
    let text = get_element_text(line.clone());
    if text.as_str().unicode_len() == 0 {
        return Err(ElementError::NoText);
    }
    let kind = get_syntax_element_type(line.clone());
    let depth: usize = match position_of(line.as_str(), ' ') {
        Some(k) => k,
        None => 0,
    };
    if kind == SyntaxElementType::Header && depth > MAX_DEPTH {
        return Err(ElementError::TooDeep);
    }
    let order = get_list_order(&kind, line.clone());
    Ok(
        MarkdownSyntaxElement {
            element_depth: depth,
            element_type: kind,
            list_order: order,
            element_text: text,
        },
    )
}

} // verus!
