//! General facts about titles, classification, text extraction and rendering.
use vstd::prelude::*;

use crate::document::{body_elements, body_start, elements_upto, is_title_line, title_of};
use crate::element::{depth_of, element_of, element_type_of, is_digit, SyntaxElementType};
use crate::org::{org_element, stars};
use crate::text::{alphabetic, element_text, is_blank, skip_to_letter, trim_end, whitespace};

verus! {

/// Number of lines among `start .. end` that are not blank.
pub open spec fn non_blank_between(ls: Seq<Seq<char>>, start: int, end: int) -> nat
    decreases end - start,
{
    if end <= start {
        0
    } else if is_blank(ls[end - 1]) {
        non_blank_between(ls, start, end - 1)
    } else {
        non_blank_between(ls, start, end - 1) + 1
    }
}

/// A document in which no line holds the title marker has an empty title,
/// and its body starts at the first line.
pub proof fn no_title_line_gives_empty_title(ls: Seq<Seq<char>>)
    requires
        forall|k: int| 0 <= k < ls.len() ==> !is_title_line(#[trigger] ls[k]),
    ensures
        title_of(ls) == Seq::<char>::empty(),
        body_start(ls) == 0,
    decreases ls.len(),
{
    if ls.len() > 0 {
        let t = ls.drop_first();
        assert forall|k: int| 0 <= k < t.len() implies !is_title_line(#[trigger] t[k]) by {
            assert(t[k] == ls[k + 1]);
        }
        no_title_line_gives_empty_title(t);
        assert(!is_title_line(ls[0]));
    }
}

proof fn lemma_count_upto(ls: Seq<Seq<char>>, start: int, i: int)
    requires
        elements_upto(ls, start, i) is Ok,
    ensures
        elements_upto(ls, start, i)->Ok_0.len() == non_blank_between(ls, start, i),
    decreases i - start,
{
    if i > start {
        lemma_count_upto(ls, start, i - 1);
    }
}

/// Each non-blank body line gives one element and a blank line gives none.
pub proof fn one_element_per_non_blank_line(ls: Seq<Seq<char>>)
    requires
        body_elements(ls) is Ok,
    ensures
        body_elements(ls)->Ok_0.len() == non_blank_between(
            ls,
            body_start(ls) as int,
            ls.len() as int,
        ),
{
    lemma_count_upto(ls, body_start(ls) as int, ls.len() as int);
}

/// Every non-empty line has exactly one kind, given by its first character.
pub proof fn classification_is_total(s: Seq<char>)
    requires
        s.len() > 0,
    ensures
        element_type_of(s) == SyntaxElementType::UnorderedEntry <==> s[0] == '-',
        element_type_of(s) == SyntaxElementType::OrderedEntry <==> is_digit(s[0]),
        element_type_of(s) == SyntaxElementType::Header <==> s[0] != '-' && !is_digit(s[0]),
{
}

/// An unordered entry is written as `- ` and its text; a header whose first
/// space stands at index `D` is written, after a blank line, as `D` stars, a
/// space and its text.
pub proof fn markers_are_kept(s: Seq<char>)
    requires
        element_of(s) is Ok,
    ensures
        element_type_of(s) == SyntaxElementType::UnorderedEntry ==> org_element(
            element_of(s)->Ok_0,
        ) == seq!['-', ' '] + element_text(s) + seq!['\n'],
        element_type_of(s) == SyntaxElementType::Header ==> org_element(element_of(s)->Ok_0)
            == seq!['\n'] + stars(depth_of(s)) + seq![' '] + element_text(s) + seq!['\n'],
        stars(depth_of(s)).len() == depth_of(s),
        forall|i: int| 0 <= i < depth_of(s) ==> #[trigger] stars(depth_of(s))[i] == '*',
{
}

proof fn lemma_trim_end_settled(s: Seq<char>)
    ensures
        trim_end(s).len() == 0 || !whitespace(trim_end(s).last()),
    decreases s.len(),
{
    if s.len() > 0 && whitespace(s.last()) {
        lemma_trim_end_settled(s.drop_last());
    }
}

/// Text that starts with a letter is its own text: extracting it again
/// changes nothing.
pub proof fn element_text_is_idempotent(s: Seq<char>)
    requires
        element_text(s).len() > 0,
        alphabetic(element_text(s)[0]),
    ensures
        element_text(element_text(s)) == element_text(s),
{
    let t = element_text(s);
    assert(skip_to_letter(t) == t);
    lemma_trim_end_settled(skip_to_letter(s));
}

} // verus!
