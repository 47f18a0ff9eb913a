//! Rendering of elements as an Org-mode document.
use vstd::prelude::*;

use crate::document::{
    body_elements, element_views, line_texts, title_of, LineError, MarkdownFile,
};
use crate::element::{ElementModel, MarkdownSyntaxElement, SyntaxElementType};
use crate::text::push_char;

verus! {

/// `d` stars.
pub open spec fn stars(d: nat) -> Seq<char> {
    Seq::new(d, |_i: int| '*')
}

/// A header: a blank line, then `depth` stars, a space and the text.
pub open spec fn header_line(m: ElementModel) -> Seq<char> {
    seq!['\n'] + stars(m.depth) + seq![' '] + m.text + seq!['\n']
}

/// A list entry: `- text` when unordered, `<digit>. text` when ordered.
pub open spec fn list_line(m: ElementModel, ordered: bool) -> Seq<char> {
    if ordered {
        seq![m.order, '.', ' '] + m.text + seq!['\n']
    } else {
        seq!['-', ' '] + m.text + seq!['\n']
    }
}

/// The Org lines of one element.
pub open spec fn org_element(m: ElementModel) -> Seq<char> {
    match m.kind {
        SyntaxElementType::Header => header_line(m),
        SyntaxElementType::UnorderedEntry => list_line(m, false),
        SyntaxElementType::OrderedEntry => list_line(m, true),
    }
}

/// The Org lines of the elements, in order.
pub open spec fn org_body(es: Seq<ElementModel>) -> Seq<char>
    decreases es.len(),
{
    if es.len() == 0 {
        Seq::empty()
    } else {
        org_body(es.drop_last()) + org_element(es.last())
    }
}

pub open spec fn title_prefix() -> Seq<char> {
    seq!['#', '+', 'T', 'I', 'T', 'L', 'E', ':', ' ']
}

/// A whole Org document: the title line, then each element.
pub open spec fn org_document(title: Seq<char>, es: Seq<ElementModel>) -> Seq<char> {
    title_prefix() + title + seq!['\n'] + org_body(es)
}

/// Appends a header element to `out`.
pub fn write_header(out: &mut String, element: &MarkdownSyntaxElement)
    ensures
        final(out)@ == old(out)@ + header_line(element@),
{
    let ghost start = out@;
    push_char(out, '\n');
    let mut d: usize = 0;
    while d < element.element_depth
        invariant
            d <= element.element_depth,
            out@ == start + seq!['\n'] + stars(d as nat),
        decreases element.element_depth - d,
    {
        push_char(out, '*');
        d = d + 1;
        assert(stars(d as nat) =~= stars((d - 1) as nat).push('*'));
    }
    push_char(out, ' ');
    out.append(element.element_text.as_str());
    push_char(out, '\n');
    assert(out@ =~= start + header_line(element@));
}

/// Appends a list element to `out`. List entries are not indented, whatever
/// their depth.
pub fn write_list_element(out: &mut String, element: &MarkdownSyntaxElement, is_ordered: bool)
    ensures
        final(out)@ == old(out)@ + list_line(element@, is_ordered),
{
    let ghost start = out@;
    if is_ordered {
        push_char(out, element.list_order);
        push_char(out, '.');
    } else {
        push_char(out, '-');
    }
    push_char(out, ' ');
    out.append(element.element_text.as_str());
    push_char(out, '\n');
    assert(out@ =~= start + list_line(element@, is_ordered));
}

/// Renders the title and the elements, in order, as an Org document.
pub fn render_org_document(title: &str, elements: &Vec<MarkdownSyntaxElement>) -> (r: String)
    ensures
        r@ == org_document(title@, element_views(elements@)),
{
    let mut out = String::new();
    proof {
        reveal_strlit("#+TITLE: ");
    }
    out.append("#+TITLE: ");
    out.append(title);
    push_char(&mut out, '\n');
    let ghost head = out@;
    assert(head =~= title_prefix() + title@ + seq!['\n']);
    let mut i: usize = 0;
    while i < elements.len()
        invariant
            i <= elements@.len(),
            out@ == head + org_body(element_views(elements@.subrange(0, i as int))),
        decreases elements@.len() - i,
    {
        let element = &elements[i];
        match element.element_type {
            SyntaxElementType::Header => write_header(&mut out, element),
            SyntaxElementType::UnorderedEntry => write_list_element(&mut out, element, false),
            SyntaxElementType::OrderedEntry => write_list_element(&mut out, element, true),
        }
        proof {
            let prev = element_views(elements@.subrange(0, i as int));
            let next = element_views(elements@.subrange(0, i + 1));
            assert(next.drop_last() =~= prev);
            assert(next.last() == element@);
        }
        i = i + 1;
    }
    assert(elements@.subrange(0, elements@.len() as int) =~= elements@);
    out
}

/// Converts the lines of a Markdown document into the text of an Org
/// document; or names the first body line that cannot become an element.
pub fn convert_lines(lines: Vec<String>) -> (r: Result<String, LineError>)
    ensures
        body_elements(line_texts(lines@)) matches Ok(es) ==> r matches Ok(s) && s@
            == org_document(title_of(line_texts(lines@)), es),
        body_elements(line_texts(lines@)) matches Err(x) ==> r matches Err(e) && x == (
            e.line_index as nat,
            e.error,
        ),
{
    let file = MarkdownFile::new(lines);
    match file.get_syntax_elements() {
        Ok(elements) => Ok(render_org_document(file.title.as_str(), &elements)),
        Err(e) => Err(e),
    }
}

} // verus!
