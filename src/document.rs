//! A Markdown document held as lines: its title, and the elements of its body.
use vstd::prelude::*;

use crate::element::{build_syntax_element_struct, element_of, ElementError, ElementModel, MarkdownSyntaxElement};
use crate::text::{
    contains, find_first, is_blank, is_blank_line, replace_first, replace_first_str, trim,
    trim_string,
};

verus! {

/// The characters of each line.
pub open spec fn line_texts(lines: Seq<String>) -> Seq<Seq<char>> {
    lines.map_values(|s: String| s@)
}

/// The marker of a level-1 header.
pub open spec fn title_marker() -> Seq<char> {
    seq!['#', ' ']
}

pub open spec fn is_title_line(s: Seq<char>) -> bool {
    contains(s, title_marker())
}

/// Index of the first line that holds the title marker.
pub open spec fn title_index(ls: Seq<Seq<char>>) -> Option<nat>
    decreases ls.len(),
{
    if ls.len() == 0 {
        None
    } else if is_title_line(ls[0]) {
        Some(0)
    } else {
        match title_index(ls.drop_first()) {
            Some(k) => Some(k + 1),
            None => None,
        }
    }
}

/// The title of a document: its title line, trimmed, without the first
/// marker; empty where no line holds the marker.
pub open spec fn title_of(ls: Seq<Seq<char>>) -> Seq<char> {
    match title_index(ls) {
        Some(k) => replace_first(trim(ls[k as int]), title_marker(), Seq::empty()),
        None => Seq::empty(),
    }
}

/// Index of the first body line: the one after the title line, or the first
/// line where there is no title.
pub open spec fn body_start(ls: Seq<Seq<char>>) -> nat {
    match title_index(ls) {
        Some(k) => k + 1,
        None => 0,
    }
}

/// A line number, with why that line cannot become an element.
#[derive(Clone, Copy, Debug, PartialEq, Eq, Structural)]
pub struct LineError {
    /// Index of the line, counted from 0.
    pub line_index: usize,
    pub error: ElementError,
}

/// The elements of lines `start .. i`, blank lines skipped, or the first line
/// that cannot become one.
pub open spec fn elements_upto(ls: Seq<Seq<char>>, start: int, i: int) -> Result<
    Seq<ElementModel>,
    (nat, ElementError),
>
    decreases i - start,
{
    if i <= start {
        Ok(Seq::empty())
    } else {
        match elements_upto(ls, start, i - 1) {
            Err(x) => Err(x),
            Ok(acc) => if is_blank(ls[i - 1]) {
                Ok(acc)
            } else {
                match element_of(ls[i - 1]) {
                    Ok(m) => Ok(acc.push(m)),
                    Err(e) => Err(((i - 1) as nat, e)),
                }
            },
        }
    }
}

/// The elements of a document's body.
pub open spec fn body_elements(ls: Seq<Seq<char>>) -> Result<Seq<ElementModel>, (nat, ElementError)> {
    elements_upto(ls, body_start(ls) as int, ls.len() as int)
}

pub open spec fn element_views(es: Seq<MarkdownSyntaxElement>) -> Seq<ElementModel> {
    es.map_values(|e: MarkdownSyntaxElement| e@)
}

proof fn lemma_error_persists(ls: Seq<Seq<char>>, start: int, i: int, j: int)
    requires
        i <= j,
        elements_upto(ls, start, i) is Err,
    ensures
        elements_upto(ls, start, j) == elements_upto(ls, start, i),
    decreases j - i,
{
    if i < j {
        lemma_error_persists(ls, start, i, j - 1);
    }
}

proof fn lemma_title_index(ls: Seq<Seq<char>>, i: int)
    requires
        0 <= i <= ls.len(),
        forall|j: int| 0 <= j < i ==> !is_title_line(#[trigger] ls[j]),
    ensures
        i < ls.len() && is_title_line(ls[i]) ==> title_index(ls) == Some(i as nat),
        i == ls.len() ==> title_index(ls) is None,
    decreases i,
{
    if i > 0 {
        let t = ls.drop_first();
        assert forall|j: int| 0 <= j < i - 1 implies !is_title_line(#[trigger] t[j]) by {
            assert(t[j] == ls[j + 1]);
        }
        lemma_title_index(t, i - 1);
        if i < ls.len() {
            assert(t[i - 1] == ls[i]);
        }
    }
}

/// Whether a line holds the title marker.
fn is_title_line_exec(line: &str) -> (r: bool)
    ensures
        r == is_title_line(line@),
{
    proof {
        reveal_strlit("# ");
    }
    let found = find_first(line, "# ");
    assert("# "@ =~= title_marker());
    found.is_some()
}

/// Index of the first line that holds the title marker `# `.
pub fn find_title_line_index(lines: &Vec<String>) -> (r: Option<usize>)
    ensures
        r matches Some(k) ==> k < lines@.len() <= usize::MAX && title_index(line_texts(lines@)) == Some(
            k as nat,
        ),
        r is None ==> title_index(line_texts(lines@)) is None,
{
    let ghost ls = line_texts(lines@);
    let mut i: usize = 0;
    while i < lines.len()
        invariant
            i <= lines@.len(),
            ls == line_texts(lines@),
            forall|j: int| 0 <= j < i ==> !is_title_line(#[trigger] ls[j]),
        decreases lines@.len() - i,
    {
        if is_title_line_exec(lines[i].as_str()) {
            proof {
                lemma_title_index(ls, i as int);
            }
            return Some(i);
        }
        i = i + 1;
    }
    proof {
        lemma_title_index(ls, i as int);
    }
    None
}

/// The title of the document: the first line holding `# `, trimmed, with
/// that first `# ` removed; the empty string where no line holds it.
pub fn get_markdown_file_title(lines: &Vec<String>) -> (r: String)
    ensures
        r@ == title_of(line_texts(lines@)),
{
    match find_title_line_index(lines) {
        Some(k) => {
            let trimmed = trim_string(lines[k].as_str());
            proof {
                reveal_strlit("# ");
                reveal_strlit("");
            }
            assert("# "@ =~= title_marker());
            assert(""@ =~= Seq::<char>::empty());
            replace_first_str(trimmed.as_str(), "# ", "")
        },
        None => String::new(),
    }
}

/// A Markdown document read into lines, with its title and the index of its
/// first body line.
pub struct MarkdownFile {
    pub lines: Vec<String>,
    pub title: String,
    pub body_start_index: usize,
}

impl MarkdownFile {
    /// Whether the title and body start are those of the lines.
    pub open spec fn wf(&self) -> bool {
        &&& self.title@ == title_of(line_texts(self.lines@))
        &&& self.body_start_index == body_start(line_texts(self.lines@))
    }

    /// Reads the title and the body start from the lines.
    pub fn new(lines: Vec<String>) -> (r: MarkdownFile)
        ensures
            r.wf(),
            r.lines@ == lines@,
    {
        let title = get_markdown_file_title(&lines);
        let body_start_index: usize = match find_title_line_index(&lines) {
            Some(k) => k + 1,
            None => 0,
        };
        MarkdownFile { lines, title, body_start_index }
    }

    /// The elements of the body, in order, blank lines skipped; or the first
    /// body line that cannot become an element.
    pub fn get_syntax_elements(&self) -> (r: Result<Vec<MarkdownSyntaxElement>, LineError>)
        requires
            self.wf(),
        ensures
            r matches Ok(es) ==> body_elements(line_texts(self.lines@)) == Ok::<
                Seq<ElementModel>,
                (nat, ElementError),
            >(element_views(es@)),
            r matches Err(e) ==> body_elements(line_texts(self.lines@)) == Err::<
                Seq<ElementModel>,
                (nat, ElementError),
            >((e.line_index as nat, e.error)),
    {
        let ghost ls = line_texts(self.lines@);
        let start = self.body_start_index;
        let mut out: Vec<MarkdownSyntaxElement> = Vec::new();
        let mut i: usize = start;
        proof {
            assert(element_views(out@) =~= Seq::<ElementModel>::empty());
        }
        while i < self.lines.len()
            invariant
                ls == line_texts(self.lines@),
                start <= i,
                start == body_start(ls),
                i <= self.lines@.len() || i == start,
                elements_upto(ls, start as int, i as int) == Ok::<
                    Seq<ElementModel>,
                    (nat, ElementError),
                >(element_views(out@)),
            decreases self.lines@.len() - i,
        {
            let line = &self.lines[i];
            assert(ls[i as int] == line@);
            if !is_blank_line(line.as_str()) {
                match build_syntax_element_struct(line.clone()) {
                    Ok(e) => {
                        let ghost before = out@;
                        out.push(e);
                        proof {
                            assert(element_views(out@) =~= element_views(before).push(e@));
                        }
                    },
                    Err(err) => {
                        proof {
                            lemma_error_persists(ls, start as int, i + 1, ls.len() as int);
                        }
                        return Err(LineError { line_index: i, error: err });
                    },
                }
            }
            i = i + 1;
        }
        proof {
            if i > self.lines@.len() {
                assert(elements_upto(ls, start as int, ls.len() as int) == Ok::<
                    Seq<ElementModel>,
                    (nat, ElementError),
                >(Seq::empty()));
                assert(element_views(out@) =~= Seq::<ElementModel>::empty());
            }
        }
        Ok(out)
    }
}

} // verus!
