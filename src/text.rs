//! Character-level helpers: locating patterns, skipping markers, trimming.
use vstd::prelude::*;

verus! {

/// Whether a character has the Unicode `Alphabetic` property.
pub uninterp spec fn alphabetic(c: char) -> bool;

/// Whether a character has the Unicode `White_Space` property.
pub uninterp spec fn whitespace(c: char) -> bool;

/// Relies on `char::is_alphabetic`: its result depends on the character alone.
#[verifier::external_body]
pub(crate) fn is_alphabetic(c: char) -> (r: bool)
    ensures
        r == alphabetic(c),
{
    c.is_alphabetic()
}

/// Relies on `char::is_whitespace`: its result depends on the character alone.
#[verifier::external_body]
pub(crate) fn is_whitespace(c: char) -> (r: bool)
    ensures
        r == whitespace(c),
{
    c.is_whitespace()
}

/// Relies on `String::push`: appends one character.
#[verifier::external_body]
pub(crate) fn push_char(s: &mut String, c: char)
    ensures
        final(s)@ == old(s)@.push(c),
{
    s.push(c)
}

/// The line with every leading character that is not a letter removed.
pub open spec fn skip_to_letter(s: Seq<char>) -> Seq<char>
    decreases s.len(),
{
    if s.len() == 0 || alphabetic(s[0]) {
        s
    } else {
        skip_to_letter(s.drop_first())
    }
}

/// The sequence without its trailing whitespace.
pub open spec fn trim_end(s: Seq<char>) -> Seq<char>
    decreases s.len(),
{
    if s.len() > 0 && whitespace(s.last()) {
        trim_end(s.drop_last())
    } else {
        s
    }
}

/// The sequence without its leading whitespace.
pub open spec fn trim_start(s: Seq<char>) -> Seq<char>
    decreases s.len(),
{
    if s.len() > 0 && whitespace(s[0]) {
        trim_start(s.drop_first())
    } else {
        s
    }
}

/// The sequence without whitespace at either end.
pub open spec fn trim(s: Seq<char>) -> Seq<char> {
    trim_end(trim_start(s))
}

/// The human-readable text of a line: everything from its first letter on,
/// without trailing whitespace.
pub open spec fn element_text(s: Seq<char>) -> Seq<char> {
    trim_end(skip_to_letter(s))
}

/// Whether every character of the sequence is whitespace.
pub open spec fn is_blank(s: Seq<char>) -> bool {
    forall|i: int| 0 <= i < s.len() ==> whitespace(#[trigger] s[i])
}

/// Whether `pat` occurs in `s` starting at position `i`.
pub open spec fn occurs_at(s: Seq<char>, pat: Seq<char>, i: int) -> bool {
    0 <= i && i + pat.len() <= s.len() && s.subrange(i, i + pat.len()) == pat
}

/// Whether `pat` occurs anywhere in `s`.
pub open spec fn contains(s: Seq<char>, pat: Seq<char>) -> bool {
    exists|i: int| occurs_at(s, pat, i)
}

/// `s` with its first occurrence of the non-empty `pat` replaced by `rep`.
pub open spec fn replace_first(s: Seq<char>, pat: Seq<char>, rep: Seq<char>) -> Seq<char>
    decreases s.len(),
{
    if pat.len() == 0 || s.len() < pat.len() {
        s
    } else if s.subrange(0, pat.len() as int) == pat {
        rep + s.subrange(pat.len() as int, s.len() as int)
    } else {
        seq![s[0]] + replace_first(s.drop_first(), pat, rep)
    }
}

/// Index of the first occurrence of `c` in `s`.
pub open spec fn find_char(s: Seq<char>, c: char) -> Option<nat>
    decreases s.len(),
{
    if s.len() == 0 {
        None
    } else if s[0] == c {
        Some(0)
    } else {
        match find_char(s.drop_first(), c) {
            Some(k) => Some(k + 1),
            None => None,
        }
    }
}

proof fn lemma_skip_to_letter(s: Seq<char>, i: int)
    requires
        0 <= i <= s.len(),
        forall|j: int| 0 <= j < i ==> !alphabetic(#[trigger] s[j]),
        i == s.len() || alphabetic(s[i]),
    ensures
        skip_to_letter(s) == s.subrange(i, s.len() as int),
    decreases i,
{
    if i == 0 {
        assert(s.subrange(0, s.len() as int) =~= s);
    } else {
        assert(!alphabetic(s[0]));
        let t = s.drop_first();
        assert forall|j: int| 0 <= j < i - 1 implies !alphabetic(#[trigger] t[j]) by {
            assert(t[j] == s[j + 1]);
        }
        lemma_skip_to_letter(t, i - 1);
        assert(t.subrange(i - 1, t.len() as int) =~= s.subrange(i, s.len() as int));
    }
}

proof fn lemma_trim_end(s: Seq<char>, j: int)
    requires
        0 <= j <= s.len(),
        forall|k: int| j <= k < s.len() ==> whitespace(#[trigger] s[k]),
        j == 0 || !whitespace(s[j - 1]),
    ensures
        trim_end(s) == s.subrange(0, j),
    decreases s.len() - j,
{
    if j == s.len() {
        assert(s.subrange(0, j) =~= s);
        if s.len() > 0 {
            assert(s.last() == s[j - 1]);
        }
    } else {
        let t = s.drop_last();
        assert(whitespace(s[s.len() - 1]));
        assert forall|k: int| j <= k < t.len() implies whitespace(#[trigger] t[k]) by {
            assert(t[k] == s[k]);
        }
        if j > 0 {
            assert(t[j - 1] == s[j - 1]);
        }
        lemma_trim_end(t, j);
        assert(t.subrange(0, j) =~= s.subrange(0, j));
    }
}

proof fn lemma_trim_start(s: Seq<char>, i: int)
    requires
        0 <= i <= s.len(),
        forall|k: int| 0 <= k < i ==> whitespace(#[trigger] s[k]),
        i == s.len() || !whitespace(s[i]),
    ensures
        trim_start(s) == s.subrange(i, s.len() as int),
    decreases i,
{
    if i == 0 {
        assert(s.subrange(0, s.len() as int) =~= s);
    } else {
        let t = s.drop_first();
        assert(whitespace(s[0]));
        assert forall|k: int| 0 <= k < i - 1 implies whitespace(#[trigger] t[k]) by {
            assert(t[k] == s[k + 1]);
        }
        lemma_trim_start(t, i - 1);
        assert(t.subrange(i - 1, t.len() as int) =~= s.subrange(i, s.len() as int));
    }
}

/// Position just past the last character of `s` that is not whitespace.
fn trimmed_end(s: &str) -> (r: usize)
    ensures
        trim_end(s@) == s@.subrange(0, r as int),
        r <= s@.len(),
{
    let mut j: usize = s.unicode_len();
    while j > 0 && is_whitespace(s.get_char(j - 1))
        invariant
            j <= s@.len(),
            forall|k: int| j <= k < s@.len() ==> whitespace(#[trigger] s@[k]),
        decreases j,
    {
        j = j - 1;
    }
    proof {
        lemma_trim_end(s@, j as int);
    }
    j
}

/// Position of the first character of `s` that is not whitespace.
fn trimmed_start(s: &str) -> (r: usize)
    ensures
        trim_start(s@) == s@.subrange(r as int, s@.len() as int),
        r <= s@.len(),
{
    let n: usize = s.unicode_len();
    let mut i: usize = 0;
    while i < n && is_whitespace(s.get_char(i))
        invariant
            i <= n,
            n == s@.len(),
            forall|k: int| 0 <= k < i ==> whitespace(#[trigger] s@[k]),
        decreases n - i,
    {
        i = i + 1;
    }
    proof {
        lemma_trim_start(s@, i as int);
    }
    i
}

/// Removes whitespace from both ends of `s`.
pub fn trim_string(s: &str) -> (r: String)
    ensures
        r@ == trim(s@),
{
    let i = trimmed_start(s);
    let rest = s.substring_char(i, s.unicode_len());
    let j = trimmed_end(rest);
    String::from_str(rest.substring_char(0, j))
}

/// The text of a line: its leading markers, digits, punctuation and spaces
/// are skipped up to the first letter, and trailing whitespace is removed.
/// A line without any letter gives the empty string.
pub fn get_element_text(line: String) -> (r: String)
    ensures
        r@ == element_text(line@),
{
    let s = line.as_str();
    let n: usize = s.unicode_len();
    let mut i: usize = 0;
    while i < n && !is_alphabetic(s.get_char(i))
        invariant
            i <= n,
            n == s@.len(),
            forall|k: int| 0 <= k < i ==> !alphabetic(#[trigger] s@[k]),
        decreases n - i,
    {
        i = i + 1;
    }
    proof {
        lemma_skip_to_letter(s@, i as int);
    }
    let rest = s.substring_char(i, n);
    let j = trimmed_end(rest);
    String::from_str(rest.substring_char(0, j))
}

proof fn lemma_find_char(s: Seq<char>, c: char, i: int)
    requires
        0 <= i <= s.len(),
        forall|j: int| 0 <= j < i ==> #[trigger] s[j] != c,
    ensures
        i < s.len() && s[i] == c ==> find_char(s, c) == Some(i as nat),
        i == s.len() ==> find_char(s, c) is None,
    decreases i,
{
    if i > 0 {
        let t = s.drop_first();
        assert forall|j: int| 0 <= j < i - 1 implies #[trigger] t[j] != c by {
            assert(t[j] == s[j + 1]);
        }
        lemma_find_char(t, c, i - 1);
        if i < s.len() {
            assert(t[i - 1] == s[i]);
        }
    }
}

proof fn lemma_replace_first(s: Seq<char>, pat: Seq<char>, rep: Seq<char>, i: int)
    requires
        pat.len() > 0,
        0 <= i,
        forall|j: int| 0 <= j < i ==> !occurs_at(s, pat, j),
        occurs_at(s, pat, i) || i + pat.len() > s.len(),
    ensures
        occurs_at(s, pat, i) ==> replace_first(s, pat, rep) == s.subrange(0, i) + rep + s.subrange(
            i + pat.len(),
            s.len() as int,
        ),
        !occurs_at(s, pat, i) ==> replace_first(s, pat, rep) == s,
    decreases s.len(),
{
    if s.len() < pat.len() {
    } else if i == 0 {
        if occurs_at(s, pat, 0) {
            assert(s.subrange(0, 0) + rep =~= rep);
        }
    } else {
        assert(!occurs_at(s, pat, 0));
        assert(s.subrange(0, pat.len() as int) != pat);
        let t = s.drop_first();
        assert forall|j: int| 0 <= j < i - 1 implies !occurs_at(t, pat, j) by {
            if occurs_at(t, pat, j) {
                assert(s.subrange(j + 1, j + 1 + pat.len()) =~= t.subrange(j, j + pat.len()));
                assert(occurs_at(s, pat, j + 1));
            }
        }
        if occurs_at(s, pat, i) {
            assert(s.subrange(i, i + pat.len()) =~= t.subrange(i - 1, i - 1 + pat.len()));
        } else {
            if occurs_at(t, pat, i - 1) {
                assert(s.subrange(i, i + pat.len()) =~= t.subrange(i - 1, i - 1 + pat.len()));
            }
        }
        lemma_replace_first(t, pat, rep, i - 1);
        if occurs_at(s, pat, i) {
            assert(seq![s[0]] + (t.subrange(0, i - 1) + rep + t.subrange(
                i - 1 + pat.len(),
                t.len() as int,
            )) =~= s.subrange(0, i) + rep + s.subrange(i + pat.len(), s.len() as int));
        } else {
            assert(seq![s[0]] + t =~= s);
        }
    }
}

/// Index of the first occurrence of `c` in `s`.
pub fn position_of(s: &str, c: char) -> (r: Option<usize>)
    ensures
        r matches Some(k) ==> find_char(s@, c) == Some(k as nat),
        r is None ==> find_char(s@, c) is None,
{
    let n: usize = s.unicode_len();
    let mut i: usize = 0;
    while i < n
        invariant
            i <= n,
            n == s@.len(),
            forall|j: int| 0 <= j < i ==> #[trigger] s@[j] != c,
        decreases n - i,
    {
        if s.get_char(i) == c {
            proof {
                lemma_find_char(s@, c, i as int);
            }
            return Some(i);
        }
        i = i + 1;
    }
    proof {
        lemma_find_char(s@, c, i as int);
    }
    None
}

/// Whether `pat` occurs in `s` at position `i`.
fn occurs_at_exec(s: &str, pat: &str, i: usize) -> (r: bool)
    requires
        i as int + pat@.len() <= s@.len(),
        s@.len() <= usize::MAX,
    ensures
        r == occurs_at(s@, pat@, i as int),
{
    let m: usize = pat.unicode_len();
    let mut k: usize = 0;
    while k < m
        invariant
            k <= m,
            m == pat@.len(),
            i as int + m <= s@.len(),
            s@.len() <= usize::MAX,
            forall|q: int| 0 <= q < k ==> s@[i + q] == #[trigger] pat@[q],
        decreases m - k,
    {
        if s.get_char(i + k) != pat.get_char(k) {
            assert(s@.subrange(i as int, i + m)[k as int] != pat@[k as int]);
            return false;
        }
        k = k + 1;
    }
    assert(s@.subrange(i as int, i + m) =~= pat@);
    true
}

/// Index of the first occurrence of `pat` in `s`.
pub fn find_first(s: &str, pat: &str) -> (r: Option<usize>)
    ensures
        r matches Some(i) ==> occurs_at(s@, pat@, i as int) && forall|j: int|
            0 <= j < i ==> !occurs_at(s@, pat@, j),
        r is None ==> !contains(s@, pat@),
{
    let n: usize = s.unicode_len();
    let m: usize = pat.unicode_len();
    if m > n {
        return None;
    }
    if m == 0 {
        assert(s@.subrange(0, 0) =~= pat@);
        return Some(0);
    }
    let mut i: usize = 0;
    while i <= n - m
        invariant
            0 < m <= n,
            n == s@.len(),
            m == pat@.len(),
            forall|j: int| 0 <= j < i ==> !occurs_at(s@, pat@, j),
        decreases n - m + 1 - i,
    {
        if occurs_at_exec(s, pat, i) {
            return Some(i);
        }
        i = i + 1;
    }
    None
}

/// `s` with its first occurrence of `pat` replaced by `rep`.
pub fn replace_first_str(s: &str, pat: &str, rep: &str) -> (r: String)
    requires
        pat@.len() > 0,
    ensures
        r@ == replace_first(s@, pat@, rep@),
{
    let n: usize = s.unicode_len();
    match find_first(s, pat) {
        Some(i) => {
            proof {
                lemma_replace_first(s@, pat@, rep@, i as int);
            }
            let m: usize = pat.unicode_len();
            let mut out = String::from_str(s.substring_char(0, i));
            out.append(rep);
            out.append(s.substring_char(i + m, n));
            out
        },
        None => {
            proof {
                lemma_replace_first(s@, pat@, rep@, s@.len() as int);
            }
            String::from_str(s)
        },
    }
}

/// Whether `s` is empty or all whitespace.
pub fn is_blank_line(s: &str) -> (r: bool)
    ensures
        r == is_blank(s@),
{
    let n: usize = s.unicode_len();
    let mut i: usize = 0;
    while i < n
        invariant
            i <= n,
            n == s@.len(),
            forall|k: int| 0 <= k < i ==> whitespace(#[trigger] s@[k]),
        decreases n - i,
    {
        if !is_whitespace(s.get_char(i)) {
            return false;
        }
        i = i + 1;
    }
    true
}

} // verus!
