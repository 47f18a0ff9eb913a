//! Paths of the input and output documents.
use vstd::prelude::*;

use crate::text::{replace_first, replace_first_str};

verus! {

/// Whether a path begins with `~/`.
pub open spec fn starts_at_home(path: Seq<char>) -> bool {
    path.len() >= 2 && path[0] == '~' && path[1] == '/'
}

/// The path with a leading `~/` replaced by the home directory and a slash.
pub open spec fn expanded_path(path: Seq<char>, home: Seq<char>) -> Seq<char> {
    if starts_at_home(path) {
        home + seq!['/'] + path.subrange(2, path.len() as int)
    } else {
        path
    }
}

/// The output path: the first `.md` of the input path becomes `.org`.
pub open spec fn org_path_of(path: Seq<char>) -> Seq<char> {
    replace_first(path, seq!['.', 'm', 'd'], seq!['.', 'o', 'r', 'g'])
}

/// Relies on `dirs::home_dir`: the user's home directory, where it can be
/// found. Nothing is known of the value, which comes from the environment.
#[verifier::external_body]
fn home_directory() -> (r: Option<String>) {
    dirs::home_dir().and_then(|p| p.into_os_string().into_string().ok())
}

/// Expands a leading `~/` of `path` into the directory `home`.
pub fn expand_home(path: &str, home: &str) -> (r: String)
    ensures
        r@ == expanded_path(path@, home@),
{
    let n: usize = path.unicode_len();
    if n >= 2 && path.get_char(0) == '~' && path.get_char(1) == '/' {
        let mut out = String::from_str(home);
        proof {
            reveal_strlit("/");
        }
        out.append("/");
        out.append(path.substring_char(2, n));
        out
    } else {
        String::from_str(path)
    }
}

/// The path to read: a leading `~/` is expanded to the user's home directory.
/// `None` where the path needs the home directory and it cannot be found.
pub fn build_path(path: &str) -> (r: Option<String>)
    ensures
        !starts_at_home(path@) ==> (r matches Some(p) && p@ == path@),
        r matches Some(p) ==> exists|home: Seq<char>| p@ == expanded_path(path@, home),
{
    match home_directory() {
        Some(home) => {
            let p = expand_home(path, home.as_str());
            assert(p@ == expanded_path(path@, home@));
            Some(p)
        },
        None => {
            if path.unicode_len() >= 2 && path.get_char(0) == '~' && path.get_char(1) == '/' {
                None
            } else {
                let p = String::from_str(path);
                assert(p@ == expanded_path(path@, Seq::empty()));
                Some(p)
            }
        },
    }
}

/// The path of the Org document written for the Markdown document at `path`.
pub fn org_output_path(path: &str) -> (r: String)
    ensures
        r@ == org_path_of(path@),
{
    proof {
        reveal_strlit(".md");
        reveal_strlit(".org");
    }
    assert(".md"@ =~= seq!['.', 'm', 'd']);
    assert(".org"@ =~= seq!['.', 'o', 'r', 'g']);
    replace_first_str(path, ".md", ".org")
}

} // verus!
