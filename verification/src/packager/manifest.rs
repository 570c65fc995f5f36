//! The concat manifest ffmpeg reads the inputs of a stream copy from: one
//! `file '<path>'` line per input, the path quoted for ffmpeg's parser.
use vstd::prelude::*;
use crate::text::{join_text, push_char};

verus! {

/// One path character as it stands inside a single-quoted manifest entry:
/// a backslash doubled, a quote closed, escaped and reopened (`'\\''`).
pub open spec fn escape_char(c: char) -> Seq<char> {
    if c == '\\' {
        seq!['\\', '\\']
    } else if c == '\'' {
        seq!['\'', '\\', '\\', '\'', '\'']
    } else {
        seq![c]
    }
}

/// `s` with every character escaped (see [`escape_char`]).
pub open spec fn escaped(s: Seq<char>) -> Seq<char>
    decreases s.len(),
{
    if s.len() == 0 {
        Seq::empty()
    } else {
        escaped(s.drop_last()) + escape_char(s.last())
    }
}

/// The manifest line for one input path.
pub open spec fn manifest_line(path: Seq<char>) -> Seq<char> {
    "file '"@ + escaped(path) + "'\n"@
}

/// The manifest listing `paths` in order.
pub open spec fn manifest_of(paths: Seq<Seq<char>>) -> Seq<char>
    decreases paths.len(),
{
    if paths.len() == 0 {
        Seq::empty()
    } else {
        manifest_of(paths.drop_last()) + manifest_line(paths.last())
    }
}

/// `path` escaped for a manifest entry (see [`escaped`]).
pub fn escape_path(path: &str) -> (r: String)
    ensures
        r@ == escaped(path@),
{
    let n = path.unicode_len();
    let mut r = String::new();
    let mut i: usize = 0;
    while i < n
        invariant
            n == path@.len(),
            i <= n,
            r@ == escaped(path@.take(i as int)),
        decreases n - i,
    {
        let c = path.get_char(i);
        proof {
            assert(path@.take(i + 1).drop_last() =~= path@.take(i as int));
        }
        let ghost before = r@;
        if c == '\\' {
            push_char(&mut r, '\\');
            push_char(&mut r, '\\');
        } else if c == '\'' {
            push_char(&mut r, '\'');
            push_char(&mut r, '\\');
            push_char(&mut r, '\\');
            push_char(&mut r, '\'');
            push_char(&mut r, '\'');
        } else {
            push_char(&mut r, c);
        }
        proof {
            assert(r@ =~= before + escape_char(c));
        }
        i = i + 1;
    }
    proof {
        assert(path@.take(n as int) =~= path@);
    }
    r
}

/// The manifest listing `paths` (see [`manifest_of`]).
pub fn manifest_text(paths: &Vec<String>) -> (r: String)
    ensures
        r@ == manifest_of(paths@.map_values(|p: String| p@)),
{
    let ghost views = paths@.map_values(|p: String| p@);
    let mut r = String::new();
    let mut i: usize = 0;
    while i < paths.len()
        invariant
            i <= paths@.len(),
            views == paths@.map_values(|p: String| p@),
            r@ == manifest_of(views.take(i as int)),
        decreases paths@.len() - i,
    {
        proof {
            assert(views.take(i + 1).drop_last() =~= views.take(i as int));
        }
        let a = join_text(r.as_str(), "file '");
        let b = join_text(a.as_str(), escape_path(paths[i].as_str()).as_str());
        r = join_text(b.as_str(), "'\n");
        proof {
            assert(r@ =~= manifest_of(views.take(i as int)) + manifest_line(views[i as int]));
        }
        i = i + 1;
    }
    proof {
        assert(views.take(paths@.len() as int) =~= views);
    }
    r
}

} // verus!
