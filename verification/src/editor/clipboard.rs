//! Handing an export to the clipboard as a file reference: only a path
//! inside the save destination is ever handed over, quoted for the
//! AppleScript that places it.
use vstd::prelude::*;
use crate::paths::{components, path_components};
use crate::text::{err_text, join_text, push_char};

verus! {

/// Whether `path` lies inside `destination`, both already resolved
/// (canonical): the same absoluteness, and the destination's components a
/// prefix of the path's.
pub open spec fn is_within(destination: Seq<char>, path: Seq<char>) -> bool {
    let absolute = |s: Seq<char>| s.len() > 0 && s[0] == '/';
    &&& absolute(destination) == absolute(path)
    &&& components(destination).len() <= components(path).len()
    &&& forall|i: int| 0 <= i < components(destination).len() ==> #[trigger] components(destination)[i]
        == components(path)[i]
}

fn is_absolute(s: &str) -> (r: bool)
    ensures
        r == (s@.len() > 0 && s@[0] == '/'),
{
    s.unicode_len() > 0 && s.get_char(0) == '/'
}

/// Accepts the resolved `canonical_path` only when it lies inside the
/// resolved `canonical_destination` (see [`is_within`]); anything else
/// fails with `clipboard_path_invalid`.
pub fn guard_within_destination(canonical_destination: &str, canonical_path: &str) -> (r: Result<String, String>)
    ensures
        match r {
            Ok(p) => is_within(canonical_destination@, canonical_path@) && p@ == canonical_path@,
            Err(e) => !is_within(canonical_destination@, canonical_path@) && e@ == "clipboard_path_invalid"@,
        },
{
    if is_absolute(canonical_destination) != is_absolute(canonical_path) {
        return Err("clipboard_path_invalid".to_string());
    }
    let d = path_components(canonical_destination);
    let p = path_components(canonical_path);
    if d.len() > p.len() {
        return Err("clipboard_path_invalid".to_string());
    }
    let mut i: usize = 0;
    while i < d.len()
        invariant
            i <= d@.len() <= p@.len(),
            d@.len() == components(canonical_destination@).len(),
            p@.len() == components(canonical_path@).len(),
            forall|k: int| 0 <= k < d@.len() ==> #[trigger] d@[k]@ == components(canonical_destination@)[k],
            forall|k: int| 0 <= k < p@.len() ==> #[trigger] p@[k]@ == components(canonical_path@)[k],
            forall|k: int| 0 <= k < i ==> #[trigger] components(canonical_destination@)[k] == components(canonical_path@)[k],
        decreases d@.len() - i,
    {
        if !crate::text::same_text(d[i].as_str(), p[i].as_str()) {
            proof {
                assert(d@[i as int]@ == components(canonical_destination@)[i as int]);
                assert(p@[i as int]@ == components(canonical_path@)[i as int]);
            }
            return Err("clipboard_path_invalid".to_string());
        }
        i = i + 1;
    }
    Ok(canonical_path.to_string())
}

/// One path character as it stands inside an AppleScript string literal:
/// backslash and double quote escaped with a backslash.
pub open spec fn script_char(c: char) -> Seq<char> {
    if c == '\\' {
        seq!['\\', '\\']
    } else if c == '"' {
        seq!['\\', '"']
    } else {
        seq![c]
    }
}

/// `s` quoted for an AppleScript string literal (see [`script_char`]).
pub open spec fn script_quoted(s: Seq<char>) -> Seq<char>
    decreases s.len(),
{
    if s.len() == 0 {
        Seq::empty()
    } else {
        script_quoted(s.drop_last()) + script_char(s.last())
    }
}

/// The AppleScript that places a file reference to `path` on the
/// clipboard: `set the clipboard to POSIX file "<path>"`.
pub open spec fn clipboard_script_of(path: Seq<char>) -> Seq<char> {
    "set the clipboard to POSIX file \""@ + script_quoted(path) + "\""@
}

/// The clipboard script for `path` (see [`clipboard_script_of`]).
pub fn clipboard_script(path: &str) -> (r: String)
    ensures
        r@ == clipboard_script_of(path@),
{
    let n = path.unicode_len();
    let mut quoted = String::new();
    let mut i: usize = 0;
    while i < n
        invariant
            n == path@.len(),
            i <= n,
            quoted@ == script_quoted(path@.take(i as int)),
        decreases n - i,
    {
        let c = path.get_char(i);
        proof {
            assert(path@.take(i + 1).drop_last() =~= path@.take(i as int));
        }
        let ghost before = quoted@;
        if c == '\\' {
            push_char(&mut quoted, '\\');
            push_char(&mut quoted, '\\');
        } else if c == '"' {
            push_char(&mut quoted, '\\');
            push_char(&mut quoted, '"');
        } else {
            push_char(&mut quoted, c);
        }
        proof {
            assert(quoted@ =~= before + script_char(c));
        }
        i = i + 1;
    }
    proof {
        assert(path@.take(n as int) =~= path@);
    }
    let a = join_text("set the clipboard to POSIX file \"", quoted.as_str());
    join_text(a.as_str(), "\"")
}

/// What running the clipboard script came to: `clipboard_unavailable`
/// when it could not be started, `clipboard_failed` when it failed.
pub fn clipboard_result(started: bool, succeeded: bool) -> (r: Result<(), String>)
    ensures
        !started ==> err_text(r) == Some("clipboard_unavailable"@),
        started && !succeeded ==> err_text(r) == Some("clipboard_failed"@),
        started && succeeded ==> r is Ok,
{
    if !started {
        Err("clipboard_unavailable".to_string())
    } else if !succeeded {
        Err("clipboard_failed".to_string())
    } else {
        Ok(())
    }
}

} // verus!
