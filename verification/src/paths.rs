//! Filesystem paths as text: joining a name onto a directory, and reading a
//! path back as the components between its `/` separators (empty and `.`
//! components dropped), the way the platform's path type reads it.
use vstd::prelude::*;
use crate::text::{join_text, push_char};

verus! {

/// `name` appended to `base` as a path: `name` itself when it is absolute
/// or `base` is empty, else `base`, a `/` unless `base` already ends with
/// one, and `name`.
pub open spec fn path_join(base: Seq<char>, name: Seq<char>) -> Seq<char> {
    if name.len() > 0 && name[0] == '/' {
        name
    } else if base.len() == 0 {
        name
    } else if base.last() == '/' {
        base + name
    } else {
        base + seq!['/'] + name
    }
}

/// Joins `name` onto `base` (see [`path_join`]).
pub fn join(base: &str, name: &str) -> (r: String)
    ensures
        r@ == path_join(base@, name@),
{
    let name_len = name.unicode_len();
    let base_len = base.unicode_len();
    if name_len > 0 && name.get_char(0) == '/' {
        return name.to_owned();
    }
    if base_len == 0 {
        return name.to_owned();
    }
    if base.get_char(base_len - 1) == '/' {
        return join_text(base, name);
    }
    let mut with_separator: String = base.to_owned();
    push_char(&mut with_separator, '/');
    let r = join_text(with_separator.as_str(), name);
    proof {
        assert(r@ =~= base@ + seq!['/'] + name@);
    }
    r
}

/// Whether a component is kept: neither empty nor `.`.
pub open spec fn is_kept(c: Seq<char>) -> bool {
    c.len() > 0 && c != seq!['.']
}

/// `acc` with `c` appended when `c` is kept.
pub open spec fn keep(acc: Seq<Seq<char>>, c: Seq<char>) -> Seq<Seq<char>> {
    if is_kept(c) { acc.push(c) } else { acc }
}

/// The components finished so far and the one being read, after reading
/// all of `s`.
pub open spec fn split_state(s: Seq<char>) -> (Seq<Seq<char>>, Seq<char>)
    decreases s.len(),
{
    if s.len() == 0 {
        (Seq::empty(), Seq::empty())
    } else {
        let (acc, cur) = split_state(s.drop_last());
        if s.last() == '/' {
            (keep(acc, cur), Seq::empty())
        } else {
            (acc, cur.push(s.last()))
        }
    }
}

/// The components of a path: the runs between `/` separators, empty and
/// `.` runs dropped.
pub open spec fn components(s: Seq<char>) -> Seq<Seq<char>> {
    keep(split_state(s).0, split_state(s).1)
}

/// The extension of a file name: what follows its last `.`, when that dot
/// is not the name's first character; `..` has none.
pub open spec fn extension_of(name: Seq<char>) -> Option<Seq<char>> {
    if name == seq!['.', '.'] {
        None
    } else if exists|i: int| 0 < i < name.len() && name[i] == '.' {
        let i = choose|i: int|
            0 < i < name.len() && name[i] == '.' && forall|j: int|
                i < j < name.len() ==> name[j] != '.';
        Some(name.skip(i + 1))
    } else {
        None
    }
}

/// The components of `s` (see [`components`]).
pub fn path_components(s: &str) -> (r: Vec<String>)
    ensures
        r@.len() == components(s@).len(),
        forall|i: int| 0 <= i < r@.len() ==> #[trigger] r@[i]@ == components(s@)[i],
{
    let n = s.unicode_len();
    let mut acc: Vec<String> = Vec::new();
    let mut cur = String::new();
    let mut i: usize = 0;
    while i < n
        invariant
            n == s@.len(),
            i <= n,
            acc@.len() == split_state(s@.take(i as int)).0.len(),
            forall|k: int| 0 <= k < acc@.len() ==> #[trigger] acc@[k]@ == split_state(
                s@.take(i as int),
            ).0[k],
            cur@ == split_state(s@.take(i as int)).1,
        decreases n - i,
    {
        let c = s.get_char(i);
        proof {
            assert(s@.take(i + 1).drop_last() =~= s@.take(i as int));
            assert(s@.take(i + 1).last() == c);
        }
        if c == '/' {
            if is_kept_text(&cur) {
                acc.push(cur);
            }
            cur = String::new();
        } else {
            push_char(&mut cur, c);
        }
        i = i + 1;
    }
    proof {
        assert(s@.take(n as int) =~= s@);
    }
    if is_kept_text(&cur) {
        acc.push(cur);
    }
    acc
}

fn is_kept_text(c: &String) -> (r: bool)
    ensures
        r == is_kept(c@),
{
    let n = c.as_str().unicode_len();
    if n == 0 {
        return false;
    }
    if n == 1 && c.as_str().get_char(0) == '.' {
        proof {
            assert(c@ =~= seq!['.']);
        }
        return false;
    }
    true
}

/// The extension of file name `name` (see [`extension_of`]).
pub fn extension(name: &str) -> (r: Option<String>)
    ensures
        r matches Some(e) ==> extension_of(name@) == Some(e@),
        r is None ==> extension_of(name@) is None,
{
    let n = name.unicode_len();
    if n == 2 && name.get_char(0) == '.' && name.get_char(1) == '.' {
        proof {
            assert(name@ =~= seq!['.', '.']);
        }
        return None;
    }
    proof {
        if name@ =~= seq!['.', '.'] {
            assert(name@[0] == '.' && name@[1] == '.');
        }
    }
    let mut i: usize = n;
    while i > 0
        invariant
            n == name@.len(),
            i <= n,
            forall|j: int| i <= j < n ==> name@[j] != '.',
            name@ != seq!['.', '.'],
        decreases i,
    {
        if name.get_char(i - 1) == '.' {
            let dot = i - 1;
            if dot == 0 {
                proof {
                    assert forall|k: int| 0 < k < name@.len() implies name@[k] != '.' by {}
                }
                return None;
            }
            let mut ext = String::new();
            let mut j: usize = dot + 1;
            while j < n
                invariant
                    n == name@.len(),
                    dot + 1 <= j <= n,
                    ext@ == name@.subrange(dot + 1, j as int),
                decreases n - j,
            {
                push_char(&mut ext, name.get_char(j));
                proof {
                    assert(name@.subrange(dot + 1, j + 1) =~= name@.subrange(dot + 1, j as int).push(
                        name@[j as int],
                    ));
                }
                j = j + 1;
            }
            proof {
                assert(name@[dot as int] == '.');
                let c = choose|k: int|
                    0 < k < name@.len() && name@[k] == '.' && forall|m: int|
                        k < m < name@.len() ==> name@[m] != '.';
                assert(0 < dot < name@.len() && name@[dot as int] == '.' && forall|m: int|
                    dot < m < name@.len() ==> name@[m] != '.');
                if c < dot {
                    assert(name@[dot as int] != '.');
                }
                if c > dot {
                    assert(name@[c] != '.');
                }
                assert(ext@ =~= name@.skip(dot + 1));
            }
            return Some(ext);
        }
        i = i - 1;
    }
    None
}

} // verus!
