//! The one traversal guard for library ids: an id comes from the frontend
//! and must name a bundle folder directly inside the destination.
use vstd::prelude::*;
use crate::packager::model::REPLAY_FILENAME;
use crate::paths::{components, join, keep, path_join, split_state};

verus! {

/// Whether `id` is a single plain path component: not empty, not `.` or
/// `..`, and free of both `/` and `\` separators.
pub open spec fn is_safe_component(id: Seq<char>) -> bool {
    &&& id.len() > 0
    &&& id != seq!['.']
    &&& id != seq!['.', '.']
    &&& forall|i: int| 0 <= i < id.len() ==> #[trigger] id[i] != '/' && id[i] != '\\'
}

/// The bundle folder for `id` inside `destination`, or the stable
/// `library_invalid_id` code for an id that could leave it.
pub open spec fn bundle_dir_for(destination: Seq<char>, id: Seq<char>) -> Result<Seq<char>, Seq<char>> {
    if is_safe_component(id) {
        Ok(path_join(destination, id))
    } else {
        Err("library_invalid_id"@)
    }
}

fn safe_component(id: &str) -> (r: bool)
    ensures
        r == is_safe_component(id@),
{
    let n = id.unicode_len();
    if n == 0 {
        return false;
    }
    if n == 1 && id.get_char(0) == '.' {
        proof {
            assert(id@ =~= seq!['.']);
        }
        return false;
    }
    if n == 2 && id.get_char(0) == '.' && id.get_char(1) == '.' {
        proof {
            assert(id@ =~= seq!['.', '.']);
        }
        return false;
    }
    let mut i: usize = 0;
    while i < n
        invariant
            n == id@.len(),
            i <= n,
            forall|k: int| 0 <= k < i ==> #[trigger] id@[k] != '/' && id@[k] != '\\',
        decreases n - i,
    {
        let c = id.get_char(i);
        if c == '/' || c == '\\' {
            return false;
        }
        i = i + 1;
    }
    true
}

/// Resolves library entry `id` to its bundle folder inside `destination`
/// (see [`bundle_dir_for`]). Any separator, `.`/`..` or empty id is
/// rejected before a path is built.
pub fn resolve_bundle_dir(destination: &str, id: &str) -> (r: Result<String, String>)
    ensures
        match r {
            Ok(p) => bundle_dir_for(destination@, id@) == Ok::<Seq<char>, Seq<char>>(p@),
            Err(e) => bundle_dir_for(destination@, id@) == Err::<Seq<char>, Seq<char>>(e@),
        },
{
    if !safe_component(id) {
        return Err("library_invalid_id".to_string());
    }
    Ok(join(destination, id))
}

/// Resolves library entry `id` to its replay file: the bundle folder (see
/// [`bundle_dir_for`]) joined with the replay file name.
pub fn resolve_replay_file(destination: &str, id: &str) -> (r: Result<String, String>)
    ensures
        match r {
            Ok(p) => is_safe_component(id@) && p@ == path_join(
                path_join(destination@, id@),
                REPLAY_FILENAME@,
            ),
            Err(e) => !is_safe_component(id@) && e@ == "library_invalid_id"@,
        },
{
    match resolve_bundle_dir(destination, id) {
        Ok(bundle) => Ok(join(bundle.as_str(), REPLAY_FILENAME)),
        Err(e) => Err(e),
    }
}

proof fn lemma_split_state_append_plain(s: Seq<char>, t: Seq<char>)
    requires
        forall|i: int| 0 <= i < t.len() ==> #[trigger] t[i] != '/',
    ensures
        split_state(s + t) == (split_state(s).0, split_state(s).1 + t),
    decreases t.len(),
{
    if t.len() == 0 {
        assert(s + t =~= s);
        assert(split_state(s).1 + t =~= split_state(s).1);
    } else {
        let u = t.drop_last();
        lemma_split_state_append_plain(s, u);
        assert((s + t).drop_last() =~= s + u);
        assert((s + t).last() == t.last());
        assert(split_state(s).1 + t =~= (split_state(s).1 + u).push(t.last()));
    }
}

/// Law: a resolved bundle folder is a direct child of the destination:
/// read as a path, it is the destination's components followed by the id
/// alone, so no accepted id can name a place outside the destination.
pub proof fn lemma_resolved_bundle_is_a_direct_child(destination: Seq<char>, id: Seq<char>)
    requires
        is_safe_component(id),
    ensures
        components(path_join(destination, id)) == components(destination).push(id),
{
    assert(id[0] != '/');
    let (acc, cur) = split_state(destination);
    if destination.len() == 0 {
        lemma_split_state_append_plain(destination, id);
        assert(destination + id =~= id);
        assert(split_state(destination) == (Seq::<Seq<char>>::empty(), Seq::<char>::empty()));
        assert(Seq::<char>::empty() + id =~= id);
        assert(components(destination) == Seq::<Seq<char>>::empty());
        assert(keep(Seq::<Seq<char>>::empty(), id) =~= Seq::<Seq<char>>::empty().push(id));
    } else if destination.last() == '/' {
        let d = destination;
        lemma_split_state_append_plain(d, id);
        assert(split_state(d).1 == Seq::<char>::empty());
        assert(Seq::<char>::empty() + id =~= id);
        assert(components(d) == split_state(d).0);
    } else {
        let slash = destination + seq!['/'];
        assert(slash.drop_last() =~= destination);
        assert(slash.last() == '/');
        assert(split_state(slash) == (keep(acc, cur), Seq::<char>::empty()));
        lemma_split_state_append_plain(slash, id);
        assert(Seq::<char>::empty() + id =~= id);
        assert(destination + seq!['/'] + id =~= slash + id);
    }
}

} // verus!
