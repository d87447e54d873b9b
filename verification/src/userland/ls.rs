use vstd::prelude::*;
use vstd::string::{StrSliceExecFns, StringExecFns};
use crate::text::{lemma_split_nonempty, split_spec};

verus! {

/// The path of entry `name` inside the folder at `path` (`.` is the root).
pub open spec fn child_path_spec(path: Seq<char>, name: Seq<char>) -> Seq<char> {
    if path == seq!['.'] {
        name
    } else {
        path.push('/') + name
    }
}

/// The path of entry `name` inside the folder at `path`.
pub fn child_path(path: &str, name: &str) -> (r: String)
    ensures
        r@ == child_path_spec(path@, name@),
{
    let is_root = path.unicode_len() == 1 && path.get_char(0) == '.';
    assert(is_root == (path@ == seq!['.'])) by {
        if path@.len() == 1 {
            assert(path@[0] == '.' ==> path@ =~= seq!['.']);
        }
    }
    let mut current = if is_root {
        String::new()
    } else {
        let mut p = String::from_str(path);
        p.append("/");
        proof {
            reveal_strlit("/");
        }
        p
    };
    current.append(name);
    proof {
        if !is_root {
            assert(current@ =~= path@.push('/') + name@);
        } else {
            assert(current@ =~= name@);
        }
    }
    current
}

/// A recursive listing goes into an entry: a folder other than `.` and `..`.
pub open spec fn descends_spec(is_folder: bool, name: Seq<char>) -> bool {
    is_folder && name != seq!['.'] && name != seq!['.', '.']
}

/// Whether a recursive listing goes into the entry.
pub fn descends(is_folder: bool, name: &str) -> (r: bool)
    ensures
        r == descends_spec(is_folder, name@),
{
    let len = name.unicode_len();
    let is_dot = len == 1 && name.get_char(0) == '.';
    let is_dot_dot = len == 2 && name.get_char(0) == '.' && name.get_char(1) == '.';
    assert(is_dot == (name@ == seq!['.'])) by {
        if name@.len() == 1 {
            assert(name@[0] == '.' ==> name@ =~= seq!['.']);
        }
    }
    assert(is_dot_dot == (name@ == seq!['.', '.'])) by {
        if name@.len() == 2 {
            assert((name@[0] == '.' && name@[1] == '.') ==> name@ =~= seq!['.', '.']);
        }
    }
    is_folder && !is_dot && !is_dot_dot
}

/// Appending characters without a separator extends the last part of a split.
proof fn lemma_split_append(s: Seq<char>, name: Seq<char>, sep: char)
    requires
        !name.contains(sep),
    ensures
        split_spec(s + name, sep) == split_spec(s, sep).update(
            split_spec(s, sep).len() - 1,
            split_spec(s, sep).last() + name,
        ),
    decreases name.len(),
{
    lemma_split_nonempty(s, sep);
    let r = split_spec(s, sep);
    if name.len() == 0 {
        assert(s + name =~= s);
        assert(r.last() + name =~= r.last());
        assert(r.update(r.len() - 1, r.last() + name) =~= r);
    } else {
        let prefix = name.drop_last();
        let c = name.last();
        assert(!prefix.contains(sep)) by {
            if prefix.contains(sep) {
                let i = choose|i: int| 0 <= i < prefix.len() && prefix[i] == sep;
                assert(name[i] == sep);
            }
        }
        assert(c != sep) by {
            assert(name[name.len() - 1] == c);
        }
        lemma_split_append(s, prefix, sep);
        assert((s + name).drop_last() =~= s + prefix);
        assert((s + name).last() == c);
        let r2 = split_spec(s + prefix, sep);
        assert(r2 == r.update(r.len() - 1, r.last() + prefix));
        assert(r2.last() == r.last() + prefix);
        assert(r2.last().push(c) =~= r.last() + name);
        assert(r2.update(r2.len() - 1, r2.last().push(c)) =~= r.update(r.len() - 1, r.last() + name));
    }
}

/// The path that a listing builds for entry `name` of the folder at `path`
/// splits into the folder's components and then the name, when the name
/// holds no `/`: under the root (`.`) it is the name alone.
pub proof fn lemma_child_path_components(path: Seq<char>, name: Seq<char>)
    requires
        !name.contains('/'),
    ensures
        path == seq!['.'] ==> split_spec(child_path_spec(path, name), '/') == seq![name],
        path != seq!['.'] ==> split_spec(child_path_spec(path, name), '/') == split_spec(
            path,
            '/',
        ).push(name),
{
    if path == seq!['.'] {
        lemma_split_append(Seq::empty(), name, '/');
        assert(Seq::<char>::empty() + name =~= name);
        assert(split_spec(Seq::<char>::empty(), '/') == seq![Seq::<char>::empty()]);
        assert(Seq::<char>::empty() + name =~= name);
        assert(seq![Seq::<char>::empty()].update(0, Seq::<char>::empty() + name) =~= seq![name]);
    } else {
        let p = path.push('/');
        lemma_split_append(p, name, '/');
        lemma_split_nonempty(path, '/');
        assert(p.drop_last() =~= path);
        let r = split_spec(path, '/');
        assert(split_spec(p, '/') == r.push(Seq::<char>::empty()));
        assert(Seq::<char>::empty() + name =~= name);
        assert(r.push(Seq::<char>::empty()).update(r.len() as int, Seq::<char>::empty() + name)
            =~= r.push(name));
    }
}

} // verus!
