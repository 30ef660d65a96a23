//! The name of the file at the end of a path.

use vstd::prelude::*;

verus! {

/// What separates the parts of a path: `/` on every system, `\\` on Windows.
pub open spec fn is_separator(c: char) -> bool {
    c == '/' || c == '\\'
}

/// What follows the last `/` in a path.
pub open spec fn slash_name(path: Seq<char>) -> Seq<char>
    decreases path.len(),
{
    if path.len() == 0 || path.last() == '/' {
        Seq::empty()
    } else {
        slash_name(path.drop_last()).push(path.last())
    }
}

/// What follows the last `/` or `\\` in a path.
pub open spec fn windows_name(path: Seq<char>) -> Seq<char>
    decreases path.len(),
{
    if path.len() == 0 || is_separator(path.last()) {
        Seq::empty()
    } else {
        windows_name(path.drop_last()).push(path.last())
    }
}

/// A file name up to the last dot at or before place `k` that does not begin it,
/// or all of it where there is none.
pub open spec fn stem_up_to(name: Seq<char>, k: int) -> Seq<char>
    decreases k,
{
    if k <= 0 {
        name
    } else if name[k] == '.' {
        name.take(k)
    } else {
        stem_up_to(name, k - 1)
    }
}

/// A file name without its extension: up to its last dot, unless that begins the
/// name.
pub open spec fn stem_of(name: Seq<char>) -> Seq<char> {
    stem_up_to(name, name.len() - 1)
}

/// Whether a path begins as the name of a share or a device does on Windows,
/// where what follows is cut otherwise.
pub open spec fn begins_with_two_separators(path: Seq<char>) -> bool {
    path.len() >= 2 && is_separator(path[0]) && is_separator(path[1])
}

/// Whether a path ends in the name of a file on every system.
pub open spec fn names_file(path: Seq<char>) -> bool {
    let name = windows_name(path);
    &&& !begins_with_two_separators(path)
    &&& name.len() > 0
    &&& name != seq!['.']
    &&& name != seq!['.', '.']
    &&& !name.contains(':')
}

/// Whether `name` is the stem of the file that a path ends in, by the separators
/// of one system or the other.
pub open spec fn is_stem_in(path: Seq<char>, name: Seq<char>) -> bool {
    name == stem_of(slash_name(path)) || name == stem_of(windows_name(path))
}

// ---- Laws ---------------------------------------------------------------

/// Of a path without `\\` the file's name is what follows the last `/`, on every
/// system. So its stem is the same everywhere.
pub proof fn stem_is_the_same_everywhere(path: Seq<char>, name: Seq<char>)
    requires
        !path.contains('\\'),
        is_stem_in(path, name),
    ensures
        name == stem_of(slash_name(path)),
{
    lemma_names_agree(path);
}

proof fn lemma_names_agree(path: Seq<char>)
    requires
        !path.contains('\\'),
    ensures
        slash_name(path) == windows_name(path),
    decreases path.len(),
{
    if path.len() > 0 {
        assert(path[path.len() - 1] == path.last());
        assert(path.contains(path.last()));
        assert forall|c: char| path.drop_last().contains(c) implies path.contains(c) by {
            let k = path.drop_last().index_of(c);
            assert(path[k] == c);
        }
        lemma_names_agree(path.drop_last());
    }
}

/// A path without separators is a file's name by itself.
pub proof fn plain_path_is_a_name(path: Seq<char>)
    requires
        !path.contains('/'),
        !path.contains('\\'),
    ensures
        slash_name(path) == path,
        windows_name(path) == path,
    decreases path.len(),
{
    if path.len() > 0 {
        assert(path[path.len() - 1] == path.last());
        assert(path.contains(path.last()));
        assert forall|c: char| path.drop_last().contains(c) implies path.contains(c) by {
            let k = path.drop_last().index_of(c);
            assert(path[k] == c);
        }
        plain_path_is_a_name(path.drop_last());
        assert(path.drop_last().push(path.last()) =~= path);
    } else {
        assert(slash_name(path) =~= path);
        assert(windows_name(path) =~= path);
    }
}

/// A path that is a directory and a name behind it ends in that name on every
/// system, whatever the directory and however long the name, as long as the name
/// is an ordinary one and the path does not begin with two separators.
pub proof fn path_ends_in_the_name_behind_its_directory(dir: Seq<char>, name: Seq<char>)
    requires
        dir.len() == 0 || dir.last() == '/',
        name.len() > 0,
        name != seq!['.'],
        name != seq!['.', '.'],
        !name.contains('/'),
        !name.contains('\\'),
        !name.contains(':'),
        dir.len() < 2 || !((dir[0] == '/' || dir[0] == '\\') && (dir[1] == '/' || dir[1] == '\\')),
    ensures
        names_file(dir + name),
        slash_name(dir + name) == name,
        windows_name(dir + name) == name,
{
    lemma_name_behind(dir, name);
    let path = dir + name;
    assert(name.contains(name[0]));
    if begins_with_two_separators(path) {
        if dir.len() == 1 {
            assert(path[1] == name[0]);
        } else if dir.len() == 0 {
            assert(path[0] == name[0]);
        } else {
            assert(path[0] == dir[0] && path[1] == dir[1]);
        }
    }
}

proof fn lemma_name_behind(dir: Seq<char>, name: Seq<char>)
    requires
        dir.len() == 0 || dir.last() == '/',
        !name.contains('/'),
        !name.contains('\\'),
    ensures
        slash_name(dir + name) == name,
        windows_name(dir + name) == name,
    decreases name.len(),
{
    let path = dir + name;
    if name.len() == 0 {
        assert(path == dir);
        assert(slash_name(path) =~= name);
        assert(windows_name(path) =~= name);
    } else {
        let rest = name.drop_last();
        assert(name[name.len() - 1] == name.last());
        assert(name.contains(name.last()));
        assert forall|c: char| rest.contains(c) implies name.contains(c) by {
            let k = rest.index_of(c);
            assert(name[k] == c);
        }
        lemma_name_behind(dir, rest);
        assert(path.last() == name.last());
        assert(path.drop_last() == dir + rest);
        assert(rest.push(name.last()) =~= name);
    }
}

/// The stem of a name is what stands before its last dot, and all of it where no
/// dot follows the first character.
pub proof fn stem_stands_before_the_last_dot(base: Seq<char>, extension: Seq<char>)
    requires
        base.len() > 0,
        !extension.contains('.'),
    ensures
        stem_of(base + seq!['.'] + extension) == base,
        !base.drop_first().contains('.') ==> stem_of(base) == base,
{
    let name = base + seq!['.'] + extension;
    assert forall|k: int| base.len() < k < name.len() implies name[k] != '.' by {
        assert(name[k] == extension[k - base.len() - 1]);
        assert(extension.contains(extension[k - base.len() - 1]));
    }
    assert(name[base.len() as int] == '.');
    lemma_stem_from(name, name.len() - 1, base.len() as int);
    assert(name.take(base.len() as int) == base);
    if !base.drop_first().contains('.') {
        assert forall|k: int| 0 < k < base.len() implies base[k] != '.' by {
            assert(base.drop_first()[k - 1] == base[k]);
            assert(base.drop_first().contains(base[k]));
        }
        lemma_stem_from(base, base.len() - 1, 0);
    }
}

proof fn lemma_stem_from(name: Seq<char>, k: int, at: int)
    requires
        0 <= at <= k < name.len(),
        at > 0 ==> name[at] == '.',
        forall|i: int| at < i <= k ==> name[i] != '.',
    ensures
        at > 0 ==> stem_up_to(name, k) == name.take(at),
        at == 0 ==> stem_up_to(name, k) == name,
    decreases k,
{
    if k > at {
        lemma_stem_from(name, k - 1, at);
    }
}

} // verus!
