//! Object keys as paths: directory, name and extension, with slashes between the names.
//!
//! A name of one dot and an empty name say nothing about where an object lies, so that
//! `a/b`, `a//b` and `a/./b` have the same directory. A leading slash, and a leading dot that is
//! a name of its own, are kept.

use vstd::prelude::*;
use crate::text;

verus! {

/// Where the names of a path begin: behind a leading slash, or behind a leading dot that is a
/// name of its own.
pub open spec fn names_start(path: Seq<char>) -> int {
    if path.len() > 0 && path[0] == '/' {
        1
    } else if path.len() > 0 && path[0] == '.' && (path.len() == 1 || path[1] == '/') {
        1
    } else {
        0
    }
}

/// Where the last name of a path begins whose names begin at `from`: behind the last slash
/// there.
pub open spec fn last_name_start(path: Seq<char>, from: int) -> int
    decreases path.len(),
{
    if path.len() <= from || path.len() == 0 {
        from
    } else if path.last() == '/' {
        path.len() as int
    } else {
        last_name_start(path.drop_last(), from)
    }
}

/// The last name of a path whose names begin at `from`.
pub open spec fn last_name(path: Seq<char>, from: int) -> Seq<char> {
    path.skip(last_name_start(path, from))
}

/// A path without its last name and the slash before that name.
pub open spec fn without_last_name(path: Seq<char>, from: int) -> Seq<char> {
    let start = last_name_start(path, from);
    path.take(
        if start > from {
            start - 1
        } else {
            start
        },
    )
}

/// Whether a name says nothing: it is empty or a single dot.
pub open spec fn is_void(name: Seq<char>) -> bool {
    name.len() == 0 || name == seq!['.']
}

/// A path without the void names at its end.
pub open spec fn without_void_end(path: Seq<char>, from: int) -> Seq<char>
    decreases path.len(),
    when 0 <= from
    via without_void_end_decreases
{
    if path.len() > from && is_void(last_name(path, from)) {
        without_void_end(without_last_name(path, from), from)
    } else {
        path
    }
}

#[via_fn]
proof fn without_void_end_decreases(path: Seq<char>, from: int) {
    lemma_last_name_start(path, from);
}

/// The directory of a path: what comes before its last name. A path without any name has none,
/// except that of a path that is a single dot, which is empty.
pub open spec fn directory(path: Seq<char>) -> Option<Seq<char>> {
    let from = names_start(path);
    let named = without_void_end(path, from);
    if named.len() > from {
        Some(without_void_end(without_last_name(named, from), from))
    } else if path.len() > 0 && path[0] == '.' {
        Some(Seq::empty())
    } else {
        None
    }
}

/// The file name of a path: its last name, unless that is two dots.
pub open spec fn file_name(path: Seq<char>) -> Option<Seq<char>> {
    let from = names_start(path);
    let named = without_void_end(path, from);
    if named.len() > from && last_name(named, from) != seq!['.', '.'] {
        Some(last_name(named, from))
    } else {
        None
    }
}

/// Where the last dot of a name stands, or -1.
pub open spec fn last_dot(name: Seq<char>) -> int
    decreases name.len(),
{
    if name.len() == 0 {
        -1
    } else if name.last() == '.' {
        name.len() - 1
    } else {
        last_dot(name.drop_last())
    }
}

/// The extension of a path: what stands behind the last dot of its file name, unless the name
/// has no dot or only one that leads it.
pub open spec fn extension(path: Seq<char>) -> Option<Seq<char>> {
    match file_name(path) {
        Some(name) => if last_dot(name) > 0 {
            Some(name.skip(last_dot(name) + 1))
        } else {
            None
        },
        None => None,
    }
}

/// The path of `name` in `directory`.
pub open spec fn joined(directory: Seq<char>, name: Seq<char>) -> Seq<char> {
    if directory.len() == 0 || directory.last() == '/' {
        directory + name
    } else {
        directory + "/"@ + name
    }
}

/// The last name begins inside the path; it holds no slash, and the character before it, where
/// the names have begun by then, is one.
proof fn lemma_last_name_start(path: Seq<char>, from: int)
    requires
        0 <= from,
    ensures
        path.len() > from ==> from <= last_name_start(path, from) <= path.len(),
        path.len() <= from ==> last_name_start(path, from) == from,
        from < last_name_start(path, from) ==> path[last_name_start(path, from) - 1] == '/',
        forall|i: int| last_name_start(path, from) <= i < path.len() ==> path[i] != '/',
    decreases path.len(),
{
    if path.len() > from && path.last() != '/' {
        lemma_last_name_start(path.drop_last(), from);
        let start = last_name_start(path, from);
        if from < start {
            assert(path.drop_last()[start - 1] == path[start - 1]);
        }
        assert forall|i: int| start <= i < path.len() implies path[i] != '/' by {
            if i < path.len() - 1 {
                assert(path.drop_last()[i] == path[i]);
            }
        }
    }
}

/// Where the last name of the first `len` characters begins.
fn find_last_name(path: &Vec<char>, from: usize, len: usize) -> (r: usize)
    requires
        from <= len <= path.len(),
    ensures
        r == last_name_start(path@.take(len as int), from as int),
        from <= r <= len,
{
    let mut at: usize = len;
    while from < at && path[at - 1] != '/'
        invariant
            from <= at <= len <= path.len(),
            last_name_start(path@.take(len as int), from as int) == last_name_start(
                path@.take(at as int),
                from as int,
            ),
        decreases at,
    {
        assert(path@.take(at as int).drop_last() == path@.take(at - 1));
        at = at - 1;
    }
    assert(at > from ==> path@.take(at as int).last() == '/');
    at
}

/// How much of the first `len` characters is left without the last name and its slash.
fn drop_last_name(path: &Vec<char>, from: usize, len: usize) -> (r: usize)
    requires
        from <= len <= path.len(),
    ensures
        path@.take(r as int) == without_last_name(path@.take(len as int), from as int),
        from <= r <= len,
        r == len ==> last_name_start(path@.take(len as int), from as int) == len,
{
    let start: usize = find_last_name(path, from, len);
    let kept: usize = if start > from {
        start - 1
    } else {
        start
    };
    assert(path@.take(len as int).take(kept as int) == path@.take(kept as int));
    kept
}

/// How much of the first `len` characters is left without the void names at the end.
fn drop_void_end(path: &Vec<char>, from: usize, len: usize) -> (r: usize)
    requires
        from <= len <= path.len(),
    ensures
        path@.take(r as int) == without_void_end(path@.take(len as int), from as int),
        from <= r <= len,
        r > from ==> !is_void(last_name(path@.take(r as int), from as int)),
{
    let mut end: usize = len;
    while from < end
        invariant
            from <= end <= len <= path.len(),
            without_void_end(path@.take(len as int), from as int) == without_void_end(
                path@.take(end as int),
                from as int,
            ),
        decreases end,
    {
        let start: usize = find_last_name(path, from, end);
        let ghost current = path@.take(end as int);
        let ghost name = last_name(current, from as int);
        proof {
            lemma_last_name_start(current, from as int);
            assert(name.len() == end - start);
        }
        if start == end || (end - start == 1 && path[start] == '.') {
            assert(is_void(name)) by {
                if start != end {
                    assert(name =~= seq!['.']);
                }
            }
            end = drop_last_name(path, from, end);
        } else {
            assert(!is_void(name)) by {
                if end - start == 1 {
                    assert(name[0] == path@[start as int]);
                    assert(seq!['.'][0] == '.');
                }
            }
            return end;
        }
    }
    end
}

/// Where the names of the path begin.
fn find_names_start(path: &Vec<char>) -> (r: usize)
    ensures
        r == names_start(path@),
        r <= path.len(),
{
    if path.len() > 0 && path[0] == '/' {
        1
    } else if path.len() > 0 && path[0] == '.' && (path.len() == 1 || path[1] == '/') {
        1
    } else {
        0
    }
}

/// The directory of an object key.
pub fn directory_of(key: &str) -> (r: Option<String>)
    ensures
        match r {
            Some(d) => directory(key@) == Some(d@),
            None => directory(key@) is None,
        },
{
    let path: Vec<char> = text::chars_of(key);
    let from: usize = find_names_start(&path);
    assert(path@.take(path.len() as int) == key@);
    let named: usize = drop_void_end(&path, from, path.len());
    if named > from {
        let kept: usize = drop_last_name(&path, from, named);
        let end: usize = drop_void_end(&path, from, kept);
        assert(key@.subrange(0, end as int) == path@.take(end as int));
        Some(key.substring_char(0, end).to_string())
    } else if path.len() > 0 && path[0] == '.' {
        Some(String::new())
    } else {
        None
    }
}

/// The extension of an object key.
pub fn extension_of(key: &str) -> (r: Option<String>)
    ensures
        match r {
            Some(e) => extension(key@) == Some(e@),
            None => extension(key@) is None,
        },
{
    let path: Vec<char> = text::chars_of(key);
    let from: usize = find_names_start(&path);
    assert(path@.take(path.len() as int) == key@);
    let named: usize = drop_void_end(&path, from, path.len());
    if named <= from {
        return None;
    }
    let start: usize = find_last_name(&path, from, named);
    let ghost name = last_name(path@.take(named as int), from as int);
    assert(name =~= path@.subrange(start as int, named as int));
    if named - start == 2 && path[start] == '.' && path[start + 1] == '.' {
        assert(name =~= seq!['.', '.']);
        return None;
    }
    assert(name != seq!['.', '.']) by {
        if name == seq!['.', '.'] {
            assert(name[0] == '.' && name[1] == '.');
            assert(name[0] == path@[start as int] && name[1] == path@[start + 1]);
        }
    }
    assert(name.take(named - start) == name);
    let mut dot: usize = named;
    while start < dot && path[dot - 1] != '.'
        invariant
            start <= dot <= named <= path.len(),
            name == path@.subrange(start as int, named as int),
            last_dot(name) == last_dot(name.take(dot - start)),
        decreases dot,
    {
        assert(name.take(dot - start).drop_last() == name.take(dot - start - 1));
        dot = dot - 1;
    }
    if start + 1 < dot {
        assert(name.take(dot - start).last() == '.');
        assert(last_dot(name) == dot - start - 1);
        assert(name.skip(dot - start) == key@.subrange(dot as int, named as int));
        Some(key.substring_char(dot, named).to_string())
    } else {
        assert(last_dot(name) <= 0);
        None
    }
}

/// The key of `name` in the directory `directory`.
pub fn join(directory: &str, name: &str) -> (r: String)
    ensures
        r@ == joined(directory@, name@),
{
    let length: usize = directory.unicode_len();
    let mut out: String = directory.to_string();
    if length > 0 && directory.get_char(length - 1) != '/' {
        out.append("/");
    }
    out.append(name);
    out
}

/// A path whose last name is `name` and lies behind a slash at the end of `dir` is split there.
proof fn lemma_split_behind_slash(dir: Seq<char>, name: Seq<char>, from: int)
    requires
        0 <= from <= dir.len(),
        forall|i: int| 0 <= i < name.len() ==> #[trigger] name[i] != '/',
    ensures
        last_name_start(dir + seq!['/'] + name, from) == dir.len() + 1,
    decreases name.len(),
{
    let path = dir + seq!['/'] + name;
    if name.len() > 0 {
        assert(path.last() == name.last());
        assert(name[name.len() - 1] != '/');
        assert(path.drop_last() == dir + seq!['/'] + name.drop_last());
        assert forall|i: int| 0 <= i < name.drop_last().len() implies #[trigger] name.drop_last()[i]
            != '/' by {
            assert(name.drop_last()[i] == name[i]);
        }
        lemma_split_behind_slash(dir, name.drop_last(), from);
    } else {
        assert(path.last() == '/');
    }
}

/// The object `name` in the directory `dir`: its directory is `dir`, provided that `dir` does
/// not end with a void name and that `name` is a name.
pub proof fn law_directory_of_joined(dir: Seq<char>, name: Seq<char>)
    requires
        dir.len() > 0,
        dir.last() != '/',
        dir.len() > 1 ==> !(dir.last() == '.' && dir[dir.len() - 2] == '/'),
        !is_void(name),
        forall|i: int| 0 <= i < name.len() ==> #[trigger] name[i] != '/',
    ensures
        directory(dir + seq!['/'] + name) == Some(dir),
{
    let path = dir + seq!['/'] + name;
    let from = names_start(path);
    assert(names_start(dir) == from);
    lemma_split_behind_slash(dir, name, from);
    assert(last_name(path, from) == name);
    assert(without_last_name(path, from) == dir);
    if dir.len() > from {
        lemma_last_name_start(dir, from);
        let start = last_name_start(dir, from);
        let last = last_name(dir, from);
        assert(!is_void(last)) by {
            if last.len() == 0 {
                assert(start == dir.len());
            } else if last == seq!['.'] {
                assert(last[0] == '.');
                assert(start == dir.len() - 1);
                if start > from {
                    assert(dir[start - 1] == '/');
                } else if from == 1 {
                    assert(dir.len() == 2);
                    assert(path[1] == dir[1]);
                } else {
                    assert(dir.len() == 1 && dir[0] == '.');
                    assert(path[1] == '/');
                }
            }
        }
    }
}

/// A path that ends with a character other than a slash and a dot has a directory.
pub proof fn law_named_path_has_directory(path: Seq<char>)
    requires
        path.len() > 0,
        path.last() != '/',
        path.last() != '.',
    ensures
        directory(path) is Some,
{
    let from = names_start(path);
    if path.len() > from {
        lemma_last_name_start(path, from);
        let last = last_name(path, from);
        if last.len() > 0 {
            assert(last.last() == path.last());
        }
        assert(seq!['.'].last() == '.');
    }
}

/// A bare name is split nowhere.
proof fn lemma_no_split(name: Seq<char>)
    requires
        forall|i: int| 0 <= i < name.len() ==> #[trigger] name[i] != '/',
    ensures
        last_name_start(name, 0) == 0,
    decreases name.len(),
{
    if name.len() > 0 {
        assert(name[name.len() - 1] != '/');
        assert forall|i: int| 0 <= i < name.drop_last().len() implies #[trigger] name.drop_last()[i]
            != '/' by {
            assert(name.drop_last()[i] == name[i]);
        }
        lemma_no_split(name.drop_last());
    }
}

/// The directory of a bare name is empty.
pub proof fn law_directory_of_bare_name(name: Seq<char>)
    requires
        !is_void(name),
        forall|i: int| 0 <= i < name.len() ==> #[trigger] name[i] != '/',
    ensures
        directory(name) == Some(Seq::<char>::empty()),
{
    if name.len() == 1 && name[0] == '.' {
        assert(name =~= seq!['.']);
    }
    if name.len() > 1 {
        assert(name[1] != '/');
    }
    assert(name[0] != '/');
    assert(names_start(name) == 0);
    lemma_no_split(name);
    assert(name.skip(0) == name);
    assert(name.take(0) == Seq::<char>::empty());
}

/// The file name of a path that is a name, alone or behind a slash.
proof fn lemma_file_name(front: Seq<char>, name: Seq<char>)
    requires
        front.len() == 0 || front.last() == '/',
        !is_void(name),
        name != seq!['.', '.'],
        forall|i: int| 0 <= i < name.len() ==> #[trigger] name[i] != '/',
    ensures
        file_name(front + name) == Some(name),
{
    let path = front + name;
    let from = names_start(path);
    if front.len() == 0 {
        assert(path =~= name);
        if name.len() == 1 && name[0] == '.' {
            assert(name =~= seq!['.']);
        }
        if name.len() > 1 {
            assert(name[1] != '/');
        }
        assert(name[0] != '/');
        assert(from == 0);
        lemma_no_split(name);
        assert(path.skip(0) == name);
    } else {
        let dir = front.drop_last();
        assert(path =~= dir + seq!['/'] + name);
        if from > dir.len() {
            assert(front.len() == 1);
            assert(path[0] == '/');
            assert(path.skip(1) == name);
            lemma_split_from(path, 1);
        } else {
            lemma_split_behind_slash(dir, name, from);
        }
        assert(path.skip(front.len() as int) == name);
    }
}

/// Where no slash follows, the last name begins where the names begin.
proof fn lemma_split_from(path: Seq<char>, from: int)
    requires
        0 <= from <= path.len(),
        forall|i: int| from <= i < path.len() ==> #[trigger] path[i] != '/',
    ensures
        last_name_start(path, from) == from,
    decreases path.len(),
{
    if path.len() > from {
        assert(path[path.len() - 1] != '/');
        assert forall|i: int|
            from <= i < path.drop_last().len() implies #[trigger] path.drop_last()[i] != '/' by {
            assert(path.drop_last()[i] == path[i]);
        }
        lemma_split_from(path.drop_last(), from);
    }
}

/// The last dot stands before what holds none.
proof fn lemma_last_dot(stem: Seq<char>, ext: Seq<char>)
    requires
        forall|i: int| 0 <= i < ext.len() ==> #[trigger] ext[i] != '.',
    ensures
        last_dot(stem + seq!['.'] + ext) == stem.len(),
    decreases ext.len(),
{
    let name = stem + seq!['.'] + ext;
    if ext.len() > 0 {
        assert(name.last() == ext[ext.len() - 1]);
        assert(name.drop_last() == stem + seq!['.'] + ext.drop_last());
        assert forall|i: int| 0 <= i < ext.drop_last().len() implies #[trigger] ext.drop_last()[i]
            != '.' by {
            assert(ext.drop_last()[i] == ext[i]);
        }
        lemma_last_dot(stem, ext.drop_last());
    }
}

/// A name without a dot has none.
proof fn lemma_no_dot(name: Seq<char>)
    requires
        forall|i: int| 0 <= i < name.len() ==> #[trigger] name[i] != '.',
    ensures
        last_dot(name) == -1,
    decreases name.len(),
{
    if name.len() > 0 {
        assert(name[name.len() - 1] != '.');
        assert forall|i: int| 0 <= i < name.drop_last().len() implies #[trigger] name.drop_last()[i]
            != '.' by {
            assert(name.drop_last()[i] == name[i]);
        }
        lemma_no_dot(name.drop_last());
    }
}

/// The extension of a file is what stands behind the last dot of its name, where something stands
/// before that dot.
pub proof fn law_extension_stands_behind_the_last_dot(
    front: Seq<char>,
    stem: Seq<char>,
    ext: Seq<char>,
)
    requires
        front.len() == 0 || front.last() == '/',
        stem.len() > 0,
        stem != seq!['.'] || ext.len() > 0,
        forall|i: int| 0 <= i < stem.len() ==> #[trigger] stem[i] != '/',
        forall|i: int| 0 <= i < ext.len() ==> #[trigger] ext[i] != '/' && ext[i] != '.',
    ensures
        extension(front + (stem + seq!['.'] + ext)) == Some(ext),
{
    let name = stem + seq!['.'] + ext;
    if name == seq!['.', '.'] {
        assert(name.len() == 2);
        assert(stem =~= seq![name[0]]);
    }
    assert forall|i: int| 0 <= i < name.len() implies #[trigger] name[i] != '/' by {
        if i < stem.len() {
            assert(name[i] == stem[i]);
        } else if i > stem.len() {
            assert(name[i] == ext[i - stem.len() - 1]);
        }
    }
    assert(seq!['.'].len() == 1);
    lemma_file_name(front, name);
    lemma_last_dot(stem, ext);
    assert(name.skip(stem.len() as int + 1) == ext);
}

/// A name without a dot, or with one at its start alone, has no extension.
pub proof fn law_names_without_extension(front: Seq<char>, name: Seq<char>)
    requires
        front.len() == 0 || front.last() == '/',
        !is_void(name),
        forall|i: int| 0 <= i < name.len() ==> #[trigger] name[i] != '/',
        forall|i: int| 0 < i < name.len() ==> #[trigger] name[i] != '.',
    ensures
        extension(front + name) is None,
{
    if name == seq!['.', '.'] {
        assert(name[1] == '.');
    }
    lemma_file_name(front, name);
    if name[0] == '.' {
        let rest = name.skip(1);
        assert forall|i: int| 0 <= i < rest.len() implies #[trigger] rest[i] != '.' by {
            assert(rest[i] == name[i + 1]);
        }
        lemma_last_dot(Seq::empty(), rest);
        assert(name =~= Seq::<char>::empty() + seq!['.'] + rest);
    } else {
        lemma_no_dot(name);
    }
}

/// A name is joined to a directory with one slash between them, and to an empty directory with
/// none.
pub proof fn law_join_puts_one_slash(directory: Seq<char>, name: Seq<char>)
    ensures
        joined(Seq::empty(), name) == name,
        joined(directory.push('/'), name) == directory + seq!['/'] + name,
        directory.len() > 0 && directory.last() != '/' ==> joined(directory, name) == directory
            + seq!['/'] + name,
{
    reveal_strlit("/");
    assert("/"@ =~= seq!['/']);
    assert(Seq::<char>::empty() + name =~= name);
    assert(directory.push('/') + name =~= directory + seq!['/'] + name);
}

/// The directory of a name right below the root is the root.
pub proof fn law_directory_of_name_below_the_root(name: Seq<char>)
    requires
        !is_void(name),
        forall|i: int| 0 <= i < name.len() ==> #[trigger] name[i] != '/',
    ensures
        directory(seq!['/'] + name) == Some(seq!['/']),
{
    let path = seq!['/'] + name;
    assert(path[0] == '/');
    assert forall|i: int| 1 <= i < path.len() implies #[trigger] path[i] != '/' by {
        assert(path[i] == name[i - 1]);
    }
    lemma_split_from(path, 1);
    assert(path.skip(1) == name);
    assert(path.take(1) == seq!['/']);
}

} // verus!
