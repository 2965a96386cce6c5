//! Paths of a POSIX file system, taken as text and resolved without looking at the file system.
use vstd::prelude::*;
use vstd::string::*;

use crate::text::{chars_of, length_before, lemma_length_before, str_eq, string_of};

verus! {

/// The path starts at the root.
pub open spec fn is_absolute(path: Seq<char>) -> bool {
    path.len() > 0 && path[0] == '/'
}

/// The names that a path is made of: what stands between the slashes, leaving out empty names and
/// `.`.
pub open spec fn path_parts(path: Seq<char>) -> Seq<Seq<char>>
    decreases path.len(),
    via path_parts_decreases
{
    let n = length_before(path, '/') as int;
    let name = path.take(n);
    let rest = if n < path.len() {
        path_parts(path.skip(n + 1))
    } else {
        Seq::empty()
    };
    if is_void_name(name) {
        rest
    } else {
        seq![name] + rest
    }
}

#[via_fn]
proof fn path_parts_decreases(path: Seq<char>) {
    lemma_length_before(path, '/');
}

/// A name that leads nowhere: an empty one, or `.`.
pub open spec fn is_void_name(name: Seq<char>) -> bool {
    name.len() == 0 || name == seq!['.']
}

/// The name of the directory above: `..`.
pub open spec fn is_parent_name(name: Seq<char>) -> bool {
    name == seq!['.', '.']
}

/// A relative path that says that it starts where one is: `.`, or one that begins with `./`.
pub open spec fn starts_here(path: Seq<char>) -> bool {
    path.len() > 0 && path[0] == '.' && (path.len() == 1 || path[1] == '/')
}

/// Two texts are the same path: both start at the root, both say that they start where one is, or
/// both do neither, and the names are the same.
pub open spec fn same_path(a: Seq<char>, b: Seq<char>) -> bool {
    is_absolute(a) == is_absolute(b) && starts_here(a) == starts_here(b) && path_parts(a)
        == path_parts(b)
}

/// The names after each `..` has taken away the name before it.
pub open spec fn resolved(parts: Seq<Seq<char>>) -> Seq<Seq<char>>
    decreases parts.len(),
{
    if parts.len() == 0 {
        parts
    } else {
        let before = resolved(parts.drop_last());
        if !is_parent_name(parts.last()) {
            before.push(parts.last())
        } else if before.len() > 0 {
            before.drop_last()
        } else {
            before
        }
    }
}

/// The names with a slash between each two.
pub open spec fn joined_names(parts: Seq<Seq<char>>) -> Seq<char>
    decreases parts.len(),
{
    if parts.len() == 0 {
        Seq::empty()
    } else if parts.len() == 1 {
        parts[0]
    } else {
        joined_names(parts.drop_last()) + seq!['/'] + parts.last()
    }
}

/// The text of a path.
pub open spec fn path_text(absolute: bool, parts: Seq<Seq<char>>) -> Seq<char> {
    if absolute {
        seq!['/'] + joined_names(parts)
    } else {
        joined_names(parts)
    }
}

/// `tail` seen from `base`; an absolute path is the same seen from everywhere.
pub open spec fn path_join(base: Seq<char>, tail: Seq<char>) -> Seq<char> {
    if is_absolute(tail) {
        tail
    } else if base.len() == 0 || base.last() == '/' {
        base + tail
    } else {
        base + seq!['/'] + tail
    }
}

/// A path seen from a directory.
pub open spec fn seen_from(current_dir: Seq<char>, path: Seq<char>) -> Seq<char> {
    if is_absolute(path) {
        path
    } else {
        path_join(current_dir, path)
    }
}

/// The names that lead to a path from the root, seen from a directory.
pub open spec fn absolute_parts(current_dir: Seq<char>, path: Seq<char>) -> Seq<Seq<char>> {
    resolved(path_parts(seen_from(current_dir, path)))
}

/// The text of a path without `.`, `..` and doubled slashes, seen from a directory.
pub open spec fn normalized(current_dir: Seq<char>, path: Seq<char>) -> Seq<char> {
    path_text(is_absolute(seen_from(current_dir, path)), absolute_parts(current_dir, path))
}

/// `path` is `root` or lies below it, both seen from a directory.
pub open spec fn is_within(current_dir: Seq<char>, root: Seq<char>, path: Seq<char>) -> bool {
    &&& is_absolute(seen_from(current_dir, root)) == is_absolute(seen_from(current_dir, path))
    &&& absolute_parts(current_dir, root).is_prefix_of(absolute_parts(current_dir, path))
}

/// A name that stands for itself in a path: not empty, not `.`, and without a slash.
pub open spec fn is_plain_name(name: Seq<char>) -> bool {
    !is_void_name(name) && !name.contains('/')
}

// ---------------------------------------------------------------------------
// Functions
// ---------------------------------------------------------------------------

/// Whether a path starts at the root.
pub fn path_is_absolute(path: &str) -> (r: bool)
    ensures
        r == is_absolute(path@),
{
    let chars = chars_of(path);
    chars.len() > 0 && chars[0] == '/'
}

fn path_starts_here(path: &str) -> (r: bool)
    ensures
        r == starts_here(path@),
{
    let chars = chars_of(path);
    chars.len() > 0 && chars[0] == '.' && (chars.len() == 1 || chars[1] == '/')
}

fn name_is_void(name: &str) -> (r: bool)
    ensures
        r == is_void_name(name@),
{
    proof {
        reveal_strlit(".");
        assert("."@ =~= seq!['.']);
    }
    name.is_empty() || str_eq(name, ".")
}

fn name_is_parent(name: &str) -> (r: bool)
    ensures
        r == is_parent_name(name@),
{
    proof {
        reveal_strlit("..");
        assert(".."@ =~= seq!['.', '.']);
    }
    str_eq(name, "..")
}

/// The names that a path is made of.
pub fn split_path(path: &str) -> (r: Vec<String>)
    ensures
        r.deep_view() == path_parts(path@),
{
    let chars = chars_of(path);
    let mut r: Vec<String> = Vec::new();
    let mut start: usize = 0;
    proof {
        assert(path@.skip(0) =~= path@);
        assert(r.deep_view() + path_parts(path@) =~= path_parts(path@));
    }
    loop
        invariant
            chars@ == path@,
            start <= path@.len(),
            path_parts(path@) == r.deep_view() + path_parts(path@.skip(start as int)),
        decreases path@.len() - start,
    {
        let ghost rest = path@.skip(start as int);
        let mut end: usize = start;
        while end < chars.len() && chars[end] != '/'
            invariant
                chars@ == path@,
                start <= end <= path@.len(),
                rest == path@.skip(start as int),
                length_before(rest, '/') == end - start + length_before(
                    path@.skip(end as int),
                    '/',
                ),
            decreases path@.len() - end,
        {
            assert(path@.skip(end as int).drop_first() =~= path@.skip(end + 1));
            end += 1;
        }
        assert(length_before(rest, '/') == end - start);
        let name = string_of(&chars, start, end);
        assert(name@ =~= rest.take(end - start));
        let ghost before = r.deep_view();
        let ghost tail = if end - start < rest.len() {
            path_parts(rest.skip(end - start + 1))
        } else {
            Seq::empty()
        };
        if !name_is_void(name.as_str()) {
            let ghost name_view = name@;
            r.push(name);
            proof {
                assert(r.deep_view() =~= before.push(name_view));
                assert(before + (seq![name_view] + tail) =~= r.deep_view() + tail);
            }
        }
        assert(path_parts(path@) == r.deep_view() + tail);
        if end == chars.len() {
            assert(r.deep_view() + tail =~= r.deep_view());
            return r;
        }
        assert(rest.skip(end - start + 1) =~= path@.skip(end + 1));
        start = end + 1;
    }
}

fn resolve_names(parts: &Vec<String>) -> (r: Vec<String>)
    ensures
        r.deep_view() == resolved(parts.deep_view()),
{
    let ghost views = parts.deep_view();
    let mut r: Vec<String> = Vec::new();
    proof {
        assert(r.deep_view() =~= resolved(views.take(0)));
    }
    for i in 0..parts.len()
        invariant
            views == parts.deep_view(),
            views.len() == parts@.len(),
            r.deep_view() == resolved(views.take(i as int)),
    {
        let ghost before = r.deep_view();
        proof {
            assert(views.take(i + 1).drop_last() =~= views.take(i as int));
            assert(views.take(i + 1).last() == parts@[i as int]@);
        }
        if name_is_parent(parts[i].as_str()) {
            if r.len() > 0 {
                let _ = r.pop();
                assert(r.deep_view() =~= before.drop_last());
            }
        } else {
            r.push(parts[i].clone());
            assert(r.deep_view() =~= before.push(parts@[i as int]@));
        }
    }
    assert(views.take(views.len() as int) =~= views);
    r
}

fn join_names(parts: &Vec<String>) -> (r: String)
    ensures
        r@ == joined_names(parts.deep_view()),
{
    let ghost views = parts.deep_view();
    let mut r = String::new();
    proof {
        assert(r@ =~= joined_names(views.take(0)));
    }
    for i in 0..parts.len()
        invariant
            views == parts.deep_view(),
            views.len() == parts@.len(),
            r@ == joined_names(views.take(i as int)),
    {
        proof {
            assert(views.take(i + 1).drop_last() =~= views.take(i as int));
            assert(views.take(i + 1).last() == parts@[i as int]@);
        }
        if i > 0 {
            r.push('/');
            r.append(parts[i].as_str());
            assert(r@ =~= joined_names(views.take(i as int)) + seq!['/'] + parts@[i as int]@);
        } else {
            r.append(parts[i].as_str());
            assert(r@ =~= parts@[0]@);
            assert(views.take(1)[0] == parts@[0]@);
        }
    }
    assert(views.take(views.len() as int) =~= views);
    r
}

/// `tail` seen from `base`.
pub fn join_path(base: &str, tail: &str) -> (r: String)
    ensures
        r@ == path_join(base@, tail@),
{
    if path_is_absolute(tail) {
        return tail.to_owned();
    }
    let chars = chars_of(base);
    let mut r = base.to_owned();
    if chars.len() > 0 && chars[chars.len() - 1] != '/' {
        r.push('/');
        proof {
            assert(r@ =~= base@ + seq!['/']);
        }
    }
    r.append(tail);
    r
}

/// Whether two texts are the same path.
pub fn paths_equal(a: &str, b: &str) -> (r: bool)
    ensures
        r == same_path(a@, b@),
{
    if path_is_absolute(a) != path_is_absolute(b) || path_starts_here(a) != path_starts_here(b) {
        return false;
    }
    let left = split_path(a);
    let right = split_path(b);
    proof {
        assert(left.deep_view().len() == left@.len());
        assert(right.deep_view().len() == right@.len());
    }
    left.len() == right.len() && begins_with_names(&right, &left)
}

/// Whether a list of names begins with another.
fn begins_with_names(names: &Vec<String>, prefix: &Vec<String>) -> (r: bool)
    ensures
        r == prefix.deep_view().is_prefix_of(names.deep_view()),
        names@.len() == prefix@.len() ==> r == (prefix.deep_view() == names.deep_view()),
{
    let ghost all = names.deep_view();
    let ghost head = prefix.deep_view();
    if prefix.len() > names.len() {
        return false;
    }
    for i in 0..prefix.len()
        invariant
            all == names.deep_view(),
            head == prefix.deep_view(),
            prefix@.len() <= names@.len(),
            forall|j: int| 0 <= j < i ==> head[j] == all[j],
    {
        if !str_eq(prefix[i].as_str(), names[i].as_str()) {
            proof {
                assert(head[i as int] != all[i as int]);
                assert(all.subrange(0, head.len() as int)[i as int] == all[i as int]);
            }
            return false;
        }
    }
    proof {
        assert(head =~= all.subrange(0, head.len() as int));
        if names@.len() == prefix@.len() {
            assert(head =~= all);
        }
    }
    true
}

/// The names that lead to a path from the root, seen from a directory, and whether there is a root.
fn locate(path: &str, current_dir: &str) -> (r: (bool, Vec<String>))
    ensures
        r.0 == is_absolute(seen_from(current_dir@, path@)),
        r.1.deep_view() == absolute_parts(current_dir@, path@),
{
    if path_is_absolute(path) {
        (true, resolve_names(&split_path(path)))
    } else {
        let whole = join_path(current_dir, path);
        (path_is_absolute(whole.as_str()), resolve_names(&split_path(whole.as_str())))
    }
}

/// The text of a path without `.`, `..` and doubled slashes, seen from a directory.
pub fn normalize_path(path: &str, current_dir: &str) -> (r: String)
    ensures
        r@ == normalized(current_dir@, path@),
{
    let (absolute, parts) = locate(path, current_dir);
    let names = join_names(&parts);
    if absolute {
        let mut r = String::new();
        r.push('/');
        proof {
            assert(r@ =~= seq!['/']);
        }
        r.append(names.as_str());
        r
    } else {
        names
    }
}

/// Whether a path is a directory or lies below it, both seen from another directory.
pub fn path_is_within(root: &str, path: &str, current_dir: &str) -> (r: bool)
    ensures
        r == is_within(current_dir@, root@, path@),
{
    let (root_absolute, root_parts) = locate(root, current_dir);
    let (path_absolute, parts) = locate(path, current_dir);
    root_absolute == path_absolute && begins_with_names(&parts, &root_parts)
}

// ---------------------------------------------------------------------------
// Facts
// ---------------------------------------------------------------------------

proof fn lemma_length_before_is(s: Seq<char>, c: char, n: int)
    requires
        0 <= n <= s.len(),
        forall|i: int| 0 <= i < n ==> s[i] != c,
        n < s.len() ==> s[n] == c,
    ensures
        length_before(s, c) == n,
    decreases n,
{
    if n > 0 {
        assert forall|i: int| 0 <= i < n - 1 implies s.drop_first()[i] != c by {
            assert(s.drop_first()[i] == s[i + 1]);
        }
        lemma_length_before_is(s.drop_first(), c, n - 1);
    }
}

/// The names of two paths with a slash between them are the names of the one, then of the other.
pub proof fn lemma_parts_of_joined(a: Seq<char>, b: Seq<char>)
    ensures
        path_parts(a + seq!['/'] + b) == path_parts(a) + path_parts(b),
    decreases a.len(),
{
    let whole = a + seq!['/'] + b;
    let n = length_before(a, '/') as int;
    lemma_length_before(a, '/');
    assert forall|i: int| 0 <= i < n implies whole[i] != '/' by {
        assert(whole[i] == a[i]);
    }
    assert(whole[n] == '/') by {
        if n < a.len() {
            assert(whole[n] == a[n]);
        }
    }
    lemma_length_before_is(whole, '/', n);
    assert(whole.take(n) =~= a.take(n));
    if n < a.len() {
        lemma_parts_of_joined(a.skip(n + 1), b);
        assert(whole.skip(n + 1) =~= a.skip(n + 1) + seq!['/'] + b);
        let name = a.take(n);
        if !is_void_name(name) {
            assert(seq![name] + (path_parts(a.skip(n + 1)) + path_parts(b)) =~= (seq![name]
                + path_parts(a.skip(n + 1))) + path_parts(b));
        }
    } else {
        assert(whole.skip(n + 1) =~= b);
        assert(a.take(n) =~= a);
        if is_void_name(a) {
            assert(Seq::<Seq<char>>::empty() + path_parts(b) =~= path_parts(b));
        } else {
            assert((seq![a] + Seq::<Seq<char>>::empty()) + path_parts(b) =~= seq![a] + path_parts(
                b,
            ));
        }
    }
}

/// A plain name is the only name of the path that it is.
pub proof fn lemma_parts_of_name(name: Seq<char>)
    requires
        !name.contains('/'),
    ensures
        path_parts(name) == if is_void_name(name) {
            Seq::<Seq<char>>::empty()
        } else {
            seq![name]
        },
{
    assert forall|i: int| 0 <= i < name.len() implies name[i] != '/' by {
        if name[i] == '/' {
            assert(name.contains('/'));
        }
    }
    lemma_length_before_is(name, '/', name.len() as int);
    assert(name.take(name.len() as int) =~= name);
    assert(seq![name] + Seq::<Seq<char>>::empty() =~= seq![name]);
}

/// The names of a relative path seen from a directory come after the names of the directory.
pub proof fn lemma_parts_of_join(base: Seq<char>, tail: Seq<char>)
    requires
        !is_absolute(tail),
    ensures
        path_parts(path_join(base, tail)) == path_parts(base) + path_parts(tail),
{
    if base.len() == 0 {
        lemma_parts_of_name(base);
        assert(base + tail =~= tail);
        assert(Seq::<Seq<char>>::empty() + path_parts(tail) =~= path_parts(tail));
    } else if base.last() == '/' {
        let stem = base.drop_last();
        let nothing = Seq::<char>::empty();
        assert(base =~= stem + seq!['/'] + nothing);
        assert(base + tail =~= stem + seq!['/'] + tail);
        lemma_parts_of_joined(stem, tail);
        lemma_parts_of_joined(stem, nothing);
        lemma_parts_of_name(nothing);
        assert(path_parts(stem) + Seq::<Seq<char>>::empty() =~= path_parts(stem));
    } else {
        lemma_parts_of_joined(base, tail);
    }
}

/// Every name is one that stands for itself in a path.
pub open spec fn all_plain(parts: Seq<Seq<char>>) -> bool {
    forall|i: int| 0 <= i < parts.len() ==> is_plain_name(#[trigger] parts[i])
}

/// The names of a path stand for themselves.
pub proof fn lemma_parts_are_plain(path: Seq<char>)
    ensures
        all_plain(path_parts(path)),
    decreases path.len(),
{
    let n = length_before(path, '/') as int;
    lemma_length_before(path, '/');
    if n < path.len() {
        lemma_parts_are_plain(path.skip(n + 1));
    }
}

/// Resolving keeps names that stand for themselves, and leaves no `..`.
pub proof fn lemma_resolved(parts: Seq<Seq<char>>)
    requires
        all_plain(parts),
    ensures
        all_plain(resolved(parts)),
        forall|i: int|
            0 <= i < resolved(parts).len() ==> !is_parent_name(#[trigger] resolved(parts)[i]),
    decreases parts.len(),
{
    if parts.len() > 0 {
        lemma_resolved(parts.drop_last());
    }
}

/// Names without `..` are resolved.
pub proof fn lemma_resolved_fixed(parts: Seq<Seq<char>>)
    requires
        forall|i: int| 0 <= i < parts.len() ==> !is_parent_name(#[trigger] parts[i]),
    ensures
        resolved(parts) == parts,
    decreases parts.len(),
{
    if parts.len() > 0 {
        lemma_resolved_fixed(parts.drop_last());
        assert(parts.drop_last().push(parts.last()) =~= parts);
    }
}

/// The names of the text of names that stand for themselves are those names.
pub proof fn lemma_parts_of_names(parts: Seq<Seq<char>>)
    requires
        all_plain(parts),
    ensures
        path_parts(joined_names(parts)) == parts,
        parts.len() > 0 ==> joined_names(parts).len() > 0 && !is_absolute(joined_names(parts)),
    decreases parts.len(),
{
    if parts.len() == 0 {
        lemma_parts_of_name(Seq::empty());
        assert(parts =~= Seq::empty());
    } else if parts.len() == 1 {
        assert(is_plain_name(parts[0]));
        lemma_parts_of_name(parts[0]);
        assert(parts =~= seq![parts[0]]);
        assert(parts[0].len() > 0);
        assert(parts[0].contains(parts[0][0]));
    } else {
        let before = parts.drop_last();
        lemma_parts_of_names(before);
        assert(is_plain_name(parts.last()));
        lemma_parts_of_joined(joined_names(before), parts.last());
        lemma_parts_of_name(parts.last());
        assert(before + seq![parts.last()] =~= parts);
    }
}

/// The names of the text of a path are the names that it was made of.
pub proof fn lemma_parts_of_text(absolute: bool, parts: Seq<Seq<char>>)
    requires
        all_plain(parts),
    ensures
        path_parts(path_text(absolute, parts)) == parts,
        is_absolute(path_text(absolute, parts)) == absolute,
{
    lemma_parts_of_names(parts);
    if absolute {
        let nothing = Seq::<char>::empty();
        assert(path_text(true, parts) =~= nothing + seq!['/'] + joined_names(parts));
        lemma_parts_of_joined(nothing, joined_names(parts));
        lemma_parts_of_name(nothing);
        assert(Seq::<Seq<char>>::empty() + parts =~= parts);
    }
}

/// Normalizing a path leads to the same names, and normalizing it once more changes nothing.
pub proof fn lemma_normalized(current_dir: Seq<char>, path: Seq<char>)
    requires
        is_absolute(current_dir),
    ensures
        is_absolute(normalized(current_dir, path)),
        absolute_parts(current_dir, normalized(current_dir, path)) == absolute_parts(
            current_dir,
            path,
        ),
        path_parts(normalized(current_dir, path)) == absolute_parts(current_dir, path),
        normalized(current_dir, normalized(current_dir, path)) == normalized(current_dir, path),
{
    let whole = seen_from(current_dir, path);
    assert(is_absolute(whole)) by {
        if !is_absolute(path) {
            assert(whole[0] == current_dir[0]);
        }
    }
    let parts = absolute_parts(current_dir, path);
    lemma_parts_are_plain(whole);
    lemma_resolved(path_parts(whole));
    lemma_parts_of_text(true, parts);
    lemma_resolved_fixed(parts);
}

} // verus!
