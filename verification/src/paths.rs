//! File paths, held as text.
//!
//! How a path falls into parts depends on the machine. The statements here cover what is
//! the same everywhere. Of the rest the `reads_` functions speak: each holds of what the machine
//! can answer when it is asked about a path.
use vstd::prelude::*;

verus! {

/// Whether a character separates the parts of a path on some machine.
pub open spec fn is_separator(c: char) -> bool {
    c == '/' || c == '\\'
}

/// A directory that does not start with a network or verbatim prefix.
pub open spec fn plain_base(base: Seq<char>) -> bool {
    !(base.len() >= 2 && is_separator(base[0]) && is_separator(base[1]))
}

/// A relative path without a drive letter.
pub open spec fn plain_tail(tail: Seq<char>) -> bool {
    tail.len() > 0 && !is_separator(tail[0]) && !tail.contains(':')
}

/// A name that is one part of a path on every machine.
pub open spec fn plain_name(name: Seq<char>) -> bool {
    &&& name.len() > 0
    &&& name != seq!['.']
    &&& name != seq!['.', '.']
    &&& !name.contains('/')
    &&& !name.contains('\\')
    &&& !name.contains(':')
}

/// The text after the last slash.
pub open spec fn last_segment(path: Seq<char>) -> Seq<char>
    decreases path.len(),
{
    if path.len() == 0 || path.last() == '/' {
        Seq::empty()
    } else {
        last_segment(path.drop_last()).push(path.last())
    }
}

/// A relative path whose parts, between single slashes, are plain names.
pub open spec fn plain_relative(path: Seq<char>) -> bool
    decreases path.len(),
{
    let name = last_segment(path);
    &&& plain_name(name)
    &&& name.len() < path.len() ==> plain_relative(path.take(path.len() - name.len() - 1))
}

/// A relative path of plain names, or such a path below the root.
pub open spec fn plain_path(path: Seq<char>) -> bool {
    plain_relative(path) || (path.len() > 1 && path[0] == '/' && plain_relative(path.skip(1)))
}

/// A path without the slash that it may end in.
pub open spec fn untrailed(path: Seq<char>) -> Seq<char> {
    if path.len() > 1 && path.last() == '/' {
        path.drop_last()
    } else {
        path
    }
}

/// What is left of a path behind a directory that it lies in, by their texts.
pub open spec fn left_below(path: Seq<char>, base: Seq<char>) -> Option<Seq<char>> {
    if path == base {
        Some(Seq::empty())
    } else if path.len() > base.len() && path.take(base.len() as int) == base
        && path[base.len() as int] == '/' {
        Some(path.skip(base.len() as int + 1))
    } else {
        None
    }
}

/// What stands between a directory and a path below it.
pub enum Joint {
    Nothing,
    Slash,
    Backslash,
}

/// Whether a machine can join something to a directory in this way. Nothing stands between them
/// only where the directory's path is empty, or ends in a separator or a drive letter; and no
/// separator is put behind one that the machine takes for a separator.
pub open spec fn joint_fits(joint: Joint, base: Seq<char>) -> bool {
    match joint {
        Joint::Nothing => base.len() == 0 || is_separator(base.last()) || base.last() == ':',
        Joint::Slash => base.len() > 0 && base.last() != '/',
        Joint::Backslash => base.len() > 0 && !is_separator(base.last()),
    }
}

/// A directory and a path below it, joined in a way.
pub open spec fn joined_by(joint: Joint, base: Seq<char>, tail: Seq<char>) -> Seq<char> {
    match joint {
        Joint::Nothing => base + tail,
        Joint::Slash => base + seq!['/'] + tail,
        Joint::Backslash => base + seq!['\\'] + tail,
    }
}

/// `joined` is `base` followed by `tail`, with a separator between them unless `base` is empty or
/// ends in one, or in a drive letter.
pub open spec fn adjoined(joined: Seq<char>, base: Seq<char>, tail: Seq<char>) -> bool {
    exists|joint: Joint| joint_fits(joint, base) && joined == #[trigger] joined_by(joint, base, tail)
}

/// A path below a directory, from [`std::path::Path::join`].
///
/// What it claims: a relative path is put behind the directory, with a separator between them
/// unless the directory's path is empty or ends in one. Which separator the machine uses stays
/// open, and so does everything about absolute paths, drive letters and network directories.
#[verifier::external_body]
fn std_join(base: &str, tail: &str) -> (r: String)
    ensures
        plain_base(base@) && plain_tail(tail@) ==> adjoined(r@, base@, tail@),
{
    std::path::Path::new(base).join(tail).to_string_lossy().into_owned()
}

/// The machine can take `joined` for a path below a directory.
pub closed spec fn reads_joined(base: Seq<char>, tail: Seq<char>, joined: Seq<char>) -> bool {
    exists|b: &str, t: &str, j: String|
        {
            &&& b@ == base
            &&& t@ == tail
            &&& j@ == joined
            &&& #[trigger] call_ensures(std_join, (b, t), j)
        }
}

/// A path below a directory.
pub(crate) fn join_path(base: &str, tail: &str) -> (r: String)
    ensures
        reads_joined(base@, tail@, r@),
        plain_base(base@) && plain_tail(tail@) ==> adjoined(r@, base@, tail@),
{
    std_join(base, tail)
}

/// The text between the last slashes of a path, or behind the last where it does not end in one.
pub open spec fn end_of(path: Seq<char>) -> Seq<char> {
    last_segment(untrailed(path))
}

/// A path that ends in a plain name, up to a slash.
pub open spec fn ends_plain(path: Seq<char>) -> bool {
    plain_base(path) && plain_name(end_of(path))
}

/// The last part of a path, from [`std::path::Path::file_name`].
///
/// What it claims: where a path ends in a plain name, up to a slash, that is its last part; and a
/// path that ends in the parent of a directory has none. What other separators and prefixes mean
/// to the machine stays open.
#[verifier::external_body]
fn std_file_name(path: &str) -> (r: Option<String>)
    ensures
        ends_plain(path@) ==> r.deep_view() == Some(end_of(path@)),
        plain_base(path@) && end_of(path@) == seq!['.', '.'] ==> r is None,
{
    std::path::Path::new(path).file_name().map(|n| n.to_string_lossy().into_owned())
}

/// The machine can take `name` for the last part of a path.
pub closed spec fn reads_name(path: Seq<char>, name: Option<Seq<char>>) -> bool {
    exists|p: &str, n: Option<String>|
        p@ == path && n.deep_view() == name && #[trigger] call_ensures(std_file_name, (p,), n)
}

/// The last part of a path.
pub(crate) fn file_name_of(path: &str) -> (r: Option<String>)
    ensures
        reads_name(path@, r.deep_view()),
        ends_plain(path@) ==> r.deep_view() == Some(end_of(path@)),
        plain_base(path@) && end_of(path@) == seq!['.', '.'] ==> r is None,
{
    std_file_name(path)
}

/// The two paths end in plain names that differ.
pub open spec fn ends_apart(a: Seq<char>, b: Seq<char>) -> bool {
    &&& plain_base(a) && plain_name(last_segment(a))
    &&& plain_base(b) && plain_name(last_segment(b))
    &&& last_segment(a) != last_segment(b)
}

/// Two paths that have the same parts on every machine.
pub open spec fn surely_same(a: Seq<char>, b: Seq<char>) -> bool {
    a == b || (plain_path(untrailed(a)) && untrailed(a) == untrailed(b))
}

/// Two paths that do not have the same parts on any machine.
pub open spec fn surely_apart(a: Seq<char>, b: Seq<char>) -> bool {
    ends_apart(a, b) || (plain_path(untrailed(a)) && plain_path(untrailed(b)) && untrailed(a)
        != untrailed(b))
}

/// Whether two paths have the same parts, from the equality of [`std::path::Path`].
///
/// What it claims: a path has the same parts as itself; paths of plain names have the same parts
/// just where their texts are the same but for a slash at the end; and paths that end in different
/// plain names do not have the same parts. Which other texts stand for the same parts is up to the
/// machine.
#[verifier::external_body]
fn std_same(a: &str, b: &str) -> (r: bool)
    ensures
        surely_same(a@, b@) ==> r,
        surely_apart(a@, b@) ==> !r,
{
    std::path::Path::new(a) == std::path::Path::new(b)
}

/// The machine can take two paths for the same, or for different ones.
pub closed spec fn reads_same(a: Seq<char>, b: Seq<char>, same: bool) -> bool {
    exists|x: &str, y: &str| x@ == a && y@ == b && #[trigger] call_ensures(std_same, (x, y), same)
}

/// Whether two paths have the same parts.
pub(crate) fn same_path(a: &str, b: &str) -> (r: bool)
    ensures
        reads_same(a@, b@, r),
        surely_same(a@, b@) ==> r,
        surely_apart(a@, b@) ==> !r,
{
    std_same(a, b)
}

/// What is surely the same, or surely not, no machine takes otherwise.
pub proof fn lemma_reads_same(a: Seq<char>, b: Seq<char>, same: bool)
    requires
        reads_same(a, b, same),
    ensures
        surely_same(a, b) ==> same,
        surely_apart(a, b) ==> !same,
{
}

/// `path` is a plain name directly below `base`, whose own last part is a plain name.
pub open spec fn directly_below(path: Seq<char>, base: Seq<char>) -> bool {
    &&& plain_base(path) && plain_name(last_segment(base))
    &&& exists|name: Seq<char>|
        plain_name(name) && path == #[trigger] (base + seq!['/'] + name)
}

/// The directory that a path lies in, from [`std::path::Path::parent`].
///
/// What it claims: a plain name directly below a directory lies in that directory, and a plain
/// name alone in the directory with the empty path. What the parts of other paths are is up to the
/// machine.
#[verifier::external_body]
fn std_parent(path: &str) -> (r: Option<String>)
    ensures
        forall|base: Seq<char>| #[trigger] directly_below(path@, base) ==> r.deep_view() == Some(base),
        plain_name(path@) ==> r.deep_view() == Some(Seq::<char>::empty()),
{
    std::path::Path::new(path).parent().map(|p| p.to_string_lossy().into_owned())
}

/// The machine can take `parent` for the directory that a path lies in.
pub closed spec fn reads_parent(path: Seq<char>, parent: Option<Seq<char>>) -> bool {
    exists|p: &str, d: Option<String>|
        p@ == path && d.deep_view() == parent && #[trigger] call_ensures(std_parent, (p,), d)
}

/// The directory that a path lies in.
pub(crate) fn parent_of(path: &str) -> (r: Option<String>)
    ensures
        reads_parent(path@, r.deep_view()),
        forall|base: Seq<char>| #[trigger] directly_below(path@, base) ==> r.deep_view() == Some(base),
        plain_name(path@) ==> r.deep_view() == Some(Seq::<char>::empty()),
{
    std_parent(path)
}

/// Whether a path is relative, from [`std::path::Path::is_relative`].
///
/// What it claims: a path that starts with neither a separator nor a drive letter is
/// relative. Which other paths are is up to the machine.
#[verifier::external_body]
fn std_is_relative(path: &str) -> (r: bool)
    ensures
        plain_tail(path@) ==> r,
{
    std::path::Path::new(path).is_relative()
}

/// The machine can take a path for a relative one, or for one that is not.
pub closed spec fn reads_relative(path: Seq<char>, relative: bool) -> bool {
    exists|p: &str| p@ == path && #[trigger] call_ensures(std_is_relative, (p,), relative)
}

/// Whether a path is relative.
pub(crate) fn is_relative_path(path: &str) -> (r: bool)
    ensures
        reads_relative(path@, r),
        plain_tail(path@) ==> r,
{
    std_is_relative(path)
}

/// `left` is what is left of a path behind a directory, as far as that is the same on every
/// machine: by their texts for paths of plain names, and for a plain name directly below any
/// directory.
pub open spec fn is_left_below(left: Option<Seq<char>>, path: Seq<char>, base: Seq<char>) -> bool {
    &&& plain_path(path) && plain_path(untrailed(base)) ==> left == left_below(
        path,
        untrailed(base),
    )
    &&& forall|name: Seq<char>|
        #![trigger base + seq!['/'] + name]
        plain_base(path) && base.len() > 0 && base.last() != ':' && plain_name(name) && path == base
            + seq!['/'] + name ==> left == Some(name)
}

/// What is left of a path behind a directory that it lies in, from
/// [`std::path::Path::strip_prefix`].
///
/// What it claims: of a path of plain names, what follows the directory's path, where that is the
/// start of it and a whole number of parts, and else nothing; and a plain name directly below any
/// directory is what is left of it. The rest depends on what the machine takes to be the parts of a
/// path.
#[verifier::external_body]
fn std_strip_prefix(path: &str, base: &str) -> (r: Option<String>)
    ensures
        is_left_below(r.deep_view(), path@, base@),
{
    std::path::Path::new(path).strip_prefix(base).ok().map(|p| p.to_string_lossy().into_owned())
}

/// The machine can take `left` for what is left of a path behind a directory.
pub closed spec fn reads_left(path: Seq<char>, base: Seq<char>, left: Option<Seq<char>>) -> bool {
    exists|p: &str, b: &str, l: Option<String>|
        {
            &&& p@ == path
            &&& b@ == base
            &&& l.deep_view() == left
            &&& #[trigger] call_ensures(std_strip_prefix, (p, b), l)
        }
}

/// What is left of a path behind a directory that it lies in.
pub(crate) fn strip_path_prefix(path: &str, base: &str) -> (r: Option<String>)
    ensures
        reads_left(path@, base@, r.deep_view()),
        is_left_below(r.deep_view(), path@, base@),
{
    std_strip_prefix(path, base)
}

/// A relative path of plain names starts with neither a separator nor a drive letter.
pub proof fn lemma_plain_relative(path: Seq<char>)
    requires
        plain_relative(path),
    ensures
        plain_tail(path),
        !path.contains('\\'),
    decreases path.len(),
{
    let name = last_segment(path);
    lemma_last_segment(path);
    if name.len() < path.len() {
        let head = path.take(path.len() - name.len() - 1);
        lemma_plain_relative(head);
        assert(head.len() > 0);
        assert(path[0] == head[0]);
        assert forall|i: int| 0 <= i < path.len() implies path[i] != ':' && path[i] != '\\' by {
            if i < head.len() {
                assert(head[i] == path[i]);
                assert(head.contains(head[i]));
            } else if i > head.len() {
                assert(path[i] == name[i - head.len() - 1]);
                assert(name.contains(name[i - head.len() - 1]));
            }
        }
    } else {
        assert(path =~= name);
        assert(name.contains(name[0]));
    }
}

/// A path ends in its last segment, and what comes before that is a slash.
pub proof fn lemma_last_segment(path: Seq<char>)
    ensures
        last_segment(path).len() <= path.len(),
        path.skip(path.len() - last_segment(path).len()) == last_segment(path),
        last_segment(path).len() < path.len() ==> path[path.len() - last_segment(path).len() - 1]
            == '/',
        !last_segment(path).contains('/'),
    decreases path.len(),
{
    if path.len() == 0 || path.last() == '/' {
        assert(path.skip(path.len() as int) =~= Seq::empty());
    } else {
        let rest = path.drop_last();
        lemma_last_segment(rest);
        let inner = last_segment(rest);
        let all = last_segment(path);
        assert(all == inner.push(path.last()));
        assert(path.skip(path.len() - all.len()) =~= rest.skip(rest.len() - inner.len()).push(
            path.last(),
        ));
        assert forall|i: int| 0 <= i < all.len() implies all[i] != '/' by {
            if i < inner.len() {
                assert(inner.contains(inner[i]));
            }
        }
    }
}

/// `out` with the parts of a slash-separated path behind it, each part but the very first of
/// an empty `out` behind a separator. `open` says whether the last part goes on.
pub open spec fn extended(out: Seq<char>, open: bool, rel: Seq<char>, sep: char) -> Seq<char>
    decreases rel.len(),
{
    if rel.len() == 0 {
        out
    } else if rel[0] == '/' {
        extended(out, false, rel.drop_first(), sep)
    } else if open || out.len() == 0 {
        extended(out.push(rel[0]), true, rel.drop_first(), sep)
    } else {
        extended(out.push(sep).push(rel[0]), true, rel.drop_first(), sep)
    }
}

/// The path of a file that is named relative to a directory, from
/// [`relative_path::RelativePath::to_path`].
///
/// What it claims: the non-empty parts of the relative path are put behind the directory,
/// each behind the machine's separator. Which of the two separators that is stays open.
#[verifier::external_body]
pub(crate) fn relative_to_path(rel: &str, base: &str) -> (r: String)
    ensures
        r@ == extended(base@, false, rel@, '/') || r@ == extended(base@, false, rel@, '\\'),
{
    relative_path::RelativePath::new(rel).to_path(base).to_string_lossy().into_owned()
}

} // verus!
