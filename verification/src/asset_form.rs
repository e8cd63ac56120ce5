//! The form in which the assets of a source arrive.
use crate::paths::file_name_of;
#[allow(unused_imports)]
use crate::paths::{
    end_of, ends_plain, last_segment, plain_base, plain_name, reads_name, untrailed,
};
use crate::sources::SourceKind;
#[allow(unused_imports)]
use crate::text::{
    law_upper_case_is_ignored, lemma_same_marks, lemma_same_parts, lower_seq, same_ignoring_case,
    upper_seq,
};
use crate::text::{chars_of, eq_ignore_ascii_case};
use vstd::prelude::*;
#[allow(unused_imports)]
use vstd::string::*;

verus! {

/// What becomes of a download.
#[derive(Clone, Copy, PartialEq, Eq, Structural, Hash, Debug)]
pub enum RemoteAssetForm {
    /// It is kept as it is.
    File,
    /// It is unpacked.
    Tarball,
}

/// The place of the last dot of a name, or -1.
pub open spec fn last_dot(name: Seq<char>) -> int
    decreases name.len(),
{
    if name.len() == 0 {
        -1
    } else if name.last() == '.' {
        name.len() - 1
    } else {
        last_dot(name.drop_last())
    }
}

/// What follows the last dot of a file name, unless the dot is the first character.
pub open spec fn extension_of(name: Seq<char>) -> Option<Seq<char>> {
    if last_dot(name) <= 0 || name == seq!['.', '.'] {
        None
    } else {
        Some(name.skip(last_dot(name) + 1))
    }
}

/// A file name without its extension.
pub open spec fn stem_of(name: Seq<char>) -> Seq<char> {
    match extension_of(name) {
        Some(_) => name.take(last_dot(name)),
        None => name,
    }
}

/// Whether an extension is the given one, up to the case of ASCII letters.
pub open spec fn has_extension(ext: Option<Seq<char>>, expected: Seq<char>) -> bool {
    ext is Some && same_ignoring_case(ext->0, expected)
}

/// What becomes of an asset, given the extension of its name and the extension before that.
pub open spec fn asset_form(
    kind: SourceKind,
    ext: Option<Seq<char>>,
    inner: Option<Seq<char>>,
) -> Option<RemoteAssetForm> {
    let file = match kind {
        SourceKind::Addon => has_extension(ext, "dll"@),
        SourceKind::DataSources => has_extension(ext, "toml"@) || has_extension(ext, "json"@),
        SourceKind::Pathing => has_extension(ext, "zip"@) || has_extension(ext, "taco"@),
        SourceKind::Timers => has_extension(ext, "bhtimer"@),
        SourceKind::Markers => has_extension(ext, "json"@) || has_extension(ext, "markers"@),
        SourceKind::Unspecified => true,
    };
    let tarball = kind == SourceKind::Timers && (has_extension(ext, "tgz"@) || (has_extension(
        ext,
        "gz"@,
    ) && has_extension(inner, "tar"@)) || has_extension(ext, "tar"@));
    if tarball {
        Some(RemoteAssetForm::Tarball)
    } else if file {
        Some(RemoteAssetForm::File)
    } else {
        None
    }
}

/// What becomes of an asset with the given file name.
pub open spec fn named_asset_form(kind: SourceKind, name: Seq<char>) -> Option<RemoteAssetForm> {
    asset_form(kind, extension_of(name), extension_of(stem_of(name)))
}

/// What becomes of an asset, given what the machine takes for the last part of its file name, and
/// for the last part of that without its extension.
pub open spec fn read_asset_form(
    kind: SourceKind,
    name: Option<Seq<char>>,
    inner: Option<Seq<char>>,
) -> Option<RemoteAssetForm> {
    asset_form(
        kind,
        match name {
            Some(n) => extension_of(n),
            None => None,
        },
        match inner {
            Some(n) => extension_of(n),
            None => None,
        },
    )
}

/// `form` is what becomes of an asset with a file name that ends in the given last part.
pub open spec fn is_form_of_name(
    kind: SourceKind,
    name: Seq<char>,
    form: Option<RemoteAssetForm>,
) -> bool {
    exists|inner: Option<Seq<char>>| #[trigger]
        reads_name(stem_of(name), inner) && form == read_asset_form(kind, Some(name), inner)
}

/// `form` is what becomes of an asset with the given file name, directories and all.
pub open spec fn is_form_of(
    kind: SourceKind,
    filename: Seq<char>,
    form: Option<RemoteAssetForm>,
) -> bool {
    exists|name: Option<Seq<char>>| #[trigger]
        reads_name(filename, name) && match name {
            Some(n) => is_form_of_name(kind, n, form),
            None => form == read_asset_form(kind, None, None),
        }
}

/// A path whose last part, and that part without its extension, are plain names.
pub open spec fn settled_name(filename: Seq<char>) -> bool {
    ends_plain(filename) && plain_name(stem_of(end_of(filename)))
}

proof fn lemma_last_dot(name: Seq<char>, d: int)
    requires
        -1 <= d < name.len(),
        d >= 0 ==> name[d] == '.',
        forall|j: int| d < j < name.len() ==> name[j] != '.',
    ensures
        last_dot(name) == d,
    decreases name.len(),
{
    if name.len() > 0 && d < name.len() - 1 {
        assert(name[name.len() - 1] != '.');
        lemma_last_dot(name.drop_last(), d);
    }
}

/// The extension of a file name and what comes before it.
pub(crate) fn split_name(name: &str) -> (r: (String, Option<String>))
    ensures
        r.0@ == stem_of(name@),
        r.1.deep_view() == extension_of(name@),
{
    let chars = chars_of(name);
    let n = chars.len();
    let mut i: usize = n;
    while i > 0
        invariant
            i <= n,
            chars@ == name@,
            n == chars@.len(),
            forall|j: int| i <= j < n ==> chars@[j] != '.',
        decreases i,
    {
        i -= 1;
        if chars[i] == '.' {
            proof {
                lemma_last_dot(name@, i as int);
            }
            if i == 0 || (n == 2 && i == 1 && chars[0] == '.') {
                proof {
                    if i == 1 {
                        assert(name@ =~= seq!['.', '.']);
                    }
                }
                return (name.to_owned(), None);
            }
            proof {
                if name@ == seq!['.', '.'] {
                    assert(name@[0] == '.');
                }
            }
            let stem = name.substring_char(0, i).to_owned();
            let ext = name.substring_char(i + 1, n).to_owned();
            proof {
                assert(stem@ =~= name@.take(i as int));
                assert(ext@ =~= name@.skip(i + 1));
            }
            return (stem, Some(ext));
        }
    }
    proof {
        lemma_last_dot(name@, -1);
    }
    (name.to_owned(), None)
}

fn is_ext(ext: &Option<String>, expected: &str) -> (r: bool)
    ensures
        r == has_extension(ext.deep_view(), expected@),
{
    match ext {
        Some(e) => eq_ignore_ascii_case(e.as_str(), expected),
        None => false,
    }
}

impl RemoteAssetForm {
    /// A file.
    pub const FILE: RemoteAssetForm = RemoteAssetForm::File;

    /// A compressed archive.
    pub const TAR_GZ: RemoteAssetForm = RemoteAssetForm::Tarball;

    /// An archive.
    pub const TAR: RemoteAssetForm = RemoteAssetForm::Tarball;

    /// The content type of anything.
    pub const CONTENT_TYPE_BINARY: &'static str = "application/octet-stream";

    /// What becomes of an asset, given the extension of its name and the extension before that.
    pub fn for_extensions(
        kind: SourceKind,
        ext: &Option<String>,
        inner: &Option<String>,
    ) -> (r: Option<RemoteAssetForm>)
        ensures
            r == asset_form(kind, ext.deep_view(), inner.deep_view()),
    {
        match kind {
            SourceKind::Addon => if is_ext(ext, "dll") {
                Some(RemoteAssetForm::FILE)
            } else {
                None
            },
            SourceKind::DataSources => if is_ext(ext, "toml") || is_ext(ext, "json") {
                Some(RemoteAssetForm::FILE)
            } else {
                None
            },
            SourceKind::Pathing => if is_ext(ext, "zip") || is_ext(ext, "taco") {
                Some(RemoteAssetForm::FILE)
            } else {
                None
            },
            SourceKind::Timers => if is_ext(ext, "tgz") || (is_ext(ext, "gz") && is_ext(
                inner,
                "tar",
            )) {
                Some(RemoteAssetForm::TAR_GZ)
            } else if is_ext(ext, "tar") {
                Some(RemoteAssetForm::TAR)
            } else if is_ext(ext, "bhtimer") {
                Some(RemoteAssetForm::FILE)
            } else {
                None
            },
            SourceKind::Markers => if is_ext(ext, "json") || is_ext(ext, "markers") {
                Some(RemoteAssetForm::FILE)
            } else {
                None
            },
            SourceKind::Unspecified => Some(RemoteAssetForm::FILE),
        }
    }

    /// What becomes of an asset with the given file name, if it is of use at all.
    ///
    /// Where the machine finds the parts of the name is as [`crate::paths`] says; for a plain
    /// name the answer is settled. The content type makes no difference.
    pub fn with_asset(kind: SourceKind, filename: &str, _content_type: &str) -> (r: Option<
        RemoteAssetForm,
    >)
        ensures
            settled_name(filename@) ==> r == named_asset_form(kind, end_of(filename@)),
            is_form_of(kind, filename@, r),
    {
        let ghost segment = end_of(filename@);
        let (stem, ext) = match file_name_of(filename) {
            Some(name) => {
                let (stem, ext) = split_name(name.as_str());
                (Some(stem), ext)
            },
            None => (None, None),
        };
        let inner = match &stem {
            Some(s) => match file_name_of(s.as_str()) {
                Some(name) => {
                    let (_, inner) = split_name(name.as_str());
                    inner
                },
                None => None,
            },
            None => None,
        };
        proof {
            if settled_name(filename@) {
                lemma_plain_segment(stem_of(segment));
            }
        }
        RemoteAssetForm::for_extensions(kind, &ext, &inner)
    }

    /// What becomes of an archive of a source's files, if the kind takes archives.
    pub fn for_source_archive(self, kind: SourceKind) -> (r: Option<RemoteAssetForm>)
        ensures
            r == (match kind {
                SourceKind::Pathing | SourceKind::Timers | SourceKind::Markers => Some(self),
                _ => None,
            }),
    {
        match kind {
            SourceKind::Pathing | SourceKind::Timers | SourceKind::Markers => Some(self),
            _ => None,
        }
    }
}

proof fn lemma_last_segment_whole(path: Seq<char>)
    requires
        !path.contains('/'),
    ensures
        last_segment(path) == path,
    decreases path.len(),
{
    if path.len() > 0 {
        assert(path[path.len() - 1] != '/');
        assert forall|i: int| 0 <= i < path.drop_last().len() implies path.drop_last()[i] != '/' by {
            assert(path[i] != '/');
        }
        lemma_last_segment_whole(path.drop_last());
        assert(path.drop_last().push(path.last()) =~= path);
    }
}

proof fn lemma_plain_segment(name: Seq<char>)
    requires
        plain_name(name),
    ensures
        plain_base(name),
        last_segment(name) == name,
{
    lemma_last_segment_whole(name);
    if name.len() >= 2 {
        assert(name[0] != '/' && name[0] != '\\');
    }
}

/// The case of the letters of an extension makes no difference to what becomes of the asset.
pub proof fn law_case_does_not_matter(
    kind: SourceKind,
    ext: Option<Seq<char>>,
    other: Option<Seq<char>>,
    inner: Option<Seq<char>>,
)
    requires
        ext is Some <==> other is Some,
        ext is Some ==> same_ignoring_case(ext->0, other->0),
    ensures
        asset_form(kind, ext, inner) == asset_form(kind, other, inner),
{
}

proof fn lemma_same_dots(a: Seq<char>, b: Seq<char>)
    requires
        same_ignoring_case(a, b),
    ensures
        last_dot(a) == last_dot(b),
        -1 <= last_dot(a) < a.len(),
    decreases a.len(),
{
    lemma_same_marks(a, b, '.');
    if a.len() > 0 {
        assert(a[a.len() - 1] == '.' <==> b[a.len() - 1] == '.');
        if a.last() != '.' {
            lemma_same_parts(a, b, 0, a.len() - 1);
            assert(a.subrange(0, a.len() - 1) =~= a.drop_last());
            assert(b.subrange(0, a.len() - 1) =~= b.drop_last());
            lemma_same_dots(a.drop_last(), b.drop_last());
        }
    }
}

proof fn lemma_same_split(a: Seq<char>, b: Seq<char>)
    requires
        same_ignoring_case(a, b),
    ensures
        same_ignoring_case(stem_of(a), stem_of(b)),
        extension_of(a) is Some <==> extension_of(b) is Some,
        extension_of(a) is Some ==> same_ignoring_case(extension_of(a)->0, extension_of(b)->0),
{
    lemma_same_dots(a, b);
    lemma_same_marks(a, b, '.');
    let dots = seq!['.', '.'];
    if a == dots {
        assert(a[0] == '.' && a[1] == '.');
        assert(b =~= dots);
    }
    if b == dots {
        assert(b[0] == '.' && b[1] == '.');
        assert(a[0] == '.' && a[1] == '.');
        assert(a =~= dots);
    }
    let d = last_dot(a);
    if d > 0 && a != dots {
        lemma_same_parts(a, b, 0, d);
        lemma_same_parts(a, b, d + 1, a.len() as int);
        assert(a.subrange(0, d) =~= a.take(d));
        assert(b.subrange(0, d) =~= b.take(d));
        assert(a.subrange(d + 1, a.len() as int) =~= a.skip(d + 1));
        assert(b.subrange(d + 1, b.len() as int) =~= b.skip(d + 1));
    }
}

proof fn lemma_same_segment(a: Seq<char>, b: Seq<char>)
    requires
        same_ignoring_case(a, b),
    ensures
        same_ignoring_case(last_segment(a), last_segment(b)),
    decreases a.len(),
{
    lemma_same_marks(a, b, '/');
    if a.len() > 0 {
        assert(a[a.len() - 1] == '/' <==> b[a.len() - 1] == '/');
        if a.last() != '/' {
            let x = a.drop_last();
            let y = b.drop_last();
            lemma_same_parts(a, b, 0, a.len() - 1);
            assert(a.subrange(0, a.len() - 1) =~= x);
            assert(b.subrange(0, a.len() - 1) =~= y);
            lemma_same_segment(x, y);
            assert(lower_seq(a)[a.len() - 1] == lower_seq(b)[a.len() - 1]);
            assert(lower_seq(last_segment(x).push(a.last())) =~= lower_seq(last_segment(x)).push(
                lower_seq(a)[a.len() - 1],
            ));
            assert(lower_seq(last_segment(y).push(b.last())) =~= lower_seq(last_segment(y)).push(
                lower_seq(b)[a.len() - 1],
            ));
        }
    }
}

proof fn lemma_same_plain(a: Seq<char>, b: Seq<char>)
    requires
        same_ignoring_case(a, b),
    ensures
        plain_name(a) == plain_name(b),
        plain_base(a) == plain_base(b),
{
    lemma_same_marks(a, b, '.');
    lemma_same_marks(a, b, '/');
    lemma_same_marks(a, b, '\\');
    lemma_same_marks(a, b, ':');
    let dot = seq!['.'];
    let dots = seq!['.', '.'];
    assert((a == dot) == (b == dot)) by {
        if a == dot {
            assert(a[0] == '.');
            assert(b =~= dot);
        }
        if b == dot {
            assert(b[0] == '.');
            assert(a[0] == '.');
            assert(a =~= dot);
        }
    }
    assert((a == dots) == (b == dots)) by {
        if a == dots {
            assert(a[0] == '.' && a[1] == '.');
            assert(b =~= dots);
        }
        if b == dots {
            assert(b[0] == '.' && b[1] == '.');
            assert(a[0] == '.' && a[1] == '.');
            assert(a =~= dots);
        }
    }
    if a.len() >= 2 {
        assert((a[0] == '/') == (b[0] == '/'));
        assert((a[1] == '/') == (b[1] == '/'));
        assert((a[0] == '\\') == (b[0] == '\\'));
        assert((a[1] == '\\') == (b[1] == '\\'));
    }
}

/// The case of the letters of a whole file name, directories and all, makes no difference to what
/// becomes of the asset, nor to whether the name settles it.
pub proof fn law_case_of_names_does_not_matter(kind: SourceKind, a: Seq<char>, b: Seq<char>)
    requires
        same_ignoring_case(a, b),
    ensures
        settled_name(a) == settled_name(b),
        named_asset_form(kind, end_of(a)) == named_asset_form(kind, end_of(b)),
{
    let x = end_of(a);
    let y = end_of(b);
    lemma_same_marks(a, b, '/');
    if a.len() > 1 && a.last() == '/' {
        assert(a[a.len() - 1] == '/' <==> b[a.len() - 1] == '/');
        lemma_same_parts(a, b, 0, a.len() - 1);
        assert(a.subrange(0, a.len() - 1) =~= untrailed(a));
        assert(b.subrange(0, a.len() - 1) =~= untrailed(b));
    } else if a.len() > 1 {
        assert(a[a.len() - 1] == '/' <==> b[a.len() - 1] == '/');
    }
    lemma_same_segment(untrailed(a), untrailed(b));
    lemma_same_plain(a, b);
    lemma_same_plain(x, y);
    lemma_same_split(x, y);
    lemma_same_plain(stem_of(x), stem_of(y));
    lemma_same_split(stem_of(x), stem_of(y));
}

/// Two readings of a name that differ in the case of their letters at most.
pub open spec fn same_reading(a: Option<Seq<char>>, b: Option<Seq<char>>) -> bool {
    &&& a is Some <==> b is Some
    &&& a is Some ==> same_ignoring_case(a->0, b->0)
}

/// Whatever the machine takes for the parts of a file name, the case of their letters makes no
/// difference to what becomes of the asset.
pub proof fn law_case_of_readings_does_not_matter(
    kind: SourceKind,
    name: Option<Seq<char>>,
    other: Option<Seq<char>>,
    inner: Option<Seq<char>>,
    other_inner: Option<Seq<char>>,
)
    requires
        same_reading(name, other),
        same_reading(inner, other_inner),
    ensures
        read_asset_form(kind, name, inner) == read_asset_form(kind, other, other_inner),
{
    if name is Some {
        lemma_same_split(name->0, other->0);
    }
    if inner is Some {
        lemma_same_split(inner->0, other_inner->0);
    }
}

/// A file name in capitals becomes what it becomes as it stands.
pub proof fn law_upper_case_names(kind: SourceKind, name: Seq<char>)
    ensures
        settled_name(upper_seq(name)) == settled_name(name),
        named_asset_form(kind, end_of(upper_seq(name))) == named_asset_form(kind, end_of(name)),
{
    law_upper_case_is_ignored(name);
    law_case_of_names_does_not_matter(kind, upper_seq(name), name);
}

/// Only timers are unpacked.
pub proof fn law_only_timers_unpack(
    kind: SourceKind,
    ext: Option<Seq<char>>,
    inner: Option<Seq<char>>,
)
    requires
        asset_form(kind, ext, inner) == Some(RemoteAssetForm::Tarball),
    ensures
        kind == SourceKind::Timers,
{
}

/// A name that ends in a dot and the given text, up to the case of the letters, behind something.
pub open spec fn ends_in_extension(name: Seq<char>, ext: Seq<char>) -> bool {
    &&& name.len() > ext.len() + 1
    &&& name[name.len() - ext.len() - 1] == '.'
    &&& same_ignoring_case(name.skip(name.len() - ext.len()), ext)
}

/// A name has an extension just where it ends in it, behind a dot and something before that.
pub proof fn law_extension_is_the_end(name: Seq<char>, ext: Seq<char>)
    requires
        !ext.contains('.'),
        ext.len() > 0,
    ensures
        has_extension(extension_of(name), ext) <==> ends_in_extension(name, ext),
{
    lemma_last_dot_is_one(name);
    let d = last_dot(name);
    if has_extension(extension_of(name), ext) {
        let end = name.skip(d + 1);
        assert(lower_seq(end).len() == end.len());
        assert(lower_seq(ext).len() == ext.len());
    }
    if ends_in_extension(name, ext) {
        let p = name.len() - ext.len() - 1;
        let end = name.skip(p + 1);
        lemma_same_marks(end, ext, '.');
        assert forall|j: int| p < j < name.len() implies name[j] != '.' by {
            assert(end[j - p - 1] == name[j]);
            assert(ext[j - p - 1] != '.');
        }
        lemma_last_dot(name, p);
        if name == seq!['.', '.'] {
            assert(name.len() == 2);
        }
    }
}

proof fn lemma_last_dot_is_one(name: Seq<char>)
    ensures
        -1 <= last_dot(name) < name.len(),
        last_dot(name) >= 0 ==> name[last_dot(name)] == '.',
        forall|j: int| last_dot(name) < j < name.len() ==> name[j] != '.',
    decreases name.len(),
{
    if name.len() > 0 && name.last() != '.' {
        lemma_last_dot_is_one(name.drop_last());
        assert forall|j: int| last_dot(name) < j < name.len() implies name[j] != '.' by {
            if j < name.len() - 1 {
                assert(name.drop_last()[j] == name[j]);
            }
        }
    }
}

/// A name is made up of its stem and, behind a dot, its extension; the extension has no dot, and
/// the stem is not empty. A name without an extension is its own stem, and has no dot, or just one
/// at its start, or is that of the directory above.
pub proof fn law_names_split(name: Seq<char>)
    ensures
        match extension_of(name) {
            Some(ext) => {
                &&& name == stem_of(name) + seq!['.'] + ext
                &&& !ext.contains('.')
                &&& stem_of(name).len() > 0
            },
            None => {
                &&& stem_of(name) == name
                &&& (forall|j: int| 0 < j < name.len() ==> name[j] != '.') || name == seq![
                    '.',
                    '.',
                ]
            },
        },
{
    lemma_last_dot_is_one(name);
    let d = last_dot(name);
    if extension_of(name) is Some {
        assert(name =~= stem_of(name) + seq!['.'] + name.skip(d + 1));
        let ext = name.skip(d + 1);
        if ext.contains('.') {
            let j = choose|j: int| 0 <= j < ext.len() && ext[j] == '.';
            assert(name[d + 1 + j] == '.');
        }
    }
}

/// What becomes of an asset is settled by its extension: each kind takes its own, whatever the case
/// of the letters, and unspecified data take all. Only timers come in archives, and of two
/// extensions in a row only the compressed archive's counts.
pub proof fn law_kinds_take_their_extensions(
    kind: SourceKind,
    ext: Option<Seq<char>>,
    inner: Option<Seq<char>>,
)
    ensures
        ({
            let form = asset_form(kind, ext, inner);
            let is = |e: Seq<char>| ext is Some && lower_seq(ext->0) == lower_seq(e);
            let packed = is("tgz"@) || is("tar"@) || (is("gz"@) && inner is Some && lower_seq(
                inner->0,
            ) == lower_seq("tar"@));
            &&& form == Some(RemoteAssetForm::Tarball) <==> kind == SourceKind::Timers && packed
            &&& form == Some(RemoteAssetForm::File) <==> {
                ||| kind == SourceKind::Unspecified
                ||| kind == SourceKind::Addon && is("dll"@)
                ||| kind == SourceKind::DataSources && (is("toml"@) || is("json"@))
                ||| kind == SourceKind::Pathing && (is("zip"@) || is("taco"@))
                ||| kind == SourceKind::Timers && is("bhtimer"@) && !packed
                ||| kind == SourceKind::Markers && (is("json"@) || is("markers"@))
            }
        }),
{
}

} // verus!
