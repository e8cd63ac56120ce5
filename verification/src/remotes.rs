//! Data that was installed from a source, and whether there is newer data.
use crate::paths::same_path;
#[allow(unused_imports)]
use crate::paths::{
    ends_apart, last_segment, lemma_last_segment, lemma_reads_same, plain_path, reads_same,
    surely_apart, surely_same, untrailed,
};
use crate::sources::{DeserializedSource, SourceKind};
use crate::text::str_eq;
use vstd::prelude::*;
#[allow(unused_imports)]
use vstd::string::*;

verus! {

/// Whether installed data is up to date.
pub enum NeedsUpdate {
    Unknown,
    /// Looking for a newer version failed.
    Error(String),
    /// Whether there is a newer version, and which version is the latest.
    Known(bool, String),
}

impl Default for NeedsUpdate {
    fn default() -> (r: NeedsUpdate)
        ensures
            r is Unknown,
    {
        NeedsUpdate::Unknown
    }
}

/// How pressing an update state is, for a host to colour it by.
#[derive(Clone, Copy, PartialEq, Eq, Structural, Debug)]
pub enum UpdateTone {
    Unknown,
    Error,
    Available,
    UpToDate,
}

impl NeedsUpdate {
    /// The key of the text that is shown for this state.
    pub fn label_ident(&self) -> (r: &'static str)
        ensures
            r@ == (match self {
                NeedsUpdate::Unknown => "unknown"@,
                NeedsUpdate::Error(_) => "error"@,
                NeedsUpdate::Known(true, _) => "available"@,
                NeedsUpdate::Known(false, _) => "up-to-date"@,
            }),
    {
        match self {
            NeedsUpdate::Unknown => "unknown",
            NeedsUpdate::Error(_) => "error",
            NeedsUpdate::Known(true, _) => "available",
            NeedsUpdate::Known(false, _) => "up-to-date",
        }
    }

    /// The text that is shown for this state, given what its key says to the user: an error and
    /// a new version are told behind it.
    pub fn text(&self, label: &str) -> (r: String)
        ensures
            r@ == (match self {
                NeedsUpdate::Error(e) => label@ + ": "@ + e@,
                NeedsUpdate::Known(true, id) => label@ + ": "@ + id@,
                _ => label@,
            }),
    {
        let mut out = label.to_owned();
        match self {
            NeedsUpdate::Error(e) => {
                out.append(": ");
                out.append(e.as_str());
            },
            NeedsUpdate::Known(true, id) => {
                out.append(": ");
                out.append(id.as_str());
            },
            _ => {},
        }
        out
    }

    /// How pressing this state is.
    pub fn tone(&self) -> (r: UpdateTone)
        ensures
            r == (match self {
                NeedsUpdate::Unknown => UpdateTone::Unknown,
                NeedsUpdate::Error(_) => UpdateTone::Error,
                NeedsUpdate::Known(true, _) => UpdateTone::Available,
                NeedsUpdate::Known(false, _) => UpdateTone::UpToDate,
            }),
    {
        match self {
            NeedsUpdate::Unknown => UpdateTone::Unknown,
            NeedsUpdate::Error(_) => UpdateTone::Error,
            NeedsUpdate::Known(true, _) => UpdateTone::Available,
            NeedsUpdate::Known(false, _) => UpdateTone::UpToDate,
        }
    }
}

/// Data of a kind from a source, and where it is installed.
pub struct RemoteState {
    pub kind: SourceKind,
    /// The name of the source among those of its kind.
    pub name: String,
    pub source: DeserializedSource,
    pub installed_path: Option<String>,
    pub needs_update: NeedsUpdate,
}

/// Whether data is of the given kind and from the source of the given name.
pub open spec fn is_datasource(remote: RemoteState, kind: SourceKind, name: Seq<char>) -> bool {
    remote.kind == kind && remote.name@ == name
}

/// `i` is the place of the first data of the given kind from the source of the given name.
pub open spec fn is_first_datasource(
    remotes: Seq<RemoteState>,
    kind: SourceKind,
    name: Seq<char>,
    i: int,
) -> bool {
    &&& 0 <= i < remotes.len()
    &&& is_datasource(remotes[i], kind, name)
    &&& forall|j: int| 0 <= j < i ==> !is_datasource(#[trigger] remotes[j], kind, name)
}

/// Whether there is data of the given kind from the source of the given name.
pub open spec fn has_datasource(
    remotes: Seq<RemoteState>,
    kind: SourceKind,
    name: Seq<char>,
) -> bool {
    exists|i: int| 0 <= i < remotes.len() && is_datasource(#[trigger] remotes[i], kind, name)
}

/// The place of the first data of the given kind from the source of the given name.
pub open spec fn first_datasource(
    remotes: Seq<RemoteState>,
    kind: SourceKind,
    name: Seq<char>,
) -> int {
    choose|i: int| is_first_datasource(remotes, kind, name, i)
}

proof fn lemma_first_datasource(
    remotes: Seq<RemoteState>,
    kind: SourceKind,
    name: Seq<char>,
    i: int,
)
    requires
        is_first_datasource(remotes, kind, name, i),
    ensures
        has_datasource(remotes, kind, name),
        first_datasource(remotes, kind, name) == i,
{
    let k = first_datasource(remotes, kind, name);
    assert(is_first_datasource(remotes, kind, name, k));
    if k < i {
        assert(!is_datasource(remotes[k], kind, name));
    } else if i < k {
        assert(!is_datasource(remotes[i], kind, name));
    }
}

/// Finds data by kind and source name.
pub fn lookup_datasource(remotes: &Vec<RemoteState>, kind: SourceKind, name: &str) -> (r: Option<
    usize,
>)
    ensures
        match r {
            Some(i) => has_datasource(remotes@, kind, name@) && first_datasource(
                remotes@,
                kind,
                name@,
            ) == i && i < remotes@.len() && is_datasource(remotes@[i as int], kind, name@),
            None => !has_datasource(remotes@, kind, name@),
        },
{
    let mut i: usize = 0;
    while i < remotes.len()
        invariant
            i <= remotes@.len(),
            forall|j: int| 0 <= j < i ==> !is_datasource(#[trigger] remotes@[j], kind, name@),
        decreases remotes@.len() - i,
    {
        if remotes[i].kind == kind && str_eq(remotes[i].name.as_str(), name) {
            proof {
                lemma_first_datasource(remotes@, kind, name@, i as int);
            }
            return Some(i);
        }
        i += 1;
    }
    None
}

/// The data with one record put in the place of the one of the same kind and source, or behind
/// the others where there is none.
pub open spec fn with_remote(remotes: Seq<RemoteState>, state: RemoteState) -> Seq<RemoteState> {
    if has_datasource(remotes, state.kind, state.name@) {
        remotes.update(first_datasource(remotes, state.kind, state.name@), state)
    } else {
        remotes.push(state)
    }
}

/// Puts a record in the place of the one of the same kind and source, or behind the others, and
/// tells where it is.
pub fn store_remote(remotes: &mut Vec<RemoteState>, state: RemoteState) -> (r: usize)
    ensures
        final(remotes)@ == with_remote(old(remotes)@, state),
        r < final(remotes)@.len(),
        final(remotes)@[r as int] == state,
{
    match lookup_datasource(remotes, state.kind, state.name.as_str()) {
        Some(i) => {
            remotes[i] = state;
            i
        },
        None => {
            let i = remotes.len();
            remotes.push(state);
            i
        },
    }
}

/// The outcome of looking for a newer version of data from one source.
pub struct UpdateReport {
    pub kind: SourceKind,
    pub name: String,
    pub state: NeedsUpdate,
}

/// The data after a report on one source. A report on an unknown source changes nothing.
pub open spec fn with_report(remotes: Seq<RemoteState>, report: UpdateReport) -> Seq<RemoteState> {
    if has_datasource(remotes, report.kind, report.name@) {
        let i = first_datasource(remotes, report.kind, report.name@);
        remotes.update(i, RemoteState { needs_update: report.state, ..remotes[i] })
    } else {
        remotes
    }
}

/// The data after reports, in their order.
pub open spec fn with_reports(remotes: Seq<RemoteState>, reports: Seq<UpdateReport>) -> Seq<
    RemoteState,
>
    decreases reports.len(),
{
    if reports.len() == 0 {
        remotes
    } else {
        with_report(with_reports(remotes, reports.drop_last()), reports.last())
    }
}

/// Takes reports on newer versions over, in their order.
pub fn apply_reports(remotes: &mut Vec<RemoteState>, reports: Vec<UpdateReport>)
    ensures
        final(remotes)@ == with_reports(old(remotes)@, reports@),
{
    let ghost all = reports@;
    let ghost before = remotes@;
    for report in it: reports
        invariant
            it.seq() == all,
            remotes@ == with_reports(before, all.take(it.index())),
    {
        proof {
            let k = it.index();
            assert(all.take(k + 1).drop_last() =~= all.take(k));
            assert(all.take(k + 1).last() == report);
        }
        match lookup_datasource(remotes, report.kind, report.name.as_str()) {
            Some(i) => {
                remotes[i].needs_update = report.state;
            },
            None => {},
        }
    }
    assert(all.take(all.len() as int) =~= all);
}

/// A source that an update check asks.
pub struct UpdateTarget {
    pub kind: SourceKind,
    pub name: String,
    pub source: DeserializedSource,
}

/// What an update check asks for one record: the source that is known by the record's kind and
/// name, or else the one that the record itself holds.
pub open spec fn update_target(
    remote: RemoteState,
    known: Option<DeserializedSource>,
) -> UpdateTarget {
    UpdateTarget {
        kind: remote.kind,
        name: remote.name,
        source: match known {
            Some(source) => source,
            None => remote.source,
        },
    }
}

/// The sources that an update check asks, among those that a filter keeps.
pub open spec fn update_targets(
    remotes: Seq<RemoteState>,
    keep: Seq<bool>,
    known: Seq<Option<DeserializedSource>>,
    n: nat,
) -> Seq<UpdateTarget>
    decreases n,
{
    if n == 0 {
        Seq::empty()
    } else {
        let before = update_targets(remotes, keep, known, (n - 1) as nat);
        if keep[n - 1] {
            before.push(update_target(remotes[n - 1], known[n - 1]))
        } else {
            before
        }
    }
}

/// Lists the sources that an update check asks, given for each record whether it is to be
/// checked, and the source that is known by its kind and name.
pub fn list_update_targets(
    remotes: &Vec<RemoteState>,
    keep: &Vec<bool>,
    known: &Vec<Option<DeserializedSource>>,
) -> (r: Vec<UpdateTarget>)
    requires
        keep@.len() == remotes@.len(),
        known@.len() == remotes@.len(),
    ensures
        r@ == update_targets(remotes@, keep@, known@, remotes@.len()),
{
    let mut out: Vec<UpdateTarget> = Vec::new();
    let mut i: usize = 0;
    while i < remotes.len()
        invariant
            i <= remotes@.len(),
            keep@.len() == remotes@.len(),
            known@.len() == remotes@.len(),
            out@ == update_targets(remotes@, keep@, known@, i as nat),
        decreases remotes@.len() - i,
    {
        if keep[i] {
            let source = match &known[i] {
                Some(source) => source.clone(),
                None => remotes[i].source.clone(),
            };
            out.push(
                UpdateTarget { kind: remotes[i].kind, name: remotes[i].name.clone(), source },
            );
        }
        i += 1;
    }
    out
}

/// What is recorded of a download: the version and the place of the new data, and whether all
/// went well.
pub struct DownloadCommit {
    pub tag: Option<String>,
    pub install_dest: Option<String>,
    pub result: Result<(), String>,
}

/// What is recorded of a download. A download that succeeded is recorded even where cleaning the
/// old data up did not.
pub open spec fn download_commit(
    downloaded: Result<(String, String), String>,
    cleanup_error: Option<String>,
) -> DownloadCommit {
    match downloaded {
        Ok((tag, dest)) => DownloadCommit {
            tag: Some(tag),
            install_dest: Some(dest),
            result: match cleanup_error {
                Some(e) => Err(e),
                None => Ok(()),
            },
        },
        Err(e) => DownloadCommit { tag: None, install_dest: None, result: Err(e) },
    }
}

/// Decides what to record of a download.
pub fn commit_download(
    downloaded: Result<(String, String), String>,
    cleanup_error: Option<String>,
) -> (r: DownloadCommit)
    ensures
        r == download_commit(downloaded, cleanup_error),
{
    match downloaded {
        Ok((tag, dest)) => DownloadCommit {
            tag: Some(tag),
            install_dest: Some(dest),
            result: match cleanup_error {
                Some(e) => Err(e),
                None => Ok(()),
            },
        },
        Err(e) => DownloadCommit { tag: None, install_dest: None, result: Err(e) },
    }
}

/// Whether the old data must be removed after a download, given whether there was any, whether
/// the download succeeded, and whether the old place and the new one are the same, as they stand
/// or relative to the add-on's directory.
pub fn removal_due(installed: bool, downloaded: bool, same: bool, same_relative: bool) -> (r: bool)
    ensures
        r == (installed && downloaded && !same && !same_relative),
{
    installed && downloaded && !same && !same_relative
}

/// `due` says whether old data must be removed from one place after new data came to another: it
/// must where the machine takes neither the places for the same, nor their relative paths.
pub open spec fn is_removal(
    due: bool,
    old_place: Seq<char>,
    dest: Seq<char>,
    old_relative: Seq<char>,
    dest_relative: Seq<char>,
) -> bool {
    exists|same: bool, same_relative: bool|
        {
            &&& #[trigger] reads_same(old_place, dest, same)
            &&& #[trigger] reads_same(old_relative, dest_relative, same_relative)
            &&& due == (!same && !same_relative)
        }
}

/// Whether the old data must be removed after a download: where it was installed somewhere else
/// than the new data. The last two are the two places relative to the add-on's directory.
///
/// For places of plain names this is settled by their texts, up to a slash at the end. Whether two
/// other places are the same is up to the machine, unless their texts are or their last parts
/// differ.
pub fn must_remove_old(
    old_install: Option<&str>,
    install_dest: Option<&str>,
    old_relative: &str,
    dest_relative: &str,
) -> (r: bool)
    ensures
        old_install is Some && install_dest is Some ==> is_removal(
            r,
            old_install->0@,
            install_dest->0@,
            old_relative@,
            dest_relative@,
        ),
        r ==> old_install is Some && install_dest is Some && !surely_same(
            old_install->0@,
            install_dest->0@,
        ) && !surely_same(old_relative@, dest_relative@),
        old_install is Some && install_dest is Some && surely_apart(
            old_install->0@,
            install_dest->0@,
        ) && surely_apart(old_relative@, dest_relative@) ==> r,
{
    match (old_install, install_dest) {
        (Some(old_place), Some(dest)) => removal_due(
            true,
            true,
            same_path(old_place, dest),
            same_path(old_relative, dest_relative),
        ),
        _ => false,
    }
}

/// Whether two places of plain names are the same is settled by their texts: they surely are, or
/// surely are not.
pub proof fn law_plain_places_are_settled(a: Seq<char>, b: Seq<char>)
    requires
        plain_path(untrailed(a)),
        plain_path(untrailed(b)),
    ensures
        surely_same(a, b) == (untrailed(a) == untrailed(b)),
        surely_apart(a, b) == !surely_same(a, b),
{
    if ends_apart(a, b) && untrailed(a) == untrailed(b) {
        lemma_last_segment(a);
        lemma_last_segment(b);
        assert(a.last() != '/') by {
            let n = last_segment(a);
            assert(a.skip(a.len() - n.len())[n.len() - 1] == a.last());
            assert(n.contains(n[n.len() - 1]));
        }
        assert(b.last() != '/') by {
            let n = last_segment(b);
            assert(b.skip(b.len() - n.len())[n.len() - 1] == b.last());
            assert(n.contains(n[n.len() - 1]));
        }
    }
}

/// Old data at places of plain names must be removed just where both the places and their relative
/// paths differ in more than a slash at the end.
pub proof fn law_removal_of_plain_places(
    due: bool,
    old_place: Seq<char>,
    dest: Seq<char>,
    old_relative: Seq<char>,
    dest_relative: Seq<char>,
)
    requires
        is_removal(due, old_place, dest, old_relative, dest_relative),
        plain_path(untrailed(old_place)),
        plain_path(untrailed(dest)),
        plain_path(untrailed(old_relative)),
        plain_path(untrailed(dest_relative)),
    ensures
        due == (untrailed(old_place) != untrailed(dest) && untrailed(old_relative) != untrailed(
            dest_relative,
        )),
{
    let (same, same_relative) = choose|same: bool, same_relative: bool|
        {
            &&& #[trigger] reads_same(old_place, dest, same)
            &&& #[trigger] reads_same(old_relative, dest_relative, same_relative)
            &&& due == (!same && !same_relative)
        };
    lemma_reads_same(old_place, dest, same);
    lemma_reads_same(old_relative, dest_relative, same_relative);
    law_plain_places_are_settled(old_place, dest);
    law_plain_places_are_settled(old_relative, dest_relative);
}

/// The places that data is installed in, in the order of the records.
pub open spec fn installed_paths(remotes: Seq<RemoteState>, n: nat) -> Seq<Seq<char>>
    decreases n,
{
    if n == 0 {
        Seq::empty()
    } else {
        match remotes[n - 1].installed_path {
            Some(p) => installed_paths(remotes, (n - 1) as nat).push(p@),
            None => installed_paths(remotes, (n - 1) as nat),
        }
    }
}

/// Lists the places that data is installed in.
pub fn list_installed(remotes: &Vec<RemoteState>) -> (r: Vec<&String>)
    ensures
        r.deep_view() == installed_paths(remotes@, remotes@.len()),
{
    let mut out: Vec<&String> = Vec::new();
    let mut i: usize = 0;
    assert(out.deep_view() =~= Seq::empty());
    while i < remotes.len()
        invariant
            i <= remotes@.len(),
            out.deep_view() == installed_paths(remotes@, i as nat),
        decreases remotes@.len() - i,
    {
        let ghost prev = out.deep_view();
        if let Some(p) = &remotes[i].installed_path {
            out.push(p);
            assert(out.deep_view() =~= prev.push(p@));
        }
        i += 1;
    }
    out
}

/// A record that was stored is found again by its kind and source.
pub proof fn law_stored_is_found(remotes: Seq<RemoteState>, state: RemoteState)
    ensures
        ({
            let after = with_remote(remotes, state);
            let i = first_datasource(after, state.kind, state.name@);
            has_datasource(after, state.kind, state.name@) && 0 <= i < after.len() && after[i]
                == state
        }),
{
    let after = with_remote(remotes, state);
    let (kind, name) = (state.kind, state.name@);
    if has_datasource(remotes, kind, name) {
        let i = choose|i: int|
            0 <= i < remotes.len() && is_datasource(#[trigger] remotes[i], kind, name);
        lemma_some_first(remotes, kind, name, i);
        let f = first_datasource(remotes, kind, name);
        assert(is_first_datasource(after, kind, name, f)) by {
            assert forall|j: int| 0 <= j < f implies !is_datasource(
                #[trigger] after[j],
                kind,
                name,
            ) by {
                assert(after[j] == remotes[j]);
            }
        }
        lemma_first_datasource(after, kind, name, f);
    } else {
        let f = remotes.len() as int;
        assert(after[f] == state);
        assert(is_first_datasource(after, kind, name, f)) by {
            assert forall|j: int| 0 <= j < f implies !is_datasource(
                #[trigger] after[j],
                kind,
                name,
            ) by {
                assert(after[j] == remotes[j]);
            }
        }
        lemma_first_datasource(after, kind, name, f);
    }
}

proof fn lemma_some_first(remotes: Seq<RemoteState>, kind: SourceKind, name: Seq<char>, i: int)
    requires
        0 <= i < remotes.len(),
        is_datasource(remotes[i], kind, name),
    ensures
        is_first_datasource(remotes, kind, name, first_datasource(remotes, kind, name)),
    decreases i,
{
    if exists|j: int| 0 <= j < i && is_datasource(#[trigger] remotes[j], kind, name) {
        let j = choose|j: int| 0 <= j < i && is_datasource(#[trigger] remotes[j], kind, name);
        lemma_some_first(remotes, kind, name, j);
    } else {
        assert(is_first_datasource(remotes, kind, name, i));
    }
}

/// Storing a record leaves the others alone: every other kind and source is found as before.
pub proof fn law_storing_keeps_others(
    remotes: Seq<RemoteState>,
    state: RemoteState,
    kind: SourceKind,
    name: Seq<char>,
)
    requires
        kind != state.kind || name != state.name@,
        has_datasource(remotes, kind, name),
    ensures
        ({
            let after = with_remote(remotes, state);
            has_datasource(after, kind, name) && after[first_datasource(after, kind, name)]
                == remotes[first_datasource(remotes, kind, name)]
        }),
{
    let after = with_remote(remotes, state);
    let i = choose|i: int|
        0 <= i < remotes.len() && is_datasource(#[trigger] remotes[i], kind, name);
    lemma_some_first(remotes, kind, name, i);
    let f = first_datasource(remotes, kind, name);
    if has_datasource(remotes, state.kind, state.name@) {
        let k = choose|k: int|
            0 <= k < remotes.len() && is_datasource(
                #[trigger] remotes[k],
                state.kind,
                state.name@,
            );
        lemma_some_first(remotes, state.kind, state.name@, k);
    }
    assert(after[f] == remotes[f]);
    assert(is_first_datasource(after, kind, name, f)) by {
        assert forall|j: int| 0 <= j < f implies !is_datasource(#[trigger] after[j], kind, name) by {
            assert(!is_datasource(remotes[j], kind, name));
        }
    }
    lemma_first_datasource(after, kind, name, f);
}

/// Reports change no more than the update state: how many records there are, and the kind,
/// source and place of each, stay.
pub proof fn law_reports_keep_records(remotes: Seq<RemoteState>, reports: Seq<UpdateReport>, i: int)
    requires
        0 <= i < remotes.len(),
    ensures
        ({
            let after = with_reports(remotes, reports);
            &&& after.len() == remotes.len()
            &&& after[i] == RemoteState { needs_update: after[i].needs_update, ..remotes[i] }
        }),
    decreases reports.len(),
{
    if reports.len() > 0 {
        law_reports_keep_records(remotes, reports.drop_last(), i);
        let mid = with_reports(remotes, reports.drop_last());
        let report = reports.last();
        if has_datasource(mid, report.kind, report.name@) {
            let k = choose|k: int|
                0 <= k < mid.len() && is_datasource(#[trigger] mid[k], report.kind, report.name@);
            lemma_some_first(mid, report.kind, report.name@, k);
        }
    }
}

} // verus!
