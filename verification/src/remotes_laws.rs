//! What holds of the records of installed data, whatever is stored or reported.
#[allow(unused_imports)]
use crate::picks::{keeps_just, lemma_keeps_more, lemma_keeps_none};
#[allow(unused_imports)]
use crate::remotes::{
    apply_reports, download_commit, first_datasource, has_datasource, installed_paths, is_datasource,
    is_first_datasource, lookup_datasource, store_remote, update_target, update_targets, with_remote,
    with_report, with_reports, DownloadCommit, NeedsUpdate, RemoteState, UpdateReport,
    UpdateTarget, UpdateTone,
};
#[allow(unused_imports)]
use crate::sources::{DeserializedSource, SourceKind};
use vstd::prelude::*;

verus! {

/// The record at a place is the first of its kind and source name.
pub open spec fn is_first_of_its_name(remotes: Seq<RemoteState>, i: int) -> bool {
    &&& 0 <= i < remotes.len()
    &&& forall|j: int|
        0 <= j < i ==> !((#[trigger] remotes[j]).kind == remotes[i].kind && remotes[j].name@
            == remotes[i].name@)
}

/// A report is on a record.
pub open spec fn is_on(report: UpdateReport, remote: RemoteState) -> bool {
    report.kind == remote.kind && report.name@ == remote.name@
}

/// The report at a place is the last one on a record.
pub open spec fn is_last_on(reports: Seq<UpdateReport>, remote: RemoteState, k: int) -> bool {
    &&& 0 <= k < reports.len()
    &&& is_on(reports[k], remote)
    &&& forall|j: int| k < j < reports.len() ==> !is_on(#[trigger] reports[j], remote)
}

proof fn lemma_found(remotes: Seq<RemoteState>, kind: SourceKind, name: Seq<char>)
    ensures
        has_datasource(remotes, kind, name) ==> ({
            let f = first_datasource(remotes, kind, name);
            &&& 0 <= f < remotes.len()
            &&& remotes[f].kind == kind && remotes[f].name@ == name
            &&& is_first_of_its_name(remotes, f)
        }),
        !has_datasource(remotes, kind, name) ==> forall|j: int|
            0 <= j < remotes.len() ==> !((#[trigger] remotes[j]).kind == kind && remotes[j].name@
                == name),
{
    if has_datasource(remotes, kind, name) {
        let i = choose|i: int|
            0 <= i < remotes.len() && is_datasource(#[trigger] remotes[i], kind, name);
        lemma_some_is_first(remotes, kind, name, i);
        let f = first_datasource(remotes, kind, name);
        assert(is_first_datasource(remotes, kind, name, f));
        assert forall|j: int| 0 <= j < f implies !((#[trigger] remotes[j]).kind == remotes[f].kind
            && remotes[j].name@ == remotes[f].name@) by {
            assert(!is_datasource(remotes[j], kind, name));
        }
    } else {
        assert forall|j: int| 0 <= j < remotes.len() implies !((#[trigger] remotes[j]).kind == kind
            && remotes[j].name@ == name) by {
            assert(!is_datasource(remotes[j], kind, name));
        }
    }
}

proof fn lemma_some_is_first(remotes: Seq<RemoteState>, kind: SourceKind, name: Seq<char>, i: int)
    requires
        0 <= i < remotes.len(),
        is_datasource(remotes[i], kind, name),
    ensures
        exists|f: int| is_first_datasource(remotes, kind, name, f),
    decreases i,
{
    if exists|j: int| 0 <= j < i && is_datasource(#[trigger] remotes[j], kind, name) {
        let j = choose|j: int| 0 <= j < i && is_datasource(#[trigger] remotes[j], kind, name);
        lemma_some_is_first(remotes, kind, name, j);
    } else {
        assert(is_first_datasource(remotes, kind, name, i));
    }
}

proof fn lemma_one_report(remotes: Seq<RemoteState>, report: UpdateReport, i: int)
    requires
        0 <= i < remotes.len(),
    ensures
        ({
            let after = with_report(remotes, report);
            &&& after.len() == remotes.len()
            &&& after[i].kind == remotes[i].kind
            &&& after[i].name == remotes[i].name
            &&& after[i].source == remotes[i].source
            &&& after[i].installed_path == remotes[i].installed_path
            &&& after[i].needs_update == (if is_first_of_its_name(remotes, i) && is_on(
                report,
                remotes[i],
            ) {
                report.state
            } else {
                remotes[i].needs_update
            })
        }),
{
    lemma_found(remotes, report.kind, report.name@);
    if has_datasource(remotes, report.kind, report.name@) {
        let f = first_datasource(remotes, report.kind, report.name@);
        if is_first_of_its_name(remotes, i) && is_on(report, remotes[i]) && i != f {
            if f < i {
                assert(!(remotes[f].kind == remotes[i].kind && remotes[f].name@
                    == remotes[i].name@));
            } else {
                assert(!(remotes[i].kind == remotes[f].kind && remotes[i].name@
                    == remotes[f].name@));
            }
        }
    }
}

/// After reports were taken over, the first record of a kind and name has the state of the last
/// report on it, whatever that state is; a record that no report is on, or that another of its
/// kind and name stands before, has its old state. Nothing else of any record has changed.
pub proof fn law_last_report_counts(
    remotes: Seq<RemoteState>,
    reports: Seq<UpdateReport>,
    i: int,
)
    requires
        0 <= i < remotes.len(),
    ensures
        ({
            let after = with_reports(remotes, reports);
            &&& after.len() == remotes.len()
            &&& after[i].kind == remotes[i].kind
            &&& after[i].name == remotes[i].name
            &&& after[i].source == remotes[i].source
            &&& after[i].installed_path == remotes[i].installed_path
            &&& is_first_of_its_name(remotes, i) ==> forall|k: int| #[trigger]
                is_last_on(reports, remotes[i], k) ==> after[i].needs_update == reports[k].state
            &&& !is_first_of_its_name(remotes, i) || (forall|k: int|
                0 <= k < reports.len() ==> !is_on(#[trigger] reports[k], remotes[i]))
                ==> after[i].needs_update == remotes[i].needs_update
        }),
    decreases reports.len(),
{
    if reports.len() > 0 {
        let rest = reports.drop_last();
        let mid = with_reports(remotes, rest);
        let last = reports.len() - 1;
        law_last_report_counts(remotes, rest, i);
        lemma_one_report(mid, reports.last(), i);
        assert(is_first_of_its_name(mid, i) == is_first_of_its_name(remotes, i)) by {
            assert forall|j: int| 0 <= j < remotes.len() implies mid[j].kind == (
            #[trigger] remotes[j]).kind && mid[j].name == remotes[j].name by {
                law_last_report_counts(remotes, rest, j);
            }
            if is_first_of_its_name(remotes, i) {
                assert forall|j: int| 0 <= j < i implies !((#[trigger] mid[j]).kind == mid[i].kind
                    && mid[j].name@ == mid[i].name@) by {
                    assert(!(remotes[j].kind == remotes[i].kind && remotes[j].name@
                        == remotes[i].name@));
                }
            }
            if is_first_of_its_name(mid, i) {
                assert forall|j: int| 0 <= j < i implies !((#[trigger] remotes[j]).kind
                    == remotes[i].kind && remotes[j].name@ == remotes[i].name@) by {
                    assert(!(mid[j].kind == mid[i].kind && mid[j].name@ == mid[i].name@));
                }
            }
        }
        let after = with_reports(remotes, reports);
        assert forall|k: int| #[trigger]
            is_last_on(reports, remotes[i], k) && is_first_of_its_name(
            remotes,
            i,
        ) implies after[i].needs_update == reports[k].state by {
            if k < last {
                assert(!is_on(reports[last], remotes[i]));
                assert(rest[k] == reports[k]);
                assert forall|j: int| k < j < rest.len() implies !is_on(
                    #[trigger] rest[j],
                    remotes[i],
                ) by {
                    assert(rest[j] == reports[j]);
                }
                assert(is_last_on(rest, remotes[i], k));
            }
        }
        if forall|k: int| 0 <= k < reports.len() ==> !is_on(#[trigger] reports[k], remotes[i]) {
            assert(!is_on(reports[last], remotes[i]));
            assert forall|k: int| 0 <= k < rest.len() implies !is_on(
                #[trigger] rest[k],
                remotes[i],
            ) by {
                assert(rest[k] == reports[k]);
            }
        }
    }
}

/// Storing a record puts it in the place of the first one of its kind and name, or behind all
/// others where there is none, and leaves every other record as it is and where it is.
pub proof fn law_storing_changes_one_record(remotes: Seq<RemoteState>, state: RemoteState)
    ensures
        ({
            let after = with_remote(remotes, state);
            let known = exists|i: int|
                0 <= i < remotes.len() && (#[trigger] remotes[i]).kind == state.kind
                    && remotes[i].name@ == state.name@;
            &&& after.len() == remotes.len() + if known {
                0int
            } else {
                1
            }
            &&& !known ==> after.last() == state
            &&& forall|i: int|
                0 <= i < remotes.len() ==> #[trigger] after[i] == (if remotes[i].kind == state.kind
                    && remotes[i].name@ == state.name@ && is_first_of_its_name(remotes, i) {
                    state
                } else {
                    remotes[i]
                })
        }),
{
    let after = with_remote(remotes, state);
    lemma_found(remotes, state.kind, state.name@);
    if has_datasource(remotes, state.kind, state.name@) {
        let f = first_datasource(remotes, state.kind, state.name@);
        assert(remotes[f].kind == state.kind);
        assert forall|i: int| 0 <= i < remotes.len() implies #[trigger] after[i] == (if remotes[i].kind
            == state.kind && remotes[i].name@ == state.name@ && is_first_of_its_name(remotes, i) {
            state
        } else {
            remotes[i]
        }) by {
            if i != f && remotes[i].kind == state.kind && remotes[i].name@ == state.name@ {
                if f < i {
                    assert(remotes[f].kind == remotes[i].kind && remotes[f].name@
                        == remotes[i].name@);
                    assert(!is_first_of_its_name(remotes, i));
                } else {
                    assert(!(remotes[i].kind == remotes[f].kind && remotes[i].name@
                        == remotes[f].name@));
                }
            }
        }
    }
}

/// A record is found by its kind and name just where there is one, and the first one is found.
pub proof fn law_first_record_is_found(
    remotes: &Vec<RemoteState>,
    kind: SourceKind,
    name: &str,
    r: Option<usize>,
)
    requires
        call_ensures(lookup_datasource, (remotes, kind, name), r),
    ensures
        match r {
            Some(i) => {
                &&& i < remotes@.len()
                &&& remotes@[i as int].kind == kind && remotes@[i as int].name@ == name@
                &&& forall|j: int|
                    0 <= j < i ==> !((#[trigger] remotes@[j]).kind == kind && remotes@[j].name@
                        == name@)
            },
            None => forall|j: int|
                0 <= j < remotes@.len() ==> !((#[trigger] remotes@[j]).kind == kind
                    && remotes@[j].name@ == name@),
        },
{
    lemma_found(remotes@, kind, name@);
    if r is Some {
        let f = first_datasource(remotes@, kind, name@);
        assert forall|j: int| 0 <= j < f implies !((#[trigger] remotes@[j]).kind == kind
            && remotes@[j].name@ == name@) by {
            assert(!(remotes@[j].kind == remotes@[f].kind && remotes@[j].name@
                == remotes@[f].name@));
        }
    }
}

/// What an update check would ask for each record.
pub open spec fn asked_of(
    remotes: Seq<RemoteState>,
    known: Seq<Option<DeserializedSource>>,
) -> Seq<(SourceKind, Seq<char>, DeserializedSource)> {
    Seq::new(
        remotes.len(),
        |i: int|
            (
                remotes[i].kind,
                remotes[i].name@,
                if known[i] is Some {
                    known[i]->0
                } else {
                    remotes[i].source
                },
            ),
    )
}

/// What targets ask.
pub open spec fn asked_by(targets: Seq<UpdateTarget>) -> Seq<
    (SourceKind, Seq<char>, DeserializedSource),
> {
    targets.map_values(|t: UpdateTarget| (t.kind, t.name@, t.source))
}

/// An update check asks for just the records that the filter keeps, in their order: each under its
/// own kind and name, from the source that is known by these or else from the record's own.
pub proof fn law_kept_records_are_asked_for(
    remotes: Seq<RemoteState>,
    keep: Seq<bool>,
    known: Seq<Option<DeserializedSource>>,
    n: nat,
)
    requires
        n <= remotes.len(),
        keep.len() == remotes.len(),
        known.len() == remotes.len(),
    ensures
        keeps_just(
            asked_by(update_targets(remotes, keep, known, n)),
            asked_of(remotes, known),
            n as int,
            |i: int| keep[i],
        ),
    decreases n,
{
    let which = |i: int| keep[i];
    let all = asked_of(remotes, known);
    if n == 0 {
        assert(asked_by(update_targets(remotes, keep, known, 0)) =~= Seq::empty());
        lemma_keeps_none(all, which);
    } else {
        law_kept_records_are_asked_for(remotes, keep, known, (n - 1) as nat);
        let before = update_targets(remotes, keep, known, (n - 1) as nat);
        lemma_keeps_more(asked_by(before), all, n - 1, which);
        if keep[n - 1] {
            assert(asked_by(update_targets(remotes, keep, known, n)) =~= asked_by(before).push(
                all[n - 1],
            ));
        }
    }
}

/// The places of installed data are listed for just the records that have one, in their order.
pub proof fn law_installed_places_are_listed(remotes: Seq<RemoteState>, n: nat)
    requires
        n <= remotes.len(),
    ensures
        keeps_just(
            installed_paths(remotes, n),
            Seq::new(remotes.len(), |i: int| remotes[i].installed_path->0@),
            n as int,
            |i: int| remotes[i].installed_path is Some,
        ),
    decreases n,
{
    let which = |i: int| remotes[i].installed_path is Some;
    let all = Seq::new(remotes.len(), |i: int| remotes[i].installed_path->0@);
    if n == 0 {
        lemma_keeps_none(all, which);
    } else {
        law_installed_places_are_listed(remotes, (n - 1) as nat);
        lemma_keeps_more(installed_paths(remotes, (n - 1) as nat), all, n - 1, which);
    }
}

/// A download that succeeded is recorded with its version and place, whatever became of the old
/// data; one that failed is recorded with neither, and with its own error. All went well just where
/// the download did and nothing failed in cleaning up.
pub proof fn law_downloads_are_recorded(
    downloaded: Result<(String, String), String>,
    cleanup_error: Option<String>,
)
    ensures
        ({
            let r = download_commit(downloaded, cleanup_error);
            &&& r.tag is Some <==> downloaded is Ok
            &&& r.install_dest is Some <==> downloaded is Ok
            &&& downloaded is Ok ==> r.tag->0 == downloaded->Ok_0.0 && r.install_dest->0
                == downloaded->Ok_0.1
            &&& r.result is Ok <==> downloaded is Ok && cleanup_error is None
            &&& downloaded is Err ==> r.result->Err_0 == downloaded->Err_0
            &&& downloaded is Ok && cleanup_error is Some ==> r.result->Err_0 == cleanup_error->0
        }),
{
}

/// Whether data is up to date is told apart in four ways, and the key of the text and the tone
/// agree on which; an error and the version to be had are told behind the text, and nothing else
/// is.
pub proof fn law_update_states_are_told_apart(
    state: &NeedsUpdate,
    label: &str,
    key: &'static str,
    text: String,
    tone: UpdateTone,
)
    requires
        call_ensures(NeedsUpdate::label_ident, (state,), key),
        call_ensures(NeedsUpdate::text, (state, label), text),
        call_ensures(NeedsUpdate::tone, (state,), tone),
    ensures
        tone == UpdateTone::Unknown <==> *state is Unknown,
        tone == UpdateTone::Error <==> *state is Error,
        tone == UpdateTone::Available <==> (*state matches NeedsUpdate::Known(true, _)),
        tone == UpdateTone::UpToDate <==> (*state matches NeedsUpdate::Known(false, _)),
        key@ == (match tone {
            UpdateTone::Unknown => "unknown"@,
            UpdateTone::Error => "error"@,
            UpdateTone::Available => "available"@,
            UpdateTone::UpToDate => "up-to-date"@,
        }),
        tone == UpdateTone::Unknown || tone == UpdateTone::UpToDate ==> text@ == label@,
        *state matches NeedsUpdate::Error(e) ==> text@ == label@ + ": "@ + e@,
        *state matches NeedsUpdate::Known(true, id) ==> text@ == label@ + ": "@ + id@,
{
}

/// Reports neither make nor lose a record.
pub proof fn law_reports_make_no_records(remotes: Seq<RemoteState>, reports: Seq<UpdateReport>)
    ensures
        with_reports(remotes, reports).len() == remotes.len(),
    decreases reports.len(),
{
    if reports.len() > 0 {
        law_reports_make_no_records(remotes, reports.drop_last());
        let mid = with_reports(remotes, reports.drop_last());
        lemma_found(mid, reports.last().kind, reports.last().name@);
    }
}

/// Taking reports over leaves the first record of each kind and name with the state of the last
/// report on it, and every other record with its old state.
pub proof fn law_reports_are_taken_over()
    ensures
        forall|remotes: &mut Vec<RemoteState>, reports: Vec<UpdateReport>| #[trigger]
            call_ensures(apply_reports, (remotes, reports), ()) ==> {
                &&& final(remotes)@.len() == remotes@.len()
                &&& forall|i: int, k: int|
                    0 <= i < remotes@.len() && is_first_of_its_name(remotes@, i)
                        && #[trigger] is_last_on(reports@, remotes@[i], k) ==> final(
                        remotes)@[i].needs_update == reports@[k].state
                &&& forall|i: int|
                    0 <= i < remotes@.len() && (forall|k: int|
                        0 <= k < reports@.len() ==> !is_on(#[trigger] reports@[k], remotes@[i]))
                        ==> #[trigger] final(remotes)@[i] == remotes@[i]
            },
{
    assert forall|remotes: &mut Vec<RemoteState>, reports: Vec<UpdateReport>| #[trigger]
        call_ensures(apply_reports, (remotes, reports), ()) implies {
        &&& final(remotes)@.len() == remotes@.len()
        &&& forall|i: int, k: int|
            0 <= i < remotes@.len() && is_first_of_its_name(remotes@, i) && #[trigger] is_last_on(
                reports@,
                remotes@[i],
                k,
            ) ==> final(remotes)@[i].needs_update == reports@[k].state
        &&& forall|i: int|
            0 <= i < remotes@.len() && (forall|k: int|
                0 <= k < reports@.len() ==> !is_on(#[trigger] reports@[k], remotes@[i]))
                ==> #[trigger] final(remotes)@[i] == remotes@[i]
    } by {
        let before = remotes@;
        let after = with_reports(before, reports@);
        law_reports_make_no_records(before, reports@);
        assert forall|i: int, k: int|
            0 <= i < before.len() && is_first_of_its_name(before, i) && #[trigger] is_last_on(
                reports@,
                before[i],
                k,
            ) implies after[i].needs_update == reports@[k].state by {
            law_last_report_counts(before, reports@, i);
        }
        assert forall|i: int|
            0 <= i < before.len() && (forall|k: int|
                0 <= k < reports@.len() ==> !is_on(
                    #[trigger] reports@[k],
                    before[i],
                )) implies #[trigger] after[i] == before[i] by {
            law_last_report_counts(before, reports@, i);
        }
    }
}

/// A record that is stored is told at its place, and every other record stays as it is and where it
/// is.
pub proof fn law_records_are_stored()
    ensures
        forall|remotes: &mut Vec<RemoteState>, state: RemoteState, at: usize| #[trigger]
            call_ensures(store_remote, (remotes, state), at) ==> {
                &&& at < final(remotes)@.len()
                &&& final(remotes)@[at as int] == state
                &&& remotes@.len() <= final(remotes)@.len() <= remotes@.len() + 1
                &&& forall|i: int|
                    0 <= i < remotes@.len() && !(remotes@[i].kind == state.kind && remotes@[i].name@
                        == state.name@) ==> #[trigger] final(remotes)@[i] == remotes@[i]
            },
{
    assert forall|remotes: &mut Vec<RemoteState>, state: RemoteState, at: usize| #[trigger]
        call_ensures(store_remote, (remotes, state), at) implies {
        &&& remotes@.len() <= final(remotes)@.len() <= remotes@.len() + 1
        &&& forall|i: int|
            0 <= i < remotes@.len() && !(remotes@[i].kind == state.kind && remotes@[i].name@
                == state.name@) ==> #[trigger] final(remotes)@[i] == remotes@[i]
    } by {
        law_storing_changes_one_record(remotes@, state);
    }
}

} // verus!
