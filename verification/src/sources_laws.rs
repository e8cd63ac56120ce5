//! What holds of the sources that a file names.
#[allow(unused_imports)]
use crate::sources::{is_first_source, DeserializedSource, SourceKind, SourcesFile};
use vstd::prelude::*;

verus! {

/// How many sources stand under a kind.
pub open spec fn how_many(sources: Option<Vec<DeserializedSource>>) -> int {
    match sources {
        Some(v) => v@.len() as int,
        None => 0,
    }
}

/// All sources are listed: timers, then pathing, markers, add-ons, sources of sources and
/// unspecified ones, those of each kind in their own order and with their kind.
pub proof fn law_sources_are_listed_in_order(file: SourcesFile, kind: SourceKind, i: int)
    requires
        0 <= i < how_many(file.of_kind(kind)),
    ensures
        ({
            let before = (match kind {
                SourceKind::Timers => 0,
                SourceKind::Pathing => how_many(file.timers),
                SourceKind::Markers => how_many(file.timers) + how_many(file.pathing),
                SourceKind::Addon => how_many(file.timers) + how_many(file.pathing) + how_many(
                    file.markers,
                ),
                SourceKind::DataSources => how_many(file.timers) + how_many(file.pathing)
                    + how_many(file.markers) + how_many(file.addon),
                SourceKind::Unspecified => how_many(file.timers) + how_many(file.pathing)
                    + how_many(file.markers) + how_many(file.addon) + how_many(file.data_sources),
            });
            &&& file.listing().len() == how_many(file.timers) + how_many(file.pathing) + how_many(
                file.markers,
            ) + how_many(file.addon) + how_many(file.data_sources) + how_many(file.unspecified)
            &&& before + i < file.listing().len()
            &&& file.listing()[before + i] == (kind, file.of_kind(kind)->0@[i])
        }),
{
}

/// The sources of a kind are those that the file holds for it.
pub proof fn law_sources_of_kinds(file: SourcesFile)
    ensures
        file.of_kind(SourceKind::Timers) == file.timers,
        file.of_kind(SourceKind::Pathing) == file.pathing,
        file.of_kind(SourceKind::Markers) == file.markers,
        file.of_kind(SourceKind::Addon) == file.addon,
        file.of_kind(SourceKind::DataSources) == file.data_sources,
        file.of_kind(SourceKind::Unspecified) == file.unspecified,
{
}

/// The sources that a file holds for a kind.
pub open spec fn held_for(file: &SourcesFile, kind: SourceKind) -> Seq<DeserializedSource> {
    match file.of_kind(kind) {
        Some(v) => v@,
        None => Seq::empty(),
    }
}

/// The name that a source goes by, of whichever sort it is.
pub open spec fn goes_by(source: DeserializedSource) -> Seq<char> {
    match source {
        DeserializedSource::GitHub(s) => s.name@,
        DeserializedSource::Direct(s) => s.name@,
    }
}

/// A source is found by kind and name just where the file holds one, and the first one is found.
pub proof fn law_first_source_is_found(
    file: &SourcesFile,
    kind: SourceKind,
    name: &str,
    found: Option<&DeserializedSource>,
)
    requires
        call_ensures(SourcesFile::lookup, (file, kind, name), found),
    ensures
        found matches Some(s) ==> exists|i: int|
            {
                &&& 0 <= i < held_for(file, kind).len()
                &&& #[trigger] held_for(file, kind)[i] == *s
                &&& goes_by(*s) == name@
                &&& forall|j: int|
                    0 <= j < i ==> goes_by(#[trigger] held_for(file, kind)[j]) != name@
            },
        found is None ==> forall|j: int|
            0 <= j < held_for(file, kind).len() ==> goes_by(#[trigger] held_for(file, kind)[j])
                != name@,
{
    let list = held_for(file, kind);
    match found {
        Some(s) => {
            let i = choose|i: int| #[trigger] is_first_source(list, name@, i) && *s == list[i];
            assert(list[i] == *s);
            assert forall|j: int| 0 <= j < i implies goes_by(#[trigger] list[j]) != name@ by {
                assert(list[j].spec_name() != name@);
            }
        },
        None => {
            assert forall|j: int| 0 <= j < list.len() implies goes_by(#[trigger] list[j])
                != name@ by {
                assert(list[j].spec_name() != name@);
            }
        },
    }
}

/// What is kept after a download was tried: what was downloaded; or what came with the program,
/// where nothing was kept before; and else the error is told.
pub proof fn law_what_sources_are_kept<E>(
    downloaded: Result<SourcesFile, E>,
    file_exists: bool,
    stock: SourcesFile,
    kept: Result<SourcesFile, E>,
)
    requires
        call_ensures(SourcesFile::get_sources::<E>, (downloaded, file_exists, stock), kept),
    ensures
        kept is Err <==> downloaded is Err && file_exists,
        downloaded is Ok ==> kept == downloaded,
        downloaded is Err && !file_exists ==> kept->Ok_0 == stock,
        kept is Err ==> kept->Err_0 == downloaded->Err_0,
{
}

} // verus!
