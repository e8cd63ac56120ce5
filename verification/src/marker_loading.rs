//! Reading marker files: from text to data, and many at once.
use crate::marker_file::RuntimeMarkers;
use std::sync::Arc;
use vstd::prelude::*;

verus! {

/// What is left of a text once comments and trailing commas are blanked out; nothing where a
/// comment does not start as one should.
pub uninterp spec fn stripped_json(text: Seq<char>) -> Option<Seq<char>>;

/// Blanks comments and trailing commas out, with [`json_strip_comments::strip`].
///
/// What it claims: the result is a function of the text alone, and a text without slashes, hashes
/// and commas comes back as it is. What becomes of comments and commas is left to the crate.
#[verifier::external_body]
pub(crate) fn strip_json(text: String) -> (r: Option<String>)
    ensures
        r.deep_view() == stripped_json(text@),
        !text@.contains('/') && !text@.contains('#') && !text@.contains(',') ==> r.deep_view()
            == Some(text@),
{
    let mut text = text;
    match json_strip_comments::strip(&mut text) {
        Ok(()) => Some(text),
        Err(_) => None,
    }
}

/// Why a marker file could not be read.
#[derive(Clone, Copy, PartialEq, Eq, Structural, Debug)]
pub enum MarkerLoadError {
    /// A comment does not start as one should.
    BadComment,
}

/// Makes plain data text of the text of a marker file, which may hold comments.
pub fn plain_text(file_data: String) -> (r: Result<String, MarkerLoadError>)
    ensures
        match stripped_json(file_data@) {
            Some(text) => r is Ok && r->Ok_0@ == text,
            None => r == Err::<String, MarkerLoadError>(MarkerLoadError::BadComment),
        },
        !file_data@.contains('/') && !file_data@.contains('#') && !file_data@.contains(',') ==> r
            is Ok && r->Ok_0@ == file_data@,
{
    match strip_json(file_data) {
        Some(text) => Ok(text),
        None => Err(MarkerLoadError::BadComment),
    }
}

/// What came of loading one file of many.
pub enum LoadOutcome {
    Loaded(Arc<RuntimeMarkers>),
    /// The file could not be read.
    LoadFailed,
    /// The task that was to read it did not end well.
    JoinFailed,
}

/// What came of loading many files.
pub struct LoadTally {
    pub marker_files: Vec<Arc<RuntimeMarkers>>,
    pub join_errors: usize,
    pub load_errors: usize,
}

/// The files that were loaded, in the order in which they came.
pub open spec fn loaded_files(outcomes: Seq<LoadOutcome>) -> Seq<Arc<RuntimeMarkers>>
    decreases outcomes.len(),
{
    if outcomes.len() == 0 {
        Seq::empty()
    } else {
        match outcomes.last() {
            LoadOutcome::Loaded(file) => loaded_files(outcomes.drop_last()).push(file),
            _ => loaded_files(outcomes.drop_last()),
        }
    }
}

/// How many outcomes are as a condition says.
pub open spec fn count_of(outcomes: Seq<LoadOutcome>, which: spec_fn(LoadOutcome) -> bool) -> nat
    decreases outcomes.len(),
{
    if outcomes.len() == 0 {
        0
    } else if which(outcomes.last()) {
        count_of(outcomes.drop_last(), which) + 1
    } else {
        count_of(outcomes.drop_last(), which)
    }
}

impl RuntimeMarkers {
    /// Gathers what came of loading many files. Files that failed are counted and left out.
    pub fn load_many(outcomes: Vec<LoadOutcome>) -> (r: LoadTally)
        ensures
            r.marker_files@ == loaded_files(outcomes@),
            r.load_errors == count_of(outcomes@, |o: LoadOutcome| o is LoadFailed),
            r.join_errors == count_of(outcomes@, |o: LoadOutcome| o is JoinFailed),
            r.marker_files@.len() + r.load_errors + r.join_errors == outcomes@.len(),
    {
        let ghost all = outcomes@;
        let ghost load_failed = |o: LoadOutcome| o is LoadFailed;
        let ghost join_failed = |o: LoadOutcome| o is JoinFailed;
        let total = outcomes.len();
        let mut marker_files: Vec<Arc<RuntimeMarkers>> = Vec::new();
        let mut load_errors: usize = 0;
        let mut join_errors: usize = 0;
        for outcome in it: outcomes
            invariant
                it.seq() == all,
                all.len() == total,
                load_failed == (|o: LoadOutcome| o is LoadFailed),
                join_failed == (|o: LoadOutcome| o is JoinFailed),
                marker_files@ == loaded_files(all.take(it.index())),
                load_errors == count_of(all.take(it.index()), load_failed),
                join_errors == count_of(all.take(it.index()), join_failed),
                marker_files@.len() + load_errors + join_errors == it.index(),
        {
            proof {
                let k = it.index();
                assert(all.take(k + 1).drop_last() =~= all.take(k));
                assert(all.take(k + 1).last() == outcome);
            }
            match outcome {
                LoadOutcome::Loaded(file) => {
                    marker_files.push(file);
                },
                LoadOutcome::LoadFailed => {
                    load_errors += 1;
                },
                LoadOutcome::JoinFailed => {
                    join_errors += 1;
                },
            }
        }
        assert(all.take(all.len() as int) =~= all);
        LoadTally { marker_files, join_errors, load_errors }
    }
}

} // verus!
