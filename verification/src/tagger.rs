//! The tagging orchestrator core: drives the matchers over an enumerated
//! file set and produces exactly one progress event per file.
//!
//! Enumerating the directory, fetching each file's candidate listing and
//! writing accepted tags back are collaborators' work; this module owns
//! every decision in between.
use vstd::prelude::*;
use crate::track::{AudioFileInfo, TaggerConfig, Track, MatchResult, clone_string};
use crate::matching::{MatchingUtils, best_idx, match_result_ok};

verus! {

/// The outcome reported for one processed file.
#[derive(Clone, Copy, PartialEq, Eq, Debug, Structural)]
pub enum FileStatus {
    Matched,
    NoMatch,
    Error,
}

/// One outcome record, emitted exactly once per processed file.
pub struct ProgressEvent {
    pub path: String,
    pub status: FileStatus,
}

/// The status owed for one file, given what its candidate search returned:
/// a failed search is an error, an accepted candidate a match.
pub open spec fn file_status_spec(
    info: AudioFileInfo,
    candidates: Option<Vec<Track>>,
    threshold: u32,
) -> FileStatus {
    match candidates {
        None => FileStatus::Error,
        Some(ts) => match best_idx(info, ts@, threshold, ts@.len() as int) {
            Some(_) => FileStatus::Matched,
            None => FileStatus::NoMatch,
        },
    }
}

pub struct Tagger {}

impl Tagger {
    /// Decides the outcome of one file and hands back the accepted match,
    /// if any, for the tag writer to apply.
    pub fn process_file(
        info: &AudioFileInfo,
        candidates: &Option<Vec<Track>>,
        config: &TaggerConfig,
    ) -> (r: (ProgressEvent, Option<MatchResult>))
        ensures
            r.0.path@ == info.path@,
            r.0.status == file_status_spec(*info, *candidates, config.threshold),
            match candidates {
                None => r.1 is None,
                Some(ts) => match_result_ok(*info, ts@, config.threshold, r.1),
            },
    {
        match candidates {
            None => (
                ProgressEvent { path: clone_string(&info.path), status: FileStatus::Error },
                None,
            ),
            Some(ts) => {
                let m = MatchingUtils::match_track(info, ts, config);
                let status = match &m {
                    Some(_) => FileStatus::Matched,
                    None => FileStatus::NoMatch,
                };
                (ProgressEvent { path: clone_string(&info.path), status }, m)
            },
        }
    }

    /// Processes every enumerated file once: the returned events hold
    /// exactly one entry per file, carrying that file's path and the
    /// outcome its candidates earn. Workers may consume the files in any
    /// order; the guarantee is one event per file, whatever the pool size.
    pub fn tag_files(
        files: &Vec<AudioFileInfo>,
        candidates: &Vec<Option<Vec<Track>>>,
        config: &TaggerConfig,
    ) -> (events: Vec<ProgressEvent>)
        requires
            files@.len() == candidates@.len(),
        ensures
            events@.len() == files@.len(),
            forall|i: int|
                0 <= i < files@.len() ==> (#[trigger] events@[i]).path@ == files@[i].path@
                    && events@[i].status == file_status_spec(
                    files@[i],
                    candidates@[i],
                    config.threshold,
                ),
    {
        let mut events: Vec<ProgressEvent> = Vec::new();
        let mut i: usize = 0;
        while i < files.len()
            invariant
                files@.len() == candidates@.len(),
                i <= files@.len(),
                events@.len() == i,
                forall|j: int|
                    0 <= j < i ==> (#[trigger] events@[j]).path@ == files@[j].path@
                        && events@[j].status == file_status_spec(
                        files@[j],
                        candidates@[j],
                        config.threshold,
                    ),
            decreases files@.len() - i,
        {
            let (ev, _accepted) = Self::process_file(&files[i], &candidates[i], config);
            events.push(ev);
            i = i + 1;
        }
        events
    }
}

/// The report of a run is a function of the file set, the candidate
/// listings and the threshold alone: any two runs over the same inputs
/// that report one event per file, as `tag_files` ensures, agree event
/// for event — however many workers produced them.
pub proof fn lemma_run_report_agrees(
    files: Seq<AudioFileInfo>,
    candidates: Seq<Option<Vec<Track>>>,
    threshold: u32,
    e1: Seq<ProgressEvent>,
    e2: Seq<ProgressEvent>,
)
    requires
        files.len() == candidates.len(),
        e1.len() == files.len(),
        e2.len() == files.len(),
        forall|i: int|
            0 <= i < files.len() ==> (#[trigger] e1[i]).path@ == files[i].path@ && e1[i].status
                == file_status_spec(files[i], candidates[i], threshold),
        forall|i: int|
            0 <= i < files.len() ==> (#[trigger] e2[i]).path@ == files[i].path@ && e2[i].status
                == file_status_spec(files[i], candidates[i], threshold),
    ensures
        e1.len() == e2.len(),
        forall|i: int|
            0 <= i < e1.len() ==> (#[trigger] e1[i]).path@ == e2[i].path@ && e1[i].status
                == e2[i].status,
{
}

} // verus!
