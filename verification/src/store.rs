//! The decisions of the state store: what a stored state loads to, and the
//! steps by which a state is written so that the file under its name is
//! always a whole one.

use vstd::prelude::*;
use vstd::string::*;
use crate::error::{Error, ErrorView};
use crate::state::{texts, State};

verus! {

/// What was found under the state file's name.
#[derive(Debug, PartialEq, Eq)]
pub enum Stored {
    /// There is no such file: this is a first run.
    Missing,
    /// The file is there but could not be opened or read.
    Unreadable,
    /// The file was read and does not hold a state.
    Malformed,
    /// The file holds these fingerprints.
    Fingerprints(Vec<String>),
}

/// The state that a run starts from, or the failure that ends it before any
/// query. A missing file is an empty state and no failure; a file that does
/// not hold a state is a failure and never an empty state.
pub open spec fn load_spec(path: Seq<char>, stored: Stored) -> Result<Set<Seq<char>>, ErrorView> {
    match stored {
        Stored::Missing => Ok(Set::empty()),
        Stored::Unreadable => Err(ErrorView::StateIoError { path }),
        Stored::Malformed => Err(ErrorView::StateCorrupt { path }),
        Stored::Fingerprints(found) => Ok(texts(found@).to_set()),
    }
}

/// The outcome of loading as a mathematical value.
pub open spec fn loaded(r: Result<State, Error>) -> Result<Set<Seq<char>>, ErrorView> {
    match r {
        Ok(state) => Ok(state@),
        Err(e) => Err(e@),
    }
}

/// Decides what a run starts from, given what was found under `path`.
pub fn load(path: &str, stored: Stored) -> (r: Result<State, Error>)
    ensures
        loaded(r) == load_spec(path@, stored),
        r matches Ok(state) ==> state.wf(),
{
    match stored {
        Stored::Missing => Ok(State::new()),
        Stored::Unreadable => Err(Error::StateIoError { path: path.to_owned() }),
        Stored::Malformed => Err(Error::StateCorrupt { path: path.to_owned() }),
        Stored::Fingerprints(found) => Ok(State::from_fingerprints(found)),
    }
}

/// What a run persists, the next run starts from: the fingerprints that a
/// state writes out load back to the same set.
pub proof fn lemma_written_state_loads_back(state: State, written: Vec<String>, path: Seq<char>)
    requires
        texts(written@) == state.listing(),
    ensures
        load_spec(path, Stored::Fingerprints(written)) == Ok::<Set<Seq<char>>, ErrorView>(state@),
{
}

/// The steps of writing a state, in the order in which they are taken.
#[derive(Clone, Copy, Debug, PartialEq, Eq, Structural)]
pub enum SaveStep {
    /// Create the temporary file beside the state file.
    CreateTemp,
    /// Write the whole state to the temporary file.
    WriteTemp,
    /// Force the temporary file to stable storage.
    SyncTemp,
    /// Rename the temporary file onto the state file.
    Rename,
}

impl SaveStep {
    /// The step that follows this one once it has succeeded; `None` after
    /// the last.
    pub open spec fn following(self) -> Option<SaveStep> {
        match self {
            SaveStep::CreateTemp => Some(SaveStep::WriteTemp),
            SaveStep::WriteTemp => Some(SaveStep::SyncTemp),
            SaveStep::SyncTemp => Some(SaveStep::Rename),
            SaveStep::Rename => None,
        }
    }

    /// Whether the step changes what the state file's name refers to. Only
    /// the rename does, and nothing follows it.
    pub open spec fn replaces_target(self) -> bool {
        self == SaveStep::Rename
    }

    /// The file that a failure of this step is reported with.
    pub open spec fn reported_path(self, path: Seq<char>, tmp_path: Seq<char>) -> Seq<char> {
        if self.replaces_target() {
            path
        } else {
            tmp_path
        }
    }
}

/// The first step of writing a state.
pub fn first_save_step() -> (step: SaveStep)
    ensures
        step == SaveStep::CreateTemp,
        !step.replaces_target(),
{
    SaveStep::CreateTemp
}

/// Decides what follows a step of writing the state to `path` by way of
/// `tmp_path`. After a success comes the next step, or nothing after the
/// rename; a failure of any step ends the run and nothing is taken up
/// again or skipped.
pub fn after_save_step(step: SaveStep, succeeded: bool, path: &str, tmp_path: &str) -> (r: Result<
    Option<SaveStep>,
    Error,
>)
    ensures
        succeeded ==> r == Ok::<Option<SaveStep>, Error>(step.following()),
        !succeeded ==> (r matches Err(e) && e@ == (ErrorView::StateIoError {
            path: step.reported_path(path@, tmp_path@),
        })),
{
    if !succeeded {
        let reported = match step {
            SaveStep::Rename => path.to_owned(),
            _ => tmp_path.to_owned(),
        };
        return Err(Error::StateIoError { path: reported });
    }
    Ok(
        match step {
            SaveStep::CreateTemp => Some(SaveStep::WriteTemp),
            SaveStep::WriteTemp => Some(SaveStep::SyncTemp),
            SaveStep::SyncTemp => Some(SaveStep::Rename),
            SaveStep::Rename => None,
        },
    )
}

/// The steps that a write begins, in order, where `outcomes` says of each
/// step that ended whether it succeeded. A step is begun when all before it
/// succeeded; a write that fails or is interrupted begins no further step.
pub open spec fn steps_begun(next: Option<SaveStep>, outcomes: Seq<bool>) -> Seq<SaveStep>
    decreases outcomes.len(),
{
    match next {
        None => Seq::empty(),
        Some(step) => if outcomes.len() > 0 && outcomes[0] {
            seq![step] + steps_begun(step.following(), outcomes.skip(1))
        } else {
            seq![step]
        },
    }
}

/// The state file is replaced last or not at all: however the steps of a
/// write end, the only step that changes what the state file's name refers
/// to is the fourth, and it is begun only after the temporary file was
/// created, written and forced to stable storage. A write that fails or
/// stops before that has touched the temporary file alone.
pub proof fn lemma_target_replaced_last(outcomes: Seq<bool>, i: int)
    requires
        0 <= i < steps_begun(Some(SaveStep::CreateTemp), outcomes).len(),
        steps_begun(Some(SaveStep::CreateTemp), outcomes)[i].replaces_target(),
    ensures
        i == 3,
        outcomes.len() >= 3,
        outcomes[0] && outcomes[1] && outcomes[2],
        steps_begun(Some(SaveStep::CreateTemp), outcomes).take(3) == seq![
            SaveStep::CreateTemp,
            SaveStep::WriteTemp,
            SaveStep::SyncTemp,
        ],
        steps_begun(Some(SaveStep::CreateTemp), outcomes).len() == 4,
{
    let begun = steps_begun(Some(SaveStep::CreateTemp), outcomes);
    let rest1 = outcomes.skip(1);
    let rest2 = rest1.skip(1);
    let rest3 = rest2.skip(1);
    let rest4 = rest3.skip(1);
    assert(steps_begun(None, rest4) =~= Seq::<SaveStep>::empty());
    let from4 = steps_begun(Some(SaveStep::Rename), rest3);
    assert(from4 =~= seq![SaveStep::Rename]);
    let from3 = steps_begun(Some(SaveStep::SyncTemp), rest2);
    let from2 = steps_begun(Some(SaveStep::WriteTemp), rest1);
    if outcomes.len() > 0 && outcomes[0] {
        assert(begun =~= seq![SaveStep::CreateTemp] + from2);
        if rest1.len() > 0 && rest1[0] {
            assert(from2 =~= seq![SaveStep::WriteTemp] + from3);
            if rest2.len() > 0 && rest2[0] {
                assert(from3 =~= seq![SaveStep::SyncTemp] + from4);
                assert(begun =~= seq![
                    SaveStep::CreateTemp,
                    SaveStep::WriteTemp,
                    SaveStep::SyncTemp,
                    SaveStep::Rename,
                ]);
                assert(begun.take(3) =~= seq![
                    SaveStep::CreateTemp,
                    SaveStep::WriteTemp,
                    SaveStep::SyncTemp,
                ]);
            } else {
                assert(from3 =~= seq![SaveStep::SyncTemp]);
                assert(begun =~= seq![SaveStep::CreateTemp, SaveStep::WriteTemp, SaveStep::SyncTemp]);
            }
        } else {
            assert(from2 =~= seq![SaveStep::WriteTemp]);
            assert(begun =~= seq![SaveStep::CreateTemp, SaveStep::WriteTemp]);
        }
    } else {
        assert(begun =~= seq![SaveStep::CreateTemp]);
    }
}

} // verus!
