//! One run of the monitor as a sequence of decisions: which domain to
//! query next, which certificates to alert on, and whether the state may be
//! persisted.

use vstd::prelude::*;
use vstd::string::*;
use crate::engine::{alerts, new_certificates, sighted};
use crate::error::{Error, ErrorView};
use crate::record::{decode_rows, decode_rows_spec, raw_rows, records, RawRow, TypedRow};
use crate::state::{texts, State};
use crate::text::ascending;

verus! {

/// Where a run stands.
#[derive(Clone, Copy, Debug, PartialEq, Eq, Structural)]
pub enum Phase {
    /// A domain is waiting to be queried.
    Querying,
    /// Every domain was processed; the state is waiting to be persisted.
    Persisting,
    /// The state was persisted.
    Finished,
    /// A failure ended the run; nothing is persisted.
    Aborted,
}

/// What the caller is to do next.
#[derive(Debug, PartialEq, Eq)]
pub enum Action {
    /// Query the log for this domain and report the outcome.
    Query { domain: String },
    /// Persist these fingerprints, which are in ascending order.
    Persist { fingerprints: Vec<String> },
    /// Nothing remains to be done.
    Stop,
}

/// One run over a list of domains.
pub struct Run {
    state: State,
    domains: Vec<String>,
    cursor: usize,
    phase: Phase,
}

impl Run {
    /// The fingerprints seen so far.
    pub closed spec fn seen(&self) -> Set<Seq<char>> {
        self.state@
    }

    /// The fingerprints seen so far, in the order in which they are
    /// persisted.
    pub closed spec fn listing(&self) -> Seq<Seq<char>> {
        self.state.listing()
    }

    /// The domains of the run, in the order in which they are queried.
    pub closed spec fn domains(&self) -> Seq<Seq<char>> {
        texts(self.domains@)
    }

    /// The number of domains processed so far.
    pub closed spec fn position(&self) -> int {
        self.cursor as int
    }

    /// Where the run stands.
    pub closed spec fn stage(&self) -> Phase {
        self.phase
    }

    /// The run is consistent: a domain is waiting exactly while the run is
    /// querying, and the state is persisted only after the last domain.
    pub closed spec fn wf(&self) -> bool {
        &&& self.state.wf()
        &&& self.cursor <= self.domains.len()
        &&& self.phase == Phase::Querying ==> self.cursor < self.domains.len()
        &&& (self.phase == Phase::Persisting || self.phase == Phase::Finished) ==> self.cursor
            == self.domains.len()
    }

    /// A consistent run has processed no more domains than it has, and
    /// persists or has persisted only when it has processed them all.
    pub proof fn lemma_wf(&self)
        requires
            self.wf(),
        ensures
            0 <= self.position() <= self.domains().len(),
            self.stage() == Phase::Querying ==> self.position() < self.domains().len(),
            (self.stage() == Phase::Persisting || self.stage() == Phase::Finished)
                ==> self.position() == self.domains().len(),
            ascending(self.listing()),
            self.listing().to_set() == self.seen(),
    {
    }

    /// Starts a run from a loaded state.
    pub fn begin(state: State, domains: Vec<String>) -> (run: Run)
        requires
            state.wf(),
        ensures
            run.wf(),
            run.seen() == state@,
            run.domains() == texts(domains@),
            run.position() == 0,
            run.stage() == if domains.len() == 0 {
                Phase::Persisting
            } else {
                Phase::Querying
            },
    {
        let phase = if domains.len() == 0 {
            Phase::Persisting
        } else {
            Phase::Querying
        };
        Run { state, domains, cursor: 0, phase }
    }

    /// Where the run stands.
    pub fn phase(&self) -> (p: Phase)
        ensures
            p == self.stage(),
    {
        self.phase
    }

    /// The state as it stands in memory.
    pub fn state(&self) -> (s: &State)
        ensures
            s@ == self.seen(),
            s.listing() == self.listing(),
            self.wf() ==> s.wf(),
    {
        &self.state
    }

    /// What is to be done next: query the next domain, persist the state
    /// once every domain has been processed, or stop. After a failure the
    /// answer is to stop: an aborted run never persists.
    pub fn next_action(&self) -> (action: Action)
        requires
            self.wf(),
        ensures
            match self.stage() {
                Phase::Querying => action matches Action::Query { domain } && domain@
                    == self.domains()[self.position()],
                Phase::Persisting => {
                    &&& action matches Action::Persist { fingerprints } && texts(fingerprints@)
                        == self.listing()
                    &&& ascending(self.listing())
                    &&& self.listing().to_set() == self.seen()
                },
                Phase::Finished => action is Stop,
                Phase::Aborted => action is Stop,
            },
    {
        match self.phase {
            Phase::Querying => Action::Query { domain: self.domains[self.cursor].clone() },
            Phase::Persisting => Action::Persist { fingerprints: self.state.fingerprints() },
            Phase::Finished => Action::Stop,
            Phase::Aborted => Action::Stop,
        }
    }

    /// Takes the rows that the query for the waiting domain returned and
    /// hands back the certificates to alert on, in the order of the rows:
    /// those whose fingerprint had not been seen, each once. Their
    /// fingerprints are marked as seen before the alerts go out. A row that
    /// does not decode aborts the run: nothing of the batch is alerted on or
    /// marked.
    pub fn rows_received(&mut self, rows: &Vec<RawRow>) -> (r: Result<Vec<TypedRow>, Error>)
        requires
            old(self).wf(),
            old(self).stage() == Phase::Querying,
        ensures
            final(self).wf(),
            final(self).domains() == old(self).domains(),
            old(self).seen().subset_of(final(self).seen()),
            match decode_rows_spec(raw_rows(rows@)) {
                Ok(decoded) => {
                    &&& r matches Ok(fresh) && records(fresh@) == alerts(old(self).seen(), decoded)
                    &&& final(self).seen() == old(self).seen().union(sighted(decoded))
                    &&& final(self).position() == old(self).position() + 1
                    &&& final(self).stage() == if final(self).position() == final(self).domains().len() {
                        Phase::Persisting
                    } else {
                        Phase::Querying
                    }
                },
                Err(e) => {
                    &&& r matches Err(x) && x@ == e
                    &&& final(self).seen() == old(self).seen()
                    &&& final(self).position() == old(self).position()
                    &&& final(self).stage() == Phase::Aborted
                },
            },
    {
        match decode_rows(rows) {
            Err(e) => {
                self.phase = Phase::Aborted;
                Err(e)
            },
            Ok(decoded) => {
                let fresh = new_certificates(&mut self.state, &decoded);
                self.cursor = self.cursor + 1;
                self.phase = if self.cursor == self.domains.len() {
                    Phase::Persisting
                } else {
                    Phase::Querying
                };
                Ok(fresh)
            },
        }
    }

    /// Records that the query for the waiting domain failed. The run is
    /// aborted at once: no further domain is queried and nothing is
    /// persisted.
    pub fn query_failed(&mut self) -> (e: Error)
        requires
            old(self).wf(),
            old(self).stage() == Phase::Querying,
        ensures
            final(self).wf(),
            e@ == (ErrorView::QueryError { domain: old(self).domains()[old(self).position()] }),
            final(self).stage() == Phase::Aborted,
            final(self).seen() == old(self).seen(),
            final(self).domains() == old(self).domains(),
            final(self).position() == old(self).position(),
    {
        self.phase = Phase::Aborted;
        Error::QueryError { domain: self.domains[self.cursor].clone() }
    }

    /// Records that an alert could not be delivered. The run is aborted;
    /// what was marked as seen in memory stays so, and is not persisted.
    pub fn notify_failed(&mut self) -> (e: Error)
        requires
            old(self).wf(),
        ensures
            final(self).wf(),
            e@ == ErrorView::NotifyError,
            final(self).stage() == Phase::Aborted,
            final(self).seen() == old(self).seen(),
            final(self).domains() == old(self).domains(),
            final(self).position() == old(self).position(),
    {
        self.phase = Phase::Aborted;
        Error::NotifyError
    }

    /// Records how persisting the state ended: the run is finished after a
    /// success and aborted after a failure.
    pub fn persisted(&mut self, succeeded: bool)
        requires
            old(self).wf(),
            old(self).stage() == Phase::Persisting,
        ensures
            final(self).wf(),
            final(self).stage() == if succeeded {
                Phase::Finished
            } else {
                Phase::Aborted
            },
            final(self).seen() == old(self).seen(),
            final(self).domains() == old(self).domains(),
            final(self).position() == old(self).position(),
    {
        if succeeded {
            self.phase = Phase::Finished;
        } else {
            self.phase = Phase::Aborted;
        }
    }
}

} // verus!
