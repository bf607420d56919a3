//! Module containing the Comet implementation.

use vstd::prelude::*;

use super::{now_millis, CelestialBody, Status, StatusHistory};

verus! {

/// Comets are interrupting tasks / bugs. They should be small and compact.
/// They only contain the core features required by all celestial bodies
/// because they are meant to quickly go from `Todo` to `Done`.
#[derive(Debug, PartialEq, Eq)]
pub struct Comet {
    pub id: u64,
    pub parent: Option<u64>,
    pub title: String,
    pub description: String,
    pub status: Status,
    pub history: Vec<StatusHistory>,
}

impl Default for Comet {
    fn default() -> (r: Self)
        ensures
            r.id == 0,
            r.parent is None,
            r.title@ == Seq::<char>::empty(),
            r.description@ == Seq::<char>::empty(),
            r.status == Status::Todo,
            r.history@ == Seq::<StatusHistory>::empty(),
    {
        Comet {
            id: 0,
            parent: None,
            title: String::new(),
            description: String::new(),
            status: Status::Todo,
            history: Vec::new(),
        }
    }
}

impl CelestialBody for Comet {
    open spec fn spec_id(&self) -> u64 {
        self.id
    }

    open spec fn spec_parent(&self) -> Option<u64> {
        self.parent
    }

    open spec fn spec_title(&self) -> Seq<char> {
        self.title@
    }

    open spec fn spec_description(&self) -> Seq<char> {
        self.description@
    }

    open spec fn spec_status(&self) -> Status {
        self.status
    }

    open spec fn spec_history(&self) -> Seq<StatusHistory> {
        self.history@
    }

    fn new(id: u64) -> (r: Self) {
        let mut r = Comet::default();
        r.id = id;
        r
    }

    fn parent(&mut self, parent: u64) {
        self.parent = Some(parent);
    }

    fn title(&mut self, title: String) {
        self.title = title;
    }

    fn description(&mut self, description: String) {
        self.description = description;
    }

    fn status(&mut self, status: Status, comment: String) {
        self.history.push(
            StatusHistory {
                old_status: self.status,
                new_status: status,
                comment,
                time: now_millis(),
            },
        );
        self.status = status;
        proof {
            assert(self.history@.drop_last() =~= old(self).history@);
        }
    }
}

} // verus!
