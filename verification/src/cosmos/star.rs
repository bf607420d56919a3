//! Module containing the Star implementation.

use vstd::prelude::*;

use super::{now_millis, CelestialBody, Status, StatusHistory};

verus! {

/// Stars are collections of other celestial bodies. They can contain
/// Planets, Comets, and even other Stars. They are meant to be used to
/// separate elements into organized groups.
#[derive(Debug, PartialEq, Eq)]
pub struct Star {
    pub id: u64,
    pub parent: Option<u64>,
    pub title: String,
    pub description: String,
    pub status: Status,
    pub history: Vec<StatusHistory>,
    /// Contains the ids of all the celestial bodies that are directly owned
    /// by this star.
    pub children: Vec<u64>,
}

impl Default for Star {
    fn default() -> (r: Self)
        ensures
            r.id == 0,
            r.parent is None,
            r.title@ == Seq::<char>::empty(),
            r.description@ == Seq::<char>::empty(),
            r.status == Status::Todo,
            r.history@ == Seq::<StatusHistory>::empty(),
            r.children@ == Seq::<u64>::empty(),
    {
        Star {
            id: 0,
            parent: None,
            title: String::new(),
            description: String::new(),
            status: Status::Todo,
            history: Vec::new(),
            children: Vec::new(),
        }
    }
}

impl CelestialBody for Star {
    open spec fn spec_id(&self) -> u64 {
        self.id
    }

    open spec fn spec_parent(&self) -> Option<u64> {
        self.parent
    }

    open spec fn spec_title(&self) -> Seq<char> {
        self.title@
    }

    open spec fn spec_description(&self) -> Seq<char> {
        self.description@
    }

    open spec fn spec_status(&self) -> Status {
        self.status
    }

    open spec fn spec_history(&self) -> Seq<StatusHistory> {
        self.history@
    }

    fn new(id: u64) -> (r: Self) {
        let mut r = Star::default();
        r.id = id;
        r
    }

    fn parent(&mut self, parent: u64)
        ensures
            final(self).children == old(self).children,
    {
        self.parent = Some(parent);
    }

    fn title(&mut self, title: String)
        ensures
            final(self).children == old(self).children,
    {
        self.title = title;
    }

    fn description(&mut self, description: String)
        ensures
            final(self).children == old(self).children,
    {
        self.description = description;
    }

    fn status(&mut self, status: Status, comment: String)
        ensures
            final(self).children == old(self).children,
    {
        self.history.push(
            StatusHistory {
                old_status: self.status,
                new_status: status,
                comment,
                time: now_millis(),
            },
        );
        self.status = status;
        proof {
            assert(self.history@.drop_last() =~= old(self).history@);
        }
    }
}

} // verus!
