//! Module containing the Planet implementation.

use vstd::prelude::*;

use super::{now_millis, CelestialBody, Status, StatusHistory};

verus! {

/// Planets are the basic unit of work.
///
/// In addition to the core features that all celestial bodies have, Planets
/// have custom tags and custom fields. These can all be safely ignored.
#[derive(Debug, PartialEq, Eq)]
pub struct Planet {
    pub id: u64,
    pub parent: Option<u64>,
    pub title: String,
    pub description: String,
    pub status: Status,
    pub history: Vec<StatusHistory>,
    /// User defined tags. These can be used for searching, filtering,
    /// labeling, etc. They will not affect the Planet otherwise.
    pub tags: Vec<String>,
    /// User defined fields. These can be used for searching, filtering,
    /// labeling, etc. They consist of a key and an associated value. They
    /// will not affect the Planet otherwise.
    pub fields: Vec<(String, String)>,
}

impl Default for Planet {
    fn default() -> (r: Self)
        ensures
            r.id == 0,
            r.parent is None,
            r.title@ == Seq::<char>::empty(),
            r.description@ == Seq::<char>::empty(),
            r.status == Status::Todo,
            r.history@ == Seq::<StatusHistory>::empty(),
            r.tags@ == Seq::<String>::empty(),
            r.fields@ == Seq::<(String, String)>::empty(),
    {
        Planet {
            id: 0,
            parent: None,
            title: String::new(),
            description: String::new(),
            status: Status::Todo,
            history: Vec::new(),
            tags: Vec::new(),
            fields: Vec::new(),
        }
    }
}

impl CelestialBody for Planet {
    open spec fn spec_id(&self) -> u64 {
        self.id
    }

    open spec fn spec_parent(&self) -> Option<u64> {
        self.parent
    }

    open spec fn spec_title(&self) -> Seq<char> {
        self.title@
    }

    open spec fn spec_description(&self) -> Seq<char> {
        self.description@
    }

    open spec fn spec_status(&self) -> Status {
        self.status
    }

    open spec fn spec_history(&self) -> Seq<StatusHistory> {
        self.history@
    }

    fn new(id: u64) -> (r: Self) {
        let mut r = Planet::default();
        r.id = id;
        r
    }

    fn parent(&mut self, parent: u64)
        ensures
            final(self).tags == old(self).tags,
            final(self).fields == old(self).fields,
    {
        self.parent = Some(parent);
    }

    fn title(&mut self, title: String)
        ensures
            final(self).tags == old(self).tags,
            final(self).fields == old(self).fields,
    {
        self.title = title;
    }

    fn description(&mut self, description: String)
        ensures
            final(self).tags == old(self).tags,
            final(self).fields == old(self).fields,
    {
        self.description = description;
    }

    fn status(&mut self, status: Status, comment: String)
        ensures
            final(self).tags == old(self).tags,
            final(self).fields == old(self).fields,
    {
        self.history.push(
            StatusHistory {
                old_status: self.status,
                new_status: status,
                comment,
                time: now_millis(),
            },
        );
        self.status = status;
        proof {
            assert(self.history@.drop_last() =~= old(self).history@);
        }
    }
}

} // verus!
