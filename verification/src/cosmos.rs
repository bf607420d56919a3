//! The core structures representing the work to be done for the project.
//!
//! All celestial bodies have shared core features: namely a title and a
//! description. This will be used for display purposes. Additionally, with
//! the exception of the `Galaxy`, everything has a unique ID, a `Status`, a
//! parent, and a history. The parent can optionally be `None` if the
//! celestial body is in the root of the `Galaxy`. The history keeps track of
//! all changes to the status of the celestial body.

pub mod comet;
pub mod galaxy;
pub mod planet;
pub mod star;

use vstd::prelude::*;

verus! {

/// Represents the different types of celestial bodies.
#[derive(Debug, Clone, Copy, PartialEq, Eq, PartialOrd, Ord, Structural)]
pub enum CelestialBodyKind {
    /// An interrupting task / bug.
    Comet,
    /// A basic unit of work.
    Planet,
    /// A collection of other celestial bodies.
    Star,
}

/// Represents the status of the `Planet` / `Comet` / `Star`.
///
/// The status should follow the pattern `Todo` -> `Next` -> `Start` ->
/// `Done`. There are also `Block`, `Hold`, and `Cancel` states if they are
/// needed.
///
/// Only `Done` and `Cancel` are considered to be final states. Parents
/// cannot move to a final state unless all children are in a final state.
#[derive(Debug, Copy, Clone, PartialEq, Eq, Structural)]
pub enum Status {
    /// No work has been started, still in the "backlog".
    Todo,
    /// Cannot be started due to a pre-requisite or some other reason.
    Block,
    /// Staged to be started after current tasks are completed.
    Next,
    /// Currently being worked on.
    Start,
    /// Paused for some reason.
    Hold,
    /// Completed.
    Done,
    /// Canceled for some reason.
    Cancel,
}

impl Default for Status {
    fn default() -> (r: Self)
        ensures
            r == Status::Todo,
    {
        Status::Todo
    }
}

impl Status {
    /// The status's name, as it is displayed.
    pub fn name(&self) -> (r: &'static str)
        ensures
            match *self {
                Status::Todo => r@ == "Todo"@,
                Status::Block => r@ == "Block"@,
                Status::Next => r@ == "Next"@,
                Status::Start => r@ == "Start"@,
                Status::Hold => r@ == "Hold"@,
                Status::Done => r@ == "Done"@,
                Status::Cancel => r@ == "Cancel"@,
            },
    {
        match self {
            Status::Todo => "Todo",
            Status::Block => "Block",
            Status::Next => "Next",
            Status::Start => "Start",
            Status::Hold => "Hold",
            Status::Done => "Done",
            Status::Cancel => "Cancel",
        }
    }
}

/// A single change to the celestial body's status that occurred in history.
/// The moment of the change is kept as milliseconds since the Unix epoch.
#[derive(Debug, PartialEq, Eq)]
pub struct StatusHistory {
    /// The status the body moved away from.
    pub old_status: Status,
    /// The status the body moved to.
    pub new_status: Status,
    /// An explanation of why the status changed.
    pub comment: String,
    /// When the change happened, in milliseconds since the Unix epoch.
    pub time: i64,
}

/// Relies on `chrono::Utc::now` for the wall-clock moment of a status
/// change; nothing is assumed of the value it returns.
#[verifier::external_body]
pub(crate) fn now_millis() -> i64 {
    chrono::Utc::now().timestamp_millis()
}

/// Trait that all celestial bodies must implement.
pub trait CelestialBody: Sized {
    /// The body's unique ID.
    spec fn spec_id(&self) -> u64;

    /// The body's parent, if it is not at the root of the galaxy.
    spec fn spec_parent(&self) -> Option<u64>;

    /// The body's title, as a sequence of characters.
    spec fn spec_title(&self) -> Seq<char>;

    /// The body's description, as a sequence of characters.
    spec fn spec_description(&self) -> Seq<char>;

    /// The body's current status.
    spec fn spec_status(&self) -> Status;

    /// The body's status-change history, oldest first.
    spec fn spec_history(&self) -> Seq<StatusHistory>;

    /// Constructor that uses `id` for the new celestial body.
    fn new(id: u64) -> (r: Self)
        ensures
            r.spec_id() == id,
            r.spec_parent() is None,
            r.spec_title() == Seq::<char>::empty(),
            r.spec_description() == Seq::<char>::empty(),
            r.spec_status() == Status::Todo,
            r.spec_history() == Seq::<StatusHistory>::empty(),
    ;

    /// Setter for celestial body's parent.
    fn parent(&mut self, parent: u64)
        ensures
            final(self).spec_parent() == Some(parent),
            final(self).spec_id() == old(self).spec_id(),
            final(self).spec_title() == old(self).spec_title(),
            final(self).spec_description() == old(self).spec_description(),
            final(self).spec_status() == old(self).spec_status(),
            final(self).spec_history() == old(self).spec_history(),
    ;

    /// Setter for celestial body's title.
    fn title(&mut self, title: String)
        ensures
            final(self).spec_title() == title@,
            final(self).spec_id() == old(self).spec_id(),
            final(self).spec_parent() == old(self).spec_parent(),
            final(self).spec_description() == old(self).spec_description(),
            final(self).spec_status() == old(self).spec_status(),
            final(self).spec_history() == old(self).spec_history(),
    ;

    /// Setter for celestial body's description.
    fn description(&mut self, description: String)
        ensures
            final(self).spec_description() == description@,
            final(self).spec_id() == old(self).spec_id(),
            final(self).spec_parent() == old(self).spec_parent(),
            final(self).spec_title() == old(self).spec_title(),
            final(self).spec_status() == old(self).spec_status(),
            final(self).spec_history() == old(self).spec_history(),
    ;

    /// Setter for celestial body's status. `comment` should be an
    /// explanation of why the status has changed; the change is appended to
    /// the body's history with the moment it happened.
    fn status(&mut self, status: Status, comment: String)
        ensures
            final(self).spec_status() == status,
            final(self).spec_history().len() == old(self).spec_history().len() + 1,
            final(self).spec_history().drop_last() == old(self).spec_history(),
            final(self).spec_history().last().old_status == old(self).spec_status(),
            final(self).spec_history().last().new_status == status,
            final(self).spec_history().last().comment == comment,
            final(self).spec_id() == old(self).spec_id(),
            final(self).spec_parent() == old(self).spec_parent(),
            final(self).spec_title() == old(self).spec_title(),
            final(self).spec_description() == old(self).spec_description(),
    ;
}

} // verus!
