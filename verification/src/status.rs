//! The status of one mount target and the order in which it may change.

use vstd::prelude::*;

verus! {

/// Where a target stands on its way to being mounted.
#[derive(Debug, Clone, PartialEq, Eq)]
pub enum Status {
    /// Nothing has been decided yet.
    Unknown,
    /// A mount attempt was launched and has not reported yet.
    Pending,
    /// Something is mounted there already, but from another source.
    Warned(String),
    /// The mount attempt failed; the text is what the attempt reported.
    Failed(String),
    /// Mounted, from the expected source.
    Okay,
}

/// A status with its texts as sequences of characters.
pub enum StatusView {
    Unknown,
    Pending,
    Warned(Seq<char>),
    Failed(Seq<char>),
    Okay,
}

impl View for Status {
    type V = StatusView;

    open spec fn view(&self) -> StatusView {
        match self {
            Status::Unknown => StatusView::Unknown,
            Status::Pending => StatusView::Pending,
            Status::Warned(why) => StatusView::Warned(why@),
            Status::Failed(why) => StatusView::Failed(why@),
            Status::Okay => StatusView::Okay,
        }
    }
}

impl StatusView {
    /// A status that a finished run may leave behind.
    pub open spec fn is_terminal(self) -> bool {
        self is Okay || self is Warned || self is Failed
    }

    /// What the outcome of a mount attempt may be.
    pub open spec fn is_outcome(self) -> bool {
        self is Okay || self is Failed
    }
}

/// The changes of status that are allowed: a target that is undecided
/// becomes mounted, flagged or pending, and a pending one becomes mounted or
/// failed. Nothing else changes.
pub open spec fn may_become(from: StatusView, to: StatusView) -> bool {
    ||| from is Unknown && (to is Okay || to is Warned || to is Pending)
    ||| from is Pending && to.is_outcome()
}

/// No change leads back: a terminal status stays, nothing becomes
/// undecided again, and only an undecided target becomes pending.
pub proof fn lemma_changes_lead_forward(from: StatusView, to: StatusView)
    requires
        may_become(from, to),
    ensures
        !from.is_terminal(),
        !(to is Unknown),
        to is Pending ==> from is Unknown,
{
}

impl Status {
    /// Whether a finished run may leave this status behind.
    pub fn is_terminal(&self) -> (r: bool)
        ensures
            r == self@.is_terminal(),
    {
        match self {
            Status::Okay => true,
            Status::Warned(_) => true,
            Status::Failed(_) => true,
            _ => false,
        }
    }

    /// Whether this status may be the outcome of a mount attempt.
    pub fn is_outcome(&self) -> (r: bool)
        ensures
            r == self@.is_outcome(),
    {
        match self {
            Status::Okay => true,
            Status::Failed(_) => true,
            _ => false,
        }
    }

    /// Whether a mount attempt is under way.
    pub fn is_pending(&self) -> (r: bool)
        ensures
            r == (self@ is Pending),
    {
        match self {
            Status::Pending => true,
            _ => false,
        }
    }
}

/// The status that a finished mount attempt reports: mounted when the
/// attempt succeeded, failed with what it wrote as diagnostic otherwise.
pub fn completion_status(success: bool, diagnostic: String) -> (status: Status)
    ensures
        status@ == if success {
            StatusView::Okay
        } else {
            StatusView::Failed(diagnostic@)
        },
{
    if success {
        Status::Okay
    } else {
        Status::Failed(diagnostic)
    }
}

} // verus!
