use vstd::prelude::*;

use crate::domain::{ConflictAction, ResolveConflictInput};
use crate::text::str_eq;

verus! {

/// A conflict decision: the slug, the action, whether it holds for the rest of the
/// operation, and the slug typed to confirm an overwrite.
#[derive(Debug, Clone)]
pub struct ConflictDecision {
    pub slug: String,
    pub action: ConflictAction,
    pub apply_to_all: bool,
    pub overwrite_confirmation_slug: Option<String>,
}

/// A conflict decision as plain values.
pub struct DecisionView {
    pub slug: Seq<char>,
    pub action: ConflictAction,
    pub apply_to_all: bool,
    pub confirmation: Option<Seq<char>>,
}

pub open spec fn decision_view(d: ConflictDecision) -> DecisionView {
    DecisionView {
        slug: d.slug@,
        action: d.action,
        apply_to_all: d.apply_to_all,
        confirmation: match d.overwrite_confirmation_slug {
            Some(c) => Some(c@),
            None => None,
        },
    }
}

pub open spec fn opt_decision_view(d: Option<ConflictDecision>) -> Option<DecisionView> {
    match d {
        Some(x) => Some(decision_view(x)),
        None => None,
    }
}

/// An overwrite is only ever decided with the slug itself typed as confirmation.
pub open spec fn overwrite_confirmed(d: DecisionView) -> bool {
    d.action == ConflictAction::Overwrite ==> d.confirmation == Some(d.slug)
}

/// The decision taken for `slug` when its operation is no longer the active one.
pub open spec fn skip_decision(slug: Seq<char>) -> DecisionView {
    DecisionView { slug, action: ConflictAction::Skip, apply_to_all: false, confirmation: None }
}

/// The coordinator's state as plain values: the active operation, whether its cancel
/// was requested, the decision that holds for all remaining conflicts, the slug
/// waiting for a decision and the decision given for it.
pub struct CoordinatorView {
    pub active: Option<Seq<char>>,
    pub cancel_requested: bool,
    pub apply_to_all: Option<DecisionView>,
    pub pending_slug: Option<Seq<char>>,
    pub pending_decision: Option<DecisionView>,
}

/// The state of a coordinator with operation `active` and nothing else.
pub open spec fn fresh_view(active: Option<Seq<char>>) -> CoordinatorView {
    CoordinatorView {
        active,
        cancel_requested: false,
        apply_to_all: None,
        pending_slug: None,
        pending_decision: None,
    }
}

/// The state after a cancel request.
pub open spec fn cancelled_view(v: CoordinatorView) -> CoordinatorView {
    CoordinatorView { cancel_requested: true, ..v }
}

/// The state while waiting for a decision on `slug`.
pub open spec fn waiting_view(v: CoordinatorView, slug: Seq<char>) -> CoordinatorView {
    CoordinatorView { pending_slug: Some(slug), pending_decision: None, ..v }
}

/// The state after decision `d` was taken.
pub open spec fn taken_view(v: CoordinatorView, d: DecisionView) -> CoordinatorView {
    CoordinatorView {
        pending_slug: None,
        pending_decision: None,
        apply_to_all: if d.apply_to_all {
            Some(d)
        } else {
            v.apply_to_all
        },
        ..v
    }
}

/// The decision given by a resolve request.
pub open spec fn input_decision(input: ResolveConflictInput) -> DecisionView {
    DecisionView {
        slug: input.slug@,
        action: input.action,
        apply_to_all: input.apply_to_all,
        confirmation: match input.overwrite_confirmation_slug {
            Some(c) => Some(c@),
            None => None,
        },
    }
}

/// The state after decision `d` was given for the pending slug.
pub open spec fn decided_view(v: CoordinatorView, d: DecisionView) -> CoordinatorView {
    CoordinatorView { pending_decision: Some(d), ..v }
}

/// Whether a resolve request is accepted in state `v`: it is for the active
/// operation and the pending slug, and an overwrite is confirmed by the slug.
pub open spec fn resolve_accepted(v: CoordinatorView, input: ResolveConflictInput) -> bool {
    &&& v.active == Some(input.operation_id@)
    &&& v.pending_slug == Some(input.slug@)
    &&& overwrite_confirmed(input_decision(input))
}

/// A decision, if any, is confirmed when it overwrites.
pub open spec fn confirmed_if_any(d: Option<DecisionView>) -> bool {
    match d {
        Some(x) => overwrite_confirmed(x),
        None => true,
    }
}

/// What starting to wait for a decision on `slug` answers, and the state after.
pub open spec fn spec_wait(v: CoordinatorView, slug: Seq<char>) -> (Option<DecisionView>, CoordinatorView) {
    match v.apply_to_all {
        Some(d) => (Some(d), v),
        None => (None, waiting_view(v, slug)),
    }
}

/// What checking on the wait for `slug` of operation `id` answers, and the state
/// after.
pub open spec fn spec_take(v: CoordinatorView, id: Seq<char>, slug: Seq<char>) -> (Option<DecisionView>, CoordinatorView) {
    if v.active != Some(id) {
        (Some(skip_decision(slug)), v)
    } else {
        match v.pending_decision {
            Some(d) => (Some(d), taken_view(v, d)),
            None => (None, v),
        }
    }
}

/// Coordinates the conflicts and the cancel request of the one active operation.
pub struct ConflictCoordinator {
    active_operation_id: Option<String>,
    cancel_requested: bool,
    apply_to_all_decision: Option<ConflictDecision>,
    pending_slug: Option<String>,
    pending_decision: Option<ConflictDecision>,
}

impl View for ConflictCoordinator {
    type V = CoordinatorView;

    closed spec fn view(&self) -> CoordinatorView {
        CoordinatorView {
            active: match self.active_operation_id {
                Some(a) => Some(a@),
                None => None,
            },
            cancel_requested: self.cancel_requested,
            apply_to_all: opt_decision_view(self.apply_to_all_decision),
            pending_slug: match self.pending_slug {
                Some(s) => Some(s@),
                None => None,
            },
            pending_decision: opt_decision_view(self.pending_decision),
        }
    }
}

fn clone_decision(d: &ConflictDecision) -> (r: ConflictDecision)
    ensures
        decision_view(r) == decision_view(*d),
{
    ConflictDecision {
        slug: d.slug.clone(),
        action: d.action,
        apply_to_all: d.apply_to_all,
        overwrite_confirmation_slug: match &d.overwrite_confirmation_slug {
            Some(c) => Some(c.clone()),
            None => None,
        },
    }
}

fn opt_str_eq(o: &Option<String>, s: &str) -> (r: bool)
    ensures
        r == (match o {
            Some(x) => x@ == s@,
            None => false,
        }),
{
    match o {
        Some(x) => str_eq(x.as_str(), s),
        None => false,
    }
}

impl Default for ConflictCoordinator {
    fn default() -> (r: Self)
        ensures
            r@ == fresh_view(None),
    {
        ConflictCoordinator {
            active_operation_id: None,
            cancel_requested: false,
            apply_to_all_decision: None,
            pending_slug: None,
            pending_decision: None,
        }
    }
}

impl ConflictCoordinator {
    /// Stored decisions are confirmed, a decision answers the pending slug, and a
    /// cancel request belongs to an active operation.
    #[verifier::type_invariant]
    closed spec fn wf(self) -> bool {
        &&& match self.apply_to_all_decision {
            Some(d) => overwrite_confirmed(decision_view(d)),
            None => true,
        }
        &&& match self.pending_decision {
            Some(d) => overwrite_confirmed(decision_view(d)) && match self.pending_slug {
                Some(p) => p@ == d.slug@,
                None => false,
            },
            None => true,
        }
        &&& (self.cancel_requested ==> self.active_operation_id is Some)
    }

    /// Makes `operation_id` the active operation, with a clean state, unless one is
    /// already active; says whether it did.
    pub fn start_operation(&mut self, operation_id: &str) -> (started: bool)
        ensures
            started == (old(self)@.active is None),
            started ==> final(self)@ == fresh_view(Some(operation_id@)),
            !started ==> final(self)@ == old(self)@,
    {
        proof {
            use_type_invariant(&*self);
        }
        if self.active_operation_id.is_some() {
            return false;
        }
        self.active_operation_id = Some(operation_id.to_owned());
        self.cancel_requested = false;
        self.apply_to_all_decision = None;
        self.pending_decision = None;
        self.pending_slug = None;
        true
    }

    /// Clears everything when `operation_id` is the active operation.
    pub fn finish_operation(&mut self, operation_id: &str)
        ensures
            old(self)@.active == Some(operation_id@) ==> final(self)@ == fresh_view(None),
            old(self)@.active != Some(operation_id@) ==> final(self)@ == old(self)@,
    {
        proof {
            use_type_invariant(&*self);
        }
        if opt_str_eq(&self.active_operation_id, operation_id) {
            self.cancel_requested = false;
            self.active_operation_id = None;
            self.apply_to_all_decision = None;
            self.pending_decision = None;
            self.pending_slug = None;
        }
    }

    /// Records a cancel request for the active operation `operation_id`; says whether
    /// it was recorded.
    pub fn request_cancel(&mut self, operation_id: &str) -> (accepted: bool)
        ensures
            accepted == (old(self)@.active == Some(operation_id@)),
            accepted ==> final(self)@ == cancelled_view(old(self)@),
            !accepted ==> final(self)@ == old(self)@,
    {
        proof {
            use_type_invariant(&*self);
        }
        if !opt_str_eq(&self.active_operation_id, operation_id) {
            return false;
        }
        self.cancel_requested = true;
        true
    }

    /// Whether `operation_id` is active and its cancel was requested.
    pub fn is_cancel_requested(&self, operation_id: &str) -> (r: bool)
        ensures
            r == (self@.active == Some(operation_id@) && self@.cancel_requested),
    {
        opt_str_eq(&self.active_operation_id, operation_id) && self.cancel_requested
    }

    /// Starts waiting for a decision on `slug`: a decision that holds for all conflicts
    /// answers at once; otherwise `slug` becomes the pending slug, with no decision
    /// yet, and `None` says to wait (then `take_conflict_decision`).
    pub fn wait_for_conflict_decision(&mut self, operation_id: &str, slug: &str) -> (r: Option<
        ConflictDecision,
    >)
        ensures
            (opt_decision_view(r), final(self)@) == spec_wait(old(self)@, slug@),
            confirmed_if_any(opt_decision_view(r)),
    {
        proof {
            use_type_invariant(&*self);
        }
        if let Some(decision) = &self.apply_to_all_decision {
            return Some(clone_decision(decision));
        }
        self.pending_decision = None;
        self.pending_slug = Some(slug.to_owned());
        None
    }

    /// Checks, after a wake-up, on the wait for a decision on `slug`: when
    /// `operation_id` is no longer active the conflict is skipped; when a decision was
    /// given it is taken (and kept for all remaining conflicts if it says so);
    /// otherwise `None` says to keep waiting.
    pub fn take_conflict_decision(&mut self, operation_id: &str, slug: &str) -> (r: Option<
        ConflictDecision,
    >)
        ensures
            (opt_decision_view(r), final(self)@) == spec_take(old(self)@, operation_id@, slug@),
            confirmed_if_any(opt_decision_view(r)),
    {
        proof {
            use_type_invariant(&*self);
        }
        if !opt_str_eq(&self.active_operation_id, operation_id) {
            return Some(
                ConflictDecision {
                    slug: slug.to_owned(),
                    action: ConflictAction::Skip,
                    apply_to_all: false,
                    overwrite_confirmation_slug: None,
                },
            );
        }
        let taken = match &self.pending_decision {
            Some(d) => Some(clone_decision(d)),
            None => None,
        };
        self.pending_decision = None;
        match taken {
            Some(decision) => {
                self.pending_slug = None;
                if decision.apply_to_all {
                    self.apply_to_all_decision = Some(clone_decision(&decision));
                }
                Some(decision)
            },
            None => None,
        }
    }

    /// Records the user's decision for the pending conflict.  It is accepted only for
    /// the active operation and the pending slug, and an overwrite only when the slug
    /// itself was typed as confirmation.
    pub fn resolve_conflict(&mut self, input: ResolveConflictInput) -> (accepted: bool)
        ensures
            accepted == resolve_accepted(old(self)@, input),
            accepted ==> final(self)@ == decided_view(old(self)@, input_decision(input)),
            !accepted ==> final(self)@ == old(self)@,
    {
        proof {
            use_type_invariant(&*self);
        }
        if !opt_str_eq(&self.active_operation_id, input.operation_id.as_str()) {
            return false;
        }
        if !opt_str_eq(&self.pending_slug, input.slug.as_str()) {
            return false;
        }
        let is_overwrite = match input.action {
            ConflictAction::Overwrite => true,
            _ => false,
        };
        if is_overwrite && !opt_str_eq(&input.overwrite_confirmation_slug, input.slug.as_str()) {
            return false;
        }
        self.pending_decision = Some(
            ConflictDecision {
                slug: input.slug,
                action: input.action,
                apply_to_all: input.apply_to_all,
                overwrite_confirmation_slug: input.overwrite_confirmation_slug,
            },
        );
        true
    }
}

/// An accepted answer is what the waiting side takes next for that slug.
pub proof fn accepted_answer_is_taken(v: CoordinatorView, input: ResolveConflictInput)
    requires
        resolve_accepted(v, input),
    ensures
        spec_take(decided_view(v, input_decision(input)), input.operation_id@, input.slug@) == (
            Some(input_decision(input)),
            taken_view(decided_view(v, input_decision(input)), input_decision(input)),
        ),
        overwrite_confirmed(input_decision(input)),
{
}

/// Once a decision meant for all conflicts is taken, every later conflict of the
/// operation gets it at once, without waiting.
pub proof fn apply_to_all_answers_later_conflicts(v: CoordinatorView, d: DecisionView, slug: Seq<char>)
    requires
        d.apply_to_all,
    ensures
        spec_wait(taken_view(v, d), slug) == (Some(d), taken_view(v, d)),
{
}

/// A conflict of an operation that is no longer active is skipped.
pub proof fn stale_wait_skips(v: CoordinatorView, id: Seq<char>, slug: Seq<char>)
    requires
        v.active != Some(id),
    ensures
        spec_take(v, id, slug).0 == Some(skip_decision(slug)),
        spec_take(v, id, slug).1 == v,
{
}

} // verus!
