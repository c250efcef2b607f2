use vstd::prelude::*;

use crate::conflict::{fresh_view, ConflictCoordinator};
use crate::text::str_eq;

verus! {

/// The kinds of long-running operation.
#[derive(Debug, Clone, Copy, PartialEq, Eq)]
pub enum OperationModeKind {
    SkillsMove,
    PdfConversion,
    SkillCreation,
}

/// The operation that is running: its id and kind.
#[derive(Debug, Clone)]
pub struct ActiveOperation {
    pub operation_id: String,
    pub mode: OperationModeKind,
}

/// Admits one long-running operation at a time.
pub struct OperationManager {
    active: Option<ActiveOperation>,
}

/// The running operation as plain values.
pub open spec fn active_view(a: Option<ActiveOperation>) -> Option<(Seq<char>, OperationModeKind)> {
    match a {
        Some(op) => Some((op.operation_id@, op.mode)),
        None => None,
    }
}

/// The manager after `try_start(id, mode)`: the operation starts when none is
/// running, else nothing changes.
pub open spec fn spec_try_start(
    v: Option<(Seq<char>, OperationModeKind)>,
    id: Seq<char>,
    mode: OperationModeKind,
) -> Option<(Seq<char>, OperationModeKind)> {
    if v is None {
        Some((id, mode))
    } else {
        v
    }
}

/// The manager after `finish_if_matches(id)`: idle when `id` was running, else
/// unchanged.
pub open spec fn spec_finish(v: Option<(Seq<char>, OperationModeKind)>, id: Seq<char>) -> Option<
    (Seq<char>, OperationModeKind),
> {
    match v {
        Some((running, _)) => if running == id {
            None
        } else {
            v
        },
        None => None,
    }
}

impl View for OperationManager {
    type V = Option<(Seq<char>, OperationModeKind)>;

    closed spec fn view(&self) -> Self::V {
        active_view(self.active)
    }
}

impl Default for OperationManager {
    fn default() -> (r: Self)
        ensures
            r@ is None,
    {
        OperationManager { active: None }
    }
}

impl OperationManager {
    /// Starts operation `operation_id` unless one is already running; says whether it
    /// started.
    pub fn try_start(&mut self, operation_id: &str, mode: OperationModeKind) -> (started: bool)
        ensures
            started == (old(self)@ is None),
            final(self)@ == spec_try_start(old(self)@, operation_id@, mode),
    {
        if self.active.is_some() {
            return false;
        }
        self.active = Some(ActiveOperation { operation_id: operation_id.to_owned(), mode });
        true
    }

    /// Ends operation `operation_id` if it is the one running.
    pub fn finish_if_matches(&mut self, operation_id: &str)
        ensures
            final(self)@ == spec_finish(old(self)@, operation_id@),
    {
        let matches = match &self.active {
            Some(item) => str_eq(item.operation_id.as_str(), operation_id),
            None => false,
        };
        if matches {
            self.active = None;
        }
    }

    /// The running operation, if any.
    pub fn get_active(&self) -> (r: Option<ActiveOperation>)
        ensures
            active_view(r) == self@,
    {
        match &self.active {
            Some(item) => Some(
                ActiveOperation { operation_id: item.operation_id.clone(), mode: item.mode },
            ),
            None => None,
        }
    }
}

/// Starts operation `operation_id` of kind `mode` with both the operation manager and
/// the conflict coordinator, or with neither when either is busy.
pub fn begin_operation(
    manager: &mut OperationManager,
    coordinator: &mut ConflictCoordinator,
    operation_id: &str,
    mode: OperationModeKind,
) -> (r: Result<(), String>)
    ensures
        (r is Ok) <==> (old(manager)@ is None && old(coordinator)@.active is None),
        r is Ok ==> final(manager)@ == Some((operation_id@, mode)) && final(coordinator)@
            == fresh_view(Some(operation_id@)),
        r is Err ==> final(manager)@ == old(manager)@ && final(coordinator)@ == old(coordinator)@,
        r matches Err(e) ==> e@ == "another operation is already running"@,
{
    if !manager.try_start(operation_id, mode) {
        return Err("another operation is already running".to_owned());
    }
    if !coordinator.start_operation(operation_id) {
        manager.finish_if_matches(operation_id);
        return Err("another operation is already running".to_owned());
    }
    Ok(())
}

/// Once an operation is running, a second one is refused and nothing changes.
pub proof fn running_operation_is_exclusive(
    v: Option<(Seq<char>, OperationModeKind)>,
    id: Seq<char>,
    mode: OperationModeKind,
)
    requires
        v is Some,
    ensures
        spec_try_start(v, id, mode) == v,
{
}

/// Finishing the operation that was just started leaves the manager idle, and
/// finishing any other one leaves it running.
pub proof fn finish_undoes_start(
    id: Seq<char>,
    other: Seq<char>,
    mode: OperationModeKind,
)
    requires
        other != id,
    ensures
        spec_finish(spec_try_start(None, id, mode), id) is None,
        spec_finish(spec_try_start(None, id, mode), other) == Some((id, mode)),
{
}

} // verus!
