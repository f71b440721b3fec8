//! Starting and stopping discovery on every adapter: which call to the daemon comes
//! next, and what a failed call means for the rest.

use vstd::prelude::*;

verus! {

/// What is to be done on every adapter.
#[derive(Copy, Clone, Debug, PartialEq, Eq, Structural)]
pub enum Operation {
    /// Power the adapter on, set the discovery filter, and start scanning.
    Start,
    /// Stop scanning.
    Stop,
}

/// One call to the daemon on one adapter.
#[derive(Copy, Clone, Debug, PartialEq, Eq, Structural)]
pub enum Call {
    PowerOn,
    SetFilter,
    StartDiscovery,
    StopDiscovery,
}

/// The call that is under way: on the adapter at place `adapter` of the list.
#[derive(Copy, Clone, Debug, PartialEq, Eq, Structural)]
pub struct Progress {
    pub adapter: usize,
    pub call: Call,
}

/// What comes next.
#[derive(Copy, Clone, Debug, PartialEq, Eq, Structural)]
pub enum Next {
    /// Make this call, and come back with how it ended.
    Call(Progress),
    /// Every adapter has been dealt with.
    Done,
    /// There is no adapter to work on.
    NoAdapters,
    /// The call that failed ends the operation; its error is the operation's.
    Failed,
}

impl Call {
    /// A failure of this call is reported and passed over. Starting a scan is advisory;
    /// every other call must succeed.
    pub open spec fn is_tolerated(self) -> bool {
        self is StartDiscovery
    }

    /// The place of the call within the calls on one adapter.
    pub open spec fn rank(self) -> int {
        match self {
            Call::PowerOn => 0,
            Call::SetFilter => 1,
            Call::StartDiscovery => 2,
            Call::StopDiscovery => 2,
        }
    }

    /// Tells whether a failure of this call is reported and passed over.
    pub fn tolerated(&self) -> (pass: bool)
        ensures
            pass == self.is_tolerated(),
    {
        match self {
            Call::StartDiscovery => true,
            _ => false,
        }
    }
}

impl Operation {
    /// The first call that the operation makes on an adapter.
    pub open spec fn first_call(self) -> Call {
        match self {
            Operation::Start => Call::PowerOn,
            Operation::Stop => Call::StopDiscovery,
        }
    }

    /// What the operation begins with, given the number of adapters.
    pub open spec fn begun(self, adapters: int) -> Next {
        if adapters == 0 {
            Next::NoAdapters
        } else {
            Next::Call(Progress { adapter: 0, call: self.first_call() })
        }
    }

    /// What follows the last call on the adapter at place `adapter`.
    pub open spec fn after_adapter(self, adapters: int, adapter: usize) -> Next {
        if adapter + 1 < adapters {
            Next::Call(Progress { adapter: (adapter + 1) as usize, call: self.first_call() })
        } else {
            Next::Done
        }
    }

    /// What follows the call `current`, given how it ended. A failure ends the
    /// operation unless it is of a call whose failure is passed over; after such a
    /// failure, as after a success, the next call on the same adapter follows, or the
    /// first on the next adapter.
    pub open spec fn advanced(self, adapters: int, current: Progress, succeeded: bool) -> Next {
        if !succeeded && !current.call.is_tolerated() {
            Next::Failed
        } else {
            match current.call {
                Call::PowerOn => Next::Call(
                    Progress { adapter: current.adapter, call: Call::SetFilter },
                ),
                Call::SetFilter => Next::Call(
                    Progress { adapter: current.adapter, call: Call::StartDiscovery },
                ),
                Call::StartDiscovery => self.after_adapter(adapters, current.adapter),
                Call::StopDiscovery => self.after_adapter(adapters, current.adapter),
            }
        }
    }

    /// Begins the operation on `adapters` adapters.
    pub fn begin(&self, adapters: usize) -> (next: Next)
        ensures
            next == self.begun(adapters as int),
    {
        if adapters == 0 {
            Next::NoAdapters
        } else {
            Next::Call(Progress { adapter: 0, call: self.first() })
        }
    }

    /// Returns the first call that the operation makes on an adapter.
    pub fn first(&self) -> (call: Call)
        ensures
            call == self.first_call(),
    {
        match self {
            Operation::Start => Call::PowerOn,
            Operation::Stop => Call::StopDiscovery,
        }
    }

    /// Decides what follows the call `current`, given how it ended.
    pub fn advance(&self, adapters: usize, current: Progress, succeeded: bool) -> (next: Next)
        requires
            current.adapter < adapters,
        ensures
            next == self.advanced(adapters as int, current, succeeded),
    {
        if !succeeded && !current.call.tolerated() {
            return Next::Failed;
        }
        match current.call {
            Call::PowerOn => Next::Call(Progress { adapter: current.adapter, call: Call::SetFilter }),
            Call::SetFilter => Next::Call(
                Progress { adapter: current.adapter, call: Call::StartDiscovery },
            ),
            _ => {
                if current.adapter + 1 < adapters {
                    Next::Call(Progress { adapter: current.adapter + 1, call: self.first() })
                } else {
                    Next::Done
                }
            },
        }
    }
}

impl Progress {
    /// How far the operation has come: the calls on earlier adapters count three each.
    pub open spec fn rank(self) -> int {
        self.adapter * 3 + self.call.rank()
    }
}

/// Every call that follows another is on an adapter of the list and lies further on,
/// so an operation on `adapters` adapters ends after at most three calls for each.
pub proof fn lemma_progress(
    operation: Operation,
    adapters: int,
    current: Progress,
    succeeded: bool,
)
    requires
        current.adapter < adapters <= usize::MAX,
    ensures
        operation.advanced(adapters, current, succeeded) matches Next::Call(next) ==> {
            &&& next.adapter < adapters
            &&& current.rank() < next.rank() < adapters * 3
        },
        operation.begun(adapters) matches Next::Call(first) ==> first.adapter < adapters
            && first.rank() < adapters * 3,
{
}

/// A failed start of a scan changes nothing in what follows; any other failed call ends
/// the operation.
pub proof fn lemma_failure_policy(operation: Operation, adapters: int, current: Progress)
    ensures
        current.call is StartDiscovery ==> operation.advanced(adapters, current, false)
            == operation.advanced(adapters, current, true),
        !(current.call is StartDiscovery) ==> operation.advanced(adapters, current, false)
            == Next::Failed,
{
}

} // verus!
