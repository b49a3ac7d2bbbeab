use vstd::prelude::*;

verus! {

/// The two states of the shutdown signal; `Fired` is terminal.
#[derive(Clone, Copy, Debug, PartialEq, Eq, Structural)]
pub enum SignalState {
    Idle,
    Fired,
}

/// The state after one firing of the signal, from any state.
pub open spec fn fire_spec(s: SignalState) -> SignalState {
    SignalState::Fired
}

/// Whether a consumer that waits in state `s` is released at once.
pub open spec fn released(s: SignalState) -> bool {
    s is Fired
}

/// A single-slot, one-shot stop notification. The producer fires it once an
/// external interrupt arrives; every consumer that checks it afterwards sees it.
#[derive(Clone, Copy, Debug)]
pub struct ShutdownSignal {
    state: SignalState,
}

impl View for ShutdownSignal {
    type V = SignalState;

    closed spec fn view(&self) -> SignalState {
        self.state
    }
}

impl ShutdownSignal {
    /// A signal that has not fired.
    pub fn new() -> (r: ShutdownSignal)
        ensures
            r@ == SignalState::Idle,
    {
        ShutdownSignal { state: SignalState::Idle }
    }

    /// Fires the signal. Returns whether this call made the transition, that
    /// is, whether the signal had not fired before; firing again changes nothing.
    pub fn fire(&mut self) -> (changed: bool)
        ensures
            final(self)@ == fire_spec(old(self)@),
            changed == (old(self)@ == SignalState::Idle),
    {
        let changed = match self.state {
            SignalState::Idle => true,
            SignalState::Fired => false,
        };
        self.state = SignalState::Fired;
        changed
    }

    /// Whether the signal has fired, so that a consumer waiting on it now is
    /// released at once.
    pub fn is_fired(&self) -> (r: bool)
        ensures
            r == released(self@),
    {
        match self.state {
            SignalState::Idle => false,
            SignalState::Fired => true,
        }
    }
}

/// A signal fired before any consumer waits is not missed: the first wait
/// after the firing is released at once, whatever the state before it.
pub proof fn fire_then_wait_is_released(s: SignalState)
    ensures
        released(fire_spec(s)),
{
}

/// Firing the signal a second time has no effect beyond the first firing.
pub proof fn fire_is_idempotent(s: SignalState)
    ensures
        fire_spec(fire_spec(s)) == fire_spec(s),
        released(fire_spec(fire_spec(s))) == released(fire_spec(s)),
{
}

/// A signal that has fired stays fired.
pub proof fn fired_is_terminal(s: SignalState)
    requires
        s is Fired,
    ensures
        fire_spec(s) == s,
{
}

} // verus!
