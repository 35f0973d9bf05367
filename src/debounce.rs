//! The debounce scheduler: coalesces a burst of input events into one
//! delayed trigger. At most one trigger is pending; scheduling a new one
//! cancels it. The driver owns the real timers and reports which one fired.
use vstd::prelude::*;

verus! {

/// A trigger that is armed and has not fired yet.
#[derive(Debug, Clone, Copy, PartialEq, Eq)]
pub struct PendingFire {
    /// The token of the timer that will report this trigger.
    pub token: u64,
    /// The generation captured when the trigger was scheduled.
    pub generation: u64,
}

/// What the driver must do to its timers after a `schedule`.
#[derive(Debug, Clone, Copy, PartialEq, Eq)]
pub struct TimerCommand {
    /// The timer to remove, if one was pending.
    pub cancel: Option<u64>,
    /// The token of the timer to arm.
    pub arm: u64,
    /// Its delay in milliseconds.
    pub delay_ms: u32,
}

/// The state of the scheduler: the token the next timer gets and the
/// pending trigger, if any.
pub struct Debouncer {
    next_token: u64,
    pending: Option<PendingFire>,
}

/// The mathematical value of a `Debouncer`.
pub ghost struct DebounceModel {
    pub next_token: u64,
    pub pending: Option<PendingFire>,
}

impl View for Debouncer {
    type V = DebounceModel;

    closed spec fn view(&self) -> DebounceModel {
        DebounceModel { next_token: self.next_token, pending: self.pending }
    }
}

/// The scheduler after `schedule` with generation `g`.
pub open spec fn scheduled(d: DebounceModel, g: u64) -> DebounceModel {
    DebounceModel {
        next_token: (d.next_token + 1) as u64,
        pending: Some(PendingFire { token: d.next_token, generation: g }),
    }
}

/// The scheduler after the timer `token` reported, and the generation that
/// fires, if that timer is the pending one.
pub open spec fn fired(d: DebounceModel, token: u64) -> (DebounceModel, Option<u64>) {
    match d.pending {
        Some(p) => if p.token == token {
            (DebounceModel { next_token: d.next_token, pending: None }, Some(p.generation))
        } else {
            (d, None)
        },
        None => (d, None),
    }
}

/// The scheduler after a burst of `schedule` calls with the generations `gs`.
pub open spec fn scheduled_all(d: DebounceModel, gs: Seq<u64>) -> DebounceModel
    decreases gs.len(),
{
    if gs.len() == 0 {
        d
    } else {
        scheduled(scheduled_all(d, gs.drop_last()), gs.last())
    }
}

/// A pending trigger carries a token that was handed out.
pub open spec fn wf_model(d: DebounceModel) -> bool {
    d.pending matches Some(p) ==> p.token < d.next_token
}

impl Debouncer {
    /// The token that the next armed timer gets.
    pub open spec fn next(&self) -> u64 {
        self@.next_token
    }

    /// The trigger that is armed and has not fired.
    pub open spec fn pending_fire(&self) -> Option<PendingFire> {
        self@.pending
    }

    /// A pending trigger carries a token that was handed out.
    pub open spec fn wf(&self) -> bool {
        wf_model(self@)
    }

    /// A scheduler with nothing pending.
    pub fn new() -> (r: Self)
        ensures
            r.wf(),
            r.pending_fire() is None,
            r.next() == 0,
    {
        Debouncer { next_token: 0, pending: None }
    }

    /// The token that the next armed timer gets.
    pub fn next_token(&self) -> (r: u64)
        ensures
            r == self.next(),
    {
        self.next_token
    }

    /// Tells whether a trigger is pending.
    pub fn is_pending(&self) -> (r: bool)
        ensures
            r == self.pending_fire() is Some,
    {
        self.pending.is_some()
    }

    /// Cancels the pending trigger, if any, and arms a new one that carries
    /// `generation`.
    pub fn schedule(&mut self, delay_ms: u32, generation: u64) -> (r: TimerCommand)
        requires
            old(self).wf(),
            old(self).next() < u64::MAX,
        ensures
            final(self).wf(),
            final(self)@ == scheduled(old(self)@, generation),
            r.cancel == match old(self).pending_fire() {
                Some(p) => Some(p.token),
                None => None::<u64>,
            },
            r.arm == old(self).next(),
            r.delay_ms == delay_ms,
    {
        let cancel = match self.pending {
            Some(p) => Some(p.token),
            None => None,
        };
        let token = self.next_token;
        self.pending = Some(PendingFire { token, generation });
        self.next_token = self.next_token + 1;
        TimerCommand { cancel, arm: token, delay_ms }
    }

    /// The timer `token` has elapsed. When it is the pending one, the
    /// pending trigger is cleared before its generation is handed back to
    /// run the action; a cancelled timer fires nothing.
    pub fn fire(&mut self, token: u64) -> (r: Option<u64>)
        requires
            old(self).wf(),
        ensures
            final(self).wf(),
            (final(self)@, r) == fired(old(self)@, token),
    {
        match self.pending {
            Some(p) => {
                if p.token == token {
                    self.pending = None;
                    Some(p.generation)
                } else {
                    None
                }
            },
            None => None,
        }
    }

    /// Cancels the pending trigger, if any, and returns the timer to remove.
    /// A second call does nothing.
    pub fn cancel(&mut self) -> (r: Option<u64>)
        requires
            old(self).wf(),
        ensures
            final(self).wf(),
            final(self).pending_fire() is None,
            final(self).next() == old(self).next(),
            r == match old(self).pending_fire() {
                Some(p) => Some(p.token),
                None => None::<u64>,
            },
    {
        let r = match self.pending {
            Some(p) => Some(p.token),
            None => None,
        };
        self.pending = None;
        r
    }
}

proof fn lemma_scheduled_all(d: DebounceModel, gs: Seq<u64>)
    requires
        d.next_token + gs.len() <= u64::MAX,
    ensures
        scheduled_all(d, gs).next_token == d.next_token + gs.len(),
        gs.len() > 0 ==> scheduled_all(d, gs).pending == Some(
            PendingFire { token: (d.next_token + gs.len() - 1) as u64, generation: gs.last() },
        ),
        gs.len() == 0 ==> scheduled_all(d, gs) == d,
    decreases gs.len(),
{
    if gs.len() > 0 {
        lemma_scheduled_all(d, gs.drop_last());
    }
}

/// A burst of `schedule` calls fires exactly once: of the timers armed by
/// the burst, only the last one fires, and it carries the generation of the
/// last call; once it has fired, no timer of the burst fires again.
pub proof fn debounce_coalescing(d: DebounceModel, gs: Seq<u64>)
    requires
        wf_model(d),
        gs.len() > 0,
        d.next_token + gs.len() <= u64::MAX,
    ensures
        ({
            let e = scheduled_all(d, gs);
            let last = (d.next_token + gs.len() - 1) as u64;
            &&& forall|t: u64| d.next_token <= t < last ==> (#[trigger] fired(e, t)).1 is None
            &&& fired(e, last).1 == Some(gs.last())
            &&& forall|t: u64| d.next_token <= t <= last ==> (#[trigger] fired(fired(e, last).0, t)).1 is None
        }),
{
    lemma_scheduled_all(d, gs);
}

} // verus!
