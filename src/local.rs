//! Queries answered by a local command (file search, vault search, custom
//! colon commands): the same generation and debounce discipline as backend
//! queries, with the longer debounce of heavier work. The command's output
//! replaces the list only while its query is current.
use vstd::prelude::*;
use crate::debounce::{fired, scheduled, DebounceModel, Debouncer};
use crate::generation::GenerationCounter;
use crate::orchestrator::InputOutcome;

verus! {

/// The state of local command queries.
pub struct CommandQueries {
    generation: GenerationCounter,
    debounce: Debouncer,
    delay_ms: u32,
    max_lines: usize,
    lines: Vec<String>,
}

/// The first `n` items of `s`, or all of them.
pub open spec fn first_n<T>(s: Seq<T>, n: usize) -> Seq<T> {
    if n < s.len() { s.subrange(0, n as int) } else { s }
}

impl CommandQueries {
    /// The current generation.
    pub closed spec fn current(&self) -> u64 {
        self.generation.value()
    }

    /// The state of the debounce scheduler.
    pub closed spec fn debounce_state(&self) -> DebounceModel {
        self.debounce@
    }

    /// The output lines on display.
    pub closed spec fn shown(&self) -> Seq<String> {
        self.lines@
    }

    /// The debounce delay.
    pub closed spec fn delay(&self) -> u32 {
        self.delay_ms
    }

    /// The cap on output lines.
    pub closed spec fn cap(&self) -> usize {
        self.max_lines
    }

    /// A pending trigger always carries the current generation.
    pub closed spec fn wf(&self) -> bool {
        &&& self.generation.wf()
        &&& self.debounce.wf()
        &&& (self.debounce@.pending matches Some(p) ==> p.generation == self.generation.value())
    }

    /// Local queries with nothing shown and nothing pending.
    pub fn new(delay_ms: u32, max_lines: usize) -> (r: Self)
        ensures
            r.wf(),
            r.current() == 0,
            r.shown().len() == 0,
            r.debounce_state().pending is None,
            r.debounce_state().next_token == 0,
            r.delay() == delay_ms,
            r.cap() == max_lines,
    {
        CommandQueries {
            generation: GenerationCounter::new(),
            debounce: Debouncer::new(),
            delay_ms,
            max_lines,
            lines: Vec::new(),
        }
    }

    /// Tells whether the counters leave room for one more input change.
    pub fn can_accept_input(&self) -> (r: bool)
        ensures
            r == (self.current() < u64::MAX && self.debounce_state().next_token < u64::MAX),
    {
        self.generation.current() < u64::MAX && self.debounce.next_token() < u64::MAX
    }

    /// The current generation.
    pub fn current_generation(&self) -> (r: u64)
        ensures
            r == self.current(),
    {
        self.generation.current()
    }

    /// The output lines on display.
    pub fn lines(&self) -> (r: &Vec<String>)
        ensures
            r@ == self.shown(),
    {
        &self.lines
    }

    /// The command's argument changed. The generation is bumped; without
    /// an argument the list is emptied and nothing is scheduled, otherwise
    /// the debounce is rescheduled with the new generation.
    pub fn input_changed(&mut self, has_argument: bool) -> (r: InputOutcome)
        requires
            old(self).wf(),
            old(self).current() < u64::MAX,
            old(self).debounce_state().next_token < u64::MAX,
        ensures
            final(self).wf(),
            final(self).current() == old(self).current() + 1,
            final(self).delay() == old(self).delay(),
            final(self).cap() == old(self).cap(),
            ({
                let cancel = match old(self).debounce_state().pending {
                    Some(p) => Some(p.token),
                    None => None::<u64>,
                };
                if has_argument {
                    &&& r == InputOutcome::Scheduled(crate::debounce::TimerCommand {
                        cancel,
                        arm: old(self).debounce_state().next_token,
                        delay_ms: old(self).delay(),
                    })
                    &&& final(self).debounce_state() == scheduled(old(self).debounce_state(), final(self).current())
                    &&& final(self).shown() == old(self).shown()
                } else {
                    &&& r == InputOutcome::Cleared { cancel }
                    &&& final(self).debounce_state().pending is None
                    &&& final(self).debounce_state().next_token == old(self).debounce_state().next_token
                    &&& final(self).shown().len() == 0
                }
            }),
    {
        let g = self.generation.bump();
        if has_argument {
            InputOutcome::Scheduled(self.debounce.schedule(self.delay_ms, g))
        } else {
            let cancel = self.debounce.cancel();
            self.lines.clear();
            InputOutcome::Cleared { cancel }
        }
    }

    /// The debounce timer `token` elapsed: the generation whose command is
    /// to run now, if the timer is the pending one.
    pub fn debounce_elapsed(&mut self, token: u64) -> (r: Option<u64>)
        requires
            old(self).wf(),
        ensures
            final(self).wf(),
            (final(self).debounce_state(), r) == fired(old(self).debounce_state(), token),
            r matches Some(g) ==> g == old(self).current(),
            final(self).current() == old(self).current(),
            final(self).shown() == old(self).shown(),
            final(self).delay() == old(self).delay(),
            final(self).cap() == old(self).cap(),
    {
        self.debounce.fire(token)
    }

    /// The command of `generation` printed `output`. While that query is
    /// current its first lines, up to the cap, replace the list; output of
    /// a superseded query changes nothing.
    pub fn deliver_lines(&mut self, generation: u64, output: Vec<String>) -> (r: bool)
        requires
            old(self).wf(),
        ensures
            final(self).wf(),
            r == (generation == old(self).current()),
            final(self).shown() == if r { first_n(output@, old(self).cap()) } else { old(self).shown() },
            final(self).current() == old(self).current(),
            final(self).debounce_state() == old(self).debounce_state(),
            final(self).delay() == old(self).delay(),
            final(self).cap() == old(self).cap(),
    {
        if generation != self.generation.current() {
            return false;
        }
        let mut output = output;
        output.truncate(self.max_lines);
        self.lines = output;
        true
    }
}

} // verus!
