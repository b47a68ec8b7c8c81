//! The actuation dispatcher: commands for the outputs, taken one at a time
//! from one queue, and the timers that end a pulse. The dispatcher owns no
//! pin and no clock. Its owner tells it the time, in milliseconds since some
//! fixed instant, hands it the level it read from a pin, performs the write
//! that the dispatcher decides on, and reports how the write went.

use std::collections::VecDeque;
use vstd::prelude::*;

verus! {

/// Ticks of the dispatcher's clock in one second.
pub const MILLIS_PER_SECOND: u64 = 1000;

/// The level of a pin.
#[derive(Clone, Copy, Debug, PartialEq, Eq, Structural)]
pub enum GpioState {
    High,
    Low,
}

/// List of available actions to perform on an output.
#[derive(Clone, Copy, Debug, PartialEq, Eq, Structural)]
pub enum GpioAction {
    /// Turn output on
    On,
    /// Turn output off
    Off,
    /// Toggle output
    Toggle,
    /// Pulse output on for n seconds
    Pulse(u64),
}

/// The outputs that can be driven.
#[derive(Clone, Copy, Debug, PartialEq, Eq, Structural)]
pub enum GpioOutput {
    Led,
    Pump,
}

/// An action for one output.
#[derive(Clone, Copy, Debug, PartialEq, Eq, Structural)]
pub struct Command {
    pub output: GpioOutput,
    pub action: GpioAction,
}

/// A level to put on the pin of an output.
#[derive(Clone, Copy, Debug, PartialEq, Eq, Structural)]
pub struct PinWrite {
    pub output: GpioOutput,
    pub state: GpioState,
}

/// A command held back until the clock reaches `due`, in milliseconds.
#[derive(Clone, Copy, Debug, PartialEq, Eq, Structural)]
pub struct Timer {
    pub due: u64,
    pub command: Command,
}

/// A write to the pin of this output failed.
#[derive(Clone, Copy, Debug, PartialEq, Eq, Structural)]
pub struct DispatchWriteError {
    pub output: GpioOutput,
}

/// The other level.
pub open spec fn complement(state: GpioState) -> GpioState {
    match state {
        GpioState::High => GpioState::Low,
        GpioState::Low => GpioState::High,
    }
}

/// The level that an action puts on a pin that was read at `physical`. A
/// pulse begins as `On` does; a toggle inverts what the pin itself shows.
pub open spec fn target(action: GpioAction, physical: GpioState) -> GpioState {
    match action {
        GpioAction::On => GpioState::High,
        GpioAction::Off => GpioState::Low,
        GpioAction::Toggle => complement(physical),
        GpioAction::Pulse(_) => GpioState::High,
    }
}

/// The time at which a pulse of so many seconds ends that begins at `now`.
/// A pulse that would end beyond the last instant of the clock ends at that
/// instant.
pub open spec fn pulse_end(now: u64, seconds: u64) -> u64 {
    if now + seconds * MILLIS_PER_SECOND <= u64::MAX {
        (now + seconds * MILLIS_PER_SECOND) as u64
    } else {
        u64::MAX
    }
}

/// The commands of the timers that are due at `now`, in the order of the timers.
pub open spec fn due_commands(timers: Seq<Timer>, now: u64) -> Seq<Command>
    decreases timers.len(),
{
    if timers.len() == 0 {
        Seq::empty()
    } else if timers.last().due <= now {
        due_commands(timers.drop_last(), now).push(timers.last().command)
    } else {
        due_commands(timers.drop_last(), now)
    }
}

/// The timers that are not yet due at `now`, in their order.
pub open spec fn waiting(timers: Seq<Timer>, now: u64) -> Seq<Timer>
    decreases timers.len(),
{
    if timers.len() == 0 {
        Seq::empty()
    } else if timers.last().due <= now {
        waiting(timers.drop_last(), now)
    } else {
        waiting(timers.drop_last(), now).push(timers.last())
    }
}

/// The state of a dispatcher: the level of each output as far as the
/// dispatcher knows it, the commands that wait their turn with the next one
/// first, the timers in the order they were set, and the time in milliseconds.
pub struct DispatcherState {
    pub led: GpioState,
    pub pump: GpioState,
    pub queue: Seq<Command>,
    pub timers: Seq<Timer>,
    pub now: u64,
}

impl DispatcherState {
    /// The level of `output`: the one last written to it, or the one it
    /// started with if nothing was written yet.
    pub open spec fn level(self, output: GpioOutput) -> GpioState {
        match output {
            GpioOutput::Led => self.led,
            GpioOutput::Pump => self.pump,
        }
    }

    /// The state with `state` as the level of `output`.
    pub open spec fn with_level(self, output: GpioOutput, state: GpioState) -> Self {
        match output {
            GpioOutput::Led => DispatcherState { led: state, ..self },
            GpioOutput::Pump => DispatcherState { pump: state, ..self },
        }
    }

    /// A command joins the queue at its end.
    pub open spec fn submitted(self, command: Command) -> Self {
        DispatcherState { queue: self.queue.push(command), ..self }
    }

    /// The clock is set to `t` unless it is already beyond; the commands of
    /// the timers then due join the queue at its end, and their timers go.
    pub open spec fn advanced(self, t: u64) -> Self {
        let now = if t > self.now {
            t
        } else {
            self.now
        };
        DispatcherState {
            queue: self.queue + due_commands(self.timers, now),
            timers: waiting(self.timers, now),
            now,
            ..self
        }
    }

    /// The write that the first command of the queue asks for.
    pub open spec fn next_write(self, physical: GpioState) -> PinWrite
        recommends
            self.queue.len() > 0,
    {
        PinWrite {
            output: self.queue[0].output,
            state: target(self.queue[0].action, physical),
        }
    }

    /// The first command leaves the queue. If it is a pulse, a timer is set
    /// that turns its output off when the pulse ends.
    pub open spec fn processed(self) -> Self
        recommends
            self.queue.len() > 0,
    {
        let command = self.queue[0];
        DispatcherState {
            queue: self.queue.drop_first(),
            timers: match command.action {
                GpioAction::Pulse(seconds) => self.timers.push(
                    Timer {
                        due: pulse_end(self.now, seconds),
                        command: Command { output: command.output, action: GpioAction::Off },
                    },
                ),
                _ => self.timers,
            },
            ..self
        }
    }

    /// A write that went through is the new level of its output; one that
    /// failed changes nothing.
    pub open spec fn settled(self, write: PinWrite, succeeded: bool) -> Self {
        if succeeded {
            self.with_level(write.output, write.state)
        } else {
            self
        }
    }
}

/// The dispatcher.
#[derive(Debug)]
pub struct Dispatcher {
    pub led: GpioState,
    pub pump: GpioState,
    pub queue: VecDeque<Command>,
    pub timers: Vec<Timer>,
    pub now: u64,
}

impl View for Dispatcher {
    type V = DispatcherState;

    open spec fn view(&self) -> DispatcherState {
        DispatcherState {
            led: self.led,
            pump: self.pump,
            queue: self.queue@,
            timers: self.timers@,
            now: self.now,
        }
    }
}

impl Dispatcher {
    /// A dispatcher at time zero, with no command and no timer, for outputs
    /// whose pins show the given levels.
    pub fn new(led: GpioState, pump: GpioState) -> (dispatcher: Self)
        ensures
            dispatcher@ == (DispatcherState {
                led,
                pump,
                queue: Seq::empty(),
                timers: Seq::empty(),
                now: 0,
            }),
    {
        Dispatcher { led, pump, queue: VecDeque::new(), timers: Vec::new(), now: 0 }
    }

    /// The level of `output`: the one last written to it, or the one it
    /// started with if nothing was written yet.
    pub fn level(&self, output: GpioOutput) -> (state: GpioState)
        ensures
            state == self@.level(output),
    {
        match output {
            GpioOutput::Led => self.led,
            GpioOutput::Pump => self.pump,
        }
    }

    /// Puts a command at the end of the queue.
    pub fn submit(&mut self, command: Command)
        ensures
            final(self)@ == old(self)@.submitted(command),
    {
        self.queue.push_back(command);
    }

    /// Tells the dispatcher the time, in milliseconds. The commands of the
    /// timers that are due join the queue behind those that wait there already.
    pub fn advance(&mut self, t: u64)
        ensures
            final(self)@ == old(self)@.advanced(t),
    {
        if t > self.now {
            self.now = t;
        }
        let now: u64 = self.now;
        let ghost timers = self.timers@;
        let ghost queue = self.queue@;
        let mut kept: Vec<Timer> = Vec::new();
        let mut i: usize = 0;
        while i < self.timers.len()
            invariant
                i <= self.timers.len(),
                self.timers@ == timers,
                self.now == now,
                self.led == old(self).led,
                self.pump == old(self).pump,
                self.queue@ == queue + due_commands(timers.take(i as int), now),
                kept@ == waiting(timers.take(i as int), now),
            decreases self.timers.len() - i,
        {
            let timer: Timer = self.timers[i];
            assert(timers.take(i + 1).drop_last() =~= timers.take(i as int));
            if timer.due <= now {
                self.queue.push_back(timer.command);
            } else {
                kept.push(timer);
            }
            i += 1;
        }
        assert(timers.take(i as int) =~= timers);
        self.timers = kept;
    }

    /// The command that is next in turn, if there is one.
    pub fn pending(&self) -> (command: Option<Command>)
        ensures
            command == (if self@.queue.len() > 0 {
                Some(self@.queue[0])
            } else {
                None
            }),
    {
        if self.queue.len() > 0 {
            Some(self.queue[0])
        } else {
            None
        }
    }

    /// Takes the next command from the queue and decides the write it asks
    /// for, given the level read from the pin of its output. For a pulse the
    /// timer of the closing `Off` is set here, before anything is written.
    /// With an empty queue nothing happens.
    pub fn process(&mut self, physical: GpioState) -> (write: Option<PinWrite>)
        ensures
            old(self)@.queue.len() == 0 ==> write is None && final(self)@ == old(self)@,
            old(self)@.queue.len() > 0 ==> write == Some(old(self)@.next_write(physical))
                && final(self)@ == old(self)@.processed(),
    {
        match self.queue.pop_front() {
            None => None,
            Some(command) => {
                let state = match command.action {
                    GpioAction::On => GpioState::High,
                    GpioAction::Off => GpioState::Low,
                    GpioAction::Toggle => match physical {
                        GpioState::High => GpioState::Low,
                        GpioState::Low => GpioState::High,
                    },
                    GpioAction::Pulse(seconds) => {
                        let off_command = Command {
                            output: command.output,
                            action: GpioAction::Off,
                        };
                        let length: u64 = match seconds.checked_mul(MILLIS_PER_SECOND) {
                            Some(millis) => millis,
                            None => u64::MAX,
                        };
                        self.timers.push(
                            Timer { due: self.now.saturating_add(length), command: off_command },
                        );
                        GpioState::High
                    },
                };
                Some(PinWrite { output: command.output, state })
            },
        }
    }

    /// Takes note of how a write went. A write that went through is the new
    /// level of its output; a failed one is reported and changes nothing.
    pub fn settle(&mut self, write: PinWrite, succeeded: bool) -> (outcome: Result<
        (),
        DispatchWriteError,
    >)
        ensures
            final(self)@ == old(self)@.settled(write, succeeded),
            succeeded ==> outcome == Ok::<(), DispatchWriteError>(()),
            !succeeded ==> outcome == Err::<(), DispatchWriteError>(
                DispatchWriteError { output: write.output },
            ),
    {
        if !succeeded {
            return Err(DispatchWriteError { output: write.output });
        }
        match write.output {
            GpioOutput::Led => {
                self.led = write.state;
            },
            GpioOutput::Pump => {
                self.pump = write.state;
            },
        }
        Ok(())
    }

    /// The time of the timer that is due first, if any timer is set.
    pub fn next_due(&self) -> (due: Option<u64>)
        ensures
            match due {
                None => self@.timers.len() == 0,
                Some(first) => {
                    &&& exists|i: int|
                        0 <= i < self@.timers.len() && #[trigger] self@.timers[i].due == first
                    &&& forall|i: int|
                        0 <= i < self@.timers.len() ==> first <= #[trigger] self@.timers[i].due
                },
            },
    {
        if self.timers.len() == 0 {
            return None;
        }
        let mut first: u64 = self.timers[0].due;
        let mut i: usize = 1;
        while i < self.timers.len()
            invariant
                1 <= i <= self.timers.len(),
                exists|k: int| 0 <= k < i && #[trigger] self@.timers[k].due == first,
                forall|k: int| 0 <= k < i ==> first <= #[trigger] self@.timers[k].due,
            decreases self.timers.len() - i,
        {
            if self.timers[i].due < first {
                first = self.timers[i].due;
            }
            i += 1;
        }
        Some(first)
    }
}

/// What can happen to a dispatcher, one thing at a time.
pub enum Step {
    /// A command is submitted.
    Submit(Command),
    /// The dispatcher is told the time.
    Advance(u64),
    /// The next command, if any, is processed: the pin of its output was
    /// read at `physical`, and the write went as `succeeded` says.
    Process { physical: GpioState, succeeded: bool },
}

impl DispatcherState {
    /// The state after one step.
    pub open spec fn stepped(self, step: Step) -> Self {
        match step {
            Step::Submit(command) => self.submitted(command),
            Step::Advance(t) => self.advanced(t),
            Step::Process { physical, succeeded } => if self.queue.len() > 0 {
                self.processed().settled(self.next_write(physical), succeeded)
            } else {
                self
            },
        }
    }

    /// The state after the given steps, taken in their order.
    pub open spec fn run(self, steps: Seq<Step>) -> Self
        decreases steps.len(),
    {
        if steps.len() == 0 {
            self
        } else {
            self.run(steps.drop_last()).stepped(steps.last())
        }
    }

    /// `output` is high and stays so until `deadline`: no command for it
    /// waits in the queue, none of its timers is due before `deadline`, and
    /// the timer that turns it off at `deadline` is set.
    pub open spec fn holds_high(self, output: GpioOutput, deadline: u64) -> bool {
        &&& self.level(output) == GpioState::High
        &&& forall|i: int| 0 <= i < self.queue.len() ==> (#[trigger] self.queue[i]).output != output
        &&& forall|i: int|
            0 <= i < self.timers.len() && (#[trigger] self.timers[i]).command.output == output
                ==> self.timers[i].due >= deadline
        &&& self.timers.contains(closing_timer(output, deadline))
    }
}

/// The timer that turns `output` off at `deadline`.
pub open spec fn closing_timer(output: GpioOutput, deadline: u64) -> Timer {
    Timer { due: deadline, command: Command { output, action: GpioAction::Off } }
}

/// The steps leave `output` alone before `deadline`: no command for it is
/// submitted, and the clock, which stands at `now`, is not brought to
/// `deadline` or beyond.
pub open spec fn spares(steps: Seq<Step>, output: GpioOutput, now: u64, deadline: u64) -> bool {
    forall|i: int|
        0 <= i < steps.len() ==> match #[trigger] steps[i] {
            Step::Submit(command) => command.output != output,
            Step::Advance(t) => t < deadline && now < deadline,
            Step::Process { .. } => true,
        }
}

/// A command is handed to the queue only by a timer that is due.
pub proof fn lemma_due_commands_origin(timers: Seq<Timer>, now: u64)
    ensures
        forall|k: int|
            0 <= k < due_commands(timers, now).len() ==> exists|i: int|
                0 <= i < timers.len() && (#[trigger] timers[i]).due <= now && timers[i].command
                    == #[trigger] due_commands(timers, now)[k],
    decreases timers.len(),
{
    if timers.len() > 0 {
        let front = timers.drop_last();
        lemma_due_commands_origin(front, now);
        assert forall|k: int| 0 <= k < due_commands(timers, now).len() implies exists|i: int|
            0 <= i < timers.len() && (#[trigger] timers[i]).due <= now && timers[i].command
                == #[trigger] due_commands(timers, now)[k] by {
            if k < due_commands(front, now).len() {
                let i = choose|i: int|
                    0 <= i < front.len() && (#[trigger] front[i]).due <= now && front[i].command
                        == due_commands(front, now)[k];
                assert(timers[i] == front[i]);
            } else {
                assert(timers[timers.len() - 1] == timers.last());
            }
        }
    }
}

/// Every timer that is due hands its command to the queue.
pub proof fn lemma_due_timer_delivered(timers: Seq<Timer>, now: u64, i: int)
    requires
        0 <= i < timers.len(),
        timers[i].due <= now,
    ensures
        due_commands(timers, now).contains(timers[i].command),
    decreases timers.len(),
{
    let front = timers.drop_last();
    if i == timers.len() - 1 {
        assert(due_commands(timers, now).last() == timers[i].command);
    } else {
        lemma_due_timer_delivered(front, now, i);
        let k = choose|k: int|
            0 <= k < due_commands(front, now).len() && due_commands(front, now)[k]
                == front[i].command;
        assert(due_commands(timers, now)[k] == timers[i].command);
    }
}

/// The timers that stay are exactly those that are not yet due.
pub proof fn lemma_waiting_timers(timers: Seq<Timer>, now: u64)
    ensures
        forall|k: int|
            0 <= k < waiting(timers, now).len() ==> (#[trigger] waiting(timers, now)[k]).due > now
                && timers.contains(waiting(timers, now)[k]),
        forall|i: int|
            0 <= i < timers.len() && (#[trigger] timers[i]).due > now ==> waiting(
                timers,
                now,
            ).contains(timers[i]),
    decreases timers.len(),
{
    if timers.len() > 0 {
        let front = timers.drop_last();
        let last = timers.last();
        lemma_waiting_timers(front, now);
        assert forall|k: int| 0 <= k < waiting(timers, now).len() implies (#[trigger] waiting(
            timers,
            now,
        )[k]).due > now && timers.contains(waiting(timers, now)[k]) by {
            if k < waiting(front, now).len() {
                let w = waiting(front, now)[k];
                let i = choose|i: int| 0 <= i < front.len() && front[i] == w;
                assert(timers[i] == w);
            } else {
                assert(timers[timers.len() - 1] == last);
            }
        }
        assert forall|i: int| 0 <= i < timers.len() && (#[trigger] timers[i]).due
            > now implies waiting(timers, now).contains(timers[i]) by {
            if i < front.len() {
                let k = choose|k: int|
                    0 <= k < waiting(front, now).len() && waiting(front, now)[k] == front[i];
                assert(waiting(timers, now)[k] == timers[i]);
            } else {
                assert(waiting(timers, now).last() == timers[i]);
            }
        }
    }
}

/// One step that spares an output leaves it high.
proof fn lemma_step_keeps_high(st: DispatcherState, output: GpioOutput, deadline: u64, step: Step)
    requires
        st.holds_high(output, deadline),
        match step {
            Step::Submit(command) => command.output != output,
            Step::Advance(t) => t < deadline && st.now < deadline,
            Step::Process { .. } => true,
        },
    ensures
        st.stepped(step).holds_high(output, deadline),
        st.now < deadline ==> st.stepped(step).now < deadline,
{
    let next = st.stepped(step);
    let closing = closing_timer(output, deadline);
    let at = choose|i: int| 0 <= i < st.timers.len() && st.timers[i] == closing;
    match step {
        Step::Submit(command) => {
            assert forall|i: int| 0 <= i < next.queue.len() implies (#[trigger] next.queue[i]).output
                != output by {
                if i < st.queue.len() {
                    assert(next.queue[i] == st.queue[i]);
                }
            }
        },
        Step::Advance(t) => {
            lemma_due_commands_origin(st.timers, next.now);
            lemma_waiting_timers(st.timers, next.now);
            let delivered = due_commands(st.timers, next.now);
            assert forall|i: int| 0 <= i < next.queue.len() implies (#[trigger] next.queue[i]).output
                != output by {
                if i < st.queue.len() {
                    assert(next.queue[i] == st.queue[i]);
                } else {
                    // it came from a timer that is due, so not from one for this output
                    assert(next.queue[i] == delivered[i - st.queue.len()]);
                }
            }
            assert forall|i: int|
                0 <= i < next.timers.len() && (#[trigger] next.timers[i]).command.output
                    == output implies next.timers[i].due >= deadline by {
                // a timer that stays is one that was set before
                assert(st.timers.contains(next.timers[i]));
            }
            assert(next.timers.contains(st.timers[at]));
        },
        Step::Process { physical, succeeded } => {
            if st.queue.len() > 0 {
                assert forall|i: int| 0 <= i < next.queue.len() implies (
                #[trigger] next.queue[i]).output != output by {
                    assert(next.queue[i] == st.queue[i + 1]);
                }
                assert forall|i: int|
                    0 <= i < next.timers.len() && (#[trigger] next.timers[i]).command.output
                        == output implies next.timers[i].due >= deadline by {
                    if i < st.timers.len() {
                        assert(next.timers[i] == st.timers[i]);
                    }
                }
                assert(next.timers[at] == closing);
            }
        },
    }
}

/// Steps that spare an output leave it high, however many they are.
proof fn lemma_run_keeps_high(
    st: DispatcherState,
    output: GpioOutput,
    deadline: u64,
    steps: Seq<Step>,
)
    requires
        st.holds_high(output, deadline),
        spares(steps, output, st.now, deadline),
    ensures
        st.run(steps).holds_high(output, deadline),
        st.now < deadline ==> st.run(steps).now < deadline,
    decreases steps.len(),
{
    if steps.len() > 0 {
        let front = steps.drop_last();
        assert forall|i: int| 0 <= i < front.len() implies match #[trigger] front[i] {
            Step::Submit(command) => command.output != output,
            Step::Advance(t) => t < deadline && st.now < deadline,
            Step::Process { .. } => true,
        } by {
            assert(front[i] == steps[i]);
        }
        lemma_run_keeps_high(st, output, deadline, front);
        lemma_step_keeps_high(st.run(front), output, deadline, steps.last());
    }
}

/// A pulse turns its output on at once and keeps it on until the pulse ends.
///
/// Let a pulse be next in turn while no other command waits for its output
/// and no timer of an earlier pulse on that output is due before this pulse
/// ends, and let the write that begins it go through. Then the output is
/// high, and it is still high after any further steps that submit commands
/// for other outputs only and do not bring the clock to the end of the
/// pulse, whatever is processed meanwhile and however those writes go. All
/// that time the timer that turns the output off at the end of the pulse
/// stays set.
pub proof fn lemma_pulse_holds(
    s: DispatcherState,
    seconds: u64,
    physical: GpioState,
    rest: Seq<Step>,
)
    requires
        s.queue.len() > 0,
        s.queue[0].action == GpioAction::Pulse(seconds),
        forall|i: int| 1 <= i < s.queue.len() ==> (#[trigger] s.queue[i]).output != s.queue[0].output,
        forall|i: int|
            0 <= i < s.timers.len() && (#[trigger] s.timers[i]).command.output
                == s.queue[0].output ==> s.timers[i].due >= pulse_end(s.now, seconds),
        spares(rest, s.queue[0].output, s.now, pulse_end(s.now, seconds)),
    ensures
        ({
            let output = s.queue[0].output;
            let begun = s.stepped(Step::Process { physical, succeeded: true });
            &&& s.next_write(physical) == PinWrite { output, state: GpioState::High }
            &&& begun.level(output) == GpioState::High
            &&& begun.run(rest).level(output) == GpioState::High
            &&& begun.run(rest).timers.contains(closing_timer(output, pulse_end(s.now, seconds)))
        }),
{
    let output = s.queue[0].output;
    let deadline = pulse_end(s.now, seconds);
    let begun = s.stepped(Step::Process { physical, succeeded: true });
    assert forall|i: int| 0 <= i < begun.queue.len() implies (#[trigger] begun.queue[i]).output
        != output by {
        assert(begun.queue[i] == s.queue[i + 1]);
    }
    assert forall|i: int|
        0 <= i < begun.timers.len() && (#[trigger] begun.timers[i]).command.output
            == output implies begun.timers[i].due >= deadline by {
        if i < s.timers.len() {
            assert(begun.timers[i] == s.timers[i]);
        }
    }
    assert(begun.timers[s.timers.len() as int] == closing_timer(output, deadline));
    lemma_run_keeps_high(begun, output, deadline, rest);
}

/// A pulse ends when its time has come, and with one command: once the
/// clock is brought to the end of the pulse or beyond, the timer that closes
/// it hands `Off` for its output to the queue; and when that command is
/// next in turn, the write it asks for is the low level, whatever the pin
/// shows.
pub proof fn lemma_pulse_ends(s: DispatcherState, output: GpioOutput, deadline: u64, t: u64)
    requires
        s.timers.contains(closing_timer(output, deadline)),
        t >= deadline,
    ensures
        s.advanced(t).queue.contains(Command { output, action: GpioAction::Off }),
        forall|physical: GpioState|
            target(GpioAction::Off, physical) == GpioState::Low,
{
    let closing = closing_timer(output, deadline);
    let i = choose|i: int| 0 <= i < s.timers.len() && s.timers[i] == closing;
    let now = s.advanced(t).now;
    lemma_due_timer_delivered(s.timers, now, i);
    let delivered = due_commands(s.timers, now);
    let k = choose|k: int| 0 <= k < delivered.len() && delivered[k] == closing.command;
    assert(s.advanced(t).queue[s.queue.len() + k] == closing.command);
}

/// When the timer that closes a pulse is the only thing pending, bringing
/// the clock to the end of the pulse or beyond and processing one command
/// turns the output off and leaves nothing pending.
pub proof fn lemma_lone_pulse_turns_off(
    s: DispatcherState,
    output: GpioOutput,
    deadline: u64,
    t: u64,
    physical: GpioState,
)
    requires
        s.queue.len() == 0,
        s.timers == seq![closing_timer(output, deadline)],
        t >= deadline,
    ensures
        ({
            let ended = s.advanced(t).stepped(Step::Process { physical, succeeded: true });
            &&& ended.level(output) == GpioState::Low
            &&& ended.queue.len() == 0
            &&& ended.timers.len() == 0
        }),
{
    reveal_with_fuel(due_commands, 2);
    reveal_with_fuel(waiting, 2);
    assert(s.timers.drop_last() =~= Seq::<Timer>::empty());
}

/// A pulse whose first write fails still ends: the timer that closes it is
/// set when the pulse is taken from the queue, before the write is made.
pub proof fn lemma_failed_pulse_still_ends(s: DispatcherState, seconds: u64, physical: GpioState)
    requires
        s.queue.len() > 0,
        s.queue[0].action == GpioAction::Pulse(seconds),
    ensures
        s.stepped(Step::Process { physical, succeeded: false }).timers.contains(
            closing_timer(s.queue[0].output, pulse_end(s.now, seconds)),
        ),
        s.stepped(Step::Process { physical, succeeded: false }).level(s.queue[0].output)
            == s.level(s.queue[0].output),
{
    let after = s.stepped(Step::Process { physical, succeeded: false });
    assert(after.timers[s.timers.len() as int] == closing_timer(
        s.queue[0].output,
        pulse_end(s.now, seconds),
    ));
}

} // verus!
