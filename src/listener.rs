use vstd::prelude::*;

use crate::signal::{key_signal, signal_for_key, ControlSignal, KeyInput};

verus! {

/// What one blocking read of the terminal gave.
#[derive(Clone, Copy, Debug, PartialEq, Eq, Structural)]
pub enum ListenerInput {
    /// A key event.
    Key(KeyInput),
    /// An event that is not a key (a resize, a focus change).
    OtherEvent,
    /// The read failed.
    ReadFailed,
}

/// What the listener does with one input: the signal to send, if any, and
/// whether it stops reading.
#[derive(Clone, Copy, Debug, PartialEq, Eq, Structural)]
pub struct ListenerAction {
    pub send: Option<ControlSignal>,
    pub stop: bool,
}

/// The listener sends what a key stands for; it stops after a Quit and
/// after a failed read.
pub open spec fn listener_action(i: ListenerInput) -> ListenerAction {
    match i {
        ListenerInput::Key(k) => ListenerAction {
            send: key_signal(k),
            stop: key_signal(k) == Some(ControlSignal::Quit),
        },
        ListenerInput::OtherEvent => ListenerAction { send: None, stop: false },
        ListenerInput::ReadFailed => ListenerAction { send: None, stop: true },
    }
}

pub fn listener_step(i: ListenerInput) -> (r: ListenerAction)
    ensures
        r == listener_action(i),
{
    match i {
        ListenerInput::Key(k) => {
            let send = signal_for_key(k);
            let stop = match send {
                Some(ControlSignal::Quit) => true,
                _ => false,
            };
            ListenerAction { send, stop }
        },
        ListenerInput::OtherEvent => ListenerAction { send: None, stop: false },
        ListenerInput::ReadFailed => ListenerAction { send: None, stop: true },
    }
}

/// The terminal's input mode as the listener holds it: whether it is raw
/// now, whether it was raw before the listener took it, and whether the
/// listener still reads.
#[derive(Clone, Copy, Debug, PartialEq, Eq, Structural)]
pub struct Listener {
    pub raw: bool,
    pub raw_before: bool,
    pub reading: bool,
}

pub open spec fn started(raw_before: bool) -> Listener {
    Listener { raw: true, raw_before, reading: true }
}

/// Once it stops, the listener hands the terminal back in the mode it found.
pub open spec fn stopped(l: Listener) -> Listener {
    Listener { raw: l.raw_before, raw_before: l.raw_before, reading: false }
}

pub open spec fn listener_next(l: Listener, i: ListenerInput) -> Listener {
    if l.reading && listener_action(i).stop {
        stopped(l)
    } else {
        l
    }
}

/// The listener after a sequence of inputs.
pub open spec fn listener_run(l: Listener, inputs: Seq<ListenerInput>) -> Listener
    decreases inputs.len(),
{
    if inputs.len() == 0 {
        l
    } else {
        listener_run(listener_next(l, inputs[0]), inputs.drop_first())
    }
}

/// Whether an input ends the listener.
pub open spec fn ends_listener(i: ListenerInput) -> bool {
    listener_action(i).stop
}

impl Listener {
    /// Takes the terminal into raw mode, noting the mode it was in.
    pub fn start(raw_before: bool) -> (r: Listener)
        ensures
            r == started(raw_before),
    {
        Listener { raw: true, raw_before, reading: true }
    }

    /// Handles one input. While reading, it returns the action for it and,
    /// on a stop, hands the terminal back; once stopped it does nothing.
    pub fn handle(&mut self, i: ListenerInput) -> (r: ListenerAction)
        ensures
            *final(self) == listener_next(*old(self), i),
            old(self).reading ==> r == listener_action(i),
            !old(self).reading ==> r == (ListenerAction { send: None, stop: true }),
    {
        if !self.reading {
            return ListenerAction { send: None, stop: true };
        }
        let a = listener_step(i);
        if a.stop {
            self.stop();
        }
        a
    }

    /// Stops reading and hands the terminal back, on any path out: the
    /// session's end, an error, or a stop that the listener chose itself.
    pub fn stop(&mut self)
        ensures
            *final(self) == stopped(*old(self)),
    {
        self.raw = self.raw_before;
        self.reading = false;
    }
}

/// Whatever the inputs, and whether the listener stops on its own (Quit, a
/// failed read) or is stopped from outside (the session ends or fails), the
/// terminal ends in the mode it had before the listener started.
pub proof fn lemma_terminal_restored(raw_before: bool, inputs: Seq<ListenerInput>)
    ensures
        stopped(listener_run(started(raw_before), inputs)).raw == raw_before,
        (exists|j: int| 0 <= j < inputs.len() && ends_listener(#[trigger] inputs[j])) ==> {
            let l = listener_run(started(raw_before), inputs);
            !l.reading && l.raw == raw_before
        },
{
    lemma_run_keeps_before(started(raw_before), inputs);
    if exists|j: int| 0 <= j < inputs.len() && ends_listener(#[trigger] inputs[j]) {
        let j = choose|j: int| 0 <= j < inputs.len() && ends_listener(#[trigger] inputs[j]);
        lemma_stop_input_stops(started(raw_before), inputs, j);
    }
}

proof fn lemma_run_keeps_before(l: Listener, inputs: Seq<ListenerInput>)
    requires
        l.reading || l.raw == l.raw_before,
    ensures
        listener_run(l, inputs).raw_before == l.raw_before,
        listener_run(l, inputs).reading || listener_run(l, inputs).raw == l.raw_before,
    decreases inputs.len(),
{
    if inputs.len() > 0 {
        lemma_run_keeps_before(listener_next(l, inputs[0]), inputs.drop_first());
    }
}

proof fn lemma_stop_input_stops(l: Listener, inputs: Seq<ListenerInput>, j: int)
    requires
        l.reading || l.raw == l.raw_before,
        0 <= j < inputs.len(),
        ends_listener(inputs[j]),
    ensures
        !listener_run(l, inputs).reading,
        listener_run(l, inputs).raw == l.raw_before,
    decreases inputs.len(),
{
    let n = listener_next(l, inputs[0]);
    if j == 0 {
        assert(!n.reading && n.raw == l.raw_before);
        lemma_stopped_stays(n, inputs.drop_first());
    } else {
        lemma_stop_input_stops(n, inputs.drop_first(), j - 1);
    }
}

proof fn lemma_stopped_stays(l: Listener, inputs: Seq<ListenerInput>)
    requires
        !l.reading,
    ensures
        listener_run(l, inputs) == l,
    decreases inputs.len(),
{
    if inputs.len() > 0 {
        lemma_stopped_stays(l, inputs.drop_first());
    }
}

} // verus!
