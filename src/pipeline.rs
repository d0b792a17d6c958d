use vstd::prelude::*;

use crate::hotkey::{function_for, function_of, Function};
use crate::keyboard::copy_modifier;
use crate::keycode::{LogicalKey, Platform};
use crate::keys::Keys;

verus! {

/// Where a run of capture, generation and injection stands.
#[derive(Clone, Copy, Debug, PartialEq, Eq, Structural)]
pub enum Stage {
    /// No run in flight; waiting for a hotkey.
    Idle,
    /// The window was asked to show itself.
    Unhiding,
    /// Waiting for the user's hotkey keys to be let go.
    SettlingKeys,
    /// The copy shortcut is being sent.
    Copying,
    /// Waiting for the clipboard to be filled.
    SettlingClipboard,
    /// The clipboard is being read.
    Reading,
    /// The window was asked to take focus.
    Focusing,
    /// The captured text is being published to the window.
    Publishing,
    /// The answer is streaming in.
    Streaming,
}

/// What the outside world reports to the run loop.
pub enum Event {
    /// A global hotkey went down (`pressed`) or up.
    Hotkey { id: u32, pressed: bool },
    /// The last command finished.
    Done,
    /// What the clipboard held; `None` when it could not be read.
    Clipboard(Option<String>),
    /// A fragment of the streamed answer.
    Chunk(String),
    /// The answer stream ended.
    StreamEnded,
    /// The last command, or the answer stream, failed.
    Failed(String),
}

/// What the run loop asks the outside world to do next.
pub enum Command {
    /// Wait for the next hotkey event.
    Listen,
    /// Ask the window to show itself.
    Unhide,
    /// Sleep this many milliseconds.
    Sleep(u64),
    /// Send the copy shortcut.
    Copy,
    /// Read the clipboard's text.
    ReadClipboard,
    /// Ask the window to take focus.
    Focus,
    /// Show this text as the input and clear the output.
    Publish(String),
    /// Open a streamed generation for this function and text.
    Request(Function, String),
    /// Type this fragment into the focused application.
    Inject(String),
    /// Append this fragment to the window's output.
    Append(String),
    /// Show this failure to the user.
    Report(String),
    /// The event does not belong to this stage; nothing to do.
    Nothing,
}

/// The abstract value of an event.
pub enum EventView {
    Hotkey { id: u32, pressed: bool },
    Done,
    Clipboard(Option<Seq<char>>),
    Chunk(Seq<char>),
    StreamEnded,
    Failed(Seq<char>),
}

/// The abstract value of a command.
pub enum CommandView {
    Listen,
    Unhide,
    Sleep(u64),
    Copy,
    ReadClipboard,
    Focus,
    Publish(Seq<char>),
    Request(Function, Seq<char>),
    Inject(Seq<char>),
    Append(Seq<char>),
    Report(Seq<char>),
    Nothing,
}

impl View for Event {
    type V = EventView;

    open spec fn view(&self) -> EventView {
        match self {
            Event::Hotkey { id, pressed } => EventView::Hotkey { id: *id, pressed: *pressed },
            Event::Done => EventView::Done,
            Event::Clipboard(t) => EventView::Clipboard(
                match t {
                    Some(s) => Some(s@),
                    None => None,
                },
            ),
            Event::Chunk(s) => EventView::Chunk(s@),
            Event::StreamEnded => EventView::StreamEnded,
            Event::Failed(s) => EventView::Failed(s@),
        }
    }
}

impl View for Command {
    type V = CommandView;

    open spec fn view(&self) -> CommandView {
        match self {
            Command::Listen => CommandView::Listen,
            Command::Unhide => CommandView::Unhide,
            Command::Sleep(ms) => CommandView::Sleep(*ms),
            Command::Copy => CommandView::Copy,
            Command::ReadClipboard => CommandView::ReadClipboard,
            Command::Focus => CommandView::Focus,
            Command::Publish(s) => CommandView::Publish(s@),
            Command::Request(f, s) => CommandView::Request(*f, s@),
            Command::Inject(s) => CommandView::Inject(s@),
            Command::Append(s) => CommandView::Append(s@),
            Command::Report(s) => CommandView::Report(s@),
            Command::Nothing => CommandView::Nothing,
        }
    }
}

/// The abstract state of the run loop.
pub struct RunState {
    pub stage: Stage,
    pub function: Function,
    pub text: Seq<char>,
    /// Registered hotkey ids: rewrite, rewrite directly, translate, translate
    /// directly.
    pub ids: Seq<u32>,
    /// Delay before the copy shortcut, in milliseconds.
    pub settle_keys: u64,
    /// Delay before the clipboard is read, in milliseconds.
    pub settle_clipboard: u64,
}

impl RunState {
    /// A run is in flight.
    pub open spec fn running(self) -> bool {
        self.stage != Stage::Idle
    }

    pub open spec fn at(self, stage: Stage) -> RunState {
        RunState { stage, ..self }
    }
}

/// One step of the run loop: the state after `e` arrives in state `s`, and
/// the command that follows.
pub open spec fn next(s: RunState, e: EventView) -> (RunState, CommandView) {
    let idle = s.at(Stage::Idle);
    match s.stage {
        Stage::Idle => match e {
            EventView::Hotkey { id, pressed } => if pressed && s.ids.contains(id) {
                let f = function_for(s.ids, id);
                if f.directly() {
                    (
                        RunState { stage: Stage::SettlingKeys, function: f, ..s },
                        CommandView::Sleep(s.settle_keys),
                    )
                } else {
                    (RunState { stage: Stage::Unhiding, function: f, ..s }, CommandView::Unhide)
                }
            } else {
                (s, CommandView::Listen)
            },
            _ => (s, CommandView::Listen),
        },
        Stage::Reading => match e {
            EventView::Clipboard(Some(t)) => if t.len() > 0 {
                if s.function.directly() {
                    (RunState { stage: Stage::Publishing, text: t, ..s }, CommandView::Publish(t))
                } else {
                    (RunState { stage: Stage::Focusing, text: t, ..s }, CommandView::Focus)
                }
            } else {
                (idle, CommandView::Listen)
            },
            EventView::Clipboard(None) => (idle, CommandView::Listen),
            EventView::Failed(_) => (idle, CommandView::Listen),
            _ => (s, CommandView::Nothing),
        },
        Stage::Streaming => match e {
            EventView::Chunk(c) => if s.function.directly() {
                (s, CommandView::Inject(c))
            } else {
                (s, CommandView::Append(c))
            },
            EventView::StreamEnded => (idle, CommandView::Listen),
            EventView::Failed(m) => (idle, CommandView::Report(m)),
            _ => (s, CommandView::Nothing),
        },
        _ => match e {
            EventView::Done => match s.stage {
                Stage::Unhiding => (s.at(Stage::SettlingKeys), CommandView::Sleep(s.settle_keys)),
                Stage::SettlingKeys => (s.at(Stage::Copying), CommandView::Copy),
                Stage::Copying => (
                    s.at(Stage::SettlingClipboard),
                    CommandView::Sleep(s.settle_clipboard),
                ),
                Stage::SettlingClipboard => (s.at(Stage::Reading), CommandView::ReadClipboard),
                Stage::Focusing => (s.at(Stage::Publishing), CommandView::Publish(s.text)),
                _ => (s.at(Stage::Streaming), CommandView::Request(s.function, s.text)),
            },
            EventView::Failed(m) => (idle, CommandView::Report(m)),
            _ => (s, CommandView::Nothing),
        },
    }
}

/// The state after a sequence of events, taken in order.
pub open spec fn after(s: RunState, evs: Seq<EventView>) -> RunState
    decreases evs.len(),
{
    if evs.len() == 0 {
        s
    } else {
        next(after(s, evs.drop_last()), evs.last()).0
    }
}

/// The commands issued for a sequence of events, in order.
pub open spec fn commands(s: RunState, evs: Seq<EventView>) -> Seq<CommandView>
    decreases evs.len(),
{
    if evs.len() == 0 {
        Seq::<CommandView>::empty()
    } else {
        commands(s, evs.drop_last()).push(next(after(s, evs.drop_last()), evs.last()).1)
    }
}

/// How many runs a sequence of events starts: the steps that go from no run
/// in flight to one in flight.
pub open spec fn runs_started(s: RunState, evs: Seq<EventView>) -> nat
    decreases evs.len(),
{
    if evs.len() == 0 {
        0
    } else {
        let before = after(s, evs.drop_last());
        runs_started(s, evs.drop_last()) + if !before.running() && next(
            before,
            evs.last(),
        ).0.running() {
            1nat
        } else {
            0nat
        }
    }
}

/// A press of a registered hotkey followed at once by its release starts
/// exactly one run; a release on its own starts none and leaves the state as
/// it was.
pub proof fn lemma_press_release_one_run(s: RunState, id: u32)
    requires
        !s.running(),
        s.ids.contains(id),
    ensures
        runs_started(
            s,
            seq![EventView::Hotkey { id, pressed: true }, EventView::Hotkey { id, pressed: false }],
        ) == 1,
        next(s, EventView::Hotkey { id, pressed: false }) == (s, CommandView::Listen),
{
    let press = EventView::Hotkey { id, pressed: true };
    let release = EventView::Hotkey { id, pressed: false };
    let both = seq![press, release];
    let one = seq![press];
    assert(both.drop_last() =~= one);
    assert(one.drop_last() =~= Seq::<EventView>::empty());
    assert(one.last() == press);
    assert(both.last() == release);
    assert(after(s, Seq::<EventView>::empty()) == s);
    assert(runs_started(s, Seq::<EventView>::empty()) == 0);
    assert(after(s, one) == next(s, press).0);
    assert(next(s, press).0.running());
    assert(runs_started(s, one) == 1);
    assert(next(after(s, one), release).0 == after(s, one));
}

/// An empty clipboard ends the run without a request to the backend: the
/// loop goes back to waiting with no run in flight.
pub proof fn lemma_empty_clipboard_aborts(s: RunState, t: Seq<char>)
    requires
        s.stage == Stage::Reading,
        t.len() == 0,
    ensures
        next(s, EventView::Clipboard(Some(t))) == (s.at(Stage::Idle), CommandView::Listen),
        !next(s, EventView::Clipboard(Some(t))).0.running(),
{
}

/// While an answer streams in, each fragment is typed into the focused
/// application when the function is a "directly" one, and appended to the
/// window's output otherwise, in the order the fragments arrive.
pub proof fn lemma_chunks_in_order(s: RunState, chunks: Seq<Seq<char>>)
    requires
        s.stage == Stage::Streaming,
    ensures
        after(s, chunks.map_values(|c: Seq<char>| EventView::Chunk(c))) == s,
        commands(s, chunks.map_values(|c: Seq<char>| EventView::Chunk(c))) == (if s.function.directly() {
            chunks.map_values(|c: Seq<char>| CommandView::Inject(c))
        } else {
            chunks.map_values(|c: Seq<char>| CommandView::Append(c))
        }),
    decreases chunks.len(),
{
    let evs = chunks.map_values(|c: Seq<char>| EventView::Chunk(c));
    if chunks.len() == 0 {
        assert(evs =~= Seq::<EventView>::empty());
        if s.function.directly() {
            assert(chunks.map_values(|c: Seq<char>| CommandView::Inject(c)) =~= Seq::<CommandView>::empty());
        } else {
            assert(chunks.map_values(|c: Seq<char>| CommandView::Append(c)) =~= Seq::<CommandView>::empty());
        }
    } else {
        let rest = chunks.drop_last();
        lemma_chunks_in_order(s, rest);
        assert(evs.drop_last() =~= rest.map_values(|c: Seq<char>| EventView::Chunk(c)));
        if s.function.directly() {
            assert(chunks.map_values(|c: Seq<char>| CommandView::Inject(c)) =~= rest.map_values(
                |c: Seq<char>| CommandView::Inject(c),
            ).push(CommandView::Inject(chunks.last())));
        } else {
            assert(chunks.map_values(|c: Seq<char>| CommandView::Append(c)) =~= rest.map_values(
                |c: Seq<char>| CommandView::Append(c),
            ).push(CommandView::Append(chunks.last())));
        }
    }
}

/// The run loop's decisions: which hotkey starts a run, and what each step of
/// a run does with what the outside world reports.
pub struct Pipeline {
    stage: Stage,
    function: Function,
    text: String,
    ids: [u32; 4],
    settle_keys: u64,
    settle_clipboard: u64,
}

impl View for Pipeline {
    type V = RunState;

    closed spec fn view(&self) -> RunState {
        RunState {
            stage: self.stage,
            function: self.function,
            text: self.text@,
            ids: self.ids@,
            settle_keys: self.settle_keys,
            settle_clipboard: self.settle_clipboard,
        }
    }
}

impl Pipeline {
    /// An idle loop for the hotkeys with ids `ids` (rewrite, rewrite directly,
    /// translate, translate directly), with the two settle delays in
    /// milliseconds.
    pub fn new(ids: [u32; 4], settle_keys: u64, settle_clipboard: u64) -> (r: Pipeline)
        ensures
            r@.stage == Stage::Idle,
            r@.ids == ids@,
            r@.settle_keys == settle_keys,
            r@.settle_clipboard == settle_clipboard,
            r@.text.len() == 0,
    {
        Pipeline {
            stage: Stage::Idle,
            function: Function::Rewrite,
            text: String::new(),
            ids,
            settle_keys,
            settle_clipboard,
        }
    }

    /// True while a run is in flight.
    pub fn is_running(&self) -> (r: bool)
        ensures
            r == self@.running(),
    {
        self.stage != Stage::Idle
    }

    /// The current stage.
    pub fn stage(&self) -> (r: Stage)
        ensures
            r == self@.stage,
    {
        self.stage
    }

    /// Takes in one event and says what to do next.
    pub fn step(&mut self, event: Event) -> (cmd: Command)
        ensures
            (final(self)@, cmd@) == next(old(self)@, event@),
    {
        let ghost s = self@;
        match self.stage {
            Stage::Idle => {
                match event {
                    Event::Hotkey { id, pressed } => {
                        if pressed {
                            match function_of(&self.ids, id) {
                                Some(f) => {
                                    self.function = f;
                                    if f.is_directly() {
                                        self.stage = Stage::SettlingKeys;
                                        Command::Sleep(self.settle_keys)
                                    } else {
                                        self.stage = Stage::Unhiding;
                                        Command::Unhide
                                    }
                                },
                                None => Command::Listen,
                            }
                        } else {
                            Command::Listen
                        }
                    },
                    _ => Command::Listen,
                }
            },
            Stage::Reading => {
                match event {
                    Event::Clipboard(Some(t)) => {
                        if t.unicode_len() > 0 {
                            let directly = self.function.is_directly();
                            let shown = t.clone();
                            self.text = t;
                            if directly {
                                self.stage = Stage::Publishing;
                                Command::Publish(shown)
                            } else {
                                self.stage = Stage::Focusing;
                                Command::Focus
                            }
                        } else {
                            self.stage = Stage::Idle;
                            Command::Listen
                        }
                    },
                    Event::Clipboard(None) | Event::Failed(_) => {
                        self.stage = Stage::Idle;
                        Command::Listen
                    },
                    _ => Command::Nothing,
                }
            },
            Stage::Streaming => {
                match event {
                    Event::Chunk(c) => {
                        if self.function.is_directly() {
                            Command::Inject(c)
                        } else {
                            Command::Append(c)
                        }
                    },
                    Event::StreamEnded => {
                        self.stage = Stage::Idle;
                        Command::Listen
                    },
                    Event::Failed(m) => {
                        self.stage = Stage::Idle;
                        Command::Report(m)
                    },
                    _ => Command::Nothing,
                }
            },
            _ => {
                match event {
                    Event::Done => {
                        match self.stage {
                            Stage::Unhiding => {
                                self.stage = Stage::SettlingKeys;
                                Command::Sleep(self.settle_keys)
                            },
                            Stage::SettlingKeys => {
                                self.stage = Stage::Copying;
                                Command::Copy
                            },
                            Stage::Copying => {
                                self.stage = Stage::SettlingClipboard;
                                Command::Sleep(self.settle_clipboard)
                            },
                            Stage::SettlingClipboard => {
                                self.stage = Stage::Reading;
                                Command::ReadClipboard
                            },
                            Stage::Focusing => {
                                self.stage = Stage::Publishing;
                                Command::Publish(self.text.clone())
                            },
                            _ => {
                                self.stage = Stage::Streaming;
                                Command::Request(self.function, self.text.clone())
                            },
                        }
                    },
                    Event::Failed(m) => {
                        self.stage = Stage::Idle;
                        Command::Report(m)
                    },
                    _ => Command::Nothing,
                }
            },
        }
    }

    /// Stops the run in flight, as when the task that drives the loop is
    /// cancelled, and gives the keys that may be left held: the copy
    /// modifier of platform `p` when the copy shortcut was being sent.
    pub fn abort(&mut self, p: Platform) -> (keys: Keys)
        ensures
            final(self)@ == old(self)@.at(Stage::Idle),
            keys.0@ == (if old(self)@.stage == Stage::Copying {
                seq![copy_modifier(p)]
            } else {
                Seq::<LogicalKey>::empty()
            }),
    {
        let mut keys: Vec<LogicalKey> = Vec::new();
        if self.stage == Stage::Copying {
            let modifier = match p {
                Platform::MacOs => LogicalKey::Meta,
                _ => LogicalKey::Control,
            };
            keys.push(modifier);
            assert(keys@ =~= seq![copy_modifier(p)]);
        }
        self.stage = Stage::Idle;
        Keys(keys)
    }
}

} // verus!
