//! The session state machine and its finalized record.
//!
//! A session presents a fixed target text; each printable key press is logged
//! with a timestamp and judged against the target character under the cursor,
//! backspace moves the cursor left without touching the log or the counters,
//! and the session is done the instant the cursor reaches the end.

use vstd::prelude::*;

verus! {

/// One recorded keystroke: a timestamp in milliseconds and the character typed.
#[derive(Clone, Copy)]
pub struct Keystroke {
    pub time: u64,
    pub ch: char,
}

/// The finalized record of one session: the target text, the append-only
/// keystroke log, and how many position advances matched or missed.
pub struct TestResult {
    pub test: Vec<char>,
    pub keys: Vec<Keystroke>,
    pub correct: usize,
    pub incorrect: usize,
}

impl TestResult {
    /// Every advance was counted exactly once, and the log's timestamps
    /// strictly increase.
    pub open spec fn wf(self) -> bool {
        &&& self.correct + self.incorrect == self.keys@.len()
        &&& forall|i: int, j: int|
            0 <= i < j < self.keys@.len() ==> self.keys@[i].time < self.keys@[j].time
    }

    /// Milliseconds spanned by the keystroke log: the distance from the first
    /// to the last timestamp, zero when fewer than two keystrokes exist.
    pub open spec fn elapsed_spec(self) -> int {
        if self.keys@.len() == 0 {
            0
        } else {
            self.keys@.last().time - self.keys@.first().time
        }
    }

    /// Elapsed duration of the session in milliseconds.
    pub fn len(&self) -> (r: u64)
        requires
            self.wf(),
        ensures
            r == self.elapsed_spec(),
    {
        if self.keys.len() == 0 {
            0
        } else {
            let n = self.keys.len();
            proof {
                if n >= 2 {
                    assert(self.keys@[0].time < self.keys@[n - 1].time);
                }
            }
            self.keys[n - 1].time - self.keys[0].time
        }
    }
}

/// A classified key press handed to the session by the terminal loop.
pub enum KeyEvent {
    /// Escape or the interrupt key: abandon the session.
    Cancel,
    /// Move the cursor back one position, if possible.
    Backspace,
    /// A printable character, stamped with the time it was pressed.
    Printable { time: u64, ch: char },
    /// Any other key class: ignored.
    Other,
}

/// What one step of the session asks the renderer to do.
pub enum StepOutcome {
    /// The session was abandoned; its partial state is to be discarded.
    Cancelled,
    /// Backspace took effect: repaint the character at `index` in the pending
    /// style and move the visual cursor back onto it.
    Erased { index: usize },
    /// The key changed nothing; keep waiting.
    Ignored,
    /// A character was committed at the cursor: paint it in the style for
    /// `was_correct`, and if `done`, the whole target has been typed.
    Advanced { was_correct: bool, done: bool },
}

/// A live session: the fixed target text, the cursor, and the record built so
/// far.
pub struct Session {
    pub target: Vec<char>,
    pub cursor: usize,
    pub keys: Vec<Keystroke>,
    pub correct: usize,
    pub incorrect: usize,
}

impl Session {
    /// The cursor stays within the target, counters account for exactly the
    /// logged keystrokes, and timestamps strictly increase.
    pub open spec fn wf(self) -> bool {
        &&& self.cursor <= self.target@.len()
        &&& self.correct + self.incorrect == self.keys@.len()
        &&& forall|i: int, j: int|
            0 <= i < j < self.keys@.len() ==> self.keys@[i].time < self.keys@[j].time
    }

    /// The timestamp a next keystroke must exceed to keep the log increasing.
    pub open spec fn last_time(self) -> int {
        if self.keys@.len() == 0 {
            -1
        } else {
            self.keys@.last().time as int
        }
    }

    /// Start a session over `target` with the cursor at the first character
    /// and an empty record.
    pub fn new(target: Vec<char>) -> (s: Session)
        ensures
            s.wf(),
            s.target == target,
            s.cursor == 0,
            s.keys@.len() == 0,
            s.correct == 0,
            s.incorrect == 0,
    {
        Session { target, cursor: 0, keys: Vec::new(), correct: 0, incorrect: 0 }
    }

    /// Apply one key event while the target is not yet fully typed.
    ///
    /// Cancel and ignored keys leave the session untouched; backspace moves
    /// only the cursor; a printable key appends to the log, bumps exactly one
    /// counter — `correct` exactly when the key matches the target character
    /// under the cursor — and advances the cursor, finishing the session when
    /// the cursor reaches the end.
    pub fn step(&mut self, ev: KeyEvent) -> (r: StepOutcome)
        requires
            old(self).wf(),
            old(self).cursor < old(self).target@.len(),
            ev matches KeyEvent::Printable { time, ch } ==> time > old(self).last_time(),
        ensures
            final(self).wf(),
            final(self).target == old(self).target,
            match ev {
                KeyEvent::Cancel => r == (StepOutcome::Cancelled) && *final(self) == *old(self),
                KeyEvent::Other => r == (StepOutcome::Ignored) && *final(self) == *old(self),
                KeyEvent::Backspace => {
                    &&& final(self).keys == old(self).keys
                    &&& final(self).correct == old(self).correct
                    &&& final(self).incorrect == old(self).incorrect
                    &&& if old(self).cursor > 0 {
                        &&& final(self).cursor == old(self).cursor - 1
                        &&& r == (StepOutcome::Erased { index: (old(self).cursor - 1) as usize })
                    } else {
                        &&& final(self).cursor == 0
                        &&& r == (StepOutcome::Ignored)
                    }
                },
                KeyEvent::Printable { time, ch } => {
                    &&& final(self).keys@ == old(self).keys@.push(Keystroke { time, ch })
                    &&& final(self).cursor == old(self).cursor + 1
                    &&& {
                        let hit = ch == old(self).target@[old(self).cursor as int];
                        &&& final(self).correct == old(self).correct + (if hit { 1int } else { 0int })
                        &&& final(self).incorrect == old(self).incorrect + (if hit { 0int } else { 1int })
                        &&& r == (StepOutcome::Advanced {
                            was_correct: hit,
                            done: old(self).cursor + 1 == old(self).target@.len(),
                        })
                    }
                },
            },
    {
        match ev {
            KeyEvent::Cancel => StepOutcome::Cancelled,
            KeyEvent::Other => StepOutcome::Ignored,
            KeyEvent::Backspace => {
                if self.cursor > 0 {
                    self.cursor = self.cursor - 1;
                    StepOutcome::Erased { index: self.cursor }
                } else {
                    StepOutcome::Ignored
                }
            },
            KeyEvent::Printable { time, ch } => {
                self.keys.push(Keystroke { time, ch });
                let logged = self.keys.len();
                proof {
                    assert(self.correct + self.incorrect + 1 == logged);
                }
                let was_correct = ch == self.target[self.cursor];
                if was_correct {
                    self.correct = self.correct + 1;
                } else {
                    self.incorrect = self.incorrect + 1;
                }
                let tlen = self.target.len();
                self.cursor = self.cursor + 1;
                StepOutcome::Advanced { was_correct, done: self.cursor == tlen }
            },
        }
    }

    /// Seal a fully typed session into its record.
    pub fn finish(self) -> (r: TestResult)
        requires
            self.wf(),
            self.cursor == self.target@.len(),
        ensures
            r.wf(),
            r.test == self.target,
            r.keys == self.keys,
            r.correct == self.correct,
            r.incorrect == self.incorrect,
    {
        TestResult { test: self.target, keys: self.keys, correct: self.correct, incorrect: self.incorrect }
    }
}

} // verus!
