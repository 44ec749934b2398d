//! The interactive suggestion-review state machine.
//!
//! Suggestions are reviewed file by file; within a file the machine keeps
//! a cursor and a direction over the file's suggestion sequence. The
//! cursor is bounded going forward (forward exhaustion ends the file) and
//! wraps going backward (backward exhaustion returns to the sequence
//! start, never ends the file). Accepted suggestions accumulate in a
//! `StagingSet` that keeps insertion order and never holds a suggestion
//! twice. The terminal itself is an outside boundary: the caller blocks
//! for one command, hands it to `apply`, and performs what the verdict
//! says.

use vstd::prelude::*;

verus! {

/// One suggestion, identified by its file's index and its position in
/// that file's suggestion sequence.
#[derive(Debug, Clone, Copy, PartialEq, Eq, Structural)]
pub struct SuggestionRef {
    pub file: usize,
    pub idx: usize,
}

/// Staging `x` into a staged sequence: appended at the back on first
/// sight, dropped when already present.
pub open spec fn spec_stage(s: Seq<SuggestionRef>, x: SuggestionRef) -> Seq<SuggestionRef> {
    if s.contains(x) {
        s
    } else {
        s.push(x)
    }
}

/// Staging every suggestion of `file` with position in `from..to`, in
/// order.
pub open spec fn spec_stage_range(
    s: Seq<SuggestionRef>,
    file: usize,
    from: usize,
    to: usize,
) -> Seq<SuggestionRef>
    decreases to - from,
{
    if from >= to {
        s
    } else {
        spec_stage_range(
            spec_stage(s, SuggestionRef { file, idx: from }),
            file,
            (from + 1) as usize,
            to,
        )
    }
}

/// The insertion-ordered, duplicate-free collection of accepted
/// suggestions, accumulated across the whole review session.
pub struct StagingSet {
    items: Vec<SuggestionRef>,
}

impl View for StagingSet {
    type V = Seq<SuggestionRef>;

    closed spec fn view(&self) -> Seq<SuggestionRef> {
        self.items@
    }
}

impl StagingSet {
    /// No suggestion occurs twice.
    pub open spec fn wf(&self) -> bool {
        forall|i: int, j: int| 0 <= i < j < self@.len() ==> self@[i] != self@[j]
    }

    pub fn new() -> (r: StagingSet)
        ensures
            r@ == Seq::<SuggestionRef>::empty(),
            r.wf(),
    {
        StagingSet { items: Vec::new() }
    }

    pub fn contains(&self, x: SuggestionRef) -> (r: bool)
        ensures
            r == self@.contains(x),
    {
        let n = self.items.len();
        let mut i: usize = 0;
        while i < n
            invariant
                i <= n,
                n == self@.len(),
                forall|j: int| 0 <= j < i ==> self@[j] != x,
            decreases n - i,
        {
            if self.items[i].file == x.file && self.items[i].idx == x.idx {
                proof {
                    assert(self@[i as int] == x);
                }
                return true;
            }
            i = i + 1;
        }
        false
    }

    /// Stage one suggestion; staging the same suggestion twice leaves the
    /// set as it was.
    pub fn insert(&mut self, x: SuggestionRef)
        requires
            old(self).wf(),
        ensures
            final(self).wf(),
            final(self)@ == spec_stage(old(self)@, x),
    {
        if !self.contains(x) {
            let ghost pre = self@;
            self.items.push(x);
            proof {
                assert forall|i: int, j: int| 0 <= i < j < self@.len() implies self@[i]
                    != self@[j] by {
                    if j == self@.len() - 1 {
                        assert(pre[i] != x);
                    }
                }
            }
        }
    }

    /// The staged suggestions, in acceptance order.
    pub fn into_items(self) -> (r: Vec<SuggestionRef>)
        ensures
            r@ == self@,
    {
        self.items
    }
}

/// Which way the cursor moves over the current file's suggestions.
#[derive(Debug, Clone, Copy, PartialEq, Eq, Structural)]
pub enum Direction {
    Forward,
    Backward,
}

/// One command consumed while a suggestion is displayed.
#[derive(Debug, Clone, Copy, PartialEq, Eq, Structural)]
pub enum Command {
    Accept,
    Reject,
    Quit,
    StageAllRemaining,
    SkipFile,
    GoBackward,
    ManualEdit,
    Help,
    Unrecognized,
}

/// What the caller must do after one command.
pub enum StepVerdict {
    /// Show the suggestion now under the cursor and read the next command.
    Continue,
    /// Print the command legend, then re-show the same suggestion.
    ShowHelp,
    /// This file's review is over; move to the next file.
    FileDone,
    /// Abort the whole multi-file review, successfully.
    QuitAll,
    /// Manual editing was asked for and is not supported: a fatal error.
    Unsupported,
}

/// The per-file cursor state: the position currently displayed and the
/// direction of the last movement.
pub struct FileReview {
    pub file: usize,
    pub len: usize,
    pub cur: usize,
    pub dir: Direction,
    pub done: bool,
}

impl FileReview {
    pub open spec fn wf(&self) -> bool {
        self.done || self.cur < self.len
    }

    /// Begin reviewing a file with `len` suggestions; a file without
    /// suggestions is over before any command is read.
    pub fn new(file: usize, len: usize) -> (r: FileReview)
        ensures
            r.wf(),
            r.file == file,
            r.len == len,
            r.cur == 0,
            r.dir is Forward,
            r.done == (len == 0),
    {
        FileReview { file, len, cur: 0, dir: Direction::Forward, done: len == 0 }
    }

    /// Consume one command for the displayed suggestion `self.cur`.
    ///
    /// accept stages it and resumes forward; reject only resumes forward;
    /// forward exhaustion ends the file. go-backward switches the
    /// direction and re-shows the previous suggestion, wrapping at the
    /// sequence start. stage-all-remaining stages the current and all
    /// later suggestions of this file and ends it; skip-file ends it
    /// staging nothing further; quit aborts the whole review without
    /// staging the displayed suggestion. Manual editing is unsupported;
    /// help and unrecognized commands change no state. After any command
    /// but go-backward the direction is forward again.
    pub fn apply(&mut self, staged: &mut StagingSet, cmd: Command) -> (r: StepVerdict)
        requires
            old(self).wf(),
            !old(self).done,
            old(staged).wf(),
        ensures
            final(self).wf(),
            final(staged).wf(),
            final(self).file == old(self).file,
            final(self).len == old(self).len,
            match cmd {
                Command::Accept => {
                    &&& final(staged)@ == spec_stage(
                        old(staged)@,
                        SuggestionRef { file: old(self).file, idx: old(self).cur },
                    )
                    &&& final(self).dir is Forward
                    &&& if old(self).cur + 1 == old(self).len {
                        final(self).done && r is FileDone
                    } else {
                        &&& !final(self).done
                        &&& final(self).cur == old(self).cur + 1
                        &&& r is Continue
                    }
                },
                Command::Reject => {
                    &&& final(staged)@ == old(staged)@
                    &&& final(self).dir is Forward
                    &&& if old(self).cur + 1 == old(self).len {
                        final(self).done && r is FileDone
                    } else {
                        &&& !final(self).done
                        &&& final(self).cur == old(self).cur + 1
                        &&& r is Continue
                    }
                },
                Command::Quit => {
                    &&& final(staged)@ == old(staged)@
                    &&& final(self).done
                    &&& r is QuitAll
                },
                Command::StageAllRemaining => {
                    &&& final(staged)@ == spec_stage_range(
                        old(staged)@,
                        old(self).file,
                        old(self).cur,
                        old(self).len,
                    )
                    &&& final(self).dir is Forward
                    &&& final(self).done
                    &&& r is FileDone
                },
                Command::SkipFile => {
                    &&& final(staged)@ == old(staged)@
                    &&& final(self).dir is Forward
                    &&& final(self).done
                    &&& r is FileDone
                },
                Command::GoBackward => {
                    &&& final(staged)@ == old(staged)@
                    &&& final(self).dir is Backward
                    &&& !final(self).done
                    &&& final(self).cur == (if old(self).cur == 0 {
                        0
                    } else {
                        (old(self).cur - 1) as int
                    })
                    &&& r is Continue
                },
                Command::ManualEdit => {
                    &&& final(staged)@ == old(staged)@
                    &&& *final(self) == *old(self)
                    &&& r is Unsupported
                },
                Command::Help => {
                    &&& final(staged)@ == old(staged)@
                    &&& final(self).dir is Forward
                    &&& !final(self).done
                    &&& final(self).cur == old(self).cur
                    &&& r is ShowHelp
                },
                Command::Unrecognized => {
                    &&& final(staged)@ == old(staged)@
                    &&& final(self).dir is Forward
                    &&& !final(self).done
                    &&& final(self).cur == old(self).cur
                    &&& r is Continue
                },
            },
    {
        match cmd {
            Command::Accept => {
                staged.insert(SuggestionRef { file: self.file, idx: self.cur });
                self.dir = Direction::Forward;
                if self.cur + 1 == self.len {
                    self.done = true;
                    StepVerdict::FileDone
                } else {
                    self.cur = self.cur + 1;
                    StepVerdict::Continue
                }
            },
            Command::Reject => {
                self.dir = Direction::Forward;
                if self.cur + 1 == self.len {
                    self.done = true;
                    StepVerdict::FileDone
                } else {
                    self.cur = self.cur + 1;
                    StepVerdict::Continue
                }
            },
            Command::Quit => {
                self.dir = Direction::Forward;
                self.done = true;
                StepVerdict::QuitAll
            },
            Command::StageAllRemaining => {
                let mut i: usize = self.cur;
                proof {
                    assert(spec_stage_range(staged@, self.file, self.cur, self.cur as usize)
                        == staged@);
                }
                while i < self.len
                    invariant
                        old(self).cur <= i <= self.len,
                        self == old(self),
                        staged.wf(),
                        staged@ == spec_stage_range(
                            old(staged)@,
                            old(self).file,
                            old(self).cur,
                            i,
                        ),
                    decreases self.len - i,
                {
                    proof {
                        lemma_stage_range_snoc(old(staged)@, old(self).file, old(self).cur, i);
                    }
                    staged.insert(SuggestionRef { file: self.file, idx: i });
                    i = i + 1;
                }
                self.dir = Direction::Forward;
                self.done = true;
                StepVerdict::FileDone
            },
            Command::SkipFile => {
                self.dir = Direction::Forward;
                self.done = true;
                StepVerdict::FileDone
            },
            Command::GoBackward => {
                self.dir = Direction::Backward;
                if self.cur > 0 {
                    self.cur = self.cur - 1;
                }
                StepVerdict::Continue
            },
            Command::ManualEdit => StepVerdict::Unsupported,
            Command::Help => {
                self.dir = Direction::Forward;
                StepVerdict::ShowHelp
            },
            Command::Unrecognized => {
                self.dir = Direction::Forward;
                StepVerdict::Continue
            },
        }
    }
}

/// Staging a range one position further stages the range and then its new
/// last position.
proof fn lemma_stage_range_snoc(s: Seq<SuggestionRef>, file: usize, from: usize, to: usize)
    requires
        from <= to < usize::MAX,
    ensures
        spec_stage_range(s, file, from, (to + 1) as usize) == spec_stage(
            spec_stage_range(s, file, from, to),
            SuggestionRef { file, idx: to },
        ),
    decreases to - from,
{
    let stepped = spec_stage(s, SuggestionRef { file, idx: from });
    if from == to {
        assert(spec_stage_range(stepped, file, (from + 1) as usize, (from + 1) as usize)
            == stepped);
        assert(spec_stage_range(s, file, from, to) == s);
    } else {
        lemma_stage_range_snoc(stepped, file, (from + 1) as usize, to);
        assert(spec_stage_range(s, file, from, (to + 1) as usize) == spec_stage_range(
            stepped,
            file,
            (from + 1) as usize,
            (to + 1) as usize,
        ));
        assert(spec_stage_range(s, file, from, to) == spec_stage_range(
            stepped,
            file,
            (from + 1) as usize,
            to,
        ));
    }
}

} // verus!
