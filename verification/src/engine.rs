//! What is kept of the output of one engine: the lines that wait for a
//! reader, the latest line of analysis, and whether the engine is ready.
//!
//! The engine writes diagnostics on one stream and answers on another. The
//! caller that owns the streams hands each line to the `Inbox`, which
//! decides what becomes of it.

use crate::text::{chars_of, same_text};
use std::collections::VecDeque;
use vstd::prelude::*;

verus! {

/// The line of diagnostics with which an engine says that it takes
/// commands from now on.
pub open spec fn banner() -> Seq<char> {
    "GTP ready, beginning main protocol loop"@
}

/// What becomes of a line that the engine wrote as an answer.
#[derive(Debug, Clone, Copy, PartialEq, Eq, Structural)]
pub enum LineKind {
    /// The line is empty and is dropped.
    Empty,
    /// The line belongs to the stream of analysis and replaces the one
    /// that is kept.
    Analysis,
    /// The line belongs to an answer and joins the queue.
    Answer,
}

/// What becomes of the line `line`: the lines of analysis are those that
/// start with the letter `i`.
pub open spec fn kind_of(line: Seq<char>) -> LineKind {
    if line.len() == 0 {
        LineKind::Empty
    } else if line[0] == 'i' {
        LineKind::Analysis
    } else {
        LineKind::Answer
    }
}

/// Decides what becomes of a line that the engine wrote as an answer.
pub fn classify(line: &str) -> (kind: LineKind)
    ensures
        kind == kind_of(line@),
{
    let chars = chars_of(line);
    if chars.len() == 0 {
        LineKind::Empty
    } else if chars[0] == 'i' {
        LineKind::Analysis
    } else {
        LineKind::Answer
    }
}

/// Whether a line of diagnostics is the banner.
pub fn is_banner(line: &str) -> (b: bool)
    ensures
        b == (line@ == banner()),
{
    let chars = chars_of(line);
    same_text(chars.as_slice(), "GTP ready, beginning main protocol loop")
}

/// What is kept of the output of one engine.
#[derive(Debug)]
pub struct Inbox {
    lines: VecDeque<String>,
    analysis: String,
    ready: bool,
}

/// What an `Inbox` holds, as mathematical values.
pub struct InboxView {
    /// The lines of answers that nobody has taken yet, oldest first.
    pub lines: Seq<Seq<char>>,
    /// The latest line of analysis, or the empty text.
    pub analysis: Seq<char>,
    /// Whether the banner was seen.
    pub ready: bool,
}

/// What can happen to an `Inbox`.
pub enum Event {
    /// The engine wrote a line of diagnostics.
    Diagnostic(Seq<char>),
    /// The engine wrote a line as an answer.
    Output(Seq<char>),
    /// The caller took the oldest line that waited.
    Read,
    /// The caller had the analysis forgotten.
    Discard,
}

impl InboxView {
    /// What is kept after a line of diagnostics: the banner makes the
    /// engine ready, and nothing else changes.
    pub open spec fn after_diagnostic(self, line: Seq<char>) -> InboxView {
        InboxView { ready: self.ready || line == banner(), ..self }
    }

    /// What is kept after a line that the engine wrote as an answer: an
    /// empty line changes nothing, a line of analysis replaces the one
    /// that is kept, and any other line joins the queue at its end.
    pub open spec fn after_output(self, line: Seq<char>) -> InboxView {
        match kind_of(line) {
            LineKind::Empty => self,
            LineKind::Analysis => InboxView { analysis: line, ..self },
            LineKind::Answer => InboxView { lines: self.lines.push(line), ..self },
        }
    }

    /// What is kept after the oldest line that waited was taken.
    pub open spec fn after_read(self) -> InboxView {
        if self.lines.len() > 0 {
            InboxView { lines: self.lines.drop_first(), ..self }
        } else {
            self
        }
    }

    /// What is kept after the analysis was forgotten.
    pub open spec fn after_discard(self) -> InboxView {
        InboxView { analysis: Seq::empty(), ..self }
    }

    /// What is kept after `event`.
    pub open spec fn after(self, event: Event) -> InboxView {
        match event {
            Event::Diagnostic(line) => self.after_diagnostic(line),
            Event::Output(line) => self.after_output(line),
            Event::Read => self.after_read(),
            Event::Discard => self.after_discard(),
        }
    }

    /// What is kept after each of `events` in turn.
    pub open spec fn after_all(self, events: Seq<Event>) -> InboxView
        decreases events.len(),
    {
        if events.len() == 0 {
            self
        } else {
            self.after_all(events.drop_last()).after(events.last())
        }
    }
}

/// An engine that is ready stays ready, whatever happens.
pub proof fn lemma_ready_for_good(v: InboxView, events: Seq<Event>)
    requires
        v.ready,
    ensures
        v.after_all(events).ready,
    decreases events.len(),
{
    if events.len() > 0 {
        lemma_ready_for_good(v, events.drop_last());
    }
}

/// An engine gets ready through the banner and through nothing else: if
/// it is ready after some events and was not before, one of them was the
/// banner on the diagnostics.
pub proof fn lemma_ready_by_banner(v: InboxView, events: Seq<Event>)
    requires
        !v.ready,
        v.after_all(events).ready,
    ensures
        exists|i: int| 0 <= i < events.len() && events[i] == Event::Diagnostic(banner()),
    decreases events.len(),
{
    if events.len() > 0 {
        let init = events.drop_last();
        if v.after_all(init).ready {
            lemma_ready_by_banner(v, init);
            let i = choose|i: int| 0 <= i < init.len() && init[i] == Event::Diagnostic(banner());
            assert(events[i] == init[i]);
        } else {
            assert(events[events.len() - 1] == Event::Diagnostic(banner()));
        }
    }
}

/// The lines of answers wait in the order in which the engine wrote
/// them: while nothing is taken, each line of an answer is put behind
/// those that wait, and no other event touches the queue.
pub proof fn lemma_answers_keep_their_order(v: InboxView, line: Seq<char>)
    ensures
        kind_of(line) == LineKind::Answer ==> v.after_output(line).lines == v.lines.push(line),
        kind_of(line) != LineKind::Answer ==> v.after_output(line).lines == v.lines,
        forall|other: Seq<char>| v.after_diagnostic(other).lines == v.lines,
        v.after_discard().lines == v.lines,
{
}

/// Only the latest line of analysis is kept: after two lines of analysis
/// the first is gone.
pub proof fn lemma_latest_analysis_wins(v: InboxView, first: Seq<char>, second: Seq<char>)
    requires
        kind_of(first) == LineKind::Analysis,
        kind_of(second) == LineKind::Analysis,
    ensures
        v.after_output(first).after_output(second) == v.after_output(second),
{
}

impl View for Inbox {
    type V = InboxView;

    closed spec fn view(&self) -> InboxView {
        InboxView {
            lines: Seq::new(self.lines@.len(), |i: int| self.lines@[i]@),
            analysis: self.analysis@,
            ready: self.ready,
        }
    }
}

impl Inbox {
    /// What is kept before the engine wrote anything: nothing, and the
    /// engine is not ready.
    pub fn new() -> (r: Self)
        ensures
            r@ == (InboxView { lines: Seq::empty(), analysis: Seq::empty(), ready: false }),
    {
        let r = Inbox { lines: VecDeque::new(), analysis: String::new(), ready: false };
        assert(r@.lines == Seq::<Seq<char>>::empty());
        r
    }

    /// Whether the engine takes commands.
    pub fn is_ready(&self) -> (b: bool)
        ensures
            b == self@.ready,
    {
        self.ready
    }

    /// Takes a line of diagnostics. The banner makes the engine ready, and
    /// nothing makes it unready again; the lines and the analysis stay.
    pub fn diagnostic(&mut self, line: &str)
        ensures
            final(self)@ == old(self)@.after_diagnostic(line@),
    {
        if is_banner(line) {
            self.ready = true;
        }
    }

    /// Takes a line that the engine wrote as an answer, and returns what
    /// became of it: an empty line is dropped, a line of analysis replaces
    /// the one that is kept, and any other line joins the queue at its
    /// end.
    pub fn output(&mut self, line: String) -> (kind: LineKind)
        ensures
            kind == kind_of(line@),
            final(self)@ == old(self)@.after_output(line@),
    {
        let kind = classify(line.as_str());
        match kind {
            LineKind::Empty => {},
            LineKind::Analysis => {
                self.analysis = line;
            },
            LineKind::Answer => {
                self.lines.push_back(line);
                assert(self@.lines == old(self)@.lines.push(line@));
            },
        }
        kind
    }

    /// Whether a line of an answer waits.
    pub fn has_line(&self) -> (b: bool)
        ensures
            b == (self@.lines.len() > 0),
    {
        self.lines.len() > 0
    }

    /// Takes the oldest line that waits out of the queue, if there is one.
    pub fn read_line(&mut self) -> (r: Option<String>)
        ensures
            final(self)@ == old(self)@.after_read(),
            match r {
                Some(line) => old(self)@.lines.len() > 0 && line@ == old(self)@.lines[0],
                None => old(self)@.lines.len() == 0,
            },
    {
        let r = self.lines.pop_front();
        proof {
            if r.is_some() {
                assert(self@.lines == old(self)@.lines.drop_first());
            } else {
                assert(self@.lines == old(self)@.lines);
            }
        }
        r
    }

    /// The latest line of analysis, or the empty text where there is
    /// none.
    pub fn read_info(&self) -> (r: String)
        ensures
            r@ == self@.analysis,
    {
        self.analysis.clone()
    }

    /// Forgets the line of analysis that is kept.
    pub fn discard_info(&mut self)
        ensures
            final(self)@ == old(self)@.after_discard(),
    {
        self.analysis = String::new();
    }
}

} // verus!
