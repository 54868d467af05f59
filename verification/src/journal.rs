//! The journal of a game: what happened, in the order in which it happened.

use crate::piece::Piece;
use crate::position::Position;
use vstd::prelude::*;
use vstd::string::StringExecFns;

verus! {

/// Something that happened in a game.
#[derive(Debug, Clone, Copy, PartialEq, Eq, Structural)]
pub enum JournalLog {
    /// A piece moved: the piece, the square it left and the square it went to.
    Move(Piece, Position, Position),
    /// A piece was captured: the piece that captured, then the piece that was captured.
    Capture(Piece, Piece),
    /// A king is in check: the piece that attacks it, the square of that piece and the
    /// square of the king.
    Check(Piece, Position, Position),
    /// A king is checkmated: the piece that attacks it, the square of that piece and the
    /// square of the king.
    CheckMate(Piece, Position, Position),
}

impl JournalLog {
    /// The line that describes the event.
    pub open spec fn text(self) -> Seq<char> {
        match self {
            JournalLog::Move(piece, from, to) => "Move of "@ + piece.text() + " from "@
                + from.text() + " to "@ + to.text(),
            JournalLog::Capture(attacker, captured) => "Capture of "@ + captured.text() + " by "@
                + attacker.text(),
            JournalLog::Check(attacker, from, king) => "Check on "@ + king.text() + " by "@
                + attacker.text() + " from "@ + from.text(),
            JournalLog::CheckMate(attacker, from, king) => "Checkmate on "@ + king.text()
                + " by "@ + attacker.text() + " from "@ + from.text(),
        }
    }

    /// The line that describes the event, such as `Move of Queen(Black) from a2 to b2`.
    pub fn to_string(&self) -> (text: String)
        ensures
            text@ == self.text(),
    {
        match self {
            JournalLog::Move(piece, from, to) => {
                let mut text = String::from_str("Move of ");
                text.append(piece.to_string().as_str());
                text.append(" from ");
                text.append(from.to_string().as_str());
                text.append(" to ");
                text.append(to.to_string().as_str());
                text
            },
            JournalLog::Capture(attacker, captured) => {
                let mut text = String::from_str("Capture of ");
                text.append(captured.to_string().as_str());
                text.append(" by ");
                text.append(attacker.to_string().as_str());
                text
            },
            JournalLog::Check(attacker, from, king) => {
                let mut text = String::from_str("Check on ");
                text.append(king.to_string().as_str());
                text.append(" by ");
                text.append(attacker.to_string().as_str());
                text.append(" from ");
                text.append(from.to_string().as_str());
                text
            },
            JournalLog::CheckMate(attacker, from, king) => {
                let mut text = String::from_str("Checkmate on ");
                text.append(king.to_string().as_str());
                text.append(" by ");
                text.append(attacker.to_string().as_str());
                text.append(" from ");
                text.append(from.to_string().as_str());
                text
            },
        }
    }
}

/// The lines of the first `n` events of `logs`, each ended by a line feed.
pub open spec fn lines_of(logs: Seq<JournalLog>, n: int) -> Seq<char>
    decreases n,
{
    if n <= 0 {
        Seq::empty()
    } else {
        lines_of(logs, n - 1) + logs[n - 1].text() + "\n"@
    }
}

/// `journal` after the first `n` events of `logs` were appended to it one by one.
pub open spec fn appended(journal: Seq<JournalLog>, logs: Seq<JournalLog>, n: int) -> Seq<
    JournalLog,
>
    decreases n,
{
    if n <= 0 {
        journal
    } else {
        appended(journal, logs, n - 1).push(logs[n - 1])
    }
}

/// The events of a game in the order in which they happened. Events are only ever added,
/// at the end.
#[derive(Debug, Clone)]
pub struct Journal {
    logs: Vec<JournalLog>,
}

impl View for Journal {
    type V = Seq<JournalLog>;

    /// The events, first to last.
    closed spec fn view(&self) -> Seq<JournalLog> {
        self.logs@
    }
}

impl Journal {
    /// The text of the journal: the line of each event in turn, each ended by a line feed.
    pub open spec fn text(&self) -> Seq<char> {
        lines_of(self@, self@.len() as int)
    }

    /// Makes a journal without events.
    pub fn new() -> (journal: Self)
        ensures
            journal@ == Seq::<JournalLog>::empty(),
    {
        Self { logs: Vec::new() }
    }

    /// Adds an event at the end of the journal.
    pub fn add_log(&mut self, log: JournalLog)
        ensures
            final(self)@ == old(self)@.push(log),
    {
        self.logs.push(log);
    }

    /// The events, first to last.
    pub fn logs(&self) -> (logs: &Vec<JournalLog>)
        ensures
            logs@ == self@,
    {
        &self.logs
    }

    /// The text of the journal: the line of each event in turn, each ended by a line feed.
    pub fn to_string(&self) -> (text: String)
        ensures
            text@ == self.text(),
    {
        let mut text = String::new();
        let mut n: usize = 0;
        while n < self.logs.len()
            invariant
                n <= self.logs@.len(),
                text@ == lines_of(self.logs@, n as int),
            decreases self.logs@.len() - n,
        {
            text.append(self.logs[n].to_string().as_str());
            text.append("\n");
            n += 1;
        }
        text
    }
}

/// Events appended to a journal one by one stand at its end, in the order in which they
/// were appended: the journal grows by their number, and an empty journal then holds
/// exactly them.
pub proof fn lemma_appended_in_order(journal: Seq<JournalLog>, logs: Seq<JournalLog>)
    ensures
        appended(journal, logs, logs.len() as int) == journal + logs,
        appended(journal, logs, logs.len() as int).len() == journal.len() + logs.len(),
        appended(Seq::empty(), logs, logs.len() as int) == logs,
{
    lemma_appended_first(journal, logs, logs.len() as int);
    lemma_appended_first(Seq::empty(), logs, logs.len() as int);
}

/// Appending the first `n` events of `logs` one by one puts them at the end, in order.
proof fn lemma_appended_first(journal: Seq<JournalLog>, logs: Seq<JournalLog>, n: int)
    requires
        0 <= n <= logs.len(),
    ensures
        appended(journal, logs, n) == journal + logs.subrange(0, n),
    decreases n,
{
    if n > 0 {
        lemma_appended_first(journal, logs, n - 1);
    }
}

/// The text of a journal with one more event is the text it had, then the line of that
/// event and a line feed.
pub proof fn lemma_lines_of_push(logs: Seq<JournalLog>, log: JournalLog)
    ensures
        lines_of(logs.push(log), logs.len() as int + 1) == lines_of(logs, logs.len() as int)
            + log.text() + "\n"@,
{
    lemma_lines_of_same(logs, logs.push(log), logs.len() as int);
}

/// The lines of the first `n` events depend on those events alone.
proof fn lemma_lines_of_same(a: Seq<JournalLog>, b: Seq<JournalLog>, n: int)
    requires
        n <= a.len(),
        n <= b.len(),
        forall|i: int| 0 <= i < n ==> a[i] == b[i],
    ensures
        lines_of(a, n) == lines_of(b, n),
    decreases n,
{
    if n > 0 {
        lemma_lines_of_same(a, b, n - 1);
    }
}

} // verus!
