//! The capture of log lines during one fetch.

use vstd::prelude::*;
use vstd::string::*;
use crate::text::push_char;

verus! {

/// A line as it is captured: with a final newline added where it has none.
pub open spec fn captured_line(msg: Seq<char>) -> Seq<char> {
    if msg.len() > 0 && msg.last() == '\n' {
        msg
    } else {
        msg.push('\n')
    }
}

/// The capture after one more line: lines are kept only while a capture is
/// open.
pub open spec fn after_line(cap: Option<Seq<char>>, msg: Seq<char>) -> Option<Seq<char>> {
    match cap {
        Some(b) => Some(b + captured_line(msg)),
        None => None,
    }
}

/// The capture after a run of lines.
pub open spec fn after_lines(cap: Option<Seq<char>>, msgs: Seq<Seq<char>>) -> Option<Seq<char>>
    decreases msgs.len(),
{
    if msgs.len() == 0 {
        cap
    } else {
        after_line(after_lines(cap, msgs.drop_last()), msgs.last())
    }
}

/// The captured lines, one after another.
pub open spec fn joined_lines(msgs: Seq<Seq<char>>) -> Seq<char>
    decreases msgs.len(),
{
    if msgs.len() == 0 {
        Seq::empty()
    } else {
        joined_lines(msgs.drop_last()) + captured_line(msgs.last())
    }
}

pub open spec fn capture_view(cap: Option<String>) -> Option<Seq<char>> {
    match cap {
        Some(s) => Some(s@),
        None => None,
    }
}

/// Opens a capture, discarding any open one.
pub fn begin_capture(cap: &mut Option<String>)
    ensures
        capture_view(*final(cap)) == Some(Seq::<char>::empty()),
{
    *cap = Some(String::new());
}

/// Closes the capture and returns what it holds (empty when none was open).
pub fn end_capture(cap: &mut Option<String>) -> (r: String)
    ensures
        (*final(cap)) is None,
        r@ == match capture_view(*old(cap)) {
            Some(b) => b,
            None => Seq::<char>::empty(),
        },
{
    match cap.take() {
        Some(s) => s,
        None => String::new(),
    }
}

/// Adds a line to the capture, if one is open.
pub fn capture_line(cap: &mut Option<String>, msg: &str)
    ensures
        capture_view(*final(cap)) == after_line(capture_view(*old(cap)), msg@),
{
    match cap {
        Some(buf) => {
            let ghost b = buf@;
            buf.append(msg);
            let n = msg.unicode_len();
            if n == 0 || msg.get_char(n - 1) != '\n' {
                push_char(buf, '\n');
            }
            assert(buf@ =~= b + captured_line(msg@));
        },
        None => {},
    }
}

/// A capture opened and then given lines holds exactly those lines, each
/// ending with a newline, in the order they came.
pub proof fn lemma_capture_collects(msgs: Seq<Seq<char>>)
    ensures
        after_lines(Some(Seq::<char>::empty()), msgs) == Some(joined_lines(msgs)),
    decreases msgs.len(),
{
    if msgs.len() > 0 {
        lemma_capture_collects(msgs.drop_last());
    }
}

/// Without an open capture, lines are dropped.
pub proof fn lemma_no_capture_drops(msgs: Seq<Seq<char>>)
    ensures
        after_lines(None, msgs) is None,
    decreases msgs.len(),
{
    if msgs.len() > 0 {
        lemma_no_capture_drops(msgs.drop_last());
    }
}

} // verus!
