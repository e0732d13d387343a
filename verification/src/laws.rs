//! What holds of whole sequences of calls on a sink: the order and the
//! number of the captured lines, the discipline of sessions, and the
//! nesting of scopes.

use crate::level::{label, passes};
use crate::line::{line, right_aligned, LEVEL_WIDTH};
use crate::logger::{can_log, can_open, closed, fresh, logged, opened, Capture};
use crate::path::{
    byte_len, cut, lemma_cut_at_prefix, lemma_pop_undoes_push, lemma_pushed_shape, mark_fits,
    pushed,
};
use vstd::prelude::*;

verus! {

/// One record as it reaches the sink.
pub struct Entry {
    pub level: log::Level,
    pub module: Seq<char>,
    pub message: Seq<char>,
}

/// What one record adds to the buffer under the given path: its line, or
/// nothing where the record does not pass the filter.
pub open spec fn entry_text(entry: Entry, path: Seq<char>) -> Seq<char> {
    if passes(entry.level) {
        line(entry.level, entry.module, path, entry.message)
    } else {
        Seq::empty()
    }
}

/// What a sequence of records adds to the buffer under the given path:
/// the lines of the records that pass the filter, in the order of the
/// records.
pub open spec fn transcript(entries: Seq<Entry>, path: Seq<char>) -> Seq<char>
    decreases entries.len(),
{
    if entries.len() == 0 {
        Seq::empty()
    } else {
        transcript(entries.drop_last(), path) + entry_text(entries.last(), path)
    }
}

/// The state of a sink after it has taken the records one after the other.
pub open spec fn logged_all(state: Option<Capture>, entries: Seq<Entry>) -> Option<Capture>
    decreases entries.len(),
{
    if entries.len() == 0 {
        state
    } else {
        let last = entries.last();
        logged(logged_all(state, entries.drop_last()), last.level, last.module, last.message)
    }
}

/// Number of records that pass the filter.
pub open spec fn captured(entries: Seq<Entry>) -> nat
    decreases entries.len(),
{
    if entries.len() == 0 {
        0
    } else {
        captured(entries.drop_last()) + if passes(entries.last().level) {
            1nat
        } else {
            0nat
        }
    }
}

/// Number of line terminators in a text.
pub open spec fn line_breaks(text: Seq<char>) -> nat {
    text.filter(|c: char| c == '\n').len()
}

/// Whether a text holds no line terminator.
pub open spec fn unbroken(text: Seq<char>) -> bool {
    forall|i: int| 0 <= i < text.len() ==> text[i] != '\n'
}

/// The path after entering the scopes `names` one inside the other.
pub open spec fn pushed_all(path: Seq<char>, names: Seq<Seq<char>>) -> Seq<char>
    decreases names.len(),
{
    if names.len() == 0 {
        path
    } else {
        pushed(pushed_all(path, names.drop_last()), names.last())
    }
}

/// Records that reach an open session leave the path as it is and add
/// their lines to the buffer in the order in which they came.
pub proof fn lemma_records_in_order(capture: Capture, entries: Seq<Entry>)
    ensures
        logged_all(Some(capture), entries) == Some(
            Capture {
                buffer: capture.buffer + transcript(entries, capture.path),
                path: capture.path,
            },
        ),
    decreases entries.len(),
{
    if entries.len() != 0 {
        lemma_records_in_order(capture, entries.drop_last());
        let before = transcript(entries.drop_last(), capture.path);
        let added = entry_text(entries.last(), capture.path);
        assert((capture.buffer + before) + added == capture.buffer + (before + added));
    }
}

/// A session that is opened, takes a sequence of records and is closed
/// hands out exactly the lines of the records that pass the filter, in
/// the order of the records and under the empty path.
pub proof fn lemma_session_text(entries: Seq<Entry>)
    ensures
        logged_all(opened(), entries) is Some,
        logged_all(opened(), entries)->0.buffer == transcript(entries, Seq::empty()),
{
    lemma_records_in_order(fresh(), entries);
    assert(Seq::<char>::empty() + transcript(entries, Seq::empty()) == transcript(
        entries,
        Seq::empty(),
    ));
}

/// The line terminators of a concatenation are those of its parts.
pub proof fn lemma_line_breaks_concat(a: Seq<char>, b: Seq<char>)
    ensures
        line_breaks(a + b) == line_breaks(a) + line_breaks(b),
{
    Seq::filter_distributes_over_add(a, b, |c: char| c == '\n');
}

/// A text without a line terminator counts none.
pub proof fn lemma_unbroken_counts_none(text: Seq<char>)
    requires
        unbroken(text),
    ensures
        line_breaks(text) == 0,
{
    text.lemma_all_neg_filter_empty(|c: char| c == '\n');
}

/// A line whose module, path and message hold no line terminator holds
/// exactly one: the one that ends it.
pub proof fn lemma_line_is_one_line(
    level: log::Level,
    module: Seq<char>,
    path: Seq<char>,
    message: Seq<char>,
)
    requires
        unbroken(module),
        unbroken(path),
        unbroken(message),
    ensures
        line_breaks(line(level, module, path, message)) == 1,
        line(level, module, path, message).last() == '\n',
{
    let head = right_aligned(label(level), LEVEL_WIDTH as nat) + seq![':', ' ']
        + module + seq!['['] + path + seq![']', ':', ' '] + message;
    lemma_unbroken_counts_none(head);
    lemma_line_breaks_concat(head, seq!['\n']);
    assert(seq!['\n'].filter(|c: char| c == '\n') == seq!['\n']) by {
        reveal_with_fuel(Seq::filter, 2);
    }
}

/// Where no module, message or path holds a line terminator, the text
/// captured from a sequence of records has one line for each record that
/// passes the filter.
pub proof fn lemma_one_line_per_record(entries: Seq<Entry>, path: Seq<char>)
    requires
        unbroken(path),
        forall|i: int|
            0 <= i < entries.len() ==> unbroken(#[trigger] entries[i].module) && unbroken(
                entries[i].message,
            ),
    ensures
        line_breaks(transcript(entries, path)) == captured(entries),
    decreases entries.len(),
{
    if entries.len() == 0 {
        lemma_unbroken_counts_none(Seq::<char>::empty());
    } else {
        let last = entries.last();
        lemma_one_line_per_record(entries.drop_last(), path);
        lemma_line_breaks_concat(transcript(entries.drop_last(), path), entry_text(last, path));
        if passes(last.level) {
            lemma_line_is_one_line(last.level, last.module, path, last.message);
        } else {
            lemma_unbroken_counts_none(Seq::<char>::empty());
        }
    }
}

/// Where every record passes the filter, every record is captured.
pub proof fn lemma_all_captured(entries: Seq<Entry>)
    requires
        forall|i: int| 0 <= i < entries.len() ==> passes(#[trigger] entries[i].level),
    ensures
        captured(entries) == entries.len(),
    decreases entries.len(),
{
    if entries.len() != 0 {
        lemma_all_captured(entries.drop_last());
    }
}

/// A record below the threshold changes nothing, whatever the state of the
/// sink.
pub proof fn lemma_filtered_record_is_dropped(state: Option<Capture>, entry: Entry)
    requires
        !passes(entry.level),
    ensures
        can_log(state, entry.level),
        logged(state, entry.level, entry.module, entry.message) == state,
{
}

/// One session at a time: a sink with an open session takes no other,
/// whatever that session has captured, and a sink whose session has ended
/// takes the next.
pub proof fn lemma_one_session_at_a_time(capture: Capture)
    ensures
        !can_open(opened()),
        !can_open(Some(capture)),
        can_open(closed()),
{
}

/// A record that passes the filter is taken only while a session is open.
pub proof fn lemma_record_needs_session(state: Option<Capture>, level: log::Level)
    requires
        passes(level),
    ensures
        can_log(state, level) <==> state is Some,
        !can_log(closed(), level),
{
}

/// Leaving a scope is possible while any number of scopes that were
/// entered inside it are still open, and gives back the path as it was
/// when the scope was entered.
pub proof fn lemma_pop_unwinds(path: Seq<char>, names: Seq<Seq<char>>)
    ensures
        path.is_prefix_of(pushed_all(path, names)),
        mark_fits(pushed_all(path, names), byte_len(path)),
        cut(pushed_all(path, names), byte_len(path)) == path,
    decreases names.len(),
{
    let whole = pushed_all(path, names);
    if names.len() != 0 {
        lemma_pop_unwinds(path, names.drop_last());
        lemma_pushed_shape(pushed_all(path, names.drop_last()), names.last());
    }
    assert(whole == path + whole.skip(path.len() as int));
    lemma_cut_at_prefix(path, whole.skip(path.len() as int));
}

/// A record that comes between entering a scope and leaving it is tagged
/// with the path of that scope, which ends with its name; a record that
/// comes after the scope was left is tagged with the path as it was
/// before the scope was entered.
pub proof fn lemma_scope_tags_its_records(
    capture: Capture,
    name: Seq<char>,
    inside: Entry,
    outside: Entry,
)
    ensures
        ({
            let entered = Capture { buffer: capture.buffer, path: pushed(capture.path, name) };
            let within = logged(Some(entered), inside.level, inside.module, inside.message)->0;
            let left = Capture {
                buffer: within.buffer,
                path: cut(within.path, byte_len(capture.path)),
            };
            let after = logged(Some(left), outside.level, outside.module, outside.message)->0;
            &&& name.is_suffix_of(entered.path)
            &&& within.buffer == capture.buffer + entry_text(inside, entered.path)
            &&& mark_fits(within.path, byte_len(capture.path))
            &&& left.path == capture.path
            &&& after.buffer == within.buffer + entry_text(outside, capture.path)
            &&& after.path == capture.path
        }),
{
    lemma_pop_undoes_push(capture.path, name);
    lemma_pushed_shape(capture.path, name);
}

} // verus!
