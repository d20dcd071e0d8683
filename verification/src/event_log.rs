//! The durable event log of a canvas, as text.
//!
//! The log is append-only and line-delimited: one JSON value per line.
//! Writing an event appends its compact JSON text and a line feed; reading
//! takes the log apart at its line endings and keeps every line that is a
//! JSON value, so that a damaged line costs that line and nothing more.

use crate::json::{as_array, json_elements, json_parsed, json_text, parse, texts, to_text};
use crate::text::{characters, string_of};
use vstd::prelude::*;
use vstd::string::StringExecFns;

verus! {

/// A line without the carriage return that may end it.
pub open spec fn without_carriage_return(line: Seq<char>) -> Seq<char> {
    if line.len() > 0 && line.last() == '\r' {
        line.drop_last()
    } else {
        line
    }
}

/// The lines of `rest`, read after the characters `current` of the line in
/// progress.
pub open spec fn lines_after(current: Seq<char>, rest: Seq<char>) -> Seq<Seq<char>>
    decreases rest.len(),
{
    if rest.len() == 0 {
        if current.len() == 0 {
            Seq::empty()
        } else {
            seq![current]
        }
    } else if rest[0] == '\n' {
        seq![without_carriage_return(current)] + lines_after(Seq::empty(), rest.drop_first())
    } else {
        lines_after(current.push(rest[0]), rest.drop_first())
    }
}

/// The lines of a text. A line ends at a line feed, or at a carriage return
/// directly before one, and holds neither; the last line need not be ended,
/// and an ended last line is not followed by an empty one.
pub open spec fn lines_of(text: Seq<char>) -> Seq<Seq<char>> {
    lines_after(Seq::empty(), text)
}

/// The lines of a list, each as the characters it holds.
pub open spec fn line_views(lines: Seq<Vec<char>>) -> Seq<Seq<char>> {
    Seq::new(lines.len(), |i: int| lines[i]@)
}

/// Takes a text apart into its lines.
pub fn split_lines(content: &str) -> (lines: Vec<Vec<char>>)
    ensures
        line_views(lines@) == lines_of(content@),
{
    let chars = characters(content);
    let ghost all = chars@;
    let mut lines: Vec<Vec<char>> = Vec::new();
    let mut current: Vec<char> = Vec::new();
    let mut i: usize = 0;
    assert(all.skip(0) =~= all);
    assert(line_views(lines@) + lines_after(current@, all) =~= lines_after(current@, all));
    while i < chars.len()
        invariant
            i <= chars.len(),
            all == chars@,
            all == content@,
            lines_of(all) == line_views(lines@) + lines_after(current@, all.skip(i as int)),
        decreases chars.len() - i,
    {
        let c = chars[i];
        let ghost done = line_views(lines@);
        let ghost line = current@;
        proof {
            assert(all.skip(i as int).drop_first() =~= all.skip(i + 1));
            assert(all.skip(i as int)[0] == c);
        }
        if c == '\n' {
            let n = current.len();
            if n > 0 && current[n - 1] == '\r' {
                current.pop();
            }
            assert(current@ =~= without_carriage_return(line));
            lines.push(current);
            current = Vec::new();
            proof {
                let ended = without_carriage_return(line);
                let rest = lines_after(Seq::empty(), all.skip(i + 1));
                assert(line_views(lines@) =~= done.push(ended));
                assert(done + (seq![ended] + rest) =~= done.push(ended) + rest);
            }
        } else {
            current.push(c);
        }
        i = i + 1;
    }
    let ghost done = line_views(lines@);
    assert(all.skip(chars.len() as int) =~= Seq::<char>::empty());
    if current.len() > 0 {
        let ghost line = current@;
        lines.push(current);
        assert(line_views(lines@) =~= done + seq![line]);
    } else {
        assert(done + Seq::<Seq<char>>::empty() =~= done);
    }
    lines
}

/// The events that a sequence of log lines holds: for every line that is a
/// JSON value its compact text, in order; every other line is passed over.
pub open spec fn replayed(lines: Seq<Seq<char>>) -> Seq<Seq<char>>
    decreases lines.len(),
{
    if lines.len() == 0 {
        Seq::empty()
    } else {
        let earlier = replayed(lines.drop_last());
        match json_parsed(lines.last()) {
            Some(event) => earlier.push(json_text(event)),
            None => earlier,
        }
    }
}

/// The end of a log line.
pub open spec fn line_feed() -> Seq<char> {
    "\n"@
}

/// The log lines of a batch of events: for each event its compact text and
/// a line feed, in submission order.
pub open spec fn log_lines(events: Seq<serde_json::Value>) -> Seq<Seq<char>> {
    Seq::new(events.len(), |i: int| json_text(events[i]) + line_feed())
}

/// Reads the events out of the text of a log.
pub fn read_events(content: &str) -> (events: Vec<String>)
    ensures
        texts(events@) == replayed(lines_of(content@)),
{
    let lines = split_lines(content);
    let mut events: Vec<String> = Vec::new();
    let mut i: usize = 0;
    assert(texts(events@) =~= Seq::<Seq<char>>::empty());
    while i < lines.len()
        invariant
            i <= lines.len(),
            texts(events@) == replayed(line_views(lines@).take(i as int)),
        decreases lines.len() - i,
    {
        let ghost earlier = texts(events@);
        proof {
            let all = line_views(lines@);
            assert(all.take(i + 1).drop_last() =~= all.take(i as int));
            assert(all.take(i + 1).last() == lines@[i as int]@);
        }
        let line = string_of(&lines[i]);
        match parse(line.as_str()) {
            Ok(event) => {
                let text = to_text(&event);
                events.push(text);
                assert(texts(events@) =~= earlier.push(json_text(event)));
            },
            Err(_) => {},
        }
        i = i + 1;
    }
    assert(line_views(lines@).take(lines.len() as int) =~= line_views(lines@));
    events
}

/// Renders a submitted batch as log lines. A batch that is not a JSON array
/// has none.
pub fn event_lines(events: &serde_json::Value) -> (lines: Option<Vec<String>>)
    ensures
        match lines {
            Some(lines) => json_elements(*events) matches Some(elements) && texts(lines@)
                == log_lines(elements),
            None => json_elements(*events) is None,
        },
{
    match as_array(events) {
        Some(elements) => {
            let mut lines: Vec<String> = Vec::new();
            let mut i: usize = 0;
            while i < elements.len()
                invariant
                    i <= elements.len(),
                    lines@.len() == i,
                    forall|j: int|
                        0 <= j < i ==> (#[trigger] lines@[j])@ == json_text(elements@[j])
                            + line_feed(),
                decreases elements.len() - i,
            {
                let mut line = to_text(&elements[i]);
                line.append("\n");
                lines.push(line);
                i = i + 1;
            }
            assert(texts(lines@) =~= log_lines(elements@));
            Some(lines)
        },
        None => None,
    }
}

/// The text of a sequence of log lines, one after the other.
pub open spec fn written(lines: Seq<Seq<char>>) -> Seq<char>
    decreases lines.len(),
{
    if lines.len() == 0 {
        Seq::empty()
    } else {
        written(lines.drop_last()) + lines.last()
    }
}

/// Whether a text can stand on one line of a log: it holds no line feed and
/// does not end in a carriage return.
pub open spec fn fits_on_a_line(entry: Seq<char>) -> bool {
    !entry.contains('\n') && (entry.len() == 0 || entry.last() != '\r')
}

/// Each entry with a line feed after it.
pub open spec fn ended_lines(entries: Seq<Seq<char>>) -> Seq<Seq<char>> {
    Seq::new(entries.len(), |i: int| entries[i] + line_feed())
}

/// Whether a log ends where a line ends: it is empty or ends in a line
/// feed.
pub open spec fn ends_with_a_line(log: Seq<char>) -> bool {
    log.len() == 0 || log.last() == '\n'
}

/// Reading goes on after a stretch without a line feed as if the stretch
/// had been read into the line in progress.
proof fn lemma_lines_after_stretch(current: Seq<char>, stretch: Seq<char>, rest: Seq<char>)
    requires
        !stretch.contains('\n'),
    ensures
        lines_after(current, stretch + rest) == lines_after(current + stretch, rest),
    decreases stretch.len(),
{
    if stretch.len() == 0 {
        assert(stretch + rest =~= rest);
        assert(current + stretch =~= current);
    } else {
        let tail = stretch.drop_first();
        assert(stretch[0] != '\n') by {
            assert(stretch.contains(stretch[0]));
        }
        assert(!tail.contains('\n')) by {
            if tail.contains('\n') {
                let i = tail.index_of('\n');
                assert(stretch[i + 1] == '\n');
            }
        }
        assert((stretch + rest).drop_first() =~= tail + rest);
        assert((stretch + rest)[0] == stretch[0]);
        lemma_lines_after_stretch(current.push(stretch[0]), tail, rest);
        assert(current.push(stretch[0]) + tail =~= current + stretch);
    }
}

/// What follows the end of a line is read on its own.
proof fn lemma_lines_after_complete(current: Seq<char>, log: Seq<char>, rest: Seq<char>)
    requires
        log.len() > 0,
        log.last() == '\n',
    ensures
        lines_after(current, log + rest) == lines_after(current, log) + lines_after(
            Seq::empty(),
            rest,
        ),
    decreases log.len(),
{
    let tail = log.drop_first();
    assert((log + rest).drop_first() =~= tail + rest);
    assert((log + rest)[0] == log[0]);
    let next = if log[0] == '\n' {
        Seq::<char>::empty()
    } else {
        current.push(log[0])
    };
    if tail.len() == 0 {
        assert(tail + rest =~= rest);
        assert(lines_after(next, tail) =~= Seq::<Seq<char>>::empty());
        assert(lines_after(current, log) =~= seq![without_carriage_return(current)]);
    } else {
        assert(tail.last() == log.last());
        lemma_lines_after_complete(next, tail, rest);
        if log[0] == '\n' {
            assert(lines_after(current, log + rest) =~= lines_after(current, log) + lines_after(
                Seq::empty(),
                rest,
            ));
        }
    }
}

/// Written lines leave the log at the end of a line.
proof fn lemma_written_ends_with_a_line(log: Seq<char>, entries: Seq<Seq<char>>)
    requires
        ends_with_a_line(log),
    ensures
        ends_with_a_line(log + written(ended_lines(entries))),
    decreases entries.len(),
{
    reveal_strlit("\n");
    let lines = ended_lines(entries);
    if entries.len() == 0 {
        assert(log + written(lines) =~= log);
    } else {
        let text = log + written(lines);
        assert(lines.last() == entries.last() + line_feed());
        assert(text.last() == '\n');
    }
}

/// What is written reads back: appended to a log that ends where a line
/// ends, the ended lines of a sequence of entries read as the lines of the
/// log followed by the entries, each whole and all in order, as long as
/// each entry fits on a line.
pub proof fn lemma_written_lines_read_back(log: Seq<char>, entries: Seq<Seq<char>>)
    requires
        ends_with_a_line(log),
        forall|i: int| 0 <= i < entries.len() ==> fits_on_a_line(#[trigger] entries[i]),
    ensures
        lines_of(log + written(ended_lines(entries))) == lines_of(log) + entries,
    decreases entries.len(),
{
    reveal_strlit("\n");
    let lines = ended_lines(entries);
    if entries.len() == 0 {
        assert(log + written(lines) =~= log);
        assert(lines_of(log) + entries =~= lines_of(log));
    } else {
        let front = entries.drop_last();
        let entry = entries.last();
        assert(lines.drop_last() =~= ended_lines(front));
        assert(lines.last() == entry + line_feed());
        let before = log + written(ended_lines(front));
        assert(log + written(lines) =~= before + (entry + line_feed()));
        lemma_written_lines_read_back(log, front);
        lemma_written_ends_with_a_line(log, front);
        // the last line, read on its own
        let empty = Seq::<char>::empty();
        assert(line_feed() =~= seq!['\n']);
        lemma_lines_after_stretch(empty, entry, line_feed());
        assert(empty + entry =~= entry);
        assert(line_feed().drop_first() =~= empty);
        assert(fits_on_a_line(entry));
        assert(without_carriage_return(entry) == entry);
        assert(line_feed().len() == 1 && line_feed()[0] == '\n');
        assert(lines_after(empty, line_feed().drop_first()) =~= Seq::<Seq<char>>::empty());
        assert(lines_after(entry, line_feed()) =~= seq![entry]);
        if before.len() == 0 {
            assert(before + (entry + line_feed()) =~= entry + line_feed());
            assert(lines_of(before) =~= Seq::<Seq<char>>::empty());
        } else {
            lemma_lines_after_complete(empty, before, entry + line_feed());
        }
        assert(lines_of(log) + front + seq![entry] =~= lines_of(log) + entries);
    }
}

/// The compact texts of a batch of events, in order.
pub open spec fn event_texts(events: Seq<serde_json::Value>) -> Seq<Seq<char>> {
    Seq::new(events.len(), |i: int| json_text(events[i]))
}

/// Batches that are appended one after the other do not interleave: the log
/// reads as what it held before, then the events of the first batch, then
/// those of the second, each event on a line of its own. This is what the
/// write lock of a canvas buys, which lets one batch be appended at a time.
pub proof fn lemma_batches_do_not_interleave(
    log: Seq<char>,
    first: Seq<serde_json::Value>,
    second: Seq<serde_json::Value>,
)
    requires
        ends_with_a_line(log),
        forall|i: int| 0 <= i < first.len() ==> fits_on_a_line(json_text(#[trigger] first[i])),
        forall|i: int| 0 <= i < second.len() ==> fits_on_a_line(json_text(#[trigger] second[i])),
    ensures
        lines_of(log + written(log_lines(first))) == lines_of(log) + event_texts(first),
        lines_of(log + written(log_lines(first)) + written(log_lines(second))) == lines_of(log)
            + event_texts(first) + event_texts(second),
{
    assert(log_lines(first) =~= ended_lines(event_texts(first)));
    assert(log_lines(second) =~= ended_lines(event_texts(second)));
    lemma_written_lines_read_back(log, event_texts(first));
    lemma_written_ends_with_a_line(log, event_texts(first));
    lemma_written_lines_read_back(log + written(log_lines(first)), event_texts(second));
}

} // verus!
