//! Output relay: turns the raw bytes of one child output stream into text
//! lines and, for each line, the record that every sink receives.
//!
//! Bytes are cut into lines at each newline byte; a trailing carriage return
//! is dropped from a complete line; a line that is not valid UTF-8 is skipped.
//! Each of the two streams has a relay of its own, so order is kept within a
//! stream and nothing is said across streams.

use vstd::prelude::*;
use vstd::utf8::{valid_utf8, decode_utf8};

verus! {

pub const NEWLINE: u8 = 10;

pub const CARRIAGE_RETURN: u8 = 13;

/// Which output stream of the child a line came from.
#[derive(Debug, Clone, Copy, PartialEq, Eq, Structural)]
pub enum Stream {
    Stdout,
    Stderr,
}

/// The stream's tag as it appears in events and log entries.
pub open spec fn stream_tag(s: Stream) -> Seq<char> {
    match s {
        Stream::Stdout => "stdout"@,
        Stream::Stderr => "stderr"@,
    }
}

/// Text mirrored to the shell's own console (stdout lines to stdout, stderr
/// lines to stderr).
pub open spec fn console_text(s: Stream, line: Seq<char>) -> Seq<char> {
    "[next "@ + stream_tag(s) + "] "@ + line
}

/// Entry appended to the session log file.
pub open spec fn log_text(s: Stream, line: Seq<char>) -> Seq<char> {
    "["@ + stream_tag(s) + "] "@ + line
}

/// Splits bytes at newlines: the complete lines, without their newline, in
/// order, and the bytes after the last newline.
pub open spec fn scan(b: Seq<u8>) -> (Seq<Seq<u8>>, Seq<u8>)
    decreases b.len(),
{
    if b.len() == 0 {
        (seq![], seq![])
    } else {
        let prev = scan(b.drop_last());
        if b.last() == NEWLINE {
            (prev.0.push(prev.1), seq![])
        } else {
            (prev.0, prev.1.push(b.last()))
        }
    }
}

/// A complete line without a trailing carriage return.
pub open spec fn strip_cr(raw: Seq<u8>) -> Seq<u8> {
    if raw.len() > 0 && raw.last() == CARRIAGE_RETURN {
        raw.drop_last()
    } else {
        raw
    }
}

/// The text of a line, or `None` when its bytes are not valid UTF-8.
pub open spec fn decoded(raw: Seq<u8>) -> Option<Seq<char>> {
    if valid_utf8(raw) {
        Some(decode_utf8(raw))
    } else {
        None
    }
}

/// The texts of the decodable complete lines, in order.
pub open spec fn texts(lines: Seq<Seq<u8>>) -> Seq<Seq<char>>
    decreases lines.len(),
{
    if lines.len() == 0 {
        seq![]
    } else {
        let prev = texts(lines.drop_last());
        match decoded(strip_cr(lines.last())) {
            Some(t) => prev.push(t),
            None => prev,
        }
    }
}

pub open spec fn no_newline(b: Seq<u8>) -> bool {
    forall|i: int| 0 <= i < b.len() ==> b[i] != NEWLINE
}

/// The event surfaced to the GUI layer for one line.
#[derive(Debug)]
pub struct LogEvent {
    pub stream: Stream,
    pub line: String,
}

/// What each sink receives for one line.
#[derive(Debug)]
pub struct LineDelivery {
    /// Mirror to the shell's console.
    pub console: String,
    /// Event for the GUI layer.
    pub event: LogEvent,
    /// Entry for the log file, when the file sink is open.
    pub log_entry: Option<String>,
}

impl LineDelivery {
    /// This is the delivery of `line` from stream `s`.
    pub open spec fn delivers(self, s: Stream, line: Seq<char>, file_sink_open: bool) -> bool {
        &&& self.console@ == console_text(s, line)
        &&& self.event.stream == s
        &&& self.event.line@ == line
        &&& self.log_entry.is_some() == file_sink_open
        &&& file_sink_open ==> self.log_entry.unwrap()@ == log_text(s, line)
    }
}

/// An optional string that holds exactly the optional text `t`.
pub open spec fn matches_text(r: Option<String>, t: Option<Seq<char>>) -> bool {
    &&& r.is_some() == t.is_some()
    &&& r.is_some() ==> r.unwrap()@ == t.unwrap()
}

/// Relay state of one output stream.
pub struct Relay {
    pub stream: Stream,
    /// Whether the log file could be opened; the other sinks never depend on it.
    pub file_sink_open: bool,
    /// Bytes after the last newline seen.
    pub pending: Vec<u8>,
}

/// Relies on std::str::from_utf8: it accepts exactly the valid UTF-8
/// encodings and yields the characters they encode.
#[verifier::external_body]
fn utf8_text(b: &[u8]) -> (r: Option<String>)
    ensures
        r.is_some() == valid_utf8(b@),
        r.is_some() ==> r.unwrap()@ == decode_utf8(b@),
{
    match std::str::from_utf8(b) {
        Ok(s) => Some(s.to_string()),
        Err(_) => None,
    }
}

/// The tag of a stream as a string.
pub fn tag(s: Stream) -> (r: String)
    ensures
        r@ == stream_tag(s),
{
    match s {
        Stream::Stdout => String::from_str("stdout"),
        Stream::Stderr => String::from_str("stderr"),
    }
}

/// The records that the console, the event channel and (when open) the log
/// file receive for one line.
pub fn deliver(s: Stream, line: &String, file_sink_open: bool) -> (d: LineDelivery)
    ensures
        d.delivers(s, line@, file_sink_open),
{
    let t = tag(s);
    let mut console = String::from_str("[next ");
    console.append(t.as_str());
    console.append("] ");
    console.append(line.as_str());
    let log_entry = if file_sink_open {
        let mut e = String::from_str("[");
        e.append(t.as_str());
        e.append("] ");
        e.append(line.as_str());
        Some(e)
    } else {
        None
    };
    LineDelivery { console, event: LogEvent { stream: s, line: line.clone() }, log_entry }
}

/// The text of one line: a trailing carriage return dropped when `complete`,
/// `None` when the bytes are not valid UTF-8.
fn line_text(raw: Vec<u8>, complete: bool) -> (r: Option<String>)
    ensures
        matches_text(r, decoded(if complete { strip_cr(raw@) } else { raw@ })),
{
    let mut raw = raw;
    if complete && raw.len() > 0 && raw[raw.len() - 1] == CARRIAGE_RETURN {
        raw.pop();
    }
    utf8_text(raw.as_slice())
}

impl Relay {
    pub open spec fn wf(self) -> bool {
        no_newline(self.pending@)
    }

    /// A relay for stream `stream` that has seen no bytes yet.
    pub fn new(stream: Stream, file_sink_open: bool) -> (r: Relay)
        ensures
            r.stream == stream,
            r.file_sink_open == file_sink_open,
            r.pending@ == Seq::<u8>::empty(),
            r.wf(),
    {
        Relay { stream, file_sink_open, pending: Vec::new() }
    }

    /// Takes the next bytes read from the stream and hands back, in order,
    /// the delivery of each decodable line that they complete; the bytes after
    /// the last newline wait for the next call.
    pub fn feed(&mut self, chunk: &[u8]) -> (r: Vec<LineDelivery>)
        requires
            old(self).wf(),
        ensures
            final(self).wf(),
            final(self).stream == old(self).stream,
            final(self).file_sink_open == old(self).file_sink_open,
            final(self).pending@ == scan(old(self).pending@ + chunk@).1,
            delivers_all(
                r@,
                old(self).stream,
                texts(scan(old(self).pending@ + chunk@).0),
                old(self).file_sink_open,
            ),
    {
        let mut out: Vec<LineDelivery> = Vec::new();
        let ghost start = self.pending@;
        let mut i: usize = 0;
        proof {
            lemma_scan_no_newline(start);
            assert(start + chunk@.subrange(0, 0) =~= start);
        }
        while i < chunk.len()
            invariant
                0 <= i <= chunk@.len(),
                self.stream == old(self).stream,
                self.file_sink_open == old(self).file_sink_open,
                start == old(self).pending@,
                scan(start + chunk@.subrange(0, i as int)).1 == self.pending@,
                delivers_all(
                    out@,
                    self.stream,
                    texts(scan(start + chunk@.subrange(0, i as int)).0),
                    self.file_sink_open,
                ),
                no_newline(self.pending@),
            decreases chunk@.len() - i,
        {
            let ghost before = start + chunk@.subrange(0, i as int);
            let b = chunk[i];
            let ghost after = start + chunk@.subrange(0, i + 1);
            proof {
                assert(after.drop_last() =~= before);
                assert(after.last() == b);
            }
            if b == NEWLINE {
                let mut line: Vec<u8> = Vec::new();
                std::mem::swap(&mut line, &mut self.pending);
                let ghost raw = line@;
                let t = line_text(line, true);
                proof {
                    assert(scan(after).0 == scan(before).0.push(raw));
                    assert(scan(after).0.drop_last() =~= scan(before).0);
                }
                match t {
                    Some(text) => {
                        let d = deliver(self.stream, &text, self.file_sink_open);
                        out.push(d);
                        proof {
                            assert(texts(scan(after).0) == texts(scan(before).0).push(text@));
                        }
                    },
                    None => {
                        assert(texts(scan(after).0) == texts(scan(before).0));
                    },
                }
            } else {
                self.pending.push(b);
                proof {
                    assert(scan(after).0 == scan(before).0);
                    assert forall|k: int| 0 <= k < self.pending@.len() implies self.pending@[k]
                        != NEWLINE by {
                        if k < self.pending@.len() - 1 {
                            assert(self.pending@[k] == scan(before).1[k]);
                        }
                    }
                }
            }
            i = i + 1;
        }
        proof {
            assert(chunk@.subrange(0, chunk@.len() as int) =~= chunk@);
        }
        out
    }

    /// At the end of the stream: the delivery of the last line when bytes
    /// after the last newline remain and decode; the relay is then empty.
    pub fn finish(&mut self) -> (r: Option<LineDelivery>)
        requires
            old(self).wf(),
        ensures
            final(self).wf(),
            final(self).stream == old(self).stream,
            final(self).file_sink_open == old(self).file_sink_open,
            final(self).pending@ == Seq::<u8>::empty(),
            old(self).pending@.len() == 0 ==> r.is_none(),
            old(self).pending@.len() > 0 ==> r.is_some() == decoded(old(self).pending@).is_some(),
            r.is_some() ==> r.unwrap().delivers(
                old(self).stream,
                decoded(old(self).pending@).unwrap(),
                old(self).file_sink_open,
            ),
    {
        if self.pending.len() == 0 {
            return None;
        }
        let mut line: Vec<u8> = Vec::new();
        std::mem::swap(&mut line, &mut self.pending);
        match line_text(line, false) {
            Some(text) => Some(deliver(self.stream, &text, self.file_sink_open)),
            None => None,
        }
    }
}

/// `ds` is, in order, the delivery of each of `lines` from stream `s`.
pub open spec fn delivers_all(
    ds: Seq<LineDelivery>,
    s: Stream,
    lines: Seq<Seq<char>>,
    file_sink_open: bool,
) -> bool {
    &&& ds.len() == lines.len()
    &&& forall|i: int| 0 <= i < ds.len() ==> #[trigger] ds[i].delivers(s, lines[i], file_sink_open)
}

/// Order within a stream does not depend on how its bytes are cut into
/// chunks: feeding `a` and then `b` delivers the lines of `a + b`, in the same
/// order, and leaves the same bytes waiting.
pub proof fn lemma_chunking_keeps_order(pending: Seq<u8>, a: Seq<u8>, b: Seq<u8>)
    requires
        no_newline(pending),
    ensures
        texts(scan(pending + a).0) + texts(scan(scan(pending + a).1 + b).0) == texts(
            scan(pending + a + b).0,
        ),
        scan(scan(pending + a).1 + b).1 == scan(pending + a + b).1,
{
    lemma_scan_concat(pending + a, b);
    lemma_texts_concat(scan(pending + a).0, scan(scan(pending + a).1 + b).0);
}

/// A file sink that is not open changes nothing of what the console and the
/// event channel receive: for the same lines, relays with and without the log
/// file hand those two sinks the same records, one per line, in order.
pub proof fn lemma_file_sink_isolated(
    with_file: Seq<LineDelivery>,
    without_file: Seq<LineDelivery>,
    s: Stream,
    lines: Seq<Seq<char>>,
)
    requires
        delivers_all(with_file, s, lines, true),
        delivers_all(without_file, s, lines, false),
    ensures
        with_file.len() == without_file.len() == lines.len(),
        forall|i: int|
            0 <= i < lines.len() ==> {
                &&& (#[trigger] with_file[i]).console@ == without_file[i].console@
                &&& with_file[i].console@ == console_text(s, lines[i])
                &&& with_file[i].event.line@ == without_file[i].event.line@
                &&& with_file[i].event.stream == without_file[i].event.stream
            },
{
    assert forall|i: int| 0 <= i < lines.len() implies {
        &&& (#[trigger] with_file[i]).console@ == without_file[i].console@
        &&& with_file[i].console@ == console_text(s, lines[i])
        &&& with_file[i].event.line@ == without_file[i].event.line@
        &&& with_file[i].event.stream == without_file[i].event.stream
    } by {
        assert(with_file[i].delivers(s, lines[i], true));
        assert(without_file[i].delivers(s, lines[i], false));
    }
}

proof fn lemma_scan_rest_no_newline(x: Seq<u8>)
    ensures
        no_newline(scan(x).1),
    decreases x.len(),
{
    if x.len() > 0 {
        lemma_scan_rest_no_newline(x.drop_last());
    }
}

proof fn lemma_scan_concat(x: Seq<u8>, b: Seq<u8>)
    ensures
        scan(x + b) == (scan(x).0 + scan(scan(x).1 + b).0, scan(scan(x).1 + b).1),
    decreases b.len(),
{
    let c = scan(x).1;
    if b.len() == 0 {
        assert(x + b =~= x);
        assert(c + b =~= c);
        lemma_scan_rest_no_newline(x);
        lemma_scan_no_newline(c);
        assert(scan(x).0 + Seq::<Seq<u8>>::empty() =~= scan(x).0);
    } else {
        let bp = b.drop_last();
        lemma_scan_concat(x, bp);
        assert((x + b).drop_last() =~= x + bp);
        assert((c + b).drop_last() =~= c + bp);
        assert((x + b).last() == b.last());
        assert((c + b).last() == b.last());
        let sp = scan(c + bp);
        if b.last() == NEWLINE {
            assert((scan(x).0 + sp.0).push(sp.1) =~= scan(x).0 + sp.0.push(sp.1));
        }
    }
}

proof fn lemma_texts_concat(x: Seq<Seq<u8>>, y: Seq<Seq<u8>>)
    ensures
        texts(x + y) == texts(x) + texts(y),
    decreases y.len(),
{
    if y.len() == 0 {
        assert(x + y =~= x);
        assert(texts(x) + Seq::<Seq<char>>::empty() =~= texts(x));
    } else {
        let yp = y.drop_last();
        lemma_texts_concat(x, yp);
        assert((x + y).drop_last() =~= x + yp);
        assert((x + y).last() == y.last());
        match decoded(strip_cr(y.last())) {
            Some(t) => {
                assert((texts(x) + texts(yp)).push(t) =~= texts(x) + texts(yp).push(t));
            },
            None => {},
        }
    }
}

proof fn lemma_scan_no_newline(b: Seq<u8>)
    requires
        no_newline(b),
    ensures
        scan(b) == (Seq::<Seq<u8>>::empty(), b),
    decreases b.len(),
{
    if b.len() > 0 {
        lemma_scan_no_newline(b.drop_last());
        assert(b.drop_last().push(b.last()) =~= b);
    }
}

} // verus!
