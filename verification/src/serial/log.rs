//! Reassembly of serial log lines and the decisions of a log session.
//!
//! Serial input arrives in chunks of arbitrary size; the types here turn it
//! into lines (split at `\n`, with trailing `\r` removed) and decide what a
//! session reports for each read.

use vstd::prelude::*;
use vstd::utf8::{decode_utf8, encode_utf8, encode_utf8_decode_utf8, encode_utf8_valid_utf8, valid_utf8};

use crate::text::{
    chars_of, decimal, lemma_trim_cr_clean, push_decimal, push_str, split_on, string_of, string_views,
    trim_cr, trim_cr_chars,
};

verus! {

// ---------------------------------------------------------------------------
// Decoding
// ---------------------------------------------------------------------------

/// What `String::from_utf8_lossy` makes of a byte string.
pub uninterp spec fn utf8_lossy(bytes: Seq<u8>) -> Seq<char>;

/// Every byte of `bytes` is below 0x80 (an ASCII character).
pub open spec fn all_ascii(bytes: Seq<u8>) -> bool {
    forall|i: int| 0 <= i < bytes.len() ==> #[trigger] bytes[i] < 0x80
}

/// The characters of ASCII bytes, one per byte.
pub open spec fn ascii_chars(bytes: Seq<u8>) -> Seq<char> {
    bytes.map_values(|b: u8| b as char)
}

/// Calls `String::from_utf8_lossy`: the text of `bytes` with each invalid
/// UTF-8 sequence replaced by U+FFFD. The contract claims that the result is
/// a function of `bytes` alone (named `utf8_lossy`), that valid UTF-8 is
/// returned as the characters it encodes (std hands such input back
/// unchanged), that no bytes give the empty text, and that ASCII bytes give
/// one character each; what replaces an invalid sequence is not stated.
#[verifier::external_body]
fn decode_lossy(bytes: &[u8]) -> (s: String)
    ensures
        s@ == utf8_lossy(bytes@),
        valid_utf8(bytes@) ==> s@ == decode_utf8(bytes@),
        bytes@.len() == 0 ==> s@.len() == 0,
        all_ascii(bytes@) ==> s@ == ascii_chars(bytes@),
{
    String::from_utf8_lossy(bytes).into_owned()
}

/// The text of a byte string as `String::from_utf8_lossy` gives it: the
/// characters it encodes when it is valid UTF-8, else the lossy result.
pub open spec fn decoded_text(bytes: Seq<u8>) -> Seq<char> {
    if valid_utf8(bytes) {
        decode_utf8(bytes)
    } else {
        utf8_lossy(bytes)
    }
}

/// The text of one received line: its bytes decoded (invalid UTF-8 replaced)
/// and trailing carriage returns removed.
pub open spec fn line_text_of(bytes: Seq<u8>) -> Seq<char> {
    trim_cr(decoded_text(bytes))
}

/// A line whose bytes are the UTF-8 encoding of some characters has those
/// characters as its text, less trailing carriage returns: decoding undoes
/// encoding, whatever the characters (not only ASCII).
pub proof fn lemma_line_text_of_encoded(cs: Seq<char>)
    ensures
        decoded_text(encode_utf8(cs)) == cs,
        line_text_of(encode_utf8(cs)) == trim_cr(cs),
{
    encode_utf8_valid_utf8(cs);
    encode_utf8_decode_utf8(cs);
}

/// The text of one received line (see `line_text_of`).
pub fn line_text(bytes: &[u8]) -> (s: String)
    ensures
        s@ == line_text_of(bytes@),
        s@ == trim_cr(utf8_lossy(bytes@)),
        all_ascii(bytes@) ==> s@ == trim_cr(ascii_chars(bytes@)),
{
    let decoded = decode_lossy(bytes);
    let cs = chars_of(decoded.as_str());
    let trimmed = trim_cr_chars(&cs);
    string_of(&trimmed)
}

// ---------------------------------------------------------------------------
// Line reassembly
// ---------------------------------------------------------------------------

pub open spec fn views(lines: Seq<Vec<u8>>) -> Seq<Seq<u8>> {
    lines.map_values(|l: Vec<u8>| l@)
}

/// Splitting a byte string that holds no newline gives that string alone.
pub proof fn lemma_split_no_newline(s: Seq<u8>)
    requires
        !s.contains(10u8),
    ensures
        split_on(s, 10u8) == seq![s],
    decreases s.len(),
{
    if s.len() > 0 {
        assert(!s.drop_last().contains(10u8)) by {
            if s.drop_last().contains(10u8) {
                let k = choose|k: int| 0 <= k < s.drop_last().len() && s.drop_last()[k] == 10u8;
                assert(s[k] == 10u8);
            }
        }
        lemma_split_no_newline(s.drop_last());
        assert(s.last() != 10u8) by {
            assert(s[s.len() - 1] == s.last());
        }
        assert(s.drop_last().push(s.last()) == s);
        let init = split_on(s.drop_last(), 10u8);
        assert(init.len() - 1 == 0);
        assert(init.last() == s.drop_last());
        assert(init.update(0, s.drop_last().push(s.last())) =~= seq![s]);
    } else {
        assert(s =~= Seq::<u8>::empty());
    }
}

/// Splitting `x + y` continues the split of `x`: the complete pieces of `x`
/// stay as they are, and its unfinished last piece is split together with `y`.
pub proof fn lemma_split_append<T>(x: Seq<T>, y: Seq<T>, sep: T)
    ensures
        split_on(x + y, sep) == split_on(x, sep).drop_last() + split_on(
            split_on(x, sep).last() + y,
            sep,
        ),
    decreases y.len(),
{
    lemma_split_nonempty(x, sep);
    let sx = split_on(x, sep);
    if y.len() == 0 {
        assert(x + y == x);
        assert(sx.last() + y == sx.last());
        lemma_split_last_free(sx.last(), sep, x);
        assert(sx.drop_last() + seq![sx.last()] == sx);
    } else {
        lemma_split_append(x, y.drop_last(), sep);
        let z = sx.last() + y.drop_last();
        lemma_split_nonempty(z, sep);
        assert((x + y).drop_last() == x + y.drop_last());
        assert((sx.last() + y).drop_last() == z);
        assert((x + y).last() == y.last());
        assert((sx.last() + y).last() == y.last());
        let sz = split_on(z, sep);
        let left = sx.drop_last() + sz;
        if y.last() == sep {
            assert(left.push(Seq::<T>::empty()) == sx.drop_last() + sz.push(Seq::<T>::empty()));
        } else {
            assert(left.last() == sz.last());
            assert(left.update(left.len() - 1, left.last().push(y.last())) == sx.drop_last()
                + sz.update(sz.len() - 1, sz.last().push(y.last())));
        }
    }
}

/// A split always has at least one piece.
pub proof fn lemma_split_nonempty<T>(x: Seq<T>, sep: T)
    ensures
        split_on(x, sep).len() >= 1,
    decreases x.len(),
{
    if x.len() > 0 {
        lemma_split_nonempty(x.drop_last(), sep);
    }
}

/// The last piece of a split holds no separator, so it splits to itself.
proof fn lemma_split_last_free<T>(p: Seq<T>, sep: T, x: Seq<T>)
    requires
        p == split_on(x, sep).last(),
    ensures
        split_on(p, sep) == seq![p],
    decreases x.len(),
{
    lemma_split_nonempty(x, sep);
    if x.len() == 0 {
    } else {
        let q = split_on(x.drop_last(), sep).last();
        lemma_split_nonempty(x.drop_last(), sep);
        if x.last() == sep {
            assert(p == Seq::<T>::empty());
        } else {
            lemma_split_last_free(q, sep, x.drop_last());
            assert(p == q.push(x.last()));
            assert(p.drop_last() == q);
        }
    }
}

/// Reassembles lines from serial input that arrives in chunks. Bytes up to a
/// `\n` form a line; the bytes after the last `\n` wait for more input.
pub struct LineSplitter {
    pending: Vec<u8>,
}

impl View for LineSplitter {
    type V = Seq<u8>;

    /// The bytes received since the last complete line.
    closed spec fn view(&self) -> Seq<u8> {
        self.pending@
    }
}

impl LineSplitter {
    #[verifier::type_invariant]
    closed spec fn no_newline_pending(self) -> bool {
        !self.pending@.contains(10u8)
    }

    /// A splitter that has received nothing.
    pub fn new() -> (r: Self)
        ensures
            r@ == Seq::<u8>::empty(),
    {
        LineSplitter { pending: Vec::new() }
    }

    /// The bytes waiting for a line end never hold one.
    pub fn pending_len(&self) -> (r: usize)
        ensures
            r == self@.len(),
            !self@.contains(10u8),
    {
        proof {
            use_type_invariant(self);
        }
        self.pending.len()
    }

    /// Takes in `chunk` and returns the lines it completes, in order. The
    /// lines returned, followed by the bytes left waiting, are exactly the
    /// pieces of the waiting bytes plus `chunk` split at `\n`.
    pub fn feed(&mut self, chunk: &[u8]) -> (lines: Vec<Vec<u8>>)
        ensures
            views(lines@) + seq![final(self)@] == split_on(old(self)@ + chunk@, 10u8),
            !final(self)@.contains(10u8),
    {
        proof {
            use_type_invariant(&*self);
            lemma_split_no_newline(self.pending@);
        }
        let ghost start = self.pending@;
        let mut pending: Vec<u8> = Vec::new();
        std::mem::swap(&mut pending, &mut self.pending);
        let mut lines: Vec<Vec<u8>> = Vec::new();
        let mut i: usize = 0;
        assert(start + chunk@.subrange(0, 0) == start);
        while i < chunk.len()
            invariant
                i <= chunk@.len(),
                !pending@.contains(10u8),
                views(lines@) + seq![pending@] == split_on(
                    start + chunk@.subrange(0, i as int),
                    10u8,
                ),
            decreases chunk@.len() - i,
        {
            let b = chunk[i];
            let ghost before = start + chunk@.subrange(0, i as int);
            let ghost after = start + chunk@.subrange(0, i + 1);
            assert(after.drop_last() == before);
            assert(after.last() == b);
            let ghost sb = split_on(before, 10u8);
            if b == 10u8 {
                let done = pending;
                pending = Vec::new();
                let ghost old_lines = lines@;
                lines.push(done);
                assert(views(lines@) == views(old_lines).push(done@));
                assert(views(lines@) + seq![pending@] == sb.push(Seq::<u8>::empty()));
            } else {
                let ghost old_pending = pending@;
                pending.push(b);
                assert(!pending@.contains(10u8)) by {
                    if pending@.contains(10u8) {
                        let k = choose|k: int| 0 <= k < pending@.len() && pending@[k] == 10u8;
                        if k < old_pending.len() {
                            assert(old_pending[k] == 10u8);
                        }
                    }
                }
                assert(views(lines@) + seq![pending@] == sb.update(
                    sb.len() - 1,
                    sb.last().push(b),
                ));
            }
            i = i + 1;
        }
        assert(chunk@.subrange(0, chunk@.len() as int) == chunk@);
        self.pending = pending;
        lines
    }

    /// Ends the input: returns the unfinished last line, if it has any bytes,
    /// and leaves the splitter empty.
    pub fn finish(&mut self) -> (r: Option<Vec<u8>>)
        ensures
            final(self)@ == Seq::<u8>::empty(),
            match r {
                Some(l) => l@ == old(self)@ && old(self)@.len() > 0,
                None => old(self)@.len() == 0,
            },
    {
        let mut pending: Vec<u8> = Vec::new();
        std::mem::swap(&mut pending, &mut self.pending);
        if pending.len() == 0 {
            None
        } else {
            Some(pending)
        }
    }
}

/// Feeding input in two chunks yields the same lines as feeding it at once:
/// the lines of `a` then those of `b` (started from what `a` left waiting)
/// are the lines of `a + b`.
pub proof fn lemma_feed_chunks(pending: Seq<u8>, a: Seq<u8>, b: Seq<u8>)
    ensures
        ({
            let sa = split_on(pending + a, 10u8);
            split_on(pending + a + b, 10u8) == sa.drop_last() + split_on(sa.last() + b, 10u8)
        }),
{
    lemma_split_append(pending + a, b, 10u8);
}

// ---------------------------------------------------------------------------
// Whole-log lines
// ---------------------------------------------------------------------------

/// The pieces of `segs` that are not empty, in order.
pub open spec fn keep_nonempty(segs: Seq<Seq<char>>) -> Seq<Seq<char>>
    decreases segs.len(),
{
    if segs.len() == 0 {
        Seq::<Seq<char>>::empty()
    } else if segs.last().len() == 0 {
        keep_nonempty(segs.drop_last())
    } else {
        keep_nonempty(segs.drop_last()).push(segs.last())
    }
}

proof fn lemma_keep_push(x: Seq<Seq<char>>, y: Seq<char>)
    ensures
        keep_nonempty(x.push(y)) == if y.len() == 0 {
            keep_nonempty(x)
        } else {
            keep_nonempty(x).push(y)
        },
{
    assert(x.push(y).drop_last() == x);
    assert(x.push(y).last() == y);
}

/// A captured log whose bytes are the UTF-8 encoding of some characters has
/// the lines of those characters, whatever they are.
pub proof fn lemma_log_lines_of_encoded(cs: Seq<char>)
    ensures
        log_lines(decoded_text(encode_utf8(cs))) == log_lines(cs),
{
    lemma_line_text_of_encoded(cs);
}

/// The lines of a captured log text: split at `\n`, trailing carriage returns
/// removed, empty lines dropped.
pub open spec fn log_lines(text: Seq<char>) -> Seq<Seq<char>> {
    keep_nonempty(split_on(text, '\n').map_values(|l: Seq<char>| trim_cr(l)))
}

/// Every piece kept is one of the pieces, and none is empty.
pub proof fn lemma_keep_nonempty(segs: Seq<Seq<char>>, k: int)
    requires
        0 <= k < keep_nonempty(segs).len(),
    ensures
        keep_nonempty(segs)[k].len() > 0,
        segs.contains(keep_nonempty(segs)[k]),
    decreases segs.len(),
{
    if segs.len() > 0 {
        let rest = keep_nonempty(segs.drop_last());
        if segs.last().len() != 0 && k == rest.len() {
            assert(segs[segs.len() - 1] == segs.last());
        } else {
            lemma_keep_nonempty(segs.drop_last(), k);
            let w = choose|w: int| 0 <= w < segs.drop_last().len() && segs.drop_last()[w] == rest[k];
            assert(segs[w] == rest[k]);
        }
    }
}

/// Every line of a captured log is non-empty, holds no `\n` and does not end
/// in `\r`.
pub proof fn lemma_log_lines_clean(text: Seq<char>, k: int)
    requires
        0 <= k < log_lines(text).len(),
    ensures
        log_lines(text)[k].len() > 0,
        !log_lines(text)[k].contains('\n'),
        log_lines(text)[k].last() != '\r',
{
    let segs = split_on(text, '\n');
    let trimmed = segs.map_values(|l: Seq<char>| trim_cr(l));
    lemma_keep_nonempty(trimmed, k);
    let line = log_lines(text)[k];
    let w = choose|w: int| 0 <= w < trimmed.len() && trimmed[w] == line;
    lemma_trim_cr_clean(segs[w]);
    lemma_split_pieces_free(text, '\n', w);
    if line.contains('\n') {
        let p = choose|p: int| 0 <= p < line.len() && line[p] == '\n';
        assert(segs[w][p] == '\n');
    }
}

/// No piece of a split holds the separator.
pub proof fn lemma_split_pieces_free<T>(s: Seq<T>, sep: T, w: int)
    requires
        0 <= w < split_on(s, sep).len(),
    ensures
        !split_on(s, sep)[w].contains(sep),
    decreases s.len(),
{
    if s.len() > 0 {
        let init = split_on(s.drop_last(), sep);
        lemma_split_nonempty(s.drop_last(), sep);
        if s.last() == sep {
            if w < init.len() {
                lemma_split_pieces_free(s.drop_last(), sep, w);
            }
        } else {
            lemma_split_pieces_free(s.drop_last(), sep, w);
            if w == init.len() - 1 {
                let piece = init.last().push(s.last());
                if piece.contains(sep) {
                    let p = choose|p: int| 0 <= p < piece.len() && piece[p] == sep;
                    assert(p < init.last().len());
                    assert(init.last()[p] == sep);
                    assert(init[w] == init.last());
                }
            }
        }
    }
}

/// The non-empty lines of a whole captured log (see `log_lines`), the log
/// being decoded as `String::from_utf8_lossy` does.
pub fn boot_log_lines(log: &[u8]) -> (lines: Vec<String>)
    ensures
        string_views(lines@) == log_lines(utf8_lossy(log@)),
        string_views(lines@) == log_lines(decoded_text(log@)),
        log@.len() == 0 ==> lines@.len() == 0,
        all_ascii(log@) ==> string_views(lines@) == log_lines(ascii_chars(log@)),
{
    let text = decode_lossy(log);
    let cs = chars_of(text.as_str());
    let ghost t = cs@;
    let mut lines: Vec<String> = Vec::new();
    let mut cur: Vec<char> = Vec::new();
    let ghost mut done: Seq<Seq<char>> = Seq::empty();
    let mut i: usize = 0;
    assert(t.subrange(0, 0) == Seq::<char>::empty());
    while i < cs.len()
        invariant
            t == cs@,
            i <= cs.len(),
            done + seq![cur@] == split_on(t.subrange(0, i as int), '\n'),
            string_views(lines@) == keep_nonempty(
                done.map_values(|l: Seq<char>| trim_cr(l)),
            ),
        decreases cs.len() - i,
    {
        let c = cs[i];
        let ghost before = t.subrange(0, i as int);
        assert(t.subrange(0, i + 1).drop_last() == before);
        assert(t.subrange(0, i + 1).last() == c);
        let ghost sb = split_on(before, '\n');
        if c == '\n' {
            let trimmed = trim_cr_chars(&cur);
            let ghost old_done = done;
            let ghost old_lines = lines@;
            proof {
                done = done.push(cur@);
                assert(done.map_values(|l: Seq<char>| trim_cr(l)) == old_done.map_values(
                    |l: Seq<char>| trim_cr(l),
                ).push(trim_cr(cur@)));
                lemma_keep_push(old_done.map_values(|l: Seq<char>| trim_cr(l)), trim_cr(cur@));
            }
            if trimmed.len() > 0 {
                lines.push(string_of(&trimmed));
                assert(string_views(lines@) == string_views(old_lines).push(trimmed@));
            }
            cur = Vec::new();
            assert(done + seq![cur@] == sb.push(Seq::<char>::empty()));
        } else {
            cur.push(c);
            assert(done + seq![cur@] == sb.update(sb.len() - 1, sb.last().push(c)));
        }
        i = i + 1;
    }
    assert(t.subrange(0, cs.len() as int) == t);
    let trimmed = trim_cr_chars(&cur);
    let ghost segs = done + seq![cur@];
    let ghost old_lines = lines@;
    assert(segs.drop_last() == done);
    assert(segs.last() == cur@);
    assert(segs.map_values(|l: Seq<char>| trim_cr(l)) == done.map_values(
        |l: Seq<char>| trim_cr(l),
    ).push(trim_cr(cur@)));
    proof {
        lemma_keep_push(done.map_values(|l: Seq<char>| trim_cr(l)), trim_cr(cur@));
    }
    assert(t == utf8_lossy(log@));
    if trimmed.len() > 0 {
        lines.push(string_of(&trimmed));
        assert(string_views(lines@) == string_views(old_lines).push(trimmed@));
    }
    lines
}

// ---------------------------------------------------------------------------
// Texts of received lines
// ---------------------------------------------------------------------------

/// The texts of `lines`, in order.
pub open spec fn texts_of(lines: Seq<Seq<u8>>) -> Seq<Seq<char>> {
    lines.map_values(|l: Seq<u8>| line_text_of(l))
}

/// The texts of `lines` (see `line_text`), in order.
pub fn line_texts(lines: &Vec<Vec<u8>>) -> (texts: Vec<String>)
    ensures
        string_views(texts@) == texts_of(views(lines@)),
{
    let mut texts: Vec<String> = Vec::new();
    let mut i: usize = 0;
    while i < lines.len()
        invariant
            i <= lines@.len(),
            string_views(texts@) == texts_of(views(lines@.subrange(0, i as int))),
        decreases lines@.len() - i,
    {
        let ghost old_texts = texts@;
        texts.push(line_text(lines[i].as_slice()));
        assert(views(lines@.subrange(0, i + 1)) == views(lines@.subrange(0, i as int)).push(
            lines@[i as int]@,
        ));
        assert(string_views(texts@) == string_views(old_texts).push(
            line_text_of(lines@[i as int]@),
        ));
        i = i + 1;
    }
    assert(lines@.subrange(0, lines@.len() as int) == lines@);
    texts
}

/// The texts of `lines` that are not empty, in order: what a console shows.
pub fn printable_lines(lines: &Vec<Vec<u8>>) -> (texts: Vec<String>)
    ensures
        string_views(texts@) == keep_nonempty(texts_of(views(lines@))),
{
    let all = line_texts(lines);
    let mut texts: Vec<String> = Vec::new();
    let mut i: usize = 0;
    while i < all.len()
        invariant
            i <= all@.len(),
            string_views(all@) == texts_of(views(lines@)),
            string_views(texts@) == keep_nonempty(string_views(all@.subrange(0, i as int))),
        decreases all@.len() - i,
    {
        let ghost old_texts = texts@;
        assert(string_views(all@.subrange(0, i + 1)) == string_views(
            all@.subrange(0, i as int),
        ).push(all@[i as int]@));
        proof {
            lemma_keep_push(string_views(all@.subrange(0, i as int)), all@[i as int]@);
        }
        if !all[i].as_str().is_empty() {
            texts.push(all[i].clone());
            assert(string_views(texts@) == string_views(old_texts).push(all@[i as int]@));
        } else {
            assert(all@[i as int]@.len() == 0);
        }
        i = i + 1;
    }
    assert(all@.subrange(0, all@.len() as int) == all@);
    texts
}

// ---------------------------------------------------------------------------
// Log session
// ---------------------------------------------------------------------------

/// One line of log output sent to the frontend.
pub struct LogLine {
    pub text: String,
    /// Milliseconds since the log session started.
    pub timestamp_ms: u64,
}

impl LogLine {
    /// The log line for the received `bytes`, stamped `timestamp_ms`.
    pub fn from_bytes(bytes: &[u8], timestamp_ms: u64) -> (r: LogLine)
        ensures
            r.text@ == line_text_of(bytes@),
            r.timestamp_ms == timestamp_ms,
    {
        LogLine { text: line_text(bytes), timestamp_ms }
    }
}

/// Connection state of a log session, as reported to the frontend.
pub struct LogStatus {
    pub connected: bool,
    pub message: String,
}

impl LogStatus {
    /// The status reported once `port` is open at `baud_rate`:
    /// connected, `"Connected to <port> @ <baud>"`.
    pub fn connected_to(port: &str, baud_rate: u32) -> (r: LogStatus)
        ensures
            r.connected,
            r.message@ == "Connected to "@ + port@ + " @ "@ + decimal(baud_rate as nat),
    {
        let mut message = String::new();
        push_str(&mut message, "Connected to ");
        push_str(&mut message, port);
        push_str(&mut message, " @ ");
        push_decimal(&mut message, baud_rate as u64);
        LogStatus { connected: true, message }
    }

    /// The status reported when reading fails with `error`: not connected,
    /// `"Serial error: <error>"`.
    pub fn serial_error(error: &str) -> (r: LogStatus)
        ensures
            !r.connected,
            r.message@ == "Serial error: "@ + error@,
    {
        let mut message = String::new();
        push_str(&mut message, "Serial error: ");
        push_str(&mut message, error);
        LogStatus { connected: false, message }
    }

    /// The status reported when a session ends: not connected, `"Disconnected"`.
    pub fn disconnected() -> (r: LogStatus)
        ensures
            !r.connected,
            r.message@ == "Disconnected"@,
    {
        let mut message = String::new();
        push_str(&mut message, "Disconnected");
        LogStatus { connected: false, message }
    }
}

/// What a read of the serial port gave.
pub enum SerialEvent {
    /// The session was asked to stop (or its time is up).
    Stop,
    /// These bytes were read (possibly none).
    Received(Vec<u8>),
    /// The read timed out with nothing to report.
    TimedOut,
    /// The read failed with this error.
    Failed(String),
}

/// One report sent to the frontend when a log session ends.
pub enum LogReport {
    /// A log line.
    Line(LogLine),
    /// A connection status.
    Status(LogStatus),
}

/// What a log session does after a read.
pub enum LogStep {
    /// Send these line texts, then read again.
    Emit(Vec<String>),
    /// Nothing arrived: pause briefly, then read again.
    Pause,
    /// Read again at once.
    ReadAgain,
    /// Stop reading and send these reports, in order.
    End(Vec<LogReport>),
}

/// The decisions of a streaming log session: lines are sent as soon as their
/// `\n` arrives, and an unfinished last line is sent when the session ends.
pub struct LogSession {
    splitter: LineSplitter,
}

impl View for LogSession {
    type V = Seq<u8>;

    /// The bytes received since the last complete line.
    closed spec fn view(&self) -> Seq<u8> {
        self.splitter@
    }
}

impl LogSession {
    pub fn new() -> (r: Self)
        ensures
            r@ == Seq::<u8>::empty(),
    {
        LogSession { splitter: LineSplitter::new() }
    }

    /// Decides what to do with `event`, which arrived `timestamp_ms` after the
    /// session started.
    /// - Bytes: the texts of the lines they complete are sent (an empty read
    ///   pauses instead).
    /// - A timeout reads again.
    /// - A failure ends the session with `"Serial error: ..."`, and a stop
    ///   request ends it without; either way the unfinished line, if any, is
    ///   sent and then `"Disconnected"`.
    pub fn step(&mut self, event: SerialEvent, timestamp_ms: u64) -> (r: LogStep)
        ensures
            match event {
                SerialEvent::Received(chunk) => if chunk@.len() == 0 {
                    r is Pause && final(self)@ == old(self)@
                } else {
                    exists|lines: Seq<Seq<u8>>|
                        {
                            &&& #[trigger] split_on(old(self)@ + chunk@, 10u8) == lines + seq![
                                final(self)@,
                            ]
                            &&& r matches LogStep::Emit(texts) && string_views(texts@)
                                == texts_of(lines)
                        }
                },
                SerialEvent::TimedOut => r is ReadAgain && final(self)@ == old(self)@,
                SerialEvent::Stop => r matches LogStep::End(reports) && end_reports(
                    reports@,
                    None,
                    old(self)@,
                    timestamp_ms,
                ) && final(self)@ == Seq::<u8>::empty(),
                SerialEvent::Failed(e) => r matches LogStep::End(reports) && end_reports(
                    reports@,
                    Some(e@),
                    old(self)@,
                    timestamp_ms,
                ) && final(self)@ == Seq::<u8>::empty(),
            },
    {
        match event {
            SerialEvent::Received(chunk) => {
                if chunk.len() == 0 {
                    LogStep::Pause
                } else {
                    let ghost before = self@;
                    let lines = self.splitter.feed(chunk.as_slice());
                    let texts = line_texts(&lines);
                    assert(split_on(before + chunk@, 10u8) == views(lines@) + seq![self@]);
                    LogStep::Emit(texts)
                }
            },
            SerialEvent::TimedOut => LogStep::ReadAgain,
            SerialEvent::Stop => LogStep::End(self.end(None, timestamp_ms)),
            SerialEvent::Failed(e) => LogStep::End(self.end(Some(e.as_str()), timestamp_ms)),
        }
    }

    fn end(&mut self, error: Option<&str>, timestamp_ms: u64) -> (reports: Vec<LogReport>)
        ensures
            end_reports(
                reports@,
                match error {
                    Some(e) => Some(e@),
                    None => None,
                },
                old(self)@,
                timestamp_ms,
            ),
            final(self)@ == Seq::<u8>::empty(),
    {
        let mut reports: Vec<LogReport> = Vec::new();
        match error {
            Some(e) => reports.push(LogReport::Status(LogStatus::serial_error(e))),
            None => {},
        }
        match self.splitter.finish() {
            Some(bytes) => reports.push(
                LogReport::Line(LogLine::from_bytes(bytes.as_slice(), timestamp_ms)),
            ),
            None => {},
        }
        reports.push(LogReport::Status(LogStatus::disconnected()));
        reports
    }
}

/// `r` is a status report with this connection state and message.
pub open spec fn is_status(r: LogReport, connected: bool, message: Seq<char>) -> bool {
    r matches LogReport::Status(st) && st.connected == connected && st.message@ == message
}

/// `r` is a line report with this text and time stamp.
pub open spec fn is_line(r: LogReport, text: Seq<char>, timestamp_ms: u64) -> bool {
    r matches LogReport::Line(l) && l.text@ == text && l.timestamp_ms == timestamp_ms
}

/// The reports that end a session, in order: the read error's status
/// (`"Serial error: <error>"`) if a read failed, then the unfinished line
/// `pending` (stamped `timestamp_ms`) if it has any bytes, then
/// `"Disconnected"`.
pub open spec fn end_reports(
    reports: Seq<LogReport>,
    error: Option<Seq<char>>,
    pending: Seq<u8>,
    timestamp_ms: u64,
) -> bool {
    let e: int = if error is Some {
        1
    } else {
        0
    };
    let l: int = if pending.len() > 0 {
        1
    } else {
        0
    };
    &&& reports.len() == e + l + 1
    &&& (error matches Some(m) ==> is_status(reports[0], false, "Serial error: "@ + m))
    &&& (pending.len() > 0 ==> is_line(reports[e], line_text_of(pending), timestamp_ms))
    &&& is_status(reports[e + l], false, "Disconnected"@)
}


// ---------------------------------------------------------------------------
// Console log
// ---------------------------------------------------------------------------

/// What a console log viewer does after a read.
pub enum ConsoleStep {
    /// Print these non-empty lines, then read again.
    Print(Vec<String>),
    /// Read again.
    ReadAgain,
    /// Stop, failing with this message.
    Fail(String),
    /// Stop without a message.
    Stop,
}

/// The decisions of a console log viewer: the non-empty lines are printed as
/// soon as their `\n` arrives; a read error ends the viewer.
pub struct ConsoleLog {
    splitter: LineSplitter,
}

impl View for ConsoleLog {
    type V = Seq<u8>;

    /// The bytes received since the last complete line.
    closed spec fn view(&self) -> Seq<u8> {
        self.splitter@
    }
}

impl ConsoleLog {
    pub fn new() -> (r: Self)
        ensures
            r@ == Seq::<u8>::empty(),
    {
        ConsoleLog { splitter: LineSplitter::new() }
    }

    /// Decides what to do with `event`.
    /// - Bytes: the non-empty texts of the lines they complete are printed.
    /// - An empty read or a timeout reads again.
    /// - A failure ends the viewer with `"Serial error: <error>"`; a stop
    ///   request ends it without a message.
    pub fn step(&mut self, event: SerialEvent) -> (r: ConsoleStep)
        ensures
            match event {
                SerialEvent::Received(chunk) => if chunk@.len() == 0 {
                    r is ReadAgain && final(self)@ == old(self)@
                } else {
                    exists|lines: Seq<Seq<u8>>|
                        {
                            &&& #[trigger] split_on(old(self)@ + chunk@, 10u8) == lines + seq![
                                final(self)@,
                            ]
                            &&& r matches ConsoleStep::Print(texts) && string_views(texts@)
                                == keep_nonempty(texts_of(lines))
                        }
                },
                SerialEvent::TimedOut => r is ReadAgain && final(self)@ == old(self)@,
                SerialEvent::Failed(e) => (r matches ConsoleStep::Fail(m) && m@ == "Serial error: "@
                    + e@) && final(self)@ == old(self)@,
                SerialEvent::Stop => r is Stop && final(self)@ == old(self)@,
            },
    {
        match event {
            SerialEvent::Received(chunk) => {
                if chunk.len() == 0 {
                    ConsoleStep::ReadAgain
                } else {
                    let ghost before = self@;
                    let lines = self.splitter.feed(chunk.as_slice());
                    let texts = printable_lines(&lines);
                    assert(split_on(before + chunk@, 10u8) == views(lines@) + seq![self@]);
                    ConsoleStep::Print(texts)
                }
            },
            SerialEvent::TimedOut => ConsoleStep::ReadAgain,
            SerialEvent::Failed(e) => ConsoleStep::Fail(LogStatus::serial_error(e.as_str()).message),
            SerialEvent::Stop => ConsoleStep::Stop,
        }
    }
}

} // verus!
