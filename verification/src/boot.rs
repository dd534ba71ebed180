//! Boot-log checks: capturing the log a device prints after flashing, and
//! deciding from it whether the device booted.

use vstd::prelude::*;

use crate::serial::log::{
    all_ascii, ascii_chars, boot_log_lines, keep_nonempty, line_text, line_text_of, log_lines, printable_lines,
    decoded_text, texts_of, utf8_lossy, views, LineSplitter, SerialEvent,
};
use crate::text::{
    chars_of, contains_chars, contains_sub, decimal, push_decimal, push_str, split_on, string_views,
};

verus! {

// ---------------------------------------------------------------------------
// Keyword checks
// ---------------------------------------------------------------------------

/// Some line of `lines` contains `kw`.
pub open spec fn any_line_contains(lines: Seq<Seq<char>>, kw: Seq<char>) -> bool {
    exists|i: int| 0 <= i < lines.len() && contains_sub(#[trigger] lines[i], kw)
}

/// Some keyword of `kws` occurs in some line of `lines`.
pub open spec fn boot_seen(lines: Seq<Seq<char>>, kws: Seq<Seq<char>>) -> bool {
    exists|j: int| 0 <= j < kws.len() && any_line_contains(lines, #[trigger] kws[j])
}

/// The keywords of `kws` that occur in some line of `lines`, in keyword order.
pub open spec fn matched(lines: Seq<Seq<char>>, kws: Seq<Seq<char>>) -> Seq<Seq<char>>
    decreases kws.len(),
{
    if kws.len() == 0 {
        Seq::<Seq<char>>::empty()
    } else if any_line_contains(lines, kws.last()) {
        matched(lines, kws.drop_last()).push(kws.last())
    } else {
        matched(lines, kws.drop_last())
    }
}

/// The boot keywords of the frontend's flash-and-test command.
pub open spec fn app_keywords() -> Seq<Seq<char>> {
    seq!["luat:"@, "ap0:"@, "ap1:"@, "MAC "@, "EasyFlash"@, "LuatOS"@, "RTOS"@]
}

/// The boot keywords looked for after a plain flash.
pub open spec fn flash_keywords() -> Seq<Seq<char>> {
    seq!["luat:"@, "ap0:"@, "ap1:"@, "LuatOS"@, "EasyFlash"@, "MAC "@]
}

/// The boot keywords of the closed-loop test.
pub open spec fn test_keywords() -> Seq<Seq<char>> {
    seq!["luat:"@, "ap0:"@, "ap1:"@, "LuatOS"@, "EasyFlash"@, "MAC "@, "RTOS"@]
}

/// The boot keywords of the frontend's flash-and-test command.
pub fn app_boot_keywords() -> (r: Vec<String>)
    ensures
        string_views(r@) == app_keywords(),
{
    let r = vec![
        "luat:".to_owned(),
        "ap0:".to_owned(),
        "ap1:".to_owned(),
        "MAC ".to_owned(),
        "EasyFlash".to_owned(),
        "LuatOS".to_owned(),
        "RTOS".to_owned(),
    ];
    assert(string_views(r@) == app_keywords());
    r
}

/// The boot keywords looked for after a plain flash.
pub fn flash_boot_keywords() -> (r: Vec<String>)
    ensures
        string_views(r@) == flash_keywords(),
{
    let r = vec![
        "luat:".to_owned(),
        "ap0:".to_owned(),
        "ap1:".to_owned(),
        "LuatOS".to_owned(),
        "EasyFlash".to_owned(),
        "MAC ".to_owned(),
    ];
    assert(string_views(r@) == flash_keywords());
    r
}

/// The boot keywords of the closed-loop test.
pub fn test_boot_keywords() -> (r: Vec<String>)
    ensures
        string_views(r@) == test_keywords(),
{
    let r = vec![
        "luat:".to_owned(),
        "ap0:".to_owned(),
        "ap1:".to_owned(),
        "LuatOS".to_owned(),
        "EasyFlash".to_owned(),
        "MAC ".to_owned(),
        "RTOS".to_owned(),
    ];
    assert(string_views(r@) == test_keywords());
    r
}

fn chars_of_all(lines: &Vec<String>) -> (r: Vec<Vec<char>>)
    ensures
        r@.len() == lines@.len(),
        forall|i: int| 0 <= i < lines@.len() ==> #[trigger] r@[i]@ == lines@[i]@,
{
    let mut r: Vec<Vec<char>> = Vec::new();
    let mut i: usize = 0;
    while i < lines.len()
        invariant
            i <= lines@.len(),
            r@.len() == i,
            forall|k: int| 0 <= k < i ==> #[trigger] r@[k]@ == lines@[k]@,
        decreases lines@.len() - i,
    {
        r.push(chars_of(lines[i].as_str()));
        i = i + 1;
    }
    r
}

fn some_line_contains(lines: &Vec<Vec<char>>, kw: &Vec<char>) -> (r: bool)
    ensures
        r == exists|i: int| 0 <= i < lines@.len() && contains_sub(#[trigger] lines@[i]@, kw@),
{
    let mut i: usize = 0;
    while i < lines.len()
        invariant
            i <= lines@.len(),
            forall|k: int| 0 <= k < i ==> !contains_sub(#[trigger] lines@[k]@, kw@),
        decreases lines@.len() - i,
    {
        if contains_chars(&lines[i], kw) {
            return true;
        }
        i = i + 1;
    }
    false
}

/// Whether `line` contains `kw` (as `str::contains` answers).
pub fn line_contains(line: &str, kw: &str) -> (r: bool)
    ensures
        r == contains_sub(line@, kw@),
{
    let l = chars_of(line);
    let k = chars_of(kw);
    contains_chars(&l, &k)
}

/// The keywords of `keywords` that occur in some line of `lines`, in the
/// order of `keywords`.
pub fn matched_keywords(lines: &Vec<String>, keywords: &Vec<String>) -> (r: Vec<String>)
    ensures
        string_views(r@) == matched(string_views(lines@), string_views(keywords@)),
{
    let ls = chars_of_all(lines);
    let ghost lv = string_views(lines@);
    let mut r: Vec<String> = Vec::new();
    let mut j: usize = 0;
    assert(string_views(keywords@).subrange(0, 0) == Seq::<Seq<char>>::empty());
    while j < keywords.len()
        invariant
            j <= keywords@.len(),
            lv == string_views(lines@),
            ls@.len() == lines@.len(),
            forall|i: int| 0 <= i < lines@.len() ==> #[trigger] ls@[i]@ == lines@[i]@,
            string_views(r@) == matched(lv, string_views(keywords@).subrange(0, j as int)),
        decreases keywords@.len() - j,
    {
        let kw = chars_of(keywords[j].as_str());
        let ghost prefix = string_views(keywords@).subrange(0, j + 1);
        assert(prefix.drop_last() == string_views(keywords@).subrange(0, j as int));
        assert(prefix.last() == keywords@[j as int]@);
        let found = some_line_contains(&ls, &kw);
        assert(found == any_line_contains(lv, keywords@[j as int]@)) by {
            if found {
                let i = choose|i: int| 0 <= i < ls@.len() && contains_sub(ls@[i]@, kw@);
                assert(lv[i] == ls@[i]@);
            }
            if any_line_contains(lv, keywords@[j as int]@) {
                let i = choose|i: int| 0 <= i < lv.len() && contains_sub(lv[i], keywords@[j as int]@);
                assert(ls@[i]@ == lv[i]);
            }
        }
        if found {
            let ghost before = r@;
            r.push(keywords[j].clone());
            assert(string_views(r@) == string_views(before).push(keywords@[j as int]@));
        }
        j = j + 1;
    }
    assert(string_views(keywords@).subrange(0, keywords@.len() as int) == string_views(keywords@));
    r
}

/// Whether some keyword of `keywords` occurs in some line of `lines`.
pub fn boot_detected(lines: &Vec<String>, keywords: &Vec<String>) -> (r: bool)
    ensures
        r == boot_seen(string_views(lines@), string_views(keywords@)),
{
    let found = matched_keywords(lines, keywords);
    proof {
        lemma_matched_empty(string_views(lines@), string_views(keywords@));
    }
    found.len() > 0
}

/// No keyword was matched exactly when none occurs in any line.
pub proof fn lemma_matched_empty(lines: Seq<Seq<char>>, kws: Seq<Seq<char>>)
    ensures
        (matched(lines, kws).len() == 0) == !boot_seen(lines, kws),
    decreases kws.len(),
{
    if kws.len() > 0 {
        lemma_matched_empty(lines, kws.drop_last());
        if boot_seen(lines, kws.drop_last()) {
            let j = choose|j: int|
                0 <= j < kws.drop_last().len() && any_line_contains(lines, kws.drop_last()[j]);
            assert(kws[j] == kws.drop_last()[j]);
        }
        if boot_seen(lines, kws) && !any_line_contains(lines, kws.last()) {
            let j = choose|j: int| 0 <= j < kws.len() && any_line_contains(lines, kws[j]);
            assert(j != kws.len() - 1);
            assert(kws.drop_last()[j] == kws[j]);
        }
    }
}

/// The matched keywords are keywords that occur in the log: nothing else is
/// ever reported.
pub proof fn lemma_matched_sound(lines: Seq<Seq<char>>, kws: Seq<Seq<char>>, k: int)
    requires
        0 <= k < matched(lines, kws).len(),
    ensures
        kws.contains(matched(lines, kws)[k]),
        any_line_contains(lines, matched(lines, kws)[k]),
    decreases kws.len(),
{
    if kws.len() > 0 {
        let m = matched(lines, kws.drop_last());
        if any_line_contains(lines, kws.last()) && k == m.len() {
            assert(kws[kws.len() - 1] == kws.last());
        } else {
            lemma_matched_sound(lines, kws.drop_last(), k);
            let w = choose|w: int|
                0 <= w < kws.drop_last().len() && kws.drop_last()[w] == m[k];
            assert(kws[w] == m[k]);
        }
    }
}

/// The keywords reported are exactly the keywords of `kws` that occur as a
/// contiguous run in some line, in keyword order, each as often as it stands
/// in `kws` (once per keyword, however many lines hold it); so there are never
/// more than there are keywords.
pub proof fn lemma_matched_is_keyword_filter(lines: Seq<Seq<char>>, kws: Seq<Seq<char>>)
    ensures
        matched(lines, kws) == kws.filter(
            |k: Seq<char>|
                exists|i: int, s: int|
                    0 <= i < lines.len() && 0 <= s && s + k.len() <= lines[i].len()
                        && #[trigger] lines[i].subrange(s, s + k.len()) == k,
        ),
        matched(lines, kws).len() <= kws.len(),
    decreases kws.len(),
{
    reveal(Seq::filter);
    let pred = |k: Seq<char>|
        exists|i: int, s: int|
            0 <= i < lines.len() && 0 <= s && s + k.len() <= lines[i].len() && #[trigger] lines[i].subrange(
                s,
                s + k.len(),
            ) == k;
    if kws.len() > 0 {
        lemma_matched_is_keyword_filter(lines, kws.drop_last());
        let k = kws.last();
        assert(any_line_contains(lines, k) == pred(k)) by {
            if any_line_contains(lines, k) {
                let i = choose|i: int| 0 <= i < lines.len() && contains_sub(lines[i], k);
                let s = choose|s: int|
                    0 <= s && s + k.len() <= lines[i].len() && #[trigger] lines[i].subrange(
                        s,
                        s + k.len(),
                    ) == k;
                assert(lines[i].subrange(s, s + k.len()) == k);
            }
            if pred(k) {
                let (i, s) = choose|i: int, s: int|
                    0 <= i < lines.len() && 0 <= s && s + k.len() <= lines[i].len()
                        && #[trigger] lines[i].subrange(s, s + k.len()) == k;
                assert(contains_sub(lines[i], k));
            }
        }
    }
    kws.lemma_filter_len(pred);
}

// ---------------------------------------------------------------------------
// Test verdicts
// ---------------------------------------------------------------------------

/// Outcome of a flash-and-test run: the captured boot log and the verdict.
pub struct TestResult {
    pub passed: bool,
    pub lines: Vec<String>,
    pub message: String,
}

/// The message of a run over `n` log lines.
pub open spec fn test_message(passed: bool, n: nat) -> Seq<char> {
    if passed {
        "PASS — "@ + decimal(n) + " log lines, boot strings detected"@
    } else {
        "FAIL — "@ + decimal(n) + " log lines, no boot strings found"@
    }
}

impl TestResult {
    /// The verdict on a captured boot log: passed when a line contains one of
    /// the frontend's boot keywords.
    pub fn from_lines(lines: Vec<String>) -> (r: TestResult)
        requires
            lines@.len() <= u64::MAX,
        ensures
            r.passed == boot_seen(string_views(lines@), app_keywords()),
            r.lines@ == lines@,
            r.message@ == test_message(r.passed, lines@.len()),
    {
        let kws = app_boot_keywords();
        let passed = boot_detected(&lines, &kws);
        let n = lines.len() as u64;
        let mut message = String::new();
        if passed {
            push_str(&mut message, "PASS — ");
            push_decimal(&mut message, n);
            push_str(&mut message, " log lines, boot strings detected");
        } else {
            push_str(&mut message, "FAIL — ");
            push_decimal(&mut message, n);
            push_str(&mut message, " log lines, no boot strings found");
        }
        TestResult { passed, lines, message }
    }
}

/// The outcome of the closed-loop test given the keywords found: success
/// when any was found, else `"Test FAILED: no boot keywords detected"`.
pub fn test_verdict(found: &Vec<String>) -> (r: Result<(), String>)
    ensures
        match r {
            Ok(()) => found@.len() > 0,
            Err(e) => found@.len() == 0 && e@ == "Test FAILED: no boot keywords detected"@,
        },
{
    if found.len() > 0 {
        Ok(())
    } else {
        Err("Test FAILED: no boot keywords detected".to_owned())
    }
}

// ---------------------------------------------------------------------------
// Boot-log capture
// ---------------------------------------------------------------------------

/// What the boot-log capture does after a read.
pub enum CaptureStep {
    /// Bytes arrived: show these non-empty lines; `first_data` marks the
    /// first bytes of the capture.
    Show { first_data: bool, lines: Vec<String> },
    /// Read again.
    ReadAgain,
    /// Stop capturing, with a warning if a read failed.
    Stop(Option<String>),
}

/// The decisions of a boot-log capture: every received byte is kept for the
/// final line list, and complete lines are shown as they arrive.
pub struct BootCapture {
    splitter: LineSplitter,
    log: Vec<u8>,
}

impl BootCapture {
    /// Every byte received so far.
    pub closed spec fn received(&self) -> Seq<u8> {
        self.log@
    }

    /// The bytes received since the last complete line.
    pub closed spec fn pending(&self) -> Seq<u8> {
        self.splitter@
    }

    pub fn new() -> (r: Self)
        ensures
            r.received() == Seq::<u8>::empty(),
            r.pending() == Seq::<u8>::empty(),
    {
        BootCapture { splitter: LineSplitter::new(), log: Vec::new() }
    }

    /// The number of bytes received so far.
    pub fn received_len(&self) -> (r: usize)
        ensures
            r == self.received().len(),
    {
        self.log.len()
    }

    /// Decides what to do with `event`.
    /// - Bytes: they are kept, and the non-empty texts of the lines they
    ///   complete are shown; `first_data` holds for the first bytes.
    /// - An empty read or a timeout reads again.
    /// - A failure stops with `"Serial read error: ..."`; a stop request (the
    ///   capture window is over) stops without a warning.
    pub fn step(&mut self, event: SerialEvent) -> (r: CaptureStep)
        ensures
            match event {
                SerialEvent::Received(chunk) => if chunk@.len() == 0 {
                    r is ReadAgain && final(self).received() == old(self).received()
                        && final(self).pending() == old(self).pending()
                } else {
                    &&& final(self).received() == old(self).received() + chunk@
                    &&& exists|lines: Seq<Seq<u8>>|
                        {
                            &&& #[trigger] split_on(old(self).pending() + chunk@, 10u8) == lines
                                + seq![final(self).pending()]
                            &&& r matches CaptureStep::Show { first_data, lines: shown }
                                && first_data == (old(self).received().len() == 0)
                                && string_views(shown@) == keep_nonempty(texts_of(lines))
                        }
                },
                SerialEvent::TimedOut => r is ReadAgain && final(self).received() == old(
                    self,
                ).received() && final(self).pending() == old(self).pending(),
                SerialEvent::Stop => {
                    &&& (r matches CaptureStep::Stop(w) && w is None)
                    &&& final(self).received() == old(self).received()
                    &&& final(self).pending() == old(self).pending()
                },
                SerialEvent::Failed(e) => {
                    &&& (r matches CaptureStep::Stop(w) && w matches Some(m) && m@
                        == "Serial read error: "@ + e@)
                    &&& final(self).received() == old(self).received()
                    &&& final(self).pending() == old(self).pending()
                },
            },
    {
        match event {
            SerialEvent::Received(chunk) => {
                if chunk.len() == 0 {
                    CaptureStep::ReadAgain
                } else {
                    let first_data = self.log.len() == 0;
                    let ghost before = self.splitter@;
                    let mut i: usize = 0;
                    let ghost old_log = self.log@;
                    while i < chunk.len()
                        invariant
                            i <= chunk@.len(),
                            self.log@ == old_log + chunk@.subrange(0, i as int),
                            self.splitter@ == before,
                        decreases chunk@.len() - i,
                    {
                        self.log.push(chunk[i]);
                        i = i + 1;
                    }
                    assert(chunk@.subrange(0, chunk@.len() as int) == chunk@);
                    let lines = self.splitter.feed(chunk.as_slice());
                    let shown = printable_lines(&lines);
                    assert(split_on(old(self).pending() + chunk@, 10u8) == views(lines@) + seq![
                        self.pending(),
                    ]);
                    assert(self.log@ == old_log + chunk@);
                    assert(first_data == (old_log.len() == 0));
                    assert(string_views(shown@) == keep_nonempty(texts_of(views(lines@))));
                    CaptureStep::Show { first_data, lines: shown }
                }
            },
            SerialEvent::TimedOut => CaptureStep::ReadAgain,
            SerialEvent::Stop => CaptureStep::Stop(None),
            SerialEvent::Failed(e) => {
                let mut m = String::new();
                push_str(&mut m, "Serial read error: ");
                push_str(&mut m, e.as_str());
                CaptureStep::Stop(Some(m))
            },
        }
    }

    /// Ends the capture: the text of the unfinished last line, if it is not
    /// empty, and the non-empty lines of everything received (see `log_lines`).
    pub fn finish(&mut self) -> (r: (Option<String>, Vec<String>))
        ensures
            match r.0 {
                Some(t) => t@ == line_text_of(old(self).pending()) && t@.len() > 0,
                None => old(self).pending().len() == 0 || line_text_of(old(self).pending()).len()
                    == 0,
            },
            string_views(r.1@) == log_lines(utf8_lossy(old(self).received())),
            string_views(r.1@) == log_lines(decoded_text(old(self).received())),
            old(self).pending().len() == 0 ==> r.0 is None,
            old(self).received().len() == 0 ==> r.1@.len() == 0,
            all_ascii(old(self).received()) ==> string_views(r.1@) == log_lines(
                ascii_chars(old(self).received()),
            ),
    {
        let last = match self.splitter.finish() {
            Some(bytes) => {
                let t = line_text(bytes.as_slice());
                if t.as_str().is_empty() {
                    None
                } else {
                    Some(t)
                }
            },
            None => None,
        };
        let lines = boot_log_lines(self.log.as_slice());
        (last, lines)
    }
}

// ---------------------------------------------------------------------------
// Opening the port after flashing
// ---------------------------------------------------------------------------

/// How many times the port is tried before the capture gives up (the serial
/// driver may not have released it yet when the download tool exits).
pub const OPEN_ATTEMPTS: u32 = 20;

/// What to do after a failed attempt to open the port.
pub enum OpenStep {
    /// Wait briefly and try again; `warn` asks to say the port is not ready.
    Retry { warn: bool },
    /// Stop trying, with this error.
    GiveUp(String),
}

/// Retries of opening the capture port.
pub struct OpenRetry {
    failures: u32,
}

impl OpenRetry {
    /// The number of failed attempts so far.
    pub closed spec fn failures(&self) -> nat {
        self.failures as nat
    }

    pub fn new() -> (r: Self)
        ensures
            r.failures() == 0,
    {
        OpenRetry { failures: 0 }
    }

    /// Decides what follows a failure to open `port` with `error`: retry until
    /// `OPEN_ATTEMPTS` attempts have failed (warning after the first), then
    /// give up with `"Cannot open <port>: <error>"`.
    pub fn on_failure(&mut self, port: &str, error: &str) -> (r: OpenStep)
        requires
            old(self).failures() < OPEN_ATTEMPTS,
        ensures
            final(self).failures() == old(self).failures() + 1,
            if final(self).failures() < OPEN_ATTEMPTS {
                r matches OpenStep::Retry { warn } && warn == (old(self).failures() == 0)
            } else {
                r matches OpenStep::GiveUp(m) && m@ == "Cannot open "@ + port@ + ": "@ + error@
            },
    {
        let first = self.failures == 0;
        self.failures = self.failures + 1;
        if self.failures < OPEN_ATTEMPTS {
            OpenStep::Retry { warn: first }
        } else {
            let mut m = String::new();
            push_str(&mut m, "Cannot open ");
            push_str(&mut m, port);
            push_str(&mut m, ": ");
            push_str(&mut m, error);
            OpenStep::GiveUp(m)
        }
    }
}

} // verus!
