use vstd::prelude::*;
use crate::events::DeviceEvent;
use crate::track::{
    copy_range, find_char, find_char_at, parse_card_chars, spec_decode, spec_trim, string_of,
    trim_chars,
};

verus! {

/// A read error at or past this many consecutive failures is fatal.
pub const MAX_CONSECUTIVE_ERRORS: u32 = 5;

// ---------------------------------------------------------------------------
// Chunk preparation
// ---------------------------------------------------------------------------

/// The characters of a raw chunk with the null filler bytes removed; the
/// device pads every read to a fixed size with nulls.
pub open spec fn printable_chars(bytes: Seq<u8>) -> Seq<char>
    decreases bytes.len(),
{
    if bytes.len() == 0 {
        Seq::empty()
    } else {
        let rest = printable_chars(bytes.drop_last());
        if bytes.last() == 0 {
            rest
        } else {
            rest.push(bytes.last() as char)
        }
    }
}

/// Drops the two-character line-noise prefix some firmware emits right before
/// the frame-start sentinel.
pub open spec fn strip_noise(part: Seq<char>) -> Seq<char> {
    let p = find_char_at(part, '%', 0);
    if p < part.len() && p >= 2 && part[p - 2] == 'N' && part[p - 1] == '\'' {
        part.subrange(p, part.len() as int)
    } else {
        part
    }
}

/// What one raw chunk contributes once cleaned up.
pub open spec fn chunk_part(bytes: Seq<u8>) -> Seq<char> {
    strip_noise(printable_chars(bytes))
}

/// The accumulation buffer after folding in a cleaned-up chunk, before any
/// frame-close check: a chunk holding a start sentinel always restarts the
/// buffer from that sentinel, a chunk without one extends a busy buffer and
/// is discarded by an idle one.
pub open spec fn buffer_after_accumulate(buf: Seq<char>, part: Seq<char>) -> Seq<char> {
    let p = find_char_at(part, '%', 0);
    if p < part.len() {
        part.subrange(p, part.len() as int)
    } else if buf.len() == 0 {
        buf
    } else {
        buf + part
    }
}

fn part_of_chunk(chunk: &[u8]) -> (part: Vec<char>)
    ensures
        part@ == chunk_part(chunk@),
{
    let n = chunk.len();
    let mut raw: Vec<char> = Vec::new();
    let mut i: usize = 0;
    while i < n
        invariant
            n == chunk@.len(),
            i <= n,
            raw@ == printable_chars(chunk@.subrange(0, i as int)),
        decreases n - i,
    {
        let b = chunk[i];
        if b != 0 {
            raw.push(b as char);
        }
        i += 1;
        proof {
            assert(chunk@.subrange(0, i as int).drop_last() =~= chunk@.subrange(0, i - 1));
            assert(chunk@.subrange(0, i as int).last() == chunk@[i - 1]);
        }
    }
    proof {
        assert(chunk@.subrange(0, n as int) =~= chunk@);
    }
    let p = find_char(&raw, '%', 0);
    if p < raw.len() && p >= 2 {
        let c1 = raw[p - 2];
        let c2 = raw[p - 1];
        if c1 == 'N' && c2 == '\'' {
            return copy_range(&raw, p, raw.len());
        }
    }
    raw
}

fn append_chars(dst: &mut Vec<char>, src: &Vec<char>)
    ensures
        final(dst)@ == old(dst)@ + src@,
{
    let mut i: usize = 0;
    while i < src.len()
        invariant
            i <= src@.len(),
            dst@ == old(dst)@ + src@.subrange(0, i as int),
        decreases src@.len() - i,
    {
        dst.push(src[i]);
        i += 1;
        proof {
            assert(old(dst)@ + src@.subrange(0, i - 1) + seq![src@[i - 1]] =~= old(dst)@
                + src@.subrange(0, i as int));
        }
    }
    proof {
        assert(old(dst)@ + src@.subrange(0, src@.len() as int) =~= old(dst)@ + src@);
    }
}

// ---------------------------------------------------------------------------
// The assembler
// ---------------------------------------------------------------------------

/// One error-handling step: the error count grows, and reaching the budget
/// stops the worker; a stopped worker ignores everything. The pair is
/// (error count, stopped); the boolean result says whether this step emits
/// the fatal event.
pub open spec fn spec_read_error(s: (u32, bool)) -> ((u32, bool), bool) {
    if s.1 {
        (s, false)
    } else if s.0 + 1 >= MAX_CONSECUTIVE_ERRORS {
        (((s.0 + 1) as u32, true), true)
    } else {
        (((s.0 + 1) as u32, false), false)
    }
}

/// The state after `n` consecutive read errors, and how many fatal events
/// they emit in all.
pub open spec fn spec_read_errors(s: (u32, bool), n: nat) -> ((u32, bool), nat)
    decreases n,
{
    if n == 0 {
        (s, 0)
    } else {
        let (s1, fatal) = spec_read_error(s);
        let (s2, c) = spec_read_errors(s1, (n - 1) as nat);
        (s2, c + if fatal { 1nat } else { 0nat })
    }
}

/// The per-device worker state for the card reader: the accumulation buffer
/// for the swipe in progress, the consecutive-error count, and whether the
/// worker has stopped for good.
pub struct MagtekAssembler {
    pub scan_buffer: Vec<char>,
    pub consecutive_errors: u32,
    pub stopped: bool,
}

impl MagtekAssembler {
    /// The states the assembler keeps itself in: the error count never
    /// reaches the budget while the worker still runs.
    pub open spec fn wf(&self) -> bool {
        !self.stopped ==> self.consecutive_errors < MAX_CONSECUTIVE_ERRORS
    }

    pub fn new() -> (a: MagtekAssembler)
        ensures
            a.scan_buffer@ == Seq::<char>::empty(),
            a.consecutive_errors == 0,
            !a.stopped,
            a.wf(),
    {
        MagtekAssembler { scan_buffer: Vec::new(), consecutive_errors: 0, stopped: false }
    }

    /// Folds one successfully read chunk into the buffer and closes the frame
    /// when the end sentinel has arrived: the closed frame is trimmed and
    /// decoded, yielding a parsed card or the raw unparsed text, and a
    /// successful read always resets the error count.
    pub fn handle_chunk(&mut self, chunk: &[u8]) -> (r: Option<DeviceEvent>)
        ensures
            final(self).consecutive_errors == 0,
            final(self).stopped == old(self).stopped,
            final(self).wf(),
            ({
                let acc = buffer_after_accumulate(old(self).scan_buffer@, chunk_part(chunk@));
                let q = find_char_at(acc, '?', 0);
                if q < acc.len() {
                    let cleaned = spec_trim(acc.subrange(0, q + 1));
                    &&& final(self).scan_buffer@ == Seq::<char>::empty()
                    &&& match r {
                        Some(DeviceEvent::CardParsed(card)) => spec_decode(cleaned) == Some(
                            (card.onecard@, card.name@),
                        ),
                        Some(DeviceEvent::UnparsedFrame(raw)) => raw@ == cleaned && spec_decode(
                            cleaned,
                        ) is None,
                        _ => false,
                    }
                } else {
                    &&& final(self).scan_buffer@ == acc
                    &&& r is None
                }
            }),
    {
        self.consecutive_errors = 0;
        let part = part_of_chunk(chunk);
        let p = find_char(&part, '%', 0);
        if p < part.len() {
            self.scan_buffer = copy_range(&part, p, part.len());
        } else if self.scan_buffer.len() == 0 {
            // an idle buffer discards leader noise that holds no start sentinel
        } else {
            append_chars(&mut self.scan_buffer, &part);
        }
        let q = find_char(&self.scan_buffer, '?', 0);
        if q < self.scan_buffer.len() {
            let frame = copy_range(&self.scan_buffer, 0, q + 1);
            let cleaned = trim_chars(&frame);
            self.scan_buffer = Vec::new();
            match parse_card_chars(&cleaned) {
                Some(card) => Some(DeviceEvent::CardParsed(card)),
                None => Some(DeviceEvent::UnparsedFrame(string_of(&cleaned))),
            }
        } else {
            None
        }
    }

    /// Counts one failed read: below the budget the worker may retry, at the
    /// budget it emits the one fatal event and stops, and once stopped it
    /// ignores further errors entirely.
    pub fn handle_read_error(&mut self, message: String) -> (r: Option<DeviceEvent>)
        requires
            old(self).wf(),
        ensures
            final(self).wf(),
            final(self).scan_buffer == old(self).scan_buffer,
            ({
                let (s2, fatal) = spec_read_error(
                    (old(self).consecutive_errors, old(self).stopped),
                );
                &&& final(self).consecutive_errors == s2.0
                &&& final(self).stopped == s2.1
                &&& if fatal {
                    r matches Some(DeviceEvent::DeviceFatalError(m)) && m == message
                } else {
                    r is None
                }
            }),
    {
        if self.stopped {
            return None;
        }
        self.consecutive_errors = self.consecutive_errors + 1;
        if self.consecutive_errors >= MAX_CONSECUTIVE_ERRORS {
            self.stopped = true;
            Some(DeviceEvent::DeviceFatalError(message))
        } else {
            None
        }
    }
}

// ---------------------------------------------------------------------------
// Laws
// ---------------------------------------------------------------------------

/// Law: a worker that has not yet failed emits exactly one fatal event over
/// any run of consecutive read errors long enough to exhaust the budget, and
/// stands stopped afterwards; a shorter run emits none and leaves it running.
pub proof fn lemma_fatal_error_once(e: u32, n: nat)
    requires
        e < MAX_CONSECUTIVE_ERRORS,
    ensures
        ({
            let (s, c) = spec_read_errors((e, false), n);
            &&& e + n >= MAX_CONSECUTIVE_ERRORS ==> c == 1 && s.1
            &&& e + n < MAX_CONSECUTIVE_ERRORS ==> c == 0 && !s.1 && s.0 == e + n
        }),
    decreases n,
{
    if n > 0 {
        let (s1, fatal) = spec_read_error((e, false));
        if !s1.1 {
            lemma_fatal_error_once(s1.0, (n - 1) as nat);
        } else {
            lemma_stopped_stays_silent(s1, (n - 1) as nat);
        }
    }
}

/// Law: a stopped worker never emits another event and never changes state,
/// however many further errors arrive.
pub proof fn lemma_stopped_stays_silent(s: (u32, bool), n: nat)
    requires
        s.1,
    ensures
        spec_read_errors(s, n) == (s, 0nat),
    decreases n,
{
    if n > 0 {
        lemma_stopped_stays_silent(s, (n - 1) as nat);
    }
}

} // verus!
