use vstd::prelude::*;
use crate::events::DeviceEvent;
use crate::track::string_of;

verus! {

/// A gap longer than this between chunks separates two scans.
pub const SILENCE_THRESHOLD_MS: u64 = 150;

/// The short badge-code format.
pub const SHORT_CODE_LEN: usize = 7;

/// The long badge-code format.
pub const LONG_CODE_LEN: usize = 9;

/// The ASCII digits `0` through `9`.
pub open spec fn is_digit_byte(b: u8) -> bool {
    0x30 <= b && b <= 0x39
}

/// A line terminator a keyboard-wedge scanner sends after a code.
pub open spec fn is_terminator_byte(b: u8) -> bool {
    b == 0x0A || b == 0x0D
}

/// The digits-only projection of the buffer, as the characters that are
/// emitted.
pub open spec fn digits_of(s: Seq<u8>) -> Seq<char>
    decreases s.len(),
{
    if s.len() == 0 {
        Seq::empty()
    } else {
        let rest = digits_of(s.drop_last());
        if is_digit_byte(s.last()) {
            rest.push(s.last() as char)
        } else {
            rest
        }
    }
}

/// Whether any byte of the buffer is a line terminator.
pub open spec fn has_terminator(s: Seq<u8>) -> bool {
    exists|i: int| 0 <= i < s.len() && is_terminator_byte(s[i])
}

fn digit_chars(v: &Vec<u8>) -> (r: Vec<char>)
    ensures
        r@ == digits_of(v@),
{
    let n = v.len();
    let mut r: Vec<char> = Vec::new();
    let mut i: usize = 0;
    while i < n
        invariant
            n == v@.len(),
            i <= n,
            r@ == digits_of(v@.subrange(0, i as int)),
        decreases n - i,
    {
        let b = v[i];
        if 0x30 <= b && b <= 0x39 {
            r.push(b as char);
        }
        i += 1;
        proof {
            assert(v@.subrange(0, i as int).drop_last() =~= v@.subrange(0, i - 1));
            assert(v@.subrange(0, i as int).last() == v@[i - 1]);
        }
    }
    proof {
        assert(v@.subrange(0, n as int) =~= v@);
    }
    r
}

fn find_terminator(v: &Vec<u8>) -> (r: bool)
    ensures
        r == has_terminator(v@),
{
    let n = v.len();
    let mut i: usize = 0;
    while i < n
        invariant
            n == v@.len(),
            i <= n,
            forall|j: int| 0 <= j < i ==> !is_terminator_byte(v@[j]),
        decreases n - i,
    {
        let b = v[i];
        if b == 0x0A || b == 0x0D {
            return true;
        }
        i += 1;
    }
    false
}

fn append_bytes(dst: &mut Vec<u8>, src: &[u8])
    ensures
        final(dst)@ == old(dst)@ + src@,
{
    let n = src.len();
    let mut i: usize = 0;
    while i < n
        invariant
            n == src@.len(),
            i <= n,
            dst@ == old(dst)@ + src@.subrange(0, i as int),
        decreases n - i,
    {
        dst.push(src[i]);
        i += 1;
        proof {
            assert(old(dst)@ + src@.subrange(0, i - 1) + seq![src@[i - 1]] =~= old(dst)@
                + src@.subrange(0, i as int));
        }
    }
    proof {
        assert(old(dst)@ + src@.subrange(0, n as int) =~= old(dst)@ + src@);
    }
}

/// The per-device worker state for the barcode scanner: the bytes of the scan
/// in progress, the instant the last chunk arrived, and whether the worker
/// has stopped for good.
pub struct BarcodeAssembler {
    pub scan_buffer: Vec<u8>,
    pub last_char_ms: u64,
    pub stopped: bool,
}

impl BarcodeAssembler {
    pub fn new(now_ms: u64) -> (a: BarcodeAssembler)
        ensures
            a.scan_buffer@ == Seq::<u8>::empty(),
            a.last_char_ms == now_ms,
            !a.stopped,
    {
        BarcodeAssembler { scan_buffer: Vec::new(), last_char_ms: now_ms, stopped: false }
    }

    /// Folds one chunk into the buffer: a gap over the silence threshold
    /// first discards the stale scan, then the chunk is appended, and the
    /// digits are emitted the instant they reach an accepted length — no
    /// terminator needed — while a line terminator flushes whatever digits
    /// are present regardless of length.
    pub fn handle_chunk(&mut self, chunk: &[u8], now_ms: u64) -> (r: Option<DeviceEvent>)
        requires
            old(self).last_char_ms <= now_ms,
        ensures
            final(self).stopped == old(self).stopped,
            final(self).last_char_ms == now_ms,
            ({
                let base = if now_ms - old(self).last_char_ms > SILENCE_THRESHOLD_MS {
                    Seq::<u8>::empty()
                } else {
                    old(self).scan_buffer@
                };
                let acc = base + chunk@;
                let digits = digits_of(acc);
                if digits.len() == SHORT_CODE_LEN || digits.len() == LONG_CODE_LEN || (
                has_terminator(acc) && digits.len() > 0) {
                    &&& final(self).scan_buffer@ == Seq::<u8>::empty()
                    &&& r matches Some(DeviceEvent::BarcodeParsed(d)) && d@ == digits
                } else if has_terminator(acc) {
                    &&& final(self).scan_buffer@ == Seq::<u8>::empty()
                    &&& r is None
                } else {
                    &&& final(self).scan_buffer@ == acc
                    &&& r is None
                }
            }),
    {
        if now_ms - self.last_char_ms > SILENCE_THRESHOLD_MS {
            self.scan_buffer = Vec::new();
        }
        append_bytes(&mut self.scan_buffer, chunk);
        self.last_char_ms = now_ms;
        let digits = digit_chars(&self.scan_buffer);
        if digits.len() == SHORT_CODE_LEN || digits.len() == LONG_CODE_LEN {
            self.scan_buffer = Vec::new();
            Some(DeviceEvent::BarcodeParsed(string_of(&digits)))
        } else if find_terminator(&self.scan_buffer) {
            self.scan_buffer = Vec::new();
            if digits.len() > 0 {
                Some(DeviceEvent::BarcodeParsed(string_of(&digits)))
            } else {
                None
            }
        } else {
            None
        }
    }

    /// A single read error is fatal for the scanner: the worker emits the one
    /// fatal event and stops; once stopped it stays silent.
    pub fn handle_read_error(&mut self, message: String) -> (r: Option<DeviceEvent>)
        ensures
            final(self).scan_buffer == old(self).scan_buffer,
            final(self).last_char_ms == old(self).last_char_ms,
            final(self).stopped,
            if old(self).stopped {
                r is None
            } else {
                r matches Some(DeviceEvent::DeviceFatalError(m)) && m == message
            },
    {
        if self.stopped {
            return None;
        }
        self.stopped = true;
        Some(DeviceEvent::DeviceFatalError(message))
    }
}

} // verus!
