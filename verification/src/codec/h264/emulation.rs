//! Emulation prevention: keeping start codes out of the payload of a NAL unit.

use vstd::prelude::*;

verus! {

/// Whether `a, b, c` in a row would be mistaken for a start code, or for an
/// escape, by a reader of the byte stream.
pub open spec fn needs_escape(a: u8, b: u8, c: u8) -> bool {
    a == 0 && b == 0 && c <= 3
}

/// `bytes` with an emulation prevention byte put in front of every byte of at
/// most 3 that follows two zero bytes. The byte behind it counts towards the
/// next two.
pub open spec fn escape(bytes: Seq<u8>) -> Seq<u8>
    decreases bytes.len(),
{
    if bytes.len() == 0 {
        seq![]
    } else if bytes.len() >= 3 && needs_escape(bytes[0], bytes[1], bytes[2]) {
        seq![0u8, 0u8, 3u8] + escape(bytes.skip(2))
    } else {
        seq![bytes[0]] + escape(bytes.skip(1))
    }
}

/// The writer's progress: what it has put out and what it holds back, which
/// is at most two bytes. An escaped byte is put out at once; where it is zero
/// and may still be the first of the next two, that is remembered.
pub struct Progress {
    pub out: Seq<u8>,
    pub held: Seq<u8>,
    pub zero: bool,
}

impl Progress {
    /// Takes in one more byte.
    pub open spec fn push(self, byte: u8) -> Progress {
        if self.held.len() == 2 && needs_escape(self.held[0], self.held[1], byte) {
            Progress {
                out: self.out + seq![0u8, 0u8, 3u8, byte],
                held: seq![],
                zero: byte == 0,
            }
        } else if self.zero && self.held == seq![0u8] && byte <= 3 {
            Progress { out: self.out + seq![0u8, 3u8, byte], held: seq![], zero: byte == 0 }
        } else if self.held.len() == 2 {
            Progress {
                out: self.out.push(self.held[0]),
                held: seq![self.held[1], byte],
                zero: false,
            }
        } else {
            Progress {
                out: self.out,
                held: self.held.push(byte),
                zero: self.zero && self.held.len() == 0,
            }
        }
    }

    /// What is put out, but for a zero that is remembered.
    spec fn settled(self) -> Seq<u8> {
        if self.zero {
            self.out.drop_last()
        } else {
            self.out
        }
    }

    /// The zero that is remembered, and what is held back.
    spec fn open_end(self) -> Seq<u8> {
        if self.zero {
            seq![0u8] + self.held
        } else {
            self.held
        }
    }
}

/// The progress after `bytes`, starting from nothing.
pub open spec fn progress(bytes: Seq<u8>) -> Progress
    decreases bytes.len(),
{
    if bytes.len() == 0 {
        Progress { out: seq![], held: seq![], zero: false }
    } else {
        progress(bytes.drop_last()).push(bytes.last())
    }
}

/// At most two bytes are open, and a zero that is remembered was the last put out.
proof fn lemma_open_end_short(bytes: Seq<u8>)
    ensures
        progress(bytes).open_end().len() <= 2,
        progress(bytes).zero ==> progress(bytes).out.len() > 0 && progress(bytes).out.last() == 0,
    decreases bytes.len(),
{
    if bytes.len() > 0 {
        let before = progress(bytes.drop_last());
        lemma_open_end_short(bytes.drop_last());
        if before.zero && before.held.len() == 1 && before.held[0] == 0 {
            assert(before.held =~= seq![0u8]);
        }
    }
}

/// Up to two bytes are escaped to themselves.
proof fn lemma_escape_short(bytes: Seq<u8>)
    requires
        bytes.len() <= 2,
    ensures
        escape(bytes) == bytes,
{
    reveal_with_fuel(escape, 3);
    if bytes.len() == 1 {
        assert(bytes.skip(1) =~= seq![]);
    } else if bytes.len() == 2 {
        assert(bytes.skip(1).skip(1) =~= seq![]);
        assert(bytes.skip(1)[0] == bytes[1]);
    }
    assert(escape(bytes) =~= bytes);
}

/// A byte that is no zero is escaped to itself, whatever is behind it.
proof fn lemma_escape_behind(byte: u8, rest: Seq<u8>)
    requires
        byte != 0,
    ensures
        escape(seq![byte] + rest) == seq![byte] + escape(rest),
{
    assert((seq![byte] + rest).skip(1) =~= rest);
}

/// One more byte takes the escape of what is open one byte further.
proof fn lemma_push(before: Progress, byte: u8, rest: Seq<u8>)
    requires
        before.open_end().len() <= 2,
        before.zero ==> before.out.len() > 0 && before.out.last() == 0,
    ensures
        ({
            let after = before.push(byte);
            before.settled() + escape(before.open_end() + (seq![byte] + rest)) == after.settled()
                + escape(after.open_end() + rest)
        }),
{
    let after = before.push(byte);
    let open = before.open_end();
    let tail = seq![byte] + rest;
    let window = open + tail;
    if before.zero {
        assert(before.settled().push(0u8) =~= before.out);
        if before.held.len() == 1 && before.held[0] == 0 {
            assert(before.held =~= seq![0u8]);
        }
    }
    if open.len() == 2 {
        assert(window[0] == open[0] && window[1] == open[1] && window[2] == byte);
        if needs_escape(open[0], open[1], byte) {
            assert(window.skip(2) =~= tail);
            assert(after.out =~= before.settled() + seq![0u8, 0u8, 3u8, byte]);
            assert(after.held =~= seq![]);
            if byte == 0 {
                assert(after.settled() =~= before.settled() + seq![0u8, 0u8, 3u8]);
                assert(after.open_end() + rest =~= tail);
            } else {
                lemma_escape_behind(byte, rest);
                assert(after.open_end() + rest =~= rest);
            }
            assert(before.settled() + escape(window) =~= after.settled() + escape(
                after.open_end() + rest,
            ));
        } else {
            assert(!after.zero);
            assert(after.out =~= before.settled().push(open[0]));
            assert(window.skip(1) =~= after.held + rest);
            assert(before.settled() + escape(window) =~= after.settled() + escape(
                after.open_end() + rest,
            ));
        }
    } else {
        assert(after.zero == before.zero);
        assert(window =~= after.open_end() + rest);
    }
}

/// What is settled, followed by the escape of what is open and what is left,
/// is the escape of the whole.
proof fn lemma_progress_prefix(bytes: Seq<u8>, rest: Seq<u8>)
    ensures
        escape(bytes + rest) == progress(bytes).settled() + escape(
            progress(bytes).open_end() + rest,
        ),
    decreases bytes.len(),
{
    if bytes.len() == 0 {
        assert(bytes + rest =~= rest);
        assert(progress(bytes).open_end() + rest =~= rest);
        assert(progress(bytes).settled() + escape(rest) =~= escape(rest));
    } else {
        let tail = seq![bytes.last()] + rest;
        lemma_open_end_short(bytes.drop_last());
        lemma_progress_prefix(bytes.drop_last(), tail);
        lemma_push(progress(bytes.drop_last()), bytes.last(), rest);
        assert(bytes + rest =~= bytes.drop_last() + tail);
    }
}

/// No more than two bytes are held back.
pub(crate) proof fn lemma_held_short(bytes: Seq<u8>)
    ensures
        progress(bytes).held.len() <= 2,
        progress(bytes).zero ==> progress(bytes).out.len() > 0 && progress(bytes).out.last() == 0,
{
    lemma_open_end_short(bytes);
}

/// What was put out and what is held back make up the escaped bytes.
pub(crate) proof fn lemma_progress(bytes: Seq<u8>)
    ensures
        escape(bytes) == progress(bytes).out + progress(bytes).held,
{
    let rest = Seq::<u8>::empty();
    let after = progress(bytes);
    lemma_progress_prefix(bytes, rest);
    lemma_open_end_short(bytes);
    assert(bytes + rest =~= bytes);
    assert(after.open_end() + rest =~= after.open_end());
    lemma_escape_short(after.open_end());
    assert(after.settled() + after.open_end() =~= after.out + after.held);
}

/// A byte writer that escapes what it is given, if that is enabled.
pub struct EmulationPrevention {
    out: Vec<u8>,
    /// The last byte and the one before it, as far as they are held back.
    prev_bytes: [Option<u8>; 2],
    /// The last byte put out is an escaped zero, which counts as the one before.
    escaped_zero: bool,
    /// Emulation prevention enabled.
    ep_enabled: bool,
    flushed: Ghost<Seq<u8>>,
    payload: Ghost<Seq<u8>>,
}

impl EmulationPrevention {
    /// The NAL unit start code and header byte.
    pub open spec fn header(idc: u8, type_: u8) -> Seq<u8> {
        seq![0u8, 0u8, 0u8, 1u8, (32 * (idc % 4) + type_ % 32) as u8]
    }

    /// `bytes` as they stand in the output.
    pub open spec fn protected(bytes: Seq<u8>, ep_enabled: bool) -> Seq<u8> {
        if ep_enabled {
            escape(bytes)
        } else {
            bytes
        }
    }

    /// Whether, of `bytes`, the writer keeps some to itself until a flush.
    pub open spec fn holds_back(bytes: Seq<u8>, ep_enabled: bool) -> bool {
        ep_enabled && progress(bytes).held.len() > 0
    }

    /// The bytes that stand in the output, final, before the payload.
    pub closed spec fn flushed(&self) -> Seq<u8> {
        self.flushed@
    }

    /// The bytes taken in since the last flush.
    pub closed spec fn payload(&self) -> Seq<u8> {
        self.payload@
    }

    /// Whether emulation prevention is on.
    pub closed spec fn ep_enabled(&self) -> bool {
        self.ep_enabled
    }

    /// The bytes held back, the oldest first.
    spec fn held(&self) -> Seq<u8> {
        match (self.prev_bytes[1], self.prev_bytes[0]) {
            (Some(a), Some(b)) => seq![a, b],
            (None, Some(b)) => seq![b],
            (Some(a), None) => seq![a],
            (None, None) => seq![],
        }
    }

    /// The output and the bytes held back are those of the payload's progress.
    pub closed spec fn wf(&self) -> bool {
        &&& self.prev_bytes[1] is Some ==> self.prev_bytes[0] is Some
        &&& if self.ep_enabled {
            &&& self.out@ == self.flushed@ + progress(self.payload@).out
            &&& self.held() == progress(self.payload@).held
            &&& self.escaped_zero == progress(self.payload@).zero
        } else {
            &&& self.out@ == self.flushed@ + self.payload@
            &&& self.held() == Seq::<u8>::empty()
        }
    }

    /// Starts behind what `out` holds.
    pub fn new(out: Vec<u8>, ep_enabled: bool) -> (r: Self)
        ensures
            r.wf(),
            r.flushed() == out@,
            r.payload() == Seq::<u8>::empty(),
            r.ep_enabled() == ep_enabled,
    {
        let r = Self {
            out,
            prev_bytes: [None, None],
            escaped_zero: false,
            ep_enabled,
            flushed: Ghost(out@),
            payload: Ghost(Seq::empty()),
        };
        assert(r.out@ =~= r.flushed@ + Seq::<u8>::empty());
        r
    }

    /// Takes in one byte of payload.
    pub fn write_byte(&mut self, curr_byte: u8)
        requires
            old(self).wf(),
        ensures
            final(self).wf(),
            final(self).flushed() == old(self).flushed(),
            final(self).payload() == old(self).payload().push(curr_byte),
            final(self).ep_enabled() == old(self).ep_enabled(),
    {
        let ghost before = *self;
        let ghost more = self.payload@.push(curr_byte);
        assert(more.drop_last() =~= self.payload@);
        if !self.ep_enabled {
            self.out.push(curr_byte);
            self.payload = Ghost(more);
            assert(self.out@ =~= self.flushed@ + more);
            return;
        }
        let older: Option<u8> = self.prev_bytes[1];
        let newer: Option<u8> = self.prev_bytes[0];
        proof {
            lemma_open_end_short(self.payload@);
        }
        if older == Some(0u8) && newer == Some(0u8) && curr_byte <= 0x03 {
            assert(before.held() == seq![0u8, 0u8]);
            self.out.push(0x00);
            self.out.push(0x00);
            self.out.push(0x03);
            self.out.push(curr_byte);
            self.prev_bytes = [None, None];
            self.escaped_zero = curr_byte == 0x00;
        } else if self.escaped_zero && older.is_none() && newer == Some(0u8) && curr_byte <= 0x03 {
            assert(before.held() == seq![0u8]);
            self.out.push(0x00);
            self.out.push(0x03);
            self.out.push(curr_byte);
            self.prev_bytes = [None, None];
            self.escaped_zero = curr_byte == 0x00;
        } else {
            if let Some(byte) = older {
                self.out.push(byte);
            }
            self.prev_bytes = [Some(curr_byte), newer];
            self.escaped_zero = self.escaped_zero && newer.is_none();
            proof {
                if older is Some {
                    assert(before.held() == seq![older->0, newer->0]);
                }
                if before.held() == seq![0u8] {
                    assert(before.held()[0] == 0 && before.held().len() == 1);
                }
            }
        }
        self.payload = Ghost(more);
        assert(self.out@ =~= self.flushed@ + progress(more).out);
        assert(self.held() =~= progress(more).held);
    }

    /// Takes in several bytes of payload.
    pub fn write(&mut self, buf: &[u8]) -> (r: usize)
        requires
            old(self).wf(),
        ensures
            final(self).wf(),
            final(self).flushed() == old(self).flushed(),
            final(self).payload() == old(self).payload() + buf@,
            final(self).ep_enabled() == old(self).ep_enabled(),
            r == buf@.len(),
    {
        let mut at: usize = 0;
        assert(old(self).payload() =~= old(self).payload() + buf@.take(0));
        while at < buf.len()
            invariant
                at <= buf@.len(),
                self.wf(),
                self.flushed() == old(self).flushed(),
                self.payload() == old(self).payload() + buf@.take(at as int),
                self.ep_enabled() == old(self).ep_enabled(),
            decreases buf@.len() - at,
        {
            self.write_byte(buf[at]);
            at = at + 1;
            assert(self.payload() =~= old(self).payload() + buf@.take(at as int));
        }
        assert(buf@.take(at as int) =~= buf@);
        buf.len()
    }

    /// Writes a H.264 NALU header, which is never escaped. No payload may be waiting.
    pub fn write_header(&mut self, idc: u8, type_: u8)
        requires
            old(self).wf(),
            old(self).payload() == Seq::<u8>::empty(),
        ensures
            final(self).wf(),
            final(self).flushed() == old(self).flushed() + Self::header(idc, type_),
            final(self).payload() == Seq::<u8>::empty(),
            final(self).ep_enabled() == old(self).ep_enabled(),
    {
        let byte: u8 = (idc & 0b11) << 5 | (type_ & 0b11111);
        assert((idc & 0b11) << 5 | (type_ & 0b11111) == 32 * (idc % 4) + type_ % 32) by (bit_vector);
        self.out.push(0x00);
        self.out.push(0x00);
        self.out.push(0x00);
        self.out.push(0x01);
        self.out.push(byte);
        self.flushed = Ghost(self.flushed@ + Self::header(idc, type_));
        assert(self.out@ =~= self.flushed@ + Seq::<u8>::empty());
    }

    /// Returns whether bytes are held back.
    pub fn has_data_pending(&self) -> (r: bool)
        requires
            self.wf(),
        ensures
            r == Self::holds_back(self.payload(), self.ep_enabled()),
    {
        assert((self.held().len() > 0) == (self.prev_bytes[0] is Some || self.prev_bytes[1] is Some));
        self.prev_bytes[0].is_some() || self.prev_bytes[1].is_some()
    }

    /// Puts out the bytes held back; the payload is complete.
    pub fn flush(&mut self)
        requires
            old(self).wf(),
        ensures
            final(self).wf(),
            final(self).flushed() == old(self).flushed() + Self::protected(
                old(self).payload(),
                old(self).ep_enabled(),
            ),
            final(self).payload() == Seq::<u8>::empty(),
            final(self).ep_enabled() == old(self).ep_enabled(),
    {
        proof {
            lemma_progress(self.payload@);
        }
        let older: Option<u8> = self.prev_bytes[1];
        let newer: Option<u8> = self.prev_bytes[0];
        if let Some(byte) = older {
            self.out.push(byte);
        }
        if let Some(byte) = newer {
            self.out.push(byte);
        }
        self.prev_bytes = [None, None];
        self.escaped_zero = false;
        proof {
            assert(self.out@ =~= old(self).out@ + old(self).held());
            assert(self.out@ =~= old(self).flushed() + Self::protected(
                old(self).payload(),
                old(self).ep_enabled(),
            ));
        }
        self.flushed = Ghost(self.out@);
        self.payload = Ghost(Seq::empty());
        assert(self.out@ =~= self.flushed@ + Seq::<u8>::empty());
    }

    /// Gives the output back. Nothing may be waiting.
    pub fn into_inner(self) -> (r: Vec<u8>)
        requires
            self.wf(),
            self.payload() == Seq::<u8>::empty(),
        ensures
            r@ == self.flushed(),
    {
        assert(self.out@ =~= self.flushed@);
        self.out
    }
}

} // verus!
