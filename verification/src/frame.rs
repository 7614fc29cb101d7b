use vstd::prelude::*;

verus! {

/// Why framing or deframing an encrypted frame failed.
#[derive(Clone, Copy, Debug, PartialEq, Eq, Structural)]
pub enum FrameError {
    /// The buffer is too small for what was asked of it.
    BufferTooSmall,
    /// The frame counter no longer fits in its four wire bytes.
    FrameCounterTooBig,
}

/// Trailer appended to every encrypted frame:
/// 1 byte ratchet counter, 4 bytes frame counter, 16 bytes MAC.
pub const FRAME_ENCRYPTION_FOOTER_LEN: usize = 21;

/// Length of the MAC at the end of the footer.
pub const FRAME_MAC_LEN: usize = 16;

pub open spec fn spec_unencrypted_media_header_len(is_audio: bool) -> int {
    if is_audio {
        1
    } else {
        10
    }
}

/// The portion of a media frame left in the clear so the SFU can forward it:
/// the Opus TOC byte for audio, the VP8-style headers for video.
pub fn unencrypted_media_header_len(is_audio: bool) -> (r: usize)
    ensures
        r == spec_unencrypted_media_header_len(is_audio),
{
    if is_audio {
        1
    } else {
        10
    }
}

/// How large a ciphertext a plaintext of the given size produces:
/// the plaintext plus the footer, saturating so an absurd size only makes
/// the later framing fail instead of wrapping.
pub fn get_ciphertext_buffer_size(plaintext_size: usize) -> (r: usize)
    ensures
        plaintext_size + FRAME_ENCRYPTION_FOOTER_LEN <= usize::MAX ==> r == plaintext_size
            + FRAME_ENCRYPTION_FOOTER_LEN,
        plaintext_size + FRAME_ENCRYPTION_FOOTER_LEN > usize::MAX ==> r == usize::MAX,
{
    plaintext_size.saturating_add(FRAME_ENCRYPTION_FOOTER_LEN)
}

/// How large a plaintext a ciphertext of the given size can hold: the
/// ciphertext minus the footer, and zero when the ciphertext cannot even
/// hold a footer (deframing such a frame fails).
pub fn get_plaintext_buffer_size(ciphertext_size: usize) -> (r: usize)
    ensures
        ciphertext_size >= FRAME_ENCRYPTION_FOOTER_LEN ==> r == ciphertext_size
            - FRAME_ENCRYPTION_FOOTER_LEN,
        ciphertext_size < FRAME_ENCRYPTION_FOOTER_LEN ==> r == 0,
{
    ciphertext_size.saturating_sub(FRAME_ENCRYPTION_FOOTER_LEN)
}

/// `s` with `input` written over the bytes starting at `at`.
pub open spec fn seq_overwritten(s: Seq<u8>, at: int, input: Seq<u8>) -> Seq<u8> {
    Seq::new(
        s.len(),
        |i: int|
            if at <= i < at + input.len() {
                input[i - at]
            } else {
                s[i]
            },
    )
}

/// The four big-endian bytes of a 32-bit counter.
pub open spec fn u32_be_bytes(x: u32) -> Seq<u8> {
    seq![
        (x / 0x1000000) as u8,
        ((x / 0x10000) % 0x100) as u8,
        ((x / 0x100) % 0x100) as u8,
        (x % 0x100) as u8,
    ]
}

/// The value of four big-endian bytes.
pub open spec fn be4_value(b: Seq<u8>) -> int {
    b[0] * 0x1000000 + b[1] * 0x10000 + b[2] * 0x100 + b[3]
}

/// Reading back the four bytes a counter was written as gives the counter.
pub proof fn lemma_be4_round_trip(x: u32)
    ensures
        be4_value(u32_be_bytes(x)) == x,
{
    let b = u32_be_bytes(x);
    assert(b[0] == (x / 0x1000000) as u8);
    assert((x / 0x1000000) * 0x1000000 + ((x / 0x10000) % 0x100) * 0x10000 + ((x / 0x100) % 0x100)
        * 0x100 + (x % 0x100) == x) by (nonlinear_arith);
}

/// Deframing recovers framing: a frame assembled from header, payload and
/// footer parses back to exactly those parts, whatever they hold.
pub proof fn lemma_frame_round_trip(
    unencrypted_header: Seq<u8>,
    encrypted_payload: Seq<u8>,
    ratchet_counter: u8,
    frame_counter: u32,
    mac: Seq<u8>,
    c: Seq<u8>,
    parts: FrameParts,
)
    requires
        mac.len() == 16,
        c == unencrypted_header + encrypted_payload + seq![ratchet_counter] + u32_be_bytes(
            frame_counter,
        ) + mac,
        parts.matches(unencrypted_header.len() as int, c),
    ensures
        parts.unencrypted_header@ == unencrypted_header,
        parts.encrypted_payload@ == encrypted_payload,
        parts.ratchet_counter == ratchet_counter,
        parts.frame_counter == frame_counter,
        parts.mac@ == mac,
{
    let hl = unencrypted_header.len() as int;
    let n = c.len() as int;
    assert(n == hl + encrypted_payload.len() + 21);
    assert(c.take(hl) =~= unencrypted_header);
    assert(c.subrange(hl, n - 21) =~= encrypted_payload);
    assert(c[n - 21] == ratchet_counter);
    assert(c.subrange(n - 20, n - 16) =~= u32_be_bytes(frame_counter));
    lemma_be4_round_trip(frame_counter);
    assert(c.skip(n - 16) =~= mac);
}

/// A cursor that fills a fixed-size buffer from the front.
pub struct Writer {
    pub buf: Vec<u8>,
    pub offset: usize,
}

impl Writer {
    pub open spec fn wf(self) -> bool {
        self.offset <= self.buf@.len()
    }

    pub open spec fn spec_remaining(self) -> int {
        self.buf@.len() - self.offset
    }

    pub fn new(buf: Vec<u8>) -> (r: Self)
        ensures
            r.buf == buf,
            r.offset == 0,
            r.wf(),
    {
        Writer { buf, offset: 0 }
    }

    /// The filled buffer, once writing is done.
    pub fn into_inner(self) -> (r: Vec<u8>)
        ensures
            r == self.buf,
    {
        self.buf
    }

    pub fn remaining_len(&self) -> (r: usize)
        requires
            self.wf(),
        ensures
            r == self.spec_remaining(),
    {
        self.buf.len() - self.offset
    }

    pub fn write_u8(&mut self, input: u8) -> (r: Result<(), FrameError>)
        requires
            old(self).wf(),
        ensures
            final(self).wf(),
            match r {
                Ok(()) => {
                    &&& old(self).spec_remaining() >= 1
                    &&& final(self).offset == old(self).offset + 1
                    &&& final(self).buf@ == old(self).buf@.update(old(self).offset as int, input)
                },
                Err(e) => {
                    &&& e == FrameError::BufferTooSmall
                    &&& old(self).spec_remaining() < 1
                    &&& *final(self) == *old(self)
                },
            },
    {
        if self.buf.len() - self.offset < 1 {
            return Err(FrameError::BufferTooSmall);
        }
        let at = self.offset;
        self.buf[at] = input;
        self.offset = at + 1;
        Ok(())
    }

    pub fn write_slice(&mut self, input: &[u8]) -> (r: Result<(), FrameError>)
        requires
            old(self).wf(),
        ensures
            final(self).wf(),
            match r {
                Ok(()) => {
                    &&& old(self).spec_remaining() >= input@.len()
                    &&& final(self).offset == old(self).offset + input@.len()
                    &&& final(self).buf@ == seq_overwritten(
                        old(self).buf@,
                        old(self).offset as int,
                        input@,
                    )
                },
                Err(e) => {
                    &&& e == FrameError::BufferTooSmall
                    &&& old(self).spec_remaining() < input@.len()
                    &&& *final(self) == *old(self)
                },
            },
    {
        let len = input.len();
        if self.buf.len() - self.offset < len {
            return Err(FrameError::BufferTooSmall);
        }
        let at = self.offset;
        let end: usize = at + len;
        let mut j: usize = 0;
        while j < len
            invariant
                len == input@.len(),
                end == at + len,
                at + len <= self.buf@.len(),
                j <= len,
                self.offset == at,
                self.buf@.len() == old(self).buf@.len(),
                at == old(self).offset,
                forall|k: int| 0 <= k < j ==> self.buf@[at + k] == input@[k],
                forall|i: int|
                    0 <= i < self.buf@.len() && !(at <= i < at + j) ==> self.buf@[i] == old(
                        self,
                    ).buf@[i],
            decreases len - j,
        {
            let pos = at + j;
            self.buf[pos] = input[j];
            j = j + 1;
        }
        self.offset = at + len;
        proof {
            assert(self.buf@ =~= seq_overwritten(old(self).buf@, at as int, input@));
        }
        Ok(())
    }

    pub fn write_u32(&mut self, input: u32) -> (r: Result<(), FrameError>)
        requires
            old(self).wf(),
        ensures
            final(self).wf(),
            match r {
                Ok(()) => {
                    &&& old(self).spec_remaining() >= 4
                    &&& final(self).offset == old(self).offset + 4
                    &&& final(self).buf@ == seq_overwritten(
                        old(self).buf@,
                        old(self).offset as int,
                        u32_be_bytes(input),
                    )
                },
                Err(e) => {
                    &&& e == FrameError::BufferTooSmall
                    &&& old(self).spec_remaining() < 4
                    &&& *final(self) == *old(self)
                },
            },
    {
        let bytes: Vec<u8> = vec![
            (input / 0x1000000) as u8,
            ((input / 0x10000) % 0x100) as u8,
            ((input / 0x100) % 0x100) as u8,
            (input % 0x100) as u8,
        ];
        proof {
            assert(bytes@ =~= u32_be_bytes(input));
        }
        self.write_slice(bytes.as_slice())
    }
}

/// A cursor that consumes a borrowed byte string from either end.
pub struct Reader<'a> {
    pub data: &'a [u8],
}

impl<'a> Reader<'a> {
    pub fn new(data: &'a [u8]) -> (r: Self)
        ensures
            r.data@ == data@,
    {
        Reader { data }
    }

    /// What has not been consumed yet.
    pub fn remaining(&self) -> (r: &'a [u8])
        ensures
            r@ == self.data@,
    {
        self.data
    }

    pub fn read_slice(&mut self, len: usize) -> (r: Result<&'a [u8], FrameError>)
        ensures
            match r {
                Ok(read) => {
                    &&& len <= old(self).data@.len()
                    &&& read@ == old(self).data@.take(len as int)
                    &&& final(self).data@ == old(self).data@.skip(len as int)
                },
                Err(e) => {
                    &&& e == FrameError::BufferTooSmall
                    &&& len > old(self).data@.len()
                    &&& *final(self) == *old(self)
                },
            },
    {
        if len > self.data.len() {
            return Err(FrameError::BufferTooSmall);
        }
        let (read, rest) = self.data.split_at(len);
        self.data = rest;
        Ok(read)
    }

    pub fn read_slice_from_end(&mut self, len: usize) -> (r: Result<&'a [u8], FrameError>)
        ensures
            match r {
                Ok(read) => {
                    &&& len <= old(self).data@.len()
                    &&& read@ == old(self).data@.skip(old(self).data@.len() - len)
                    &&& final(self).data@ == old(self).data@.take(old(self).data@.len() - len)
                },
                Err(e) => {
                    &&& e == FrameError::BufferTooSmall
                    &&& len > old(self).data@.len()
                    &&& *final(self) == *old(self)
                },
            },
    {
        if len > self.data.len() {
            return Err(FrameError::BufferTooSmall);
        }
        let (rest, read) = self.data.split_at(self.data.len() - len);
        self.data = rest;
        Ok(read)
    }

    pub fn read_u8_from_end(&mut self) -> (r: Result<u8, FrameError>)
        ensures
            match r {
                Ok(b) => {
                    &&& old(self).data@.len() >= 1
                    &&& b == old(self).data@.last()
                    &&& final(self).data@ == old(self).data@.drop_last()
                },
                Err(e) => {
                    &&& e == FrameError::BufferTooSmall
                    &&& old(self).data@.len() == 0
                    &&& *final(self) == *old(self)
                },
            },
    {
        let read = self.read_slice_from_end(1)?;
        proof {
            assert(old(self).data@.take(old(self).data@.len() - 1) =~= old(self).data@.drop_last());
        }
        Ok(read[0])
    }

    pub fn read_u32_from_end(&mut self) -> (r: Result<u32, FrameError>)
        ensures
            match r {
                Ok(v) => {
                    &&& old(self).data@.len() >= 4
                    &&& v == be4_value(old(self).data@.skip(old(self).data@.len() - 4))
                    &&& final(self).data@ == old(self).data@.take(old(self).data@.len() - 4)
                },
                Err(e) => {
                    &&& e == FrameError::BufferTooSmall
                    &&& old(self).data@.len() < 4
                    &&& *final(self) == *old(self)
                },
            },
    {
        let read = self.read_slice_from_end(4)?;
        let v: u32 = (read[0] as u32) * 0x1000000 + (read[1] as u32) * 0x10000 + (read[2] as u32)
            * 0x100 + (read[3] as u32);
        Ok(v)
    }
}

/// The pieces of one encrypted frame, as they sit on the wire:
/// unencrypted header, ciphertext, then the footer fields.
#[derive(Clone, Debug, PartialEq, Eq)]
pub struct FrameParts {
    pub unencrypted_header: Vec<u8>,
    pub encrypted_payload: Vec<u8>,
    pub ratchet_counter: u8,
    pub frame_counter: u32,
    pub mac: Vec<u8>,
}

impl FrameParts {
    /// How the parts relate to the frame bytes they were read from.
    pub open spec fn matches(self, unencrypted_header_len: int, c: Seq<u8>) -> bool {
        let n = c.len() as int;
        &&& self.unencrypted_header@ == c.take(unencrypted_header_len)
        &&& self.encrypted_payload@ == c.subrange(unencrypted_header_len, n - 21)
        &&& self.ratchet_counter == c[n - 21]
        &&& self.frame_counter == be4_value(c.subrange(n - 20, n - 16))
        &&& self.mac@ == c.skip(n - 16)
    }
}

/// Split an encrypted frame into its parts. Fails exactly when the frame
/// cannot hold the unencrypted header and the footer, so any frame shorter
/// than the footer alone always fails.
pub fn parse_encrypted_frame(unencrypted_header_len: usize, ciphertext: &[u8]) -> (r: Result<
    FrameParts,
    FrameError,
>)
    ensures
        match r {
            Ok(parts) => {
                &&& ciphertext@.len() >= unencrypted_header_len + FRAME_ENCRYPTION_FOOTER_LEN
                &&& parts.matches(unencrypted_header_len as int, ciphertext@)
            },
            Err(e) => {
                &&& e == FrameError::BufferTooSmall
                &&& ciphertext@.len() < unencrypted_header_len + FRAME_ENCRYPTION_FOOTER_LEN
            },
        },
{
    let n = ciphertext.len();
    if n < FRAME_ENCRYPTION_FOOTER_LEN || n - FRAME_ENCRYPTION_FOOTER_LEN < unencrypted_header_len {
        return Err(FrameError::BufferTooSmall);
    }
    let mut reader = Reader::new(ciphertext);
    let unencrypted_header = reader.read_slice(unencrypted_header_len).unwrap();
    let mac = reader.read_slice_from_end(FRAME_MAC_LEN).unwrap();
    let frame_counter = reader.read_u32_from_end().unwrap();
    let ratchet_counter = reader.read_u8_from_end().unwrap();
    let encrypted_payload = reader.remaining();
    let parts = FrameParts {
        unencrypted_header: slice_to_vec(unencrypted_header),
        encrypted_payload: slice_to_vec(encrypted_payload),
        ratchet_counter,
        frame_counter,
        mac: slice_to_vec(mac),
    };
    proof {
        let hl = unencrypted_header_len as int;
        let cn = ciphertext@.len() as int;
        let d1 = ciphertext@.skip(hl);
        assert(d1.skip(d1.len() - 16) =~= ciphertext@.skip(cn - 16));
        assert(parts.mac@ == ciphertext@.skip(cn - 16));
        let d2 = d1.take(d1.len() - 16);
        assert(d2.skip(d2.len() - 4) =~= ciphertext@.subrange(cn - 20, cn - 16));
        assert(parts.frame_counter == be4_value(ciphertext@.subrange(cn - 20, cn - 16)));
        let d3 = d2.take(d2.len() - 4);
        assert(d3 =~= ciphertext@.subrange(hl, cn - 20));
        assert(d3.last() == ciphertext@[cn - 21]);
        assert(parts.ratchet_counter == ciphertext@[cn - 21]);
        assert(d3.drop_last() =~= ciphertext@.subrange(hl, cn - 21));
        assert(parts.encrypted_payload@ == ciphertext@.subrange(hl, cn - 21));
    }
    Ok(parts)
}

/// Copy a borrowed byte string.
fn slice_to_vec(s: &[u8]) -> (r: Vec<u8>)
    ensures
        r@ == s@,
{
    let mut r: Vec<u8> = Vec::new();
    let mut i: usize = 0;
    while i < s.len()
        invariant
            i <= s@.len(),
            r@ == s@.take(i as int),
        decreases s@.len() - i,
    {
        r.push(s[i]);
        proof {
            assert(s@.take(i + 1int) =~= s@.take(i as int).push(s@[i as int]));
        }
        i = i + 1;
    }
    proof {
        assert(s@.take(s@.len() as int) =~= s@);
    }
    r
}

/// Lay out one encrypted frame: unencrypted header, encrypted payload, then
/// the footer. Fails exactly when the frame counter no longer fits its four
/// wire bytes.
pub fn assemble_encrypted_frame(
    unencrypted_header: &[u8],
    encrypted_payload: &[u8],
    ratchet_counter: u8,
    frame_counter: u64,
    mac: &[u8; 16],
) -> (r: Result<Vec<u8>, FrameError>)
    requires
        unencrypted_header@.len() + encrypted_payload@.len() + FRAME_ENCRYPTION_FOOTER_LEN
            <= usize::MAX,
    ensures
        match r {
            Ok(c) => {
                &&& frame_counter <= u32::MAX
                &&& c@ == unencrypted_header@ + encrypted_payload@ + seq![ratchet_counter]
                    + u32_be_bytes(frame_counter as u32) + mac@
                &&& c@.len() == unencrypted_header@.len() + encrypted_payload@.len()
                    + FRAME_ENCRYPTION_FOOTER_LEN
            },
            Err(e) => {
                &&& e == FrameError::FrameCounterTooBig
                &&& frame_counter > u32::MAX
            },
        },
{
    if frame_counter > u32::MAX as u64 {
        return Err(FrameError::FrameCounterTooBig);
    }
    let total = unencrypted_header.len() + encrypted_payload.len() + FRAME_ENCRYPTION_FOOTER_LEN;
    let buf: Vec<u8> = vec![0u8; total];
    let mut writer = Writer::new(buf);
    let r1 = writer.write_slice(unencrypted_header);
    let r2 = writer.write_slice(encrypted_payload);
    let r3 = writer.write_u8(ratchet_counter);
    let r4 = writer.write_u32(frame_counter as u32);
    let r5 = writer.write_slice(mac.as_slice());
    proof {
        assert(r1 is Ok && r2 is Ok && r3 is Ok && r4 is Ok && r5 is Ok);
    }
    let c = writer.into_inner();
    proof {
        assert(c@ =~= unencrypted_header@ + encrypted_payload@ + seq![ratchet_counter]
            + u32_be_bytes(frame_counter as u32) + mac@);
    }
    Ok(c)
}

} // verus!
