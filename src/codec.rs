//! Pixel-channel framing: message bytes packed three to a pixel.
//!
//! A frame carries a stream of logical bytes in the R, G and B channels of each
//! RGBA pixel; the alpha byte of every pixel is skipped. Logical byte `l` sits at
//! raw offset `4 * (l / 3) + l % 3`. The logical stream is: three marker bytes,
//! a little-endian `u32` nonce, a little-endian `u32` message length, and then
//! the message itself.
use vstd::prelude::*;

verus! {

/// Logical offset of the first nonce byte.
pub const NONCE_OFFSET: usize = 3;

/// Logical offset of the first length byte.
pub const LENGTH_OFFSET: usize = 7;

/// Logical offset of the first message byte.
pub const MESSAGE_OFFSET: usize = 11;

/// Raw offset of logical byte `l`.
pub open spec fn packed_index(l: int) -> int {
    4 * (l / 3) + l % 3
}

/// Logical byte `l` of a raw buffer.
pub open spec fn packed_at(b: Seq<u8>, l: int) -> u8 {
    b[packed_index(l)]
}

/// The value of four little-endian bytes.
pub open spec fn le_value(b0: u8, b1: u8, b2: u8, b3: u8) -> int {
    b0 + 256 * b1 + 65536 * b2 + 16777216 * b3
}

/// The first pixel is the protocol marker: three fixed bytes and an opaque alpha.
pub open spec fn has_marker(b: Seq<u8>) -> bool {
    &&& b.len() >= 4
    &&& b[0] == 255u8
    &&& b[1] == 192u8
    &&& b[2] == 128u8
    &&& b[3] == 255u8
}

/// Logical bytes `[l, l + 4)` read as a little-endian integer.
pub open spec fn packed_le(b: Seq<u8>, l: int) -> int {
    le_value(packed_at(b, l), packed_at(b, l + 1), packed_at(b, l + 2), packed_at(b, l + 3))
}

/// Whether the raw buffer holds the logical bytes `[0, n)`.
pub open spec fn holds_logical(b: Seq<u8>, n: int) -> bool {
    n <= 0 || packed_index(n - 1) < b.len()
}

/// The nonce a frame is tagged with, if the buffer is long enough to hold it.
pub open spec fn frame_nonce(b: Seq<u8>) -> Option<u32> {
    if holds_logical(b, NONCE_OFFSET + 4) {
        Some(packed_le(b, NONCE_OFFSET as int) as u32)
    } else {
        None
    }
}

/// The declared message length, if the buffer is long enough to hold it.
pub open spec fn frame_length(b: Seq<u8>) -> Option<nat> {
    if holds_logical(b, LENGTH_OFFSET + 4) {
        Some(packed_le(b, LENGTH_OFFSET as int) as nat)
    } else {
        None
    }
}

/// The message a frame carries: `None` when the buffer is too short for its header
/// or for the length that the header declares.
pub open spec fn frame_message(b: Seq<u8>) -> Option<Seq<u8>> {
    match frame_length(b) {
        Some(len) => if holds_logical(b, MESSAGE_OFFSET + len) {
            Some(Seq::new(len, |i: int| packed_at(b, MESSAGE_OFFSET + i)))
        } else {
            None
        },
        None => None,
    }
}

proof fn lemma_packed_index_monotonic(a: int, c: int)
    requires
        0 <= a <= c,
    ensures
        0 <= packed_index(a) <= packed_index(c),
{
    assert(0 <= 4 * (a / 3) + a % 3 <= 4 * (c / 3) + c % 3) by (nonlinear_arith)
        requires
            0 <= a <= c,
    ;
}

/// Raw offset of logical byte `l`, computed without overflow.
pub fn packed_offset(l: u64) -> (r: u64)
    requires
        l <= u64::MAX / 2,
    ensures
        r == packed_index(l as int),
{
    4 * (l / 3) + l % 3
}

/// Whether `buffer` holds the logical bytes `[0, n)`.
fn holds_logical_bytes(buffer: &[u8], n: u64) -> (r: bool)
    requires
        n <= u64::MAX / 2,
    ensures
        r == holds_logical(buffer@, n as int),
{
    if n == 0 {
        true
    } else {
        packed_offset(n - 1) < buffer.len() as u64
    }
}

/// Logical bytes `[l, l + 4)` of `buffer` as a little-endian `u32`.
fn read_packed_u32(buffer: &[u8], l: usize) -> (r: u32)
    requires
        l <= 16,
        holds_logical(buffer@, l + 4),
    ensures
        r as int == packed_le(buffer@, l as int),
{
    proof {
        lemma_packed_index_monotonic(l as int, l + 3);
        lemma_packed_index_monotonic(l + 1, l + 3);
        lemma_packed_index_monotonic(l + 2, l + 3);
    }
    let b0 = buffer[packed_offset(l as u64) as usize] as u32;
    let b1 = buffer[packed_offset(l as u64 + 1) as usize] as u32;
    let b2 = buffer[packed_offset(l as u64 + 2) as usize] as u32;
    let b3 = buffer[packed_offset(l as u64 + 3) as usize] as u32;
    b0 + 256 * b1 + 65536 * b2 + 16777216 * b3
}

/// Whether the buffer starts with the protocol marker pixel.
pub fn has_frame_marker(buffer: &[u8]) -> (r: bool)
    ensures
        r == has_marker(buffer@),
{
    buffer.len() >= 4 && buffer[0] == 255 && buffer[1] == 192 && buffer[2] == 128 && buffer[3]
        == 255
}

/// The nonce that a frame is tagged with; `None` when the buffer is too short.
pub fn read_frame_nonce(buffer: &[u8]) -> (r: Option<u32>)
    ensures
        r == frame_nonce(buffer@),
{
    if holds_logical_bytes(buffer, (NONCE_OFFSET + 4) as u64) {
        Some(read_packed_u32(buffer, NONCE_OFFSET))
    } else {
        None
    }
}

/// Extracts the message bytes that a frame carries.
///
/// Returns `None` when the buffer is too short for the header or for the declared
/// length; never reads past the buffer.
pub fn read_message_from_image(buffer: &[u8]) -> (r: Option<Vec<u8>>)
    ensures
        match r {
            Some(m) => frame_message(buffer@) == Some(m@),
            None => frame_message(buffer@).is_none(),
        },
{
    if !holds_logical_bytes(buffer, (LENGTH_OFFSET + 4) as u64) {
        return None;
    }
    let length = read_packed_u32(buffer, LENGTH_OFFSET);
    if !holds_logical_bytes(buffer, MESSAGE_OFFSET as u64 + length as u64) {
        return None;
    }
    let mut message: Vec<u8> = Vec::with_capacity(length as usize);
    let mut i: u32 = 0;
    while i < length
        invariant
            i <= length,
            length as int == packed_le(buffer@, LENGTH_OFFSET as int),
            holds_logical(buffer@, MESSAGE_OFFSET + length),
            message@.len() == i,
            forall|k: int| 0 <= k < i ==> message@[k] == packed_at(buffer@, MESSAGE_OFFSET + k),
        decreases length - i,
    {
        proof {
            lemma_packed_index_monotonic(MESSAGE_OFFSET + i, MESSAGE_OFFSET + length - 1);
        }
        let offset = packed_offset(MESSAGE_OFFSET as u64 + i as u64);
        message.push(buffer[offset as usize]);
        i = i + 1;
    }
    proof {
        assert(message@ =~= Seq::new(
            length as nat,
            |k: int| packed_at(buffer@, MESSAGE_OFFSET + k),
        ));
    }
    Some(message)
}

/// Little-endian bytes of a 32-bit value.
pub open spec fn le_bytes(v: u32) -> Seq<u8> {
    seq![(v % 256) as u8, ((v / 256) % 256) as u8, ((v / 65536) % 256) as u8, (v / 16777216) as u8]
}

/// The logical stream that a page emits for `nonce` and `message`.
pub open spec fn logical_stream(nonce: u32, message: Seq<u8>) -> Seq<u8> {
    seq![255u8, 192u8, 128u8] + le_bytes(nonce) + le_bytes(message.len() as u32) + message
}

/// Packs a logical stream into opaque RGBA pixels, the last pixel padded with zeros.
pub open spec fn pack_pixels(s: Seq<u8>) -> Seq<u8> {
    Seq::new(
        (4 * ((s.len() + 2) / 3)) as nat,
        |r: int|
            if r % 4 == 3 {
                255u8
            } else if 3 * (r / 4) + r % 4 < s.len() {
                s[3 * (r / 4) + r % 4]
            } else {
                0u8
            },
    )
}

/// The pixels a page paints to send `message` tagged with `nonce`.
pub open spec fn encode_frame(nonce: u32, message: Seq<u8>) -> Seq<u8> {
    pack_pixels(logical_stream(nonce, message))
}

proof fn lemma_packed_index_inverse(l: int)
    requires
        0 <= l,
    ensures
        packed_index(l) % 4 == l % 3,
        packed_index(l) / 4 == l / 3,
        3 * (packed_index(l) / 4) + packed_index(l) % 4 == l,
{
    let q = l / 3;
    let r = l % 3;
    assert(l == 3 * q + r && 0 <= r < 3 && 0 <= q) by (nonlinear_arith)
        requires
            q == l / 3,
            r == l % 3,
            0 <= l,
    ;
    assert((4 * q + r) % 4 == r && (4 * q + r) / 4 == q) by (nonlinear_arith)
        requires
            0 <= r < 3,
            0 <= q,
    ;
}

proof fn lemma_packed_len(n: int)
    requires
        1 <= n,
    ensures
        packed_index(n - 1) < 4 * ((n + 2) / 3),
{
    let q = (n - 1) / 3;
    let r = (n - 1) % 3;
    assert(n - 1 == 3 * q + r && 0 <= r < 3 && 0 <= q) by (nonlinear_arith)
        requires
            q == (n - 1) / 3,
            r == (n - 1) % 3,
            1 <= n,
    ;
    assert((n + 2) / 3 == q + 1) by (nonlinear_arith)
        requires
            n - 1 == 3 * q + r,
            0 <= r < 3,
    ;
}

proof fn lemma_pack_pixels_at(s: Seq<u8>, l: int)
    requires
        0 <= l < s.len(),
    ensures
        packed_index(l) < pack_pixels(s).len(),
        packed_at(pack_pixels(s), l) == s[l],
{
    lemma_packed_index_inverse(l);
    lemma_packed_len(s.len() as int);
    lemma_packed_index_monotonic(l, s.len() - 1);
}

proof fn lemma_le_round_trip(v: u32)
    ensures
        le_value(le_bytes(v)[0], le_bytes(v)[1], le_bytes(v)[2], le_bytes(v)[3]) == v,
{
    let x = v as int;
    let a = x / 256;
    let b = a / 256;
    let c = b / 256;
    vstd::arithmetic::div_mod::lemma_fundamental_div_mod(x, 256);
    vstd::arithmetic::div_mod::lemma_fundamental_div_mod(a, 256);
    vstd::arithmetic::div_mod::lemma_fundamental_div_mod(b, 256);
    vstd::arithmetic::div_mod::lemma_div_denominator(x, 256, 256);
    vstd::arithmetic::div_mod::lemma_div_denominator(x, 65536, 256);
    assert(b == x / 65536);
    assert(c == x / 16777216);
    assert(0 <= c < 256) by {
        vstd::arithmetic::div_mod::lemma_div_is_ordered(x, 0xffff_ffff, 16777216);
    }
}

/// Decoding inverts the page's packing: a frame painted for `nonce` and `message`
/// carries the marker, that nonce, and exactly that message, for every message
/// length that the 32-bit length field can state, zero included.
pub proof fn lemma_frame_round_trip(nonce: u32, message: Seq<u8>)
    requires
        message.len() <= u32::MAX,
    ensures
        has_marker(encode_frame(nonce, message)),
        frame_nonce(encode_frame(nonce, message)) == Some(nonce),
        frame_message(encode_frame(nonce, message)) == Some(message),
{
    let s = logical_stream(nonce, message);
    let e = encode_frame(nonce, message);
    let n = message.len() as u32;
    assert(s.len() == 11 + message.len());
    assert forall|l: int| 0 <= l < s.len() implies packed_index(l) < e.len() && #[trigger] packed_at(e, l) == s[l] by {
        lemma_pack_pixels_at(s, l);
    }
    lemma_packed_index_inverse(3);
    assert(e[3] == 255u8);
    lemma_le_round_trip(nonce);
    lemma_le_round_trip(n);
    assert(packed_at(e, 3) == le_bytes(nonce)[0]);
    assert(packed_at(e, 4) == le_bytes(nonce)[1]);
    assert(packed_at(e, 5) == le_bytes(nonce)[2]);
    assert(packed_at(e, 6) == le_bytes(nonce)[3]);
    assert(packed_at(e, 7) == le_bytes(n)[0]);
    assert(packed_at(e, 8) == le_bytes(n)[1]);
    assert(packed_at(e, 9) == le_bytes(n)[2]);
    assert(packed_at(e, 10) == le_bytes(n)[3]);
    assert(frame_length(e) == Some(message.len()));
    assert(packed_at(e, s.len() - 1) == s[s.len() - 1]);
    assert(frame_message(e).unwrap() =~= message) by {
        assert forall|i: int| 0 <= i < message.len() implies packed_at(e, MESSAGE_OFFSET + i)
            == message[i] by {
            assert(packed_at(e, 11 + i) == s[11 + i]);
        }
    }
}

} // verus!
