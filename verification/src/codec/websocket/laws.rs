//! What the WebSocket codec promises across encoding and decoding.
use vstd::prelude::*;
use vstd::utf8::*;

use crate::codec::websocket::frame::{
    be16, be64, close_payload, enc_control, enc_frame, frame_step, length_field, sp_close, sp_payload,
    valid_close_code, CloseV, FrameStep, InboundV, OutboundV,
};
use crate::codec::websocket::ws_write;
use crate::uint::{be_value, lemma_pow256_facts, pow256};

verus! {

broadcast use {encode_utf8_valid_utf8, encode_utf8_decode_utf8};

/// The message a peer reads back from a frame the codec wrote for `o`.
pub open spec fn read_back(o: OutboundV) -> InboundV {
    match o {
        OutboundV::Text(t) => InboundV::Text(t),
        OutboundV::Binary(b) => InboundV::Binary(b),
        OutboundV::Close(c) => InboundV::Close(c),
        OutboundV::Ping(b) => InboundV::Ping(b),
        OutboundV::Pong(b) => InboundV::Pong(b),
        OutboundV::HandshakeResponse(_) => InboundV::Close(None),
    }
}

/// The opcode and payload of the frame the codec writes for a message.
pub open spec fn frame_parts(o: OutboundV) -> (u8, Seq<u8>) {
    match o {
        OutboundV::Text(t) => (1u8, encode_utf8(t)),
        OutboundV::Binary(b) => (2u8, b),
        OutboundV::Close(c) => (8u8, close_payload(c)->0),
        OutboundV::Ping(b) => (9u8, b),
        OutboundV::Pong(b) => (10u8, b),
        OutboundV::HandshakeResponse(_) => (0u8, Seq::empty()),
    }
}

/// Two big-endian bytes read back as the number they were written from.
pub proof fn lemma_be16(n: nat)
    requires
        n < 0x1_0000,
    ensures
        be_value(be16(n)) == n,
        be16(n).len() == 2,
{
    let b = be16(n);
    reveal_with_fuel(be_value, 3);
    assert(b.drop_last().drop_last() =~= Seq::<u8>::empty());
    assert(b.drop_last() =~= seq![b[0]]);
    assert((n / 0x100) % 0x100 == n / 0x100) by (nonlinear_arith)
        requires
            n < 0x1_0000,
    ;
    assert(((n / 0x100) as u8) as nat * 256 + (n % 0x100) as u8 as nat == n) by (nonlinear_arith)
        requires
            n < 0x1_0000,
    ;
}

/// Eight big-endian bytes read back as the number they were written from.
pub proof fn lemma_be64(n: u64)
    ensures
        be_value(be64(n as nat)) == n,
        be64(n as nat).len() == 8,
{
    let b = be64(n as nat);
    reveal_with_fuel(be_value, 9);
    let b0 = ((n / 0x100_0000_0000_0000) % 0x100) as u8;
    let b1 = ((n / 0x1_0000_0000_0000) % 0x100) as u8;
    let b2 = ((n / 0x100_0000_0000) % 0x100) as u8;
    let b3 = ((n / 0x1_0000_0000) % 0x100) as u8;
    let b4 = ((n / 0x100_0000) % 0x100) as u8;
    let b5 = ((n / 0x1_0000) % 0x100) as u8;
    let b6 = ((n / 0x100) % 0x100) as u8;
    let b7 = (n % 0x100) as u8;
    assert(b =~= seq![b0, b1, b2, b3, b4, b5, b6, b7]);
    assert(b.take(7) =~= seq![b0, b1, b2, b3, b4, b5, b6]);
    assert(b.take(6) =~= seq![b0, b1, b2, b3, b4, b5]);
    assert(b.take(5) =~= seq![b0, b1, b2, b3, b4]);
    assert(b.take(4) =~= seq![b0, b1, b2, b3]);
    assert(b.take(3) =~= seq![b0, b1, b2]);
    assert(b.take(2) =~= seq![b0, b1]);
    assert(b.take(1) =~= seq![b0]);
    assert(b.drop_last() =~= b.take(7));
    assert(b.take(7).drop_last() =~= b.take(6));
    assert(b.take(6).drop_last() =~= b.take(5));
    assert(b.take(5).drop_last() =~= b.take(4));
    assert(b.take(4).drop_last() =~= b.take(3));
    assert(b.take(3).drop_last() =~= b.take(2));
    assert(b.take(2).drop_last() =~= b.take(1));
    assert(b.take(1).drop_last() =~= Seq::<u8>::empty());
    let c0: u64 = (n / 0x100_0000_0000_0000) % 0x100;
    let c1: u64 = (n / 0x1_0000_0000_0000) % 0x100;
    let c2: u64 = (n / 0x100_0000_0000) % 0x100;
    let c3: u64 = (n / 0x1_0000_0000) % 0x100;
    let c4: u64 = (n / 0x100_0000) % 0x100;
    let c5: u64 = (n / 0x1_0000) % 0x100;
    let c6: u64 = (n / 0x100) % 0x100;
    let c7: u64 = n % 0x100;
    assert(((((((c0 * 256 + c1) * 256 + c2) * 256 + c3) * 256 + c4) * 256 + c5) * 256 + c6) * 256 + c7 == n)
        by (bit_vector)
        requires
            c0 == (n / 0x100_0000_0000_0000) % 0x100,
            c1 == (n / 0x1_0000_0000_0000) % 0x100,
            c2 == (n / 0x100_0000_0000) % 0x100,
            c3 == (n / 0x1_0000_0000) % 0x100,
            c4 == (n / 0x100_0000) % 0x100,
            c5 == (n / 0x1_0000) % 0x100,
            c6 == (n / 0x100) % 0x100,
            c7 == n % 0x100,
    ;
    assert(b0 as nat == c0 && b1 as nat == c1 && b2 as nat == c2 && b3 as nat == c3);
    assert(b4 as nat == c4 && b5 as nat == c5 && b6 as nat == c6 && b7 as nat == c7);
}

/// A valid close payload reads back as the close it was written from.
pub proof fn lemma_close_roundtrip(c: Option<CloseV>)
    requires
        close_payload(c) is Some,
    ensures
        sp_close(close_payload(c)->0) == Some(c),
{
    if let Some(c) = c {
        let p = close_payload(Some(c))->0;
        lemma_be16(c.code as nat);
        assert(p.take(2) =~= be16(c.code as nat));
        assert(p.skip(2) =~= encode_utf8(c.reason));
    }
}

/// The close status codes are those RFC 6455 (section 7.4) lets an
/// endpoint send: 1000-1003, 1007-1014 and 3000-4999. A close payload of
/// such a code and a reason reads back as that code and reason, and the
/// encoder writes it; any other code is refused both ways.
pub proof fn lemma_close_status_codes(code: u16, reason: Seq<char>)
    ensures
        ((1000 <= code <= 1003) || (1007 <= code <= 1014) || (3000 <= code <= 4999)) ==> (sp_close(
            be16(code as nat) + encode_utf8(reason),
        ) == Some(Some(CloseV { code, reason }))
            && close_payload(Some(CloseV { code, reason })) == Some(be16(code as nat) + encode_utf8(reason))),
        !((1000 <= code <= 1003) || (1007 <= code <= 1014) || (3000 <= code <= 4999)) ==> (sp_close(
            be16(code as nat) + encode_utf8(reason),
        ) is None && close_payload(Some(CloseV { code, reason })) is None),
{
    let p = be16(code as nat) + encode_utf8(reason);
    lemma_be16(code as nat);
    assert(p.take(2) =~= be16(code as nat));
    assert(p.skip(2) =~= encode_utf8(reason));
}

/// The header bytes of the frame for `opcode` and a payload of `n` bytes.
proof fn lemma_frame_header(opcode: u8, n: nat)
    requires
        opcode < 16,
    ensures
        (0x80u8 | opcode) & 0x80 != 0,
        (0x80u8 | opcode) & 0x70 == 0,
        (0x80u8 | opcode) & 0x0f == opcode,
        n <= 125 ==> (n as u8) & 0x80 == 0 && (n as u8) & 0x7f == n,
        126u8 & 0x80 == 0 && 126u8 & 0x7f == 126,
        127u8 & 0x80 == 0 && 127u8 & 0x7f == 127,
{
    assert((0x80u8 | opcode) & 0x80 != 0) by (bit_vector);
    assert(opcode < 16 ==> (0x80u8 | opcode) & 0x70 == 0) by (bit_vector);
    assert(opcode < 16 ==> (0x80u8 | opcode) & 0x0f == opcode) by (bit_vector);
    assert(126u8 & 0x80 == 0 && 126u8 & 0x7f == 126) by (bit_vector);
    assert(127u8 & 0x80 == 0 && 127u8 & 0x7f == 127) by (bit_vector);
    if n <= 125 {
        let m = n as u8;
        assert(m <= 125 ==> m & 0x80 == 0 && m & 0x7f == m) by (bit_vector);
    }
}

/// A final unmasked frame written for `opcode` and payload `p`, followed by
/// any bytes, reads back as one frame carrying what `p` decodes to, and
/// leaves the following bytes. This holds when masking is not required, the
/// payload is within the limit and is one that the decoder accepts, and its
/// length fits the 63-bit length field and leaves room for the header.
pub proof fn lemma_frame_roundtrip(opcode: u8, p: Seq<u8>, rest: Seq<u8>, max: int)
    requires
        opcode < 16,
        p.len() <= max,
        p.len() <= i64::MAX,
        p.len() + 14 <= usize::MAX,
        8 <= opcode <= 10 ==> p.len() <= 125,
        sp_payload(opcode, p) is Some,
    ensures
        frame_step(false, max, enc_frame(opcode, p) + rest) == (FrameStep::Message {
            len: enc_frame(opcode, p).len() as int,
            msg: sp_payload(opcode, p)->0,
        }),
{
    let n = p.len();
    let s = enc_frame(opcode, p) + rest;
    lemma_frame_header(opcode, n);
    lemma_pow256_facts(8);
    let h: int = if n <= 125 {
        2
    } else if n <= 65535 {
        4
    } else {
        10
    };
    assert(length_field(n).len() == h - 1) by {
        if n > 125 && n <= 65535 {
            lemma_be16(n);
        } else if n > 65535 {
            lemma_be64(n as u64);
        }
    }
    assert(s[0] == 0x80u8 | opcode);
    assert(s.subrange(h, h + n) =~= p);
    if n <= 125 {
        assert(s[1] == n as u8);
    } else if n <= 65535 {
        assert(s[1] == 126u8);
        assert(s.subrange(2, 4) =~= be16(n));
        lemma_be16(n);
    } else {
        assert(s[1] == 127u8);
        assert(s.subrange(2, 10) =~= be64(n));
        lemma_be64(n as u64);
    }
}

/// What the codec writes for a data or control message reads back, with
/// masking not required, as that message; the bytes after the frame are
/// left. Handshake responses are no frames; payloads must fit the limit and
/// the length field.
pub proof fn lemma_message_roundtrip(o: OutboundV, rest: Seq<u8>, max: int)
    requires
        !(o is HandshakeResponse),
        ws_write(o) is Some,
        frame_parts(o).1.len() <= max,
        frame_parts(o).1.len() <= i64::MAX,
        frame_parts(o).1.len() + 14 <= usize::MAX,
    ensures
        frame_step(false, max, ws_write(o)->0 + rest) == (FrameStep::Message {
            len: ws_write(o)->0.len() as int,
            msg: read_back(o),
        }),
{
    let (opcode, p) = frame_parts(o);
    if let OutboundV::Close(c) = o {
        lemma_close_roundtrip(c);
    }
    lemma_frame_roundtrip(opcode, p, rest, max);
}

} // verus!
