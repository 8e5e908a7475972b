//! The wire format: big-endian 32-bit integers, the byte layout of the two
//! control frames, and the bytes a single encoder operation appends to its
//! sink.

use vstd::prelude::*;

use crate::constants::CONTROL_FIELD_CONTENT_TYPE;
use crate::constants::CONTROL_START;
use crate::constants::CONTROL_STOP;

verus! {

/// The four bytes of `n`, most significant first.
pub open spec fn be32(n: u32) -> Seq<u8> {
    seq![
        (n / 0x1000000) as u8,
        ((n / 0x10000) % 0x100) as u8,
        ((n / 0x100) % 0x100) as u8,
        (n % 0x100) as u8,
    ]
}

/// Appends the big-endian encoding of `n` to `buf`.
pub fn push_be32(buf: &mut Vec<u8>, n: u32)
    ensures
        final(buf)@ == old(buf)@ + be32(n),
{
    buf.push((n / 0x1000000) as u8);
    buf.push(((n / 0x10000) % 0x100) as u8);
    buf.push(((n / 0x100) % 0x100) as u8);
    buf.push((n % 0x100) as u8);
    assert(buf@ =~= old(buf)@ + be32(n));
}

/// The UTF-8 bytes of an optional content type string.
pub open spec fn content_type_bytes(ct: Option<String>) -> Option<Seq<u8>> {
    match ct {
        Some(s) => Some(vstd::utf8::encode_utf8(s@)),
        None => None,
    }
}

/// Whether a content type is small enough for the control-start frame's
/// 32-bit length fields.
pub open spec fn content_type_fits(ct: Option<Seq<u8>>) -> bool {
    match ct {
        Some(c) => c.len() + 12 <= u32::MAX,
        None => true,
    }
}

/// The bytes of a control-start frame announcing the content type `ct`:
/// the zero escape marker, the frame length, the control type, and, when a
/// content type is present, the content-type field block.
pub open spec fn control_start_frame(ct: Option<Seq<u8>>) -> Seq<u8> {
    match ct {
        None => be32(0) + be32(4) + be32(CONTROL_START),
        Some(c) => be32(0) + be32((c.len() + 12) as u32) + be32(CONTROL_START) + be32(
            CONTROL_FIELD_CONTENT_TYPE,
        ) + be32(c.len() as u32) + c,
    }
}

/// The bytes of a control-stop frame: the zero escape marker, the frame
/// length (always 4), and the control type.
pub open spec fn control_stop_frame() -> Seq<u8> {
    be32(0) + be32(4) + be32(CONTROL_STOP)
}

/// The control-start frame a write emits before anything else when the
/// stream is not yet started; nothing otherwise.
pub open spec fn start_bytes(started: bool, ct: Option<Seq<u8>>) -> Seq<u8> {
    if started {
        Seq::<u8>::empty()
    } else {
        control_start_frame(ct)
    }
}

/// The length prefix a data frame carries for a payload of `len` bytes,
/// unless the frame continues a partially accepted payload.
pub open spec fn prefix_bytes(partial: bool, len: nat) -> Seq<u8> {
    if partial {
        Seq::<u8>::empty()
    } else {
        be32(len as u32)
    }
}

/// The control-stop frame that closes a started stream; nothing when the
/// stream was never started.
pub open spec fn stop_bytes(started: bool) -> Seq<u8> {
    if started {
        control_stop_frame()
    } else {
        Seq::<u8>::empty()
    }
}

/// Every byte a single `write` call appends to the sink, given the encoder's
/// state before the call, the payload `p`, and the count `n` of payload bytes
/// the sink accepted.
pub open spec fn write_output(
    started: bool,
    partial: bool,
    ct: Option<Seq<u8>>,
    p: Seq<u8>,
    n: int,
) -> Seq<u8> {
    start_bytes(started, ct) + prefix_bytes(partial, p.len()) + p.subrange(0, n)
}

/// Whether `post` extends `pre` by some prefix of `intended`: what a sink
/// holds after an attempt to append `intended` to it failed partway.
pub open spec fn appends_prefix_of(post: Seq<u8>, pre: Seq<u8>, intended: Seq<u8>) -> bool {
    exists|j: int| 0 <= j <= intended.len() && post == pre + intended.subrange(0, j)
}

/// A prefix of `a` is also a prefix of `a + b`.
pub(crate) proof fn lemma_prefix_widen(post: Seq<u8>, pre: Seq<u8>, a: Seq<u8>, b: Seq<u8>)
    requires
        appends_prefix_of(post, pre, a),
    ensures
        appends_prefix_of(post, pre, a + b),
{
    let j = choose|j: int| 0 <= j <= a.len() && post == pre + a.subrange(0, j);
    assert((a + b).subrange(0, j) =~= a.subrange(0, j));
    assert(post == pre + (a + b).subrange(0, j));
}

/// All of `a` followed by a prefix of `b` is a prefix of `a + b`.
pub(crate) proof fn lemma_prefix_after(
    post: Seq<u8>,
    mid: Seq<u8>,
    pre: Seq<u8>,
    a: Seq<u8>,
    b: Seq<u8>,
)
    requires
        mid == pre + a,
        appends_prefix_of(post, mid, b),
    ensures
        appends_prefix_of(post, pre, a + b),
{
    let j = choose|j: int| 0 <= j <= b.len() && post == mid + b.subrange(0, j);
    assert((a + b).subrange(0, a.len() + j) =~= a + b.subrange(0, j));
    assert(pre + (a + b).subrange(0, a.len() + j) =~= (pre + a) + b.subrange(0, j));
    assert(post == pre + (a + b).subrange(0, a.len() + j));
}

/// Builds the control-start frame for `content_type` in memory.
pub fn control_start_bytes(content_type: &Option<String>) -> (r: Vec<u8>)
    requires
        content_type_fits(content_type_bytes(*content_type)),
    ensures
        r@ == control_start_frame(content_type_bytes(*content_type)),
{
    let mut buf: Vec<u8> = Vec::new();
    push_be32(&mut buf, 0);
    match content_type {
        Some(ct) => {
            let ctb: &[u8] = ct.as_str().as_bytes();
            let len: usize = ctb.len();
            push_be32(&mut buf, (len as u32) + 12);
            push_be32(&mut buf, CONTROL_START);
            push_be32(&mut buf, CONTROL_FIELD_CONTENT_TYPE);
            push_be32(&mut buf, len as u32);
            let mut i: usize = 0;
            while i < len
                invariant
                    i <= len,
                    len == ctb@.len(),
                    buf@ == be32(0) + be32((len + 12) as u32) + be32(CONTROL_START) + be32(
                        CONTROL_FIELD_CONTENT_TYPE,
                    ) + be32(len as u32) + ctb@.subrange(0, i as int),
                decreases len - i,
            {
                buf.push(ctb[i]);
                assert(ctb@.subrange(0, i + 1) =~= ctb@.subrange(0, i as int).push(ctb@[i as int]));
                i = i + 1;
            }
            assert(ctb@.subrange(0, len as int) =~= ctb@);
        }
        None => {
            push_be32(&mut buf, 4);
            push_be32(&mut buf, CONTROL_START);
        }
    }
    assert(buf@ =~= control_start_frame(content_type_bytes(*content_type)));
    buf
}

/// Builds the control-stop frame in memory.
pub fn control_stop_bytes() -> (r: Vec<u8>)
    ensures
        r@ == control_stop_frame(),
{
    let mut buf: Vec<u8> = Vec::new();
    push_be32(&mut buf, 0);
    push_be32(&mut buf, 4);
    push_be32(&mut buf, CONTROL_STOP);
    assert(buf@ =~= control_stop_frame());
    buf
}

} // verus!
