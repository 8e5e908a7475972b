//! The frame encoder: serializes caller-supplied payload bytes as data
//! frames inside a control-start/control-stop envelope on an owned byte
//! sink, honoring the sink's freedom to accept fewer bytes than offered.

use vstd::prelude::*;

use crate::constants::CONTROL_START;
use crate::sink::ByteSink;
use crate::sink::IoError;
use crate::sink::write_all;
use crate::wire::appends_prefix_of;
use crate::wire::be32;
use crate::wire::content_type_bytes;
use crate::wire::content_type_fits;
use crate::wire::control_start_bytes;
use crate::wire::control_start_frame;
use crate::wire::control_stop_bytes;
use crate::wire::control_stop_frame;
use crate::wire::lemma_prefix_after;
use crate::wire::lemma_prefix_widen;
use crate::wire::prefix_bytes;
use crate::wire::push_be32;
use crate::wire::start_bytes;
use crate::wire::stop_bytes;
use crate::wire::write_output;

verus! {

/// Emits the control-start frame announcing `content_type` on `w`.
fn write_control_start<W: ByteSink>(w: &mut W, content_type: &Option<String>) -> (r: Result<
    (),
    IoError,
>)
    requires
        content_type_fits(content_type_bytes(*content_type)),
    ensures
        match r {
            Ok(_) => final(w).bytes() == old(w).bytes() + control_start_frame(
                content_type_bytes(*content_type),
            ),
            Err(_) => appends_prefix_of(
                final(w).bytes(),
                old(w).bytes(),
                control_start_frame(content_type_bytes(*content_type)),
            ),
        },
{
    let frame: Vec<u8> = control_start_bytes(content_type);
    write_all(w, frame.as_slice())
}

/// Emits the control-stop frame on `w`.
fn write_control_stop<W: ByteSink>(w: &mut W) -> (r: Result<(), IoError>)
    ensures
        match r {
            Ok(_) => final(w).bytes() == old(w).bytes() + control_stop_frame(),
            Err(_) => appends_prefix_of(final(w).bytes(), old(w).bytes(), control_stop_frame()),
        },
{
    let frame: Vec<u8> = control_stop_bytes();
    write_all(w, frame.as_slice())
}

/// Serializes payload bytes as data frames inside a control-start /
/// control-stop envelope over an owned byte sink.
///
/// The stream starts lazily: the first `write` emits a control-start frame
/// (announcing the content type, when one was given) before its data frame.
/// `finish` and `reset` close a started stream with a control-stop frame;
/// `into_inner` abandons it without one.
pub struct EncoderWriter<W: ByteSink> {
    writer: W,
    content_type: Option<String>,
    partial: bool,
    started: bool,
}

impl<W: ByteSink> EncoderWriter<W> {
    /// The stream's content type, as UTF-8 bytes; fixed at construction.
    pub closed spec fn spec_content_type(&self) -> Option<Seq<u8>> {
        content_type_bytes(self.content_type)
    }

    /// Whether a control-start frame has been emitted for the current sink
    /// and not yet closed by a control-stop frame.
    pub closed spec fn spec_started(&self) -> bool {
        self.started
    }

    /// Whether the most recent data frame's payload was only partially
    /// accepted, so that the next write continues it without a length prefix.
    pub closed spec fn spec_partial(&self) -> bool {
        self.partial
    }

    /// All bytes the current sink has accepted.
    pub closed spec fn sink_bytes(&self) -> Seq<u8> {
        self.writer.bytes()
    }

    /// Well-formedness: the content type fits the control-start frame's
    /// 32-bit length fields, and a stream that is not started has no partial
    /// payload pending.
    pub closed spec fn wf(&self) -> bool {
        &&& content_type_fits(self.spec_content_type())
        &&& !self.started ==> !self.partial
    }

    /// Constructs an encoder in the not-started state. No bytes are written.
    /// The content type, if any, must be small enough for the control-start
    /// frame's 32-bit length fields.
    pub fn new(writer: W, content_type: Option<String>) -> (r: EncoderWriter<W>)
        requires
            content_type_fits(content_type_bytes(content_type)),
        ensures
            r.wf(),
            !r.spec_started(),
            !r.spec_partial(),
            r.spec_content_type() == content_type_bytes(content_type),
            r.sink_bytes() == writer.bytes(),
    {
        EncoderWriter { writer, content_type, partial: false, started: false }
    }

    /// Emits a data frame for `buf`: a 4-byte big-endian length prefix equal
    /// to `buf.len()` (unless continuing a partially accepted payload),
    /// followed by as many bytes of `buf` as the sink accepts in one write.
    fn write_frame(&mut self, buf: &[u8]) -> (r: Result<usize, IoError>)
        requires
            buf@.len() <= u32::MAX,
        ensures
            final(self).spec_content_type() == old(self).spec_content_type(),
            final(self).spec_started() == old(self).spec_started(),
            match r {
                Ok(n) => {
                    &&& n <= buf@.len()
                    &&& final(self).spec_partial() == (n < buf@.len())
                    &&& final(self).sink_bytes() == old(self).sink_bytes() + prefix_bytes(
                        old(self).spec_partial(),
                        buf@.len(),
                    ) + buf@.subrange(0, n as int)
                },
                Err(_) => {
                    &&& final(self).spec_partial() == old(self).spec_partial()
                    &&& appends_prefix_of(
                        final(self).sink_bytes(),
                        old(self).sink_bytes(),
                        prefix_bytes(old(self).spec_partial(), buf@.len()) + buf@,
                    )
                },
            },
    {
        let ghost pre: Seq<u8> = self.writer.bytes();
        let ghost lenpfx: Seq<u8> = prefix_bytes(self.partial, buf@.len());
        let len: usize = buf.len();
        if !self.partial {
            let mut lenbuf: Vec<u8> = Vec::new();
            push_be32(&mut lenbuf, len as u32);
            proof {
                assert(lenbuf@ =~= lenpfx);
            }
            match write_all(&mut self.writer, lenbuf.as_slice()) {
                Ok(_) => {}
                Err(e) => {
                    proof {
                        lemma_prefix_widen(self.writer.bytes(), pre, lenpfx, buf@);
                    }
                    return Err(e);
                }
            }
        } else {
            proof {
                assert(self.writer.bytes() =~= pre + lenpfx);
            }
        }
        let ghost mid: Seq<u8> = self.writer.bytes();
        match self.writer.write(buf) {
            Ok(n) => {
                self.partial = n < len;
                proof {
                    assert(self.writer.bytes() =~= pre + lenpfx + buf@.subrange(0, n as int));
                }
                Ok(n)
            },
            Err(e) => {
                proof {
                    assert(mid == pre + lenpfx);
                    assert(buf@.subrange(0, 0) =~= Seq::<u8>::empty());
                    assert(mid + buf@.subrange(0, 0) =~= mid);
                    lemma_prefix_after(self.writer.bytes(), mid, pre, lenpfx, buf@);
                }
                Err(e)
            },
        }
    }

    /// Emits the control-start frame if the stream is not yet started, then a
    /// data frame for `buf`, and returns how many payload bytes the sink
    /// accepted.
    ///
    /// After a partial write (`Ok(n)` with `n < buf.len()`), the caller must
    /// re-offer exactly the unwritten suffix `buf[n..]` before any new
    /// payload: the encoder emits no length prefix while a payload is
    /// pending, so interleaving a different buffer would corrupt the frame
    /// boundary. On failure, the error of the underlying sink is returned
    /// unchanged and the sink holds some prefix of the intended bytes.
    pub fn write(&mut self, buf: &[u8]) -> (r: Result<usize, IoError>)
        requires
            old(self).wf(),
            buf@.len() <= u32::MAX,
        ensures
            final(self).wf(),
            final(self).spec_content_type() == old(self).spec_content_type(),
            match r {
                Ok(n) => {
                    &&& n <= buf@.len()
                    &&& final(self).spec_started()
                    &&& final(self).spec_partial() == (n < buf@.len())
                    &&& final(self).sink_bytes() == old(self).sink_bytes() + write_output(
                        old(self).spec_started(),
                        old(self).spec_partial(),
                        old(self).spec_content_type(),
                        buf@,
                        n as int,
                    )
                },
                Err(_) => {
                    &&& final(self).spec_partial() == old(self).spec_partial()
                    &&& (old(self).spec_started() ==> final(self).spec_started())
                    &&& appends_prefix_of(
                        final(self).sink_bytes(),
                        old(self).sink_bytes(),
                        write_output(
                            old(self).spec_started(),
                            old(self).spec_partial(),
                            old(self).spec_content_type(),
                            buf@,
                            buf@.len() as int,
                        ),
                    )
                },
            },
    {
        let ghost pre: Seq<u8> = self.writer.bytes();
        let ghost ctb: Option<Seq<u8>> = self.spec_content_type();
        let ghost startf: Seq<u8> = start_bytes(self.started, ctb);
        let ghost lenpfx: Seq<u8> = prefix_bytes(self.partial, buf@.len());
        let ghost full: Seq<u8> = write_output(
            self.started,
            self.partial,
            ctb,
            buf@,
            buf@.len() as int,
        );
        proof {
            assert(buf@.subrange(0, buf@.len() as int) =~= buf@);
            assert(full == startf + lenpfx + buf@);
        }
        if !self.started {
            match write_control_start(&mut self.writer, &self.content_type) {
                Ok(_) => {}
                Err(e) => {
                    proof {
                        lemma_prefix_widen(self.writer.bytes(), pre, startf, lenpfx + buf@);
                        assert(startf + (lenpfx + buf@) =~= full);
                    }
                    return Err(e);
                }
            }
            self.started = true;
        } else {
            proof {
                assert(self.writer.bytes() =~= pre + startf);
            }
        }
        let ghost mid: Seq<u8> = self.writer.bytes();
        let r = self.write_frame(buf);
        proof {
            assert(mid == pre + startf);
            match r {
                Ok(n) => {
                    assert(self.writer.bytes() =~= pre + (startf + lenpfx + buf@.subrange(
                        0,
                        n as int,
                    )));
                },
                Err(_) => {
                    lemma_prefix_after(self.writer.bytes(), mid, pre, startf, lenpfx + buf@);
                    assert(startf + (lenpfx + buf@) =~= full);
                },
            }
        }
        r
    }

    /// Forwards to the underlying sink's flush; no framing bytes are
    /// written and the encoder's state is untouched.
    pub fn flush(&mut self) -> (r: Result<(), IoError>)
        ensures
            final(self).sink_bytes() == old(self).sink_bytes(),
            final(self).spec_started() == old(self).spec_started(),
            final(self).spec_partial() == old(self).spec_partial(),
            final(self).spec_content_type() == old(self).spec_content_type(),
            final(self).wf() == old(self).wf(),
    {
        self.writer.flush()
    }

    /// Emits a control-stop frame if the stream was started, and returns the
    /// owned sink. An encoder that never wrote anything emits nothing and
    /// returns its sink unmodified.
    pub fn finish(self) -> (r: Result<W, IoError>)
        ensures
            !self.spec_started() ==> r is Ok,
            match r {
                Ok(w) => w.bytes() == self.sink_bytes() + stop_bytes(self.spec_started()),
                Err(_) => true,
            },
    {
        let EncoderWriter { mut writer, content_type: _, partial: _, started } = self;
        if started {
            match write_control_stop(&mut writer) {
                Ok(_) => {}
                Err(e) => {
                    return Err(e);
                }
            }
        } else {
            proof {
                assert(writer.bytes() =~= self.sink_bytes() + stop_bytes(false));
            }
        }
        Ok(writer)
    }

    /// Emits a control-stop frame on the old sink if the stream was started,
    /// installs `writer` as the new sink, and returns the old sink with
    /// nothing written to the new one. The encoder stays usable: the next
    /// write emits a fresh control-start frame, with the same content type,
    /// on the new sink.
    pub fn reset(&mut self, writer: W) -> (r: Result<W, IoError>)
        requires
            old(self).wf(),
        ensures
            final(self).wf(),
            final(self).spec_content_type() == old(self).spec_content_type(),
            !old(self).spec_started() ==> r is Ok,
            match r {
                Ok(w) => {
                    &&& w.bytes() == old(self).sink_bytes() + stop_bytes(old(self).spec_started())
                    &&& !final(self).spec_started()
                    &&& !final(self).spec_partial()
                    &&& final(self).sink_bytes() == writer.bytes()
                },
                Err(_) => {
                    &&& final(self).spec_started() == old(self).spec_started()
                    &&& final(self).spec_partial() == old(self).spec_partial()
                    &&& appends_prefix_of(
                        final(self).sink_bytes(),
                        old(self).sink_bytes(),
                        control_stop_frame(),
                    )
                },
            },
    {
        if self.started {
            match write_control_stop(&mut self.writer) {
                Ok(_) => {}
                Err(e) => {
                    return Err(e);
                }
            }
            self.started = false;
            self.partial = false;
        } else {
            proof {
                assert(self.writer.bytes() =~= old(self).sink_bytes() + stop_bytes(false));
            }
        }
        let mut w = writer;
        core::mem::swap(&mut self.writer, &mut w);
        Ok(w)
    }

    /// Returns the owned sink without emitting any control-stop frame, even
    /// if the stream is started: abrupt abandonment, no sequence closure.
    pub fn into_inner(self) -> (r: W)
        ensures
            r.bytes() == self.sink_bytes(),
    {
        let EncoderWriter { writer, content_type: _, partial: _, started: _ } = self;
        writer
    }
}

/// Law: encoding one payload `p` in full under a non-empty content type `ct`
/// and then finishing the stream puts exactly these bytes on the wire: the
/// control-start frame announcing `ct`, the 4-byte big-endian length of `p`,
/// `p` itself, and the control-stop frame.
pub proof fn lemma_single_write_then_finish(ct: Seq<u8>, p: Seq<u8>)
    requires
        ct.len() > 0,
        p.len() <= u32::MAX,
    ensures
        write_output(false, false, Some(ct), p, p.len() as int) + stop_bytes(true)
            == control_start_frame(Some(ct)) + be32(p.len() as u32) + p + control_stop_frame(),
{
    assert(p.subrange(0, p.len() as int) =~= p);
    assert(write_output(false, false, Some(ct), p, p.len() as int) + stop_bytes(true)
        =~= control_start_frame(Some(ct)) + be32(p.len() as u32) + p + control_stop_frame());
}

/// Law: with no content type, the control-start frame carries a frame length
/// of 4 (the control type field alone) and no optional field block: it is
/// twelve bytes, the zero escape marker, the length 4, and the control type.
pub proof fn lemma_control_start_without_content_type()
    ensures
        control_start_frame(None) == be32(0) + be32(4) + be32(CONTROL_START),
        control_start_frame(None).len() == 12,
        control_start_frame(None).subrange(4, 8) == be32(4),
{
    assert(control_start_frame(None).subrange(4, 8) =~= be32(4));
}

/// Law: when the sink accepts only `k` of a payload's bytes, the
/// continuation write of the unwritten suffix emits no new length prefix,
/// and the two writes together put exactly one length prefix followed by the
/// whole payload on the wire.
pub proof fn lemma_partial_write_continuation(
    started: bool,
    ct: Option<Seq<u8>>,
    p: Seq<u8>,
    k: int,
)
    requires
        0 <= k < p.len(),
        p.len() <= u32::MAX,
    ensures
        write_output(started, false, ct, p, k) + write_output(
            true,
            true,
            ct,
            p.subrange(k, p.len() as int),
            p.len() - k,
        ) == start_bytes(started, ct) + be32(p.len() as u32) + p,
{
    let rest = p.subrange(k, p.len() as int);
    assert(rest.subrange(0, rest.len() as int) =~= rest);
    assert(write_output(started, false, ct, p, k) + write_output(true, true, ct, rest, p.len() - k)
        =~= start_bytes(started, ct) + be32(p.len() as u32) + p);
}

/// Law: a continuation write of the unwritten suffix `p[k..]`, of which the
/// sink accepts `m` bytes, appends exactly `p[k..k + m]` to the wire: no
/// control frame and no new length prefix. Successive continuations of one
/// logical payload therefore concatenate to exactly its remaining bytes.
pub proof fn lemma_continuation_appends_suffix(ct: Option<Seq<u8>>, p: Seq<u8>, k: int, m: int)
    requires
        0 <= k <= p.len(),
        0 <= m <= p.len() - k,
    ensures
        write_output(true, true, ct, p.subrange(k, p.len() as int), m) == p.subrange(k, k + m),
{
    assert(write_output(true, true, ct, p.subrange(k, p.len() as int), m) =~= p.subrange(k, k + m));
}

/// Law: a write on a stream that is not started (as after a reset) begins
/// with the control-start frame announcing the encoder's content type.
pub proof fn lemma_first_write_emits_control_start(ct: Option<Seq<u8>>, p: Seq<u8>, n: int)
    requires
        0 <= n <= p.len(),
    ensures
        write_output(false, false, ct, p, n).subrange(0, control_start_frame(ct).len() as int)
            == control_start_frame(ct),
{
    assert(write_output(false, false, ct, p, n).subrange(0, control_start_frame(ct).len() as int)
        =~= control_start_frame(ct));
}

} // verus!
