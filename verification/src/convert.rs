//! The streaming conversion between RTCM binary frames and JSON lines.
//!
//! The frame search, the message decode and the JSON text stand behind the
//! external codec; this module owns what is around them: the buffer that
//! carries partial frames across reads, the order and framing of the
//! emitted lines, and the rule that a record which does not convert is
//! skipped and nothing else.

use vstd::prelude::*;
use crate::numfmt::append_slice;
use vstd::slice::slice_subrange;

verus! {

/// Capacity of the forward frame buffer: room for two frames of the largest
/// size the wire format allows.
pub const FRAME_BUFFER_CAPACITY: usize = 2058;

#[verifier::external_type_specification]
#[verifier::external_body]
pub struct ExMessageBuilder(rtcm_rs::MessageBuilder);

pub assume_specification[ rtcm_rs::MessageBuilder::new ]() -> rtcm_rs::MessageBuilder;

/// What one scan of a byte window returns: how many bytes the frame search
/// consumed, and—if a complete frame was found—the JSON text of its decoded
/// message, or nothing where the text could not be produced.
pub uninterp spec fn scan_of(data: Seq<u8>) -> (int, Option<Option<Seq<u8>>>);

/// Outcome of scanning a byte window for one frame.
enum ScanResult {
    /// No complete frame yet: keep the unconsumed bytes and read more.
    Pending,
    /// A complete frame was found and decoded to this JSON text.
    Frame(Vec<u8>),
    /// A complete frame was consumed but yielded no JSON text; it is
    /// skipped and conversion goes on.
    Skip,
}

/// Relies on rtcm's `next_msg_frame` and `MessageFrame::get_message`, and on
/// serde_json's `to_string`: together they are the external codec, a pure
/// function of the bytes alone. `next_msg_frame` consumes at most the whole
/// window, and consumes at least the six bytes of a minimal frame whenever
/// it returns one.
#[verifier::external_body]
fn scan_frame(data: &[u8]) -> (r: (usize, ScanResult))
    ensures
        r.0 == scan_of(data@).0,
        r.0 <= data@.len(),
        (match r.1 {
            ScanResult::Pending => scan_of(data@).1 is None,
            ScanResult::Frame(v) => scan_of(data@).1 == Some(Some(v@)),
            ScanResult::Skip => scan_of(data@).1 == Some(None::<Seq<u8>>),
        }),
        !(r.1 is Pending) ==> r.0 >= 6,
{
    let (n, mf) = rtcm_rs::next_msg_frame(data);
    match mf {
        Some(m) => match serde_json::to_string(&m.get_message()) {
            Ok(s) => (n, ScanResult::Frame(s.into_bytes())),
            Err(_) => (n, ScanResult::Skip),
        },
        None => (n, ScanResult::Pending),
    }
}

/// The JSON lines owed for a byte window, in frame order, each closed by a
/// carriage return and line feed.
pub open spec fn spec_lines(data: Seq<u8>) -> Seq<Seq<u8>>
    decreases data.len(),
{
    let n = scan_of(data).0;
    let f = scan_of(data).1;
    if f is Some && 6 <= n <= data.len() {
        let rest = spec_lines(data.skip(n));
        match f->0 {
            Some(line) => seq![line + seq![13u8, 10]] + rest,
            None => rest,
        }
    } else {
        Seq::empty()
    }
}

/// How many bytes of a byte window the frame search consumes before it
/// stops for more input.
pub open spec fn spec_consumed(data: Seq<u8>) -> int
    decreases data.len(),
{
    let n = scan_of(data).0;
    let f = scan_of(data).1;
    if f is Some && 6 <= n <= data.len() {
        n + spec_consumed(data.skip(n))
    } else {
        if 0 <= n <= data.len() {
            n
        } else {
            0
        }
    }
}

/// Every emitted line is closed by a carriage return and line feed.
pub proof fn lemma_lines_crlf(data: Seq<u8>)
    ensures
        forall|i: int|
            0 <= i < spec_lines(data).len() ==> (#[trigger] spec_lines(data)[i]).len() >= 2
                && spec_lines(data)[i][spec_lines(data)[i].len() - 2] == 13 && spec_lines(
                data,
            )[i][spec_lines(data)[i].len() - 1] == 10,
    decreases data.len(),
{
    let n = scan_of(data).0;
    let f = scan_of(data).1;
    if f is Some && 6 <= n <= data.len() {
        lemma_lines_crlf(data.skip(n));
        let rest = spec_lines(data.skip(n));
        let all = spec_lines(data);
        match f->0 {
            Some(line) => {
                assert(all == seq![line + seq![13u8, 10]] + rest);
                assert forall|i: int| 0 <= i < all.len() implies (#[trigger] all[i]).len() >= 2
                    && all[i][all[i].len() - 2] == 13 && all[i][all[i].len() - 1] == 10 by {
                    if i == 0 {
                        assert(all[0] == line + seq![13u8, 10]);
                    } else {
                        assert(all[i] == rest[i - 1]);
                    }
                }
            },
            None => {
                assert(all == rest);
            },
        }
    }
}

/// The forward direction's frame buffer: bytes read from the input that the
/// frame search has not yet consumed, at most the fixed capacity.
pub struct ForwardState {
    pub buf: Vec<u8>,
}

impl ForwardState {
    /// The buffer never outgrows its capacity.
    pub open spec fn wf(self) -> bool {
        self.buf@.len() <= FRAME_BUFFER_CAPACITY
    }

    /// An empty buffer.
    pub fn new() -> (r: ForwardState)
        ensures
            r.wf(),
            r.buf@ == Seq::<u8>::empty(),
    {
        ForwardState { buf: Vec::new() }
    }

    /// How many bytes the next read may hand over.
    pub fn space(&self) -> (r: usize)
        requires
            self.wf(),
        ensures
            r == FRAME_BUFFER_CAPACITY - self.buf@.len(),
    {
        FRAME_BUFFER_CAPACITY - self.buf.len()
    }

    /// Feeds the bytes of one read and returns the JSON lines of every
    /// complete frame now found, in frame order, each closed by a carriage
    /// return and line feed; bytes of a trailing partial frame stay in the
    /// buffer for the next read.
    pub fn step(&mut self, chunk: &[u8]) -> (lines: Vec<Vec<u8>>)
        requires
            old(self).wf(),
            chunk@.len() <= FRAME_BUFFER_CAPACITY - old(self).buf@.len(),
        ensures
            final(self).wf(),
            lines.deep_view() == spec_lines(old(self).buf@ + chunk@),
            final(self).buf@ == (old(self).buf@ + chunk@).skip(
                spec_consumed(old(self).buf@ + chunk@),
            ),
    {
        append_slice(&mut self.buf, chunk);
        let ghost data = self.buf@;
        let mut lines: Vec<Vec<u8>> = Vec::new();
        let mut start: usize = 0;
        proof {
            assert(data.skip(0) =~= data);
            assert(lines.deep_view() =~= Seq::<Seq<u8>>::empty());
            assert(lines.deep_view() + spec_lines(data) =~= spec_lines(data));
        }
        loop
            invariant_except_break
                self.buf@ == data,
                data.len() <= FRAME_BUFFER_CAPACITY,
                start <= data.len(),
                spec_lines(data) == lines.deep_view() + spec_lines(data.skip(start as int)),
                spec_consumed(data) == start + spec_consumed(data.skip(start as int)),
            ensures
                self.buf@ == data,
                start <= data.len(),
                lines.deep_view() == spec_lines(data),
                start == spec_consumed(data),
            decreases data.len() - start,
        {
            let ghost remaining = data.skip(start as int);
            if start >= self.buf.len() {
                proof {
                    assert(remaining =~= Seq::<u8>::empty());
                    assert(spec_lines(remaining) =~= Seq::<Seq<u8>>::empty());
                    assert(lines.deep_view() =~= lines.deep_view() + spec_lines(remaining));
                    assert(spec_consumed(remaining) == 0);
                }
                break;
            }
            let window = slice_subrange(self.buf.as_slice(), start, self.buf.len());
            proof {
                assert(window@ =~= remaining);
            }
            let (n, sr) = scan_frame(window);
            let ghost lines0 = lines.deep_view();
            start = start + n;
            proof {
                assert(remaining.skip(n as int) =~= data.skip(start as int));
            }
            match sr {
                ScanResult::Pending => {
                    proof {
                        assert(spec_lines(remaining) =~= Seq::<Seq<u8>>::empty());
                        assert(spec_consumed(remaining) == n);
                        assert(lines.deep_view() =~= lines0 + spec_lines(remaining));
                    }
                    break;
                },
                ScanResult::Frame(v) => {
                    let ghost vv = v@;
                    let mut line = v;
                    line.push(13);
                    line.push(10);
                    let ghost lv = line@;
                    lines.push(line);
                    proof {
                        assert(lv =~= vv + seq![13u8, 10]);
                        assert(line.deep_view() =~= lv);
                        assert(lines.deep_view() =~= lines0.push(lv));
                        assert(spec_lines(remaining) == seq![lv] + spec_lines(
                            data.skip(start as int),
                        ));
                        assert(lines0 + spec_lines(remaining) =~= lines.deep_view() + spec_lines(
                            data.skip(start as int),
                        ));
                    }
                },
                ScanResult::Skip => {
                    proof {
                        assert(spec_lines(remaining) == spec_lines(data.skip(start as int)));
                    }
                },
            }
        }
        let rest = slice_subrange(self.buf.as_slice(), start, self.buf.len());
        let mut kept: Vec<u8> = Vec::new();
        append_slice(&mut kept, rest);
        self.buf = kept;
        proof {
            assert(self.buf@ =~= data.skip(spec_consumed(data)));
        }
        lines
    }
}

/// What the backward conversion of one JSON line returns: the binary frame
/// its message encodes to, or nothing where the line does not parse as a
/// message or the message does not encode.
pub uninterp spec fn rtcm_of_json(line: Seq<char>) -> Option<Seq<u8>>;

/// Relies on serde_json's `from_str` for rtcm's `Message` and on rtcm's
/// `MessageBuilder::build_message`: the builder clears its scratch space on
/// every call, so the frame produced is a function of the line alone.
#[verifier::external_body]
fn encode_json_line(builder: &mut rtcm_rs::MessageBuilder, line: &str) -> (r: Option<Vec<u8>>)
    ensures
        (match r {
            Some(v) => rtcm_of_json(line@) == Some(v@),
            None => rtcm_of_json(line@) is None,
        }),
{
    match serde_json::from_str::<rtcm_rs::Message>(line) {
        Ok(m) => match builder.build_message(&m) {
            Ok(d) => Some(d.to_vec()),
            Err(_) => None,
        },
        Err(_) => None,
    }
}

/// The backward direction's state: the external message builder.
pub struct BackwardState {
    pub builder: rtcm_rs::MessageBuilder,
}

/// The binary output owed for a sequence of JSON lines: the frames of the
/// lines that parse and encode, concatenated in their original order; a
/// line that does not convert contributes nothing.
pub open spec fn spec_backward(lines: Seq<Seq<char>>) -> Seq<u8>
    decreases lines.len(),
{
    if lines.len() == 0 {
        Seq::empty()
    } else {
        (match rtcm_of_json(lines[0]) {
            Some(b) => b,
            None => Seq::<u8>::empty(),
        }) + spec_backward(lines.drop_first())
    }
}

impl BackwardState {
    /// A fresh builder.
    pub fn new() -> (r: BackwardState) {
        BackwardState { builder: rtcm_rs::MessageBuilder::new() }
    }

    /// Converts one JSON line to its binary frame, if it has one.
    pub fn line_to_binary(&mut self, line: &str) -> (r: Option<Vec<u8>>)
        ensures
            (match r {
                Some(v) => rtcm_of_json(line@) == Some(v@),
                None => rtcm_of_json(line@) is None,
            }),
    {
        encode_json_line(&mut self.builder, line)
    }

    /// Converts a sequence of JSON lines: the output holds the frames of
    /// exactly the lines that convert, in their original order.
    pub fn convert_lines(&mut self, lines: &Vec<String>) -> (out: Vec<u8>)
        ensures
            out@ == spec_backward(lines@.map_values(|l: String| l@)),
    {
        let ghost mapped = lines@.map_values(|l: String| l@);
        let mut out: Vec<u8> = Vec::new();
        let mut k: usize = 0;
        proof {
            assert(mapped.skip(0) =~= mapped);
            assert(out@ + spec_backward(mapped.skip(0)) =~= spec_backward(mapped));
        }
        while k < lines.len()
            invariant
                k <= lines@.len(),
                mapped == lines@.map_values(|l: String| l@),
                spec_backward(mapped) == out@ + spec_backward(mapped.skip(k as int)),
            decreases lines@.len() - k,
        {
            let ghost out0 = out@;
            let r = self.line_to_binary(lines[k].as_str());
            match r {
                Some(v) => {
                    crate::numfmt::append_vec(&mut out, &v);
                },
                None => {},
            }
            k = k + 1;
            proof {
                assert(mapped.skip(k as int - 1).drop_first() =~= mapped.skip(k as int));
                assert(mapped.skip(k as int - 1)[0] == mapped[k as int - 1]);
            }
        }
        proof {
            assert(mapped.skip(mapped.len() as int) =~= Seq::<Seq<char>>::empty());
        }
        out
    }
}

/// A line that does not convert adds nothing: the output for a sequence of
/// lines with it is the output for the sequence without it.
pub proof fn lemma_invalid_line_dropped(lines: Seq<Seq<char>>, i: int)
    requires
        0 <= i < lines.len(),
        rtcm_of_json(lines[i]) is None,
    ensures
        spec_backward(lines) == spec_backward(lines.remove(i)),
    decreases lines.len(),
{
    if i == 0 {
        assert(lines.remove(0) =~= lines.drop_first());
    } else {
        lemma_invalid_line_dropped(lines.drop_first(), i - 1);
        assert(lines.remove(i).drop_first() =~= lines.drop_first().remove(i - 1));
        assert(lines.remove(i)[0] == lines[0]);
    }
}

} // verus!
