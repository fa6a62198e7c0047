use vstd::prelude::*;

use crate::render::{
    copy_bytes, lemma_render_line, placeholder_count, render, spec_render, RenderError, Value,
    NEWLINE,
};

verus! {

/// Descriptor of the standard input endpoint.
pub const STDIN: usize = 0;

/// Descriptor of the standard output endpoint.
pub const STDOUT: usize = 1;

/// Failure of a transport call: unexpected at this layer and not recoverable.
#[derive(Debug, PartialEq, Eq)]
pub struct TransportFailure;

/// The bulk output path: records the payload of every bulk-write transport
/// call requested so far, in call order. The caller that owns the transport
/// performs the recorded calls in that order.
pub struct BulkSink {
    /// One entry per bulk-write call, in the order the calls are made.
    pub calls: Vec<Vec<u8>>,
}

impl View for BulkSink {
    type V = Seq<Seq<u8>>;

    open spec fn view(&self) -> Seq<Seq<u8>> {
        self.calls.deep_view()
    }
}

/// The unbuffered output path: records the byte of every single-byte
/// transport call requested so far, one entry per call, in call order.
pub struct ByteSink {
    /// One entry per single-byte call, in the order the calls are made.
    pub bytes: Vec<u8>,
}

impl View for ByteSink {
    type V = Seq<u8>;

    open spec fn view(&self) -> Seq<u8> {
        self.bytes@
    }
}

/// All bytes a sequence of bulk-write calls carries, concatenated in call order.
pub open spec fn stream_bytes(calls: Seq<Seq<u8>>) -> Seq<u8>
    decreases calls.len(),
{
    if calls.len() == 0 {
        Seq::empty()
    } else {
        stream_bytes(calls.drop_last()) + calls.last()
    }
}

proof fn lemma_stream_bytes_push(calls: Seq<Seq<u8>>, x: Seq<u8>)
    ensures
        stream_bytes(calls.push(x)) == stream_bytes(calls) + x,
{
    assert(calls.push(x).drop_last() =~= calls);
    assert(calls.push(x).last() == x);
    assert(stream_bytes(calls.push(x)) == stream_bytes(calls.push(x).drop_last()) + calls.push(
        x,
    ).last());
}

impl BulkSink {
    /// A bulk path on which no call has been made yet.
    pub fn new() -> (s: Self)
        ensures
            s@ == Seq::<Seq<u8>>::empty(),
    {
        let s = BulkSink { calls: Vec::new() };
        proof {
            assert(s@ =~= Seq::<Seq<u8>>::empty());
        }
        s
    }
}

impl ByteSink {
    /// An unbuffered path on which no call has been made yet.
    pub fn new() -> (s: Self)
        ensures
            s@ == Seq::<u8>::empty(),
    {
        ByteSink { bytes: Vec::new() }
    }
}

/// Forward one whole fragment as a single bulk-write call.
pub fn write_bulk(out: &mut BulkSink, frag: Vec<u8>)
    ensures
        final(out)@ == old(out)@.push(frag@),
        stream_bytes(final(out)@) == stream_bytes(old(out)@) + frag@,
{
    let ghost pre = out.calls.deep_view();
    out.calls.push(frag);
    proof {
        assert(out.calls.deep_view() =~~= pre.push(frag@));
        lemma_stream_bytes_push(pre, frag@);
    }
}

/// Forward one byte to the console: exactly one single-byte transport call.
/// No failure is surfaced on this path.
pub fn putc(out: &mut ByteSink, c: u8)
    ensures
        final(out)@ == old(out)@.push(c),
{
    out.bytes.push(c);
}

/// Forward a fragment byte by byte through the single-byte path, in order.
pub fn write_bytewise(out: &mut ByteSink, frag: &Vec<u8>)
    ensures
        final(out)@ == old(out)@ + frag@,
{
    let ghost pre = out@;
    let mut i: usize = 0;
    proof {
        assert(pre + frag@.take(0) =~= pre);
    }
    while i < frag.len()
        invariant
            i <= frag.len(),
            out@ == pre + frag@.take(i as int),
        decreases frag.len() - i,
    {
        putc(out, frag[i]);
        i = i + 1;
        proof {
            assert(pre + frag@.take(i as int) =~= (pre + frag@.take(i as int - 1)).push(
                frag@[i as int - 1],
            ));
        }
    }
    proof {
        assert(frag@.take(frag@.len() as int) =~= frag@);
    }
}

/// Formatted print through the bulk path: render the template with its
/// values and forward the whole rendered text as one bulk-write call. On a
/// rendering error nothing is forwarded.
pub fn print(out: &mut BulkSink, template: &Vec<u8>, vals: &Vec<Value>) -> (r: Result<
    (),
    RenderError,
>)
    ensures
        (r is Ok) <==> placeholder_count(template@) == vals@.len(),
        r is Ok ==> {
            &&& spec_render(template@, vals@) matches Some(text)
            &&& final(out)@ == old(out)@.push(text)
            &&& stream_bytes(final(out)@) == stream_bytes(old(out)@) + text
        },
        r is Err ==> final(out)@ == old(out)@ && spec_render(template@, vals@) is None,
        (r == Err::<(), RenderError>(RenderError::MissingValue) <==> placeholder_count(template@)
            > vals@.len()),
        (r == Err::<(), RenderError>(RenderError::UnusedValue) <==> placeholder_count(template@)
            < vals@.len()),
{
    match render(template, vals) {
        Ok(text) => {
            write_bulk(out, text);
            Ok(())
        },
        Err(e) => Err(e),
    }
}

/// Line-oriented print through the bulk path: exactly one line terminator is
/// appended to the template before rendering, never more, never fewer, so
/// the forwarded text is the plain rendering with one trailing newline —
/// the same output `print` gives on the template with a newline appended.
pub fn print_line(out: &mut BulkSink, template: &Vec<u8>, vals: &Vec<Value>) -> (r: Result<
    (),
    RenderError,
>)
    ensures
        (r is Ok) <==> placeholder_count(template@) == vals@.len(),
        r is Ok ==> {
            &&& spec_render(template@, vals@) matches Some(text)
            &&& final(out)@ == old(out)@.push(text.push(NEWLINE))
            &&& stream_bytes(final(out)@) == stream_bytes(old(out)@) + text.push(NEWLINE)
        },
        r is Err ==> final(out)@ == old(out)@ && spec_render(template@, vals@) is None,
        (r == Err::<(), RenderError>(RenderError::MissingValue) <==> placeholder_count(template@)
            > vals@.len()),
        (r == Err::<(), RenderError>(RenderError::UnusedValue) <==> placeholder_count(template@)
            < vals@.len()),
{
    let mut extended = copy_bytes(template);
    extended.push(NEWLINE);
    proof {
        assert(extended@ == template@.push(NEWLINE));
        lemma_render_line(template@, vals@);
    }
    print(out, &extended, vals)
}

/// Formatted print through the unbuffered path: render the template with its
/// values and forward each byte of the rendered text as its own single-byte
/// call, in order; their concatenation is exactly the rendered text. The
/// appended segment depends on the template and values alone, never on the
/// sink's state, so repeating a call appends an identical segment.
pub fn print_putc(out: &mut ByteSink, template: &Vec<u8>, vals: &Vec<Value>) -> (r: Result<
    (),
    RenderError,
>)
    ensures
        (r is Ok) <==> placeholder_count(template@) == vals@.len(),
        r is Ok ==> {
            &&& spec_render(template@, vals@) matches Some(text)
            &&& final(out)@ == old(out)@ + text
        },
        r is Err ==> final(out)@ == old(out)@ && spec_render(template@, vals@) is None,
        (r == Err::<(), RenderError>(RenderError::MissingValue) <==> placeholder_count(template@)
            > vals@.len()),
        (r == Err::<(), RenderError>(RenderError::UnusedValue) <==> placeholder_count(template@)
            < vals@.len()),
{
    match render(template, vals) {
        Ok(text) => {
            write_bytewise(out, &text);
            Ok(())
        },
        Err(e) => Err(e),
    }
}

/// Classify the transport's report of a one-byte read. `ret` is the signed
/// transfer result, `byte` what the one-byte buffer holds. A one-byte read
/// may only legally report 0 (end of stream, no value) or 1 (the byte was
/// received); any other report is a fatal transport failure from which the
/// caller must not recover.
pub fn getc(ret: isize, byte: u8) -> (r: Result<Option<u8>, TransportFailure>)
    ensures
        ret == 1 ==> r == Ok::<Option<u8>, TransportFailure>(Some(byte)),
        ret == 0 ==> r == Ok::<Option<u8>, TransportFailure>(None),
        ret != 0 && ret != 1 ==> r == Err::<Option<u8>, TransportFailure>(TransportFailure),
{
    if ret == 1 {
        Ok(Some(byte))
    } else if ret == 0 {
        Ok(None)
    } else {
        Err(TransportFailure)
    }
}

/// Classify the transport's report of a bulk write: a negative result is a
/// failure that the print path treats as fatal, any other result is success.
pub fn bulk_result(ret: isize) -> (r: Result<(), TransportFailure>)
    ensures
        (r is Ok) <==> ret >= 0,
        ret < 0 ==> r == Err::<(), TransportFailure>(TransportFailure),
{
    if ret >= 0 {
        Ok(())
    } else {
        Err(TransportFailure)
    }
}

} // verus!
