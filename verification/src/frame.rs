//! Tagged binary frames: one tag byte naming the source stream, then the chunk.

use vstd::prelude::*;

verus! {

/// Tag byte of a frame that carries standard output.
pub const STDOUT_CHUNK_PREFIX: u8 = 0;

/// Tag byte of a frame that carries standard error.
pub const STDERR_CHUNK_PREFIX: u8 = 1;

/// Largest number of payload bytes in one frame.
pub const MAX_CHUNK_SIZE: usize = 16384;

/// The process stream a chunk was read from.
#[derive(Clone, Copy, Debug, PartialEq, Eq, Structural)]
pub enum StreamSource {
    Stdout,
    Stderr,
}

impl StreamSource {
    /// The tag byte that marks frames of this stream.
    pub open spec fn tag_spec(self) -> u8 {
        match self {
            StreamSource::Stdout => STDOUT_CHUNK_PREFIX,
            StreamSource::Stderr => STDERR_CHUNK_PREFIX,
        }
    }

    /// The tag byte that marks frames of this stream.
    #[verifier::when_used_as_spec(tag_spec)]
    pub fn tag(self) -> (tag: u8)
        ensures
            tag == self.tag_spec(),
    {
        match self {
            StreamSource::Stdout => STDOUT_CHUNK_PREFIX,
            StreamSource::Stderr => STDERR_CHUNK_PREFIX,
        }
    }
}

/// The frame that carries `chunk` for `source`: the tag byte, then the chunk.
pub open spec fn frame_of(source: StreamSource, chunk: Seq<u8>) -> Seq<u8> {
    seq![source.tag_spec()] + chunk
}

/// The bytes of a frame after its tag byte.
pub open spec fn payload_of(frame: Seq<u8>) -> Seq<u8> {
    frame.skip(1)
}

/// Whether `frame` is a frame of `source`: its first byte is that stream's tag.
pub open spec fn tagged_for(frame: Seq<u8>, source: StreamSource) -> bool {
    frame.len() >= 1 && frame[0] == source.tag_spec()
}

/// Whether `frame` is one this protocol sends: a known tag, then between one
/// and `MAX_CHUNK_SIZE` payload bytes.
pub open spec fn well_formed_frame(frame: Seq<u8>) -> bool {
    &&& 2 <= frame.len() <= MAX_CHUNK_SIZE + 1
    &&& (frame[0] == STDOUT_CHUNK_PREFIX || frame[0] == STDERR_CHUNK_PREFIX)
}

/// The payloads of `frames`, joined in order.
pub open spec fn joined_payloads(frames: Seq<Seq<u8>>) -> Seq<u8>
    decreases frames.len(),
{
    if frames.len() == 0 {
        Seq::empty()
    } else {
        joined_payloads(frames.drop_last()) + payload_of(frames.last())
    }
}

/// The frames of `frames` that carry the tag of `source`, in order.
pub open spec fn frames_from(frames: Seq<Seq<u8>>, source: StreamSource) -> Seq<Seq<u8>>
    decreases frames.len(),
{
    if frames.len() == 0 {
        Seq::empty()
    } else if tagged_for(frames.last(), source) {
        frames_from(frames.drop_last(), source).push(frames.last())
    } else {
        frames_from(frames.drop_last(), source)
    }
}

/// Whether `sent` is `first` and `second` merged: every frame of either
/// exactly once, each of the two in its own order.
pub open spec fn interleaving(
    sent: Seq<Seq<u8>>,
    first: Seq<Seq<u8>>,
    second: Seq<Seq<u8>>,
) -> bool
    decreases sent.len(),
{
    if sent.len() == 0 {
        first.len() == 0 && second.len() == 0
    } else {
        ||| first.len() > 0 && first.last() == sent.last() && interleaving(
            sent.drop_last(),
            first.drop_last(),
            second,
        )
        ||| second.len() > 0 && second.last() == sent.last() && interleaving(
            sent.drop_last(),
            first,
            second.drop_last(),
        )
    }
}

/// Whether every frame of `frames` carries the tag of `source`.
pub open spec fn all_tagged_for(frames: Seq<Seq<u8>>, source: StreamSource) -> bool {
    forall|i: int| 0 <= i < frames.len() ==> tagged_for(#[trigger] frames[i], source)
}

/// What a receiver reassembles for `source` from everything sent on one
/// connection: the payloads of the frames tagged for it, joined in order.
pub open spec fn demultiplexed(frames: Seq<Seq<u8>>, source: StreamSource) -> Seq<u8> {
    joined_payloads(frames_from(frames, source))
}

/// A frame built by `frame_of` carries the tag of its source and the chunk as
/// its payload; it is well formed when the chunk is neither empty nor longer
/// than `MAX_CHUNK_SIZE`.
pub proof fn lemma_frame_of(source: StreamSource, chunk: Seq<u8>)
    ensures
        tagged_for(frame_of(source, chunk), source),
        payload_of(frame_of(source, chunk)) == chunk,
        frame_of(source, chunk).len() == chunk.len() + 1,
        1 <= chunk.len() <= MAX_CHUNK_SIZE ==> well_formed_frame(frame_of(source, chunk)),
{
    assert(payload_of(frame_of(source, chunk)) =~= chunk);
}

/// A frame carries the tag of at most one stream.
pub proof fn lemma_tags_differ(frame: Seq<u8>)
    ensures
        !(tagged_for(frame, StreamSource::Stdout) && tagged_for(frame, StreamSource::Stderr)),
{
}

/// Joining payloads after appending one frame appends that frame's payload.
pub proof fn lemma_joined_push(frames: Seq<Seq<u8>>, frame: Seq<u8>)
    ensures
        joined_payloads(frames.push(frame)) == joined_payloads(frames) + payload_of(frame),
{
    assert(frames.push(frame).drop_last() =~= frames);
}

/// However the frames of the two streams are merged on the connection, the
/// tags take them apart again: the frames tagged for a stream are exactly that
/// stream's frames, in its order.
pub proof fn lemma_tags_separate(sent: Seq<Seq<u8>>, out: Seq<Seq<u8>>, err: Seq<Seq<u8>>)
    requires
        interleaving(sent, out, err),
        all_tagged_for(out, StreamSource::Stdout),
        all_tagged_for(err, StreamSource::Stderr),
    ensures
        frames_from(sent, StreamSource::Stdout) == out,
        frames_from(sent, StreamSource::Stderr) == err,
    decreases sent.len(),
{
    if sent.len() == 0 {
        assert(out =~= Seq::empty());
        assert(err =~= Seq::empty());
    } else {
        let last = sent.last();
        lemma_tags_differ(last);
        if out.len() > 0 && out.last() == last && interleaving(
            sent.drop_last(),
            out.drop_last(),
            err,
        ) {
            assert(tagged_for(out[out.len() - 1], StreamSource::Stdout));
            assert forall|i: int| 0 <= i < out.drop_last().len() implies tagged_for(
                #[trigger] out.drop_last()[i],
                StreamSource::Stdout,
            ) by {
                assert(out.drop_last()[i] == out[i]);
            }
            lemma_tags_separate(sent.drop_last(), out.drop_last(), err);
            assert(out.drop_last().push(last) =~= out);
        } else {
            assert(tagged_for(err[err.len() - 1], StreamSource::Stderr));
            assert forall|i: int| 0 <= i < err.drop_last().len() implies tagged_for(
                #[trigger] err.drop_last()[i],
                StreamSource::Stderr,
            ) by {
                assert(err.drop_last()[i] == err[i]);
            }
            lemma_tags_separate(sent.drop_last(), out, err.drop_last());
            assert(err.drop_last().push(last) =~= err);
        }
    }
}

} // verus!
