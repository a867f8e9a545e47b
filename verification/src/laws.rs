//! Laws of the gateway, stated over the spec-level state machine and proved
//! once and for all.

use vstd::prelude::*;

use crate::stream::{spec_step, GwState, SpecPollInput, SpecPollStep, StreamEnd};
use crate::utf8::{is_utf8, lemma_utf8_concat, lemma_valid_from_shift, utf8_valid_from};

verus! {

/// Delivered offset after one successful read of the whole stream `b`: it
/// advances to the stream's length exactly when the stream did not shrink
/// and the bytes past the offset decode.
pub open spec fn read_next_offset(off: nat, b: Seq<u8>) -> nat {
    if b.len() >= off && utf8_valid_from(b, off as int) {
        b.len() as nat
    } else {
        off
    }
}

/// The chunks (none or one) produced by one successful read of the whole
/// stream `b` at delivered offset `off`.
pub open spec fn read_chunks(off: nat, b: Seq<u8>) -> Seq<Seq<u8>> {
    if b.len() > off && utf8_valid_from(b, off as int) {
        seq![b.subrange(off as int, b.len() as int)]
    } else {
        Seq::empty()
    }
}

/// All chunks produced by a sequence of successful reads, each of the whole
/// stream at that moment, starting from delivered offset `off`.
pub open spec fn chunks_of_reads(off: nat, reads: Seq<Seq<u8>>) -> Seq<Seq<u8>>
    decreases reads.len(),
{
    if reads.len() == 0 {
        Seq::empty()
    } else {
        read_chunks(off, reads[0]) + chunks_of_reads(
            read_next_offset(off, reads[0]),
            reads.drop_first(),
        )
    }
}

/// Delivered offset after a sequence of successful reads.
pub open spec fn offset_of_reads(off: nat, reads: Seq<Seq<u8>>) -> nat
    decreases reads.len(),
{
    if reads.len() == 0 {
        off
    } else {
        offset_of_reads(read_next_offset(off, reads[0]), reads.drop_first())
    }
}

/// Concatenation of a sequence of chunks.
pub open spec fn concat_chunks(cs: Seq<Seq<u8>>) -> Seq<u8>
    decreases cs.len(),
{
    if cs.len() == 0 {
        Seq::empty()
    } else {
        cs[0] + concat_chunks(cs.drop_first())
    }
}

/// What a poll that observed a successful read does, in terms of the read
/// model: the offset moves to [`read_next_offset`], and a chunk comes out
/// exactly when [`read_chunks`] holds one, with that content. Neither the
/// call's phase nor its remaining budget has any part in it, so chunk
/// production is unaffected by how polls are grouped into `next_token`
/// calls.
pub proof fn lemma_step_read_model(st: GwState, b: Seq<u8>, done: bool)
    ensures
        ({
            let (d, st2) = spec_step(st, SpecPollInput::Polled { bytes: Some(b), done });
            &&& st2.offset == read_next_offset(st.offset, b)
            &&& (d matches SpecPollStep::Chunk(c) ==> read_chunks(st.offset, b) =~= seq![c])
            &&& (!(d matches SpecPollStep::Chunk(_)) ==> read_chunks(st.offset, b) =~= Seq::<
                Seq<u8>,
            >::empty())
        }),
{
    if b.len() >= st.offset && utf8_valid_from(b, st.offset as int) && b.len() == st.offset {
        assert(read_next_offset(st.offset, b) == st.offset);
    }
}

/// Every produced chunk is a copy of the stream bytes between the old and
/// the new delivered offset: over any sequence of reads that are prefixes
/// of the final stream `fin` and cut it at decodable points, the chunks
/// concatenate to exactly the final bytes between the starting and the
/// final offset, with no gaps and no overlaps.
pub proof fn lemma_reads_reassemble(fin: Seq<u8>, off: nat, reads: Seq<Seq<u8>>)
    requires
        off <= fin.len(),
        is_utf8(fin.take(off as int)),
        forall|i: int|
            0 <= i < reads.len() ==> (#[trigger] reads[i]).len() <= fin.len() && reads[i]
                == fin.take(reads[i].len() as int) && is_utf8(fin.take(reads[i].len() as int)),
    ensures
        ({
            let fo = offset_of_reads(off, reads);
            &&& off <= fo <= fin.len()
            &&& is_utf8(fin.take(fo as int))
            &&& concat_chunks(chunks_of_reads(off, reads)) == fin.subrange(off as int, fo as int)
            &&& forall|i: int| 0 <= i < reads.len() ==> fo >= (#[trigger] reads[i]).len()
        }),
    decreases reads.len(),
{
    let fo = offset_of_reads(off, reads);
    if reads.len() == 0 {
        assert(fin.subrange(off as int, off as int) =~= Seq::<u8>::empty());
    } else {
        let b = reads[0];
        let rest = reads.drop_first();
        let off1 = read_next_offset(off, b);
        if b.len() >= off {
            // The bytes past the offset are a middle segment of `fin`
            // between two decodable cuts, so the read decodes and the
            // offset advances to the read's length.
            let mid = fin.subrange(off as int, b.len() as int);
            assert(fin.take(off as int) + mid =~= fin.take(b.len() as int));
            lemma_utf8_concat(fin.take(off as int), mid);
            assert(is_utf8(mid));
            assert(b.skip(off as int) =~= mid);
            lemma_valid_from_shift(b, off as int, 0);
            assert(utf8_valid_from(b, off as int));
            assert(off1 == b.len());
        } else {
            assert(off1 == off);
        }
        assert(forall|i: int|
            0 <= i < rest.len() ==> rest[i] == reads[i + 1] && (#[trigger] rest[i]).len()
                <= fin.len() && rest[i] == fin.take(rest[i].len() as int) && is_utf8(
                fin.take(rest[i].len() as int),
            ));
        lemma_reads_reassemble(fin, off1, rest);
        assert(fo == offset_of_reads(off1, rest));
        assert(off1 <= fo <= fin.len());
        assert forall|i: int| 0 <= i < reads.len() implies fo >= (#[trigger] reads[i]).len() by {
            if i == 0 {
                assert(fo >= off1);
            } else {
                assert(reads[i] == rest[i - 1]);
                assert(fo >= rest[i - 1].len());
            }
        }
        let tail_chunks = chunks_of_reads(off1, rest);
        assert(concat_chunks(tail_chunks) == fin.subrange(off1 as int, fo as int));
        if b.len() > off && utf8_valid_from(b, off as int) {
            let c = b.subrange(off as int, b.len() as int);
            assert(c =~= fin.subrange(off as int, b.len() as int));
            assert(chunks_of_reads(off, reads) =~= seq![c] + tail_chunks);
            assert(concat_chunks(seq![c] + tail_chunks) == c + concat_chunks(
                (seq![c] + tail_chunks).drop_first(),
            ));
            assert((seq![c] + tail_chunks).drop_first() =~= tail_chunks);
            assert(c + fin.subrange(off1 as int, fo as int) =~= fin.subrange(
                off as int,
                fo as int,
            ));
        } else {
            assert(chunks_of_reads(off, reads) =~= tail_chunks);
            assert(off1 == off);
        }
    }
}

/// Reassembly of a completed slot: when the reads are decodable prefixes of
/// the final stream and the last read saw the whole of it, concatenating
/// every produced chunk yields exactly the final bytes, in order.
pub proof fn lemma_completed_slot_reassembles(fin: Seq<u8>, reads: Seq<Seq<u8>>)
    requires
        is_utf8(fin),
        reads.len() > 0,
        reads.last() == fin,
        forall|i: int|
            0 <= i < reads.len() ==> (#[trigger] reads[i]).len() <= fin.len() && reads[i]
                == fin.take(reads[i].len() as int) && is_utf8(fin.take(reads[i].len() as int)),
    ensures
        concat_chunks(chunks_of_reads(0, reads)) == fin,
{
    assert(fin.take(0) =~= Seq::<u8>::empty());
    lemma_reads_reassemble(fin, 0, reads);
    let fo = offset_of_reads(0, reads);
    assert(fo >= reads[reads.len() - 1].len());
    assert(fo == fin.len());
    assert(fin.subrange(0, fo as int) =~= fin);
}

/// If the response stream is never created, `next_token` never returns:
/// every poll of a call that has not started and only ever observes a
/// missing stream decides to retry, and the state never changes, so neither
/// a chunk nor an end-of-stream signal is ever produced.
pub proof fn lemma_missing_stream_waits_forever(st: GwState)
    requires
        !st.started,
    ensures
        ({
            let (d, st2) = spec_step(st, SpecPollInput::Missing);
            &&& d == SpecPollStep::Retry
            &&& st2 == st
        }),
{
}

/// Every chunk the machine produces is non-empty, well-formed UTF-8: it is
/// the suffix of the read bytes past the delivered offset, and the machine
/// checked that suffix before yielding it.
pub proof fn lemma_chunks_are_text(st: GwState, input: SpecPollInput)
    ensures
        spec_step(st, input).0 matches SpecPollStep::Chunk(c) ==> is_utf8(c) && c.len() > 0,
{
    if let SpecPollInput::Polled { bytes: Some(b), .. } = input {
        if b.len() > st.offset && utf8_valid_from(b, st.offset as int) {
            lemma_valid_from_shift(b, st.offset as int, 0);
            assert(b.subrange(st.offset as int, b.len() as int) =~= b.skip(st.offset as int));
        }
    }
}

/// If the completion marker exists and the stream has not grown since the
/// last read, the very next poll ends the stream, as a normal completion.
pub proof fn lemma_marker_without_growth_completes(st: GwState, b: Seq<u8>)
    requires
        b.len() == st.offset,
    ensures
        spec_step(st, SpecPollInput::Polled { bytes: Some(b), done: true }).0
            == SpecPollStep::End(StreamEnd::Completed),
{
}

/// If the response stream shrinks below the delivered offset, the next poll
/// ends the stream at once — the same "no more tokens" signal as a normal
/// completion, only tagged as truncation internally — and the delivered
/// offset stays where it was.
pub proof fn lemma_shrunken_stream_ends(st: GwState, b: Seq<u8>, done: bool)
    requires
        b.len() < st.offset,
    ensures
        ({
            let (d, st2) = spec_step(st, SpecPollInput::Polled { bytes: Some(b), done });
            &&& d == SpecPollStep::End(StreamEnd::Truncated)
            &&& st2.offset == st.offset
        }),
{
}

} // verus!
