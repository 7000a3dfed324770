//! A file brings the same samples whether it is streamed or decoded as a whole.

use vstd::prelude::*;
use vstd::arithmetic::div_mod::lemma_mod_multiples_basic;
use crate::api::{decode_call_on, decode_course, open_to_status, opens, read_to_status, reported};
use crate::buffer::{
    CHUNK_FRAMES, SymphoniaCAudioBuffer, all_chunks, chunk_failed, chunk_want, decoded_through,
    decoded_whole, read_chunk, silence,
};
use crate::decoder::{
    DecoderView, SymphoniaCDecoder, fresh, law_pending_is_tidy, law_rounds_are_the_record,
    lemma_reads_on_twice, read_frames, supply, taken, took,
};
use crate::error::ApiError;
use crate::laws::{
    law_buffer_counts_its_samples, law_no_sample_is_dropped, law_pieces_make_up_the_stream,
    law_takes_add_up, lemma_chunks_stand, lemma_floor, lemma_steady_channels, lemma_view_is_steady,
    lemma_whole_rounds, pieces, read_in_pieces, steady, total,
};
use crate::media::{CodecStep, MediaStream, codec_steps, reads};
use crate::session::{
    Round, Verdict, ended, failed, lemma_samples_of_concat, lemma_steps_of_concat,
    lemma_steps_of_push, only_last_stops, rate_after, reads_of, samples_of, steps_of,
};
use crate::status::{SYMPHONIA_C_END_OF_STREAM, SYMPHONIA_C_OK};

verus! {

/// One call that reads some frames: its arguments and what it gave.
pub struct ReadCall {
    /// The samples in the caller's buffer before the call.
    pub out_before: Seq<u32>,
    /// The samples in the caller's buffer after the call.
    pub out_after: Seq<u32>,
    /// The number of frames that were asked for.
    pub capacity: usize,
    /// The number of frames that came.
    pub frames: usize,
    /// The message that belongs to no decoder, before the call.
    pub global_before: Seq<u8>,
    /// The message that belongs to no decoder, after the call.
    pub global_after: Seq<u8>,
    /// The status that the call gave.
    pub status: i32,
}

/// The call asked for some frames and led from one decoder to the other.
pub open spec fn called(before: SymphoniaCDecoder, call: ReadCall, after: SymphoniaCDecoder) -> bool {
    &&& call.capacity > 0
    &&& after.wf()
    &&& read_to_status(
        Some(before@),
        Some(after@),
        Some(call.out_before),
        Some(call.out_after),
        call.capacity,
        Some(call.frames),
        call.global_before,
        call.global_after,
        call.status,
    )
}

/// A stream is read to its end without a failure: each call leads from one of the decoders to the
/// next one, and the last one of them is the one that finds the stream ended.
pub open spec fn streamed(decoders: Seq<SymphoniaCDecoder>, calls: Seq<ReadCall>) -> bool {
    &&& calls.len() > 0
    &&& decoders.len() == calls.len() + 1
    &&& forall|i: int|
        #![trigger calls[i]]
        0 <= i < calls.len() ==> {
            &&& called(decoders[i], calls[i], decoders[i + 1])
            &&& calls[i].status == if i == calls.len() - 1 {
                SYMPHONIA_C_END_OF_STREAM
            } else {
                SYMPHONIA_C_OK
            }
        }
}

/// The samples of the frames that a call brought.
pub open spec fn call_samples(before: SymphoniaCDecoder, call: ReadCall) -> Seq<u32> {
    call.out_after.take(call.frames * before@.channels)
}

/// The samples that all the calls brought, in order.
pub open spec fn stream_samples(decoders: Seq<SymphoniaCDecoder>, calls: Seq<ReadCall>) -> Seq<u32>
    decreases calls.len(),
{
    if calls.len() == 0 {
        Seq::empty()
    } else {
        stream_samples(decoders.drop_last(), calls.drop_last()) + call_samples(
            decoders[calls.len() - 1],
            calls.last(),
        )
    }
}

/// As far as both lists go they hold the same.
pub open spec fn same_course<T>(a: Seq<T>, b: Seq<T>) -> bool {
    forall|k: int|
        #![trigger a[k]]
        #![trigger b[k]]
        0 <= k < a.len() && k < b.len() ==> a[k] == b[k]
}

/// As far as two decoders have come, the same was read from their containers, and the same was asked
/// of their codecs with the same outcomes.
pub open spec fn same_record(a: SymphoniaCDecoder, b: SymphoniaCDecoder) -> bool {
    &&& same_course(reads(a.reader()), reads(b.reader()))
    &&& same_course(codec_steps(a.codec()), codec_steps(b.codec()))
}

/// Where the same was read from the container and the codec gave the same, a round is the same.
proof fn lemma_same_round(a: Seq<Round>, b: Seq<Round>, track_id: u32, k: int)
    requires
        same_course(reads_of(a), reads_of(b)),
        same_course(steps_of(a), steps_of(b)),
        forall|i: int| 0 <= i < a.len() ==> (#[trigger] a[i]).belongs(track_id),
        forall|i: int| 0 <= i < b.len() ==> (#[trigger] b[i]).belongs(track_id),
        0 <= k < a.len(),
        k < b.len(),
        a.take(k) == b.take(k),
    ensures
        a[k] == b[k],
{
    assert(reads_of(a)[k] == reads_of(b)[k]);
    assert(a[k].read == b[k].read);
    if a[k].decoded is Some {
        assert(b[k].decoded is Some);
        lemma_step_of_round(a, k);
        lemma_step_of_round(b, k);
        let n = steps_of(a.take(k)).len() as int;
        assert(steps_of(a)[n] == steps_of(b)[n]);
    }
}

/// What a round asks of the codec stands behind what the rounds before it ask.
proof fn lemma_step_of_round(rounds: Seq<Round>, k: int)
    requires
        0 <= k < rounds.len(),
        rounds[k].read matches Ok(Some(_)),
        rounds[k].decoded is Some,
    ensures
        steps_of(rounds.take(k)).len() < steps_of(rounds).len(),
        steps_of(rounds)[steps_of(rounds.take(k)).len() as int] == (CodecStep::Decode {
            packet: rounds[k].read->Ok_0->0,
            outcome: rounds[k].decoded->0,
        }),
{
    let head = rounds.take(k);
    let rest = rounds.skip(k + 1);
    assert(rounds =~= head.push(rounds[k]) + rest);
    lemma_steps_of_concat(head.push(rounds[k]), rest);
    lemma_steps_of_push(head, rounds[k]);
}

/// Where the same was read from the containers and the codecs gave the same, the rounds are the same.
proof fn lemma_same_rounds(a: Seq<Round>, b: Seq<Round>, track_id: u32, k: int)
    requires
        same_course(reads_of(a), reads_of(b)),
        same_course(steps_of(a), steps_of(b)),
        forall|i: int| 0 <= i < a.len() ==> (#[trigger] a[i]).belongs(track_id),
        forall|i: int| 0 <= i < b.len() ==> (#[trigger] b[i]).belongs(track_id),
        0 <= k <= a.len(),
        k <= b.len(),
    ensures
        a.take(k) == b.take(k),
    decreases k,
{
    if k > 0 {
        lemma_same_rounds(a, b, track_id, k - 1);
        lemma_same_round(a, b, track_id, k - 1);
        assert(a.take(k) =~= a.take(k - 1).push(a[k - 1]));
        assert(b.take(k) =~= b.take(k - 1).push(b[k - 1]));
    } else {
        assert(a.take(0) =~= b.take(0));
    }
}

/// The decoders as they are to their callers.
spec fn views_of(decoders: Seq<SymphoniaCDecoder>) -> Seq<DecoderView> {
    Seq::new(decoders.len(), |i: int| decoders[i]@)
}

/// The numbers of samples that the calls asked for.
spec fn wants_of(decoders: Seq<SymphoniaCDecoder>, calls: Seq<ReadCall>) -> Seq<int> {
    Seq::new(calls.len(), |i: int| calls[i].capacity * decoders[i]@.channels)
}

/// A call that did not fail took the samples that it was asked for, or all there were to the end.
proof fn lemma_call(before: SymphoniaCDecoder, call: ReadCall, after: SymphoniaCDecoder)
    requires
        called(before, call, after),
        call.status >= 0,
        before@.last_error == Seq::<u8>::empty(),
    ensures
        before@.channels > 0,
        took(before@, after@, call.capacity * before@.channels),
        !failed(after@.rounds_since(before@)),
        taken(before@, after@, call.capacity * before@.channels) == call.capacity
            * before@.channels || after@.eof,
        call.frames == taken(before@, after@, call.capacity * before@.channels)
            / before@.channels as int,
        call.out_after == supply(before@, after@).take(
            taken(before@, after@, call.capacity * before@.channels),
        ) + call.out_before.skip(taken(before@, after@, call.capacity * before@.channels)),
        after@.last_error == Seq::<u8>::empty(),
        call.status == SYMPHONIA_C_END_OF_STREAM ==> after@.eof,
{
    let v = before@;
    assert(DecoderView { last_error: Seq::empty(), ..v } == v);
}

/// No call leaves a message behind.
proof fn lemma_no_message(decoders: Seq<SymphoniaCDecoder>, calls: Seq<ReadCall>, i: int)
    requires
        streamed(decoders, calls),
        decoders.first()@.last_error == Seq::<u8>::empty(),
        0 <= i < decoders.len(),
    ensures
        decoders[i]@.last_error == Seq::<u8>::empty(),
    decreases i,
{
    if i > 0 {
        lemma_no_message(decoders, calls, i - 1);
        assert(called(decoders[i - 1], calls[i - 1], decoders[i]));
        lemma_call(decoders[i - 1], calls[i - 1], decoders[i]);
    }
}

/// A stream that is read to its end is read in pieces.
proof fn lemma_stream_is_read_in_pieces(decoders: Seq<SymphoniaCDecoder>, calls: Seq<ReadCall>)
    requires
        streamed(decoders, calls),
        decoders.first()@.last_error == Seq::<u8>::empty(),
    ensures
        read_in_pieces(views_of(decoders), wants_of(decoders, calls)),
        decoders.last()@.eof,
{
    let views = views_of(decoders);
    let wants = wants_of(decoders, calls);
    assert forall|i: int|
        #![trigger views[i]]
        0 <= i < wants.len() implies {
        &&& wants[i] >= 0
        &&& took(views[i], views[i + 1], wants[i])
        &&& taken(views[i], views[i + 1], wants[i]) == wants[i] || views[i + 1].eof
        &&& !failed(views[i + 1].rounds_since(views[i]))
    } by {
        lemma_no_message(decoders, calls, i);
        assert(called(decoders[i], calls[i], decoders[i + 1]));
        lemma_call(decoders[i], calls[i], decoders[i + 1]);
        let c = decoders[i]@.channels as int;
        let f = calls[i].capacity as int;
        assert(f * c >= 0) by (nonlinear_arith)
            requires
                f >= 0,
                c >= 0,
        ;
    }
    let n = calls.len() - 1;
    lemma_no_message(decoders, calls, n);
    assert(called(decoders[n], calls[n], decoders[n + 1]));
    lemma_call(decoders[n], calls[n], decoders[n + 1]);
}

/// The rounds at any time are how the rounds at any later time begin.
proof fn lemma_rounds_begin(views: Seq<DecoderView>, wants: Seq<int>, i: int, j: int)
    requires
        read_in_pieces(views, wants),
        0 <= i <= j < views.len(),
    ensures
        views[j].reads_on_from(views[i]),
    decreases j - i,
{
    if i == j {
        let only = views[i];
        assert(only.rounds_since(only) =~= Seq::<Round>::empty());
        assert(only.rounds =~= only.rounds + Seq::<Round>::empty());
    } else {
        lemma_rounds_begin(views, wants, i, j - 1);
        assert(took(views[j - 1], views[j], wants[j - 1]));
        lemma_reads_on_twice(views[i], views[j - 1], views[j]);
    }
}

/// Part of a steady list of rounds is steady, and whole where the list is.
proof fn lemma_part_is_steady(rounds: Seq<Round>, from: int, to: int, channels: u32)
    requires
        steady(rounds, channels),
        forall|k: int| 0 <= k < rounds.len() ==> (#[trigger] rounds[k]).whole(),
        0 <= from <= to <= rounds.len(),
    ensures
        steady(rounds.subrange(from, to), channels),
        forall|k: int|
            0 <= k < to - from ==> (#[trigger] rounds.subrange(from, to)[k]).whole(),
{
    let part = rounds.subrange(from, to);
    assert forall|k: int| 0 <= k < part.len() implies ((
    #[trigger] part[k]).verdict() matches Verdict::Play(audio) ==> audio.channels
        == channels) by {
        assert(part[k] == rounds[from + k]);
    }
    assert forall|k: int| 0 <= k < part.len() implies (#[trigger] part[k]).whole() by {
        assert(part[k] == rounds[from + k]);
    }
}

/// In a steady stream each decoder has the number of channels of the first one, and whole frames
/// are pending.
proof fn lemma_stream_is_whole(
    views: Seq<DecoderView>,
    wants: Seq<int>,
    capacities: Seq<int>,
    i: int,
    channels: u32,
)
    requires
        read_in_pieces(views, wants),
        0 <= i < views.len(),
        channels > 0,
        views.first().channels == channels,
        views.first().pending.len() == 0,
        views.first().rounds.len() == 0,
        steady(views.last().rounds, channels),
        forall|k: int|
            0 <= k < views.last().rounds.len() ==> (#[trigger] views.last().rounds[k]).whole(),
        capacities.len() == wants.len(),
        forall|k: int|
            0 <= k < wants.len() ==> #[trigger] wants[k] == capacities[k] * views[k].channels
                && capacities[k] >= 0,
    ensures
        views[i].channels == channels,
        views[i].pending.len() as int % channels as int == 0,
    decreases i,
{
    let c = channels as int;
    let all = views.last().rounds;
    lemma_rounds_begin(views, wants, 0, i);
    lemma_rounds_begin(views, wants, i, views.len() - 1);
    let so_far = views[i].rounds_since(views[0]);
    assert(so_far =~= all.subrange(0, views[i].rounds.len() as int));
    lemma_part_is_steady(all, 0, views[i].rounds.len() as int, channels);
    lemma_steady_channels(so_far, channels);
    lemma_floor(0, 0, c);
    if i > 0 {
        lemma_stream_is_whole(views, wants, capacities, i - 1, channels);
        let before = views[i - 1];
        let after = views[i];
        assert(took(before, after, wants[i - 1]));
        let from = before.rounds.len() as int;
        let to = after.rounds.len() as int;
        let new = after.rounds_since(before);
        assert(new =~= all.subrange(from, to));
        lemma_part_is_steady(all, from, to, channels);
        lemma_whole_rounds(new, channels);
        let p = before.pending.len() as int;
        let s = samples_of(new).len() as int;
        let want = wants[i - 1];
        let f = capacities[i - 1];
        assert(want == f * c);
        lemma_multiples(p, s, f, c);
    }
}

/// Sums, differences and products of multiples are multiples.
proof fn lemma_multiples(p: int, s: int, f: int, c: int)
    requires
        c > 0,
        p >= 0,
        s >= 0,
        f >= 0,
        p % c == 0,
        s % c == 0,
    ensures
        f * c >= 0,
        (f * c) % c == 0,
        (p + s) % c == 0,
        (p + s - f * c) % c == 0,
        0int % c == 0,
{
    let a = p / c;
    let b = s / c;
    assert(p == a * c && s == b * c) by (nonlinear_arith)
        requires
            c > 0,
            p % c == 0,
            s % c == 0,
            a == p / c,
            b == s / c,
    ;
    assert(p + s == (a + b) * c && p + s - f * c == (a + b - f) * c) by (nonlinear_arith)
        requires
            p == a * c,
            s == b * c,
    ;
    lemma_mod_multiples_basic(f, c);
    lemma_mod_multiples_basic(a + b, c);
    lemma_mod_multiples_basic(a + b - f, c);
    lemma_mod_multiples_basic(0, c);
    assert(f * c >= 0) by (nonlinear_arith)
        requires
            c > 0,
            f >= 0,
    ;
}

/// In a steady stream whole frames are taken.
proof fn lemma_taken_is_whole(
    views: Seq<DecoderView>,
    wants: Seq<int>,
    capacities: Seq<int>,
    i: int,
    channels: u32,
)
    requires
        read_in_pieces(views, wants),
        0 <= i < wants.len(),
        channels > 0,
        views.first().channels == channels,
        views.first().pending.len() == 0,
        views.first().rounds.len() == 0,
        steady(views.last().rounds, channels),
        forall|k: int|
            0 <= k < views.last().rounds.len() ==> (#[trigger] views.last().rounds[k]).whole(),
        capacities.len() == wants.len(),
        forall|k: int|
            0 <= k < wants.len() ==> #[trigger] wants[k] == capacities[k] * views[k].channels
                && capacities[k] >= 0,
    ensures
        views[i].channels == channels,
        taken(views[i], views[i + 1], wants[i]) % channels as int == 0,
{
    lemma_stream_is_whole(views, wants, capacities, i, channels);
    let before = views[i];
    let after = views[i + 1];
    assert(took(before, after, wants[i]));
    let from = before.rounds.len() as int;
    let to = after.rounds.len() as int;
    let all = views.last().rounds;
    lemma_rounds_begin(views, wants, i + 1, views.len() - 1);
    let new = after.rounds_since(before);
    assert(new =~= all.subrange(from, to));
    lemma_part_is_steady(all, from, to, channels);
    lemma_whole_rounds(new, channels);
    assert(wants[i] == capacities[i] * channels);
    lemma_multiples(
        before.pending.len() as int,
        samples_of(new).len() as int,
        capacities[i],
        channels as int,
    );
}

/// In a steady stream the samples of a call are all samples that it took.
#[verifier::spinoff_prover]
proof fn lemma_call_keeps_all(
    decoders: Seq<SymphoniaCDecoder>,
    calls: Seq<ReadCall>,
    i: int,
    channels: u32,
)
    requires
        streamed(decoders, calls),
        0 <= i < calls.len(),
        channels > 0,
        decoders.first()@.last_error == Seq::<u8>::empty(),
        decoders.first()@.channels == channels,
        decoders.first()@.pending.len() == 0,
        decoders.first()@.rounds.len() == 0,
        decoders.last().wf(),
        steady(decoders.last()@.rounds, channels),
    ensures
        call_samples(decoders[i], calls[i]) == supply(decoders[i]@, decoders[i + 1]@).take(
            taken(decoders[i]@, decoders[i + 1]@, calls[i].capacity * decoders[i]@.channels),
        ),
{
    let views = views_of(decoders);
    let wants = wants_of(decoders, calls);
    let capacities = Seq::new(calls.len(), |k: int| calls[k].capacity as int);
    let c = channels as int;
    lemma_stream_is_read_in_pieces(decoders, calls);
    law_rounds_are_the_record(decoders.last());
    assert(views.last() == decoders.last()@);
    lemma_taken_is_whole(views, wants, capacities, i, channels);
    lemma_no_message(decoders, calls, i);
    assert(called(decoders[i], calls[i], decoders[i + 1]));
    lemma_call(decoders[i], calls[i], decoders[i + 1]);
    let before = decoders[i]@;
    let after = decoders[i + 1]@;
    assert(views[i] == before && views[i + 1] == after);
    let n = taken(before, after, wants[i]);
    assert(n % c == 0);
    assert(n / c * c == n) by (nonlinear_arith)
        requires
            n % c == 0,
            c > 0,
    ;
    assert(call_samples(decoders[i], calls[i]) =~= supply(before, after).take(n));
}

/// The samples of the first calls are the first pieces.
proof fn lemma_stream_samples(
    decoders: Seq<SymphoniaCDecoder>,
    calls: Seq<ReadCall>,
    i: int,
    channels: u32,
)
    requires
        streamed(decoders, calls),
        0 <= i <= calls.len(),
        channels > 0,
        decoders.first()@.last_error == Seq::<u8>::empty(),
        decoders.first()@.channels == channels,
        decoders.first()@.pending.len() == 0,
        decoders.first()@.rounds.len() == 0,
        decoders.last().wf(),
        steady(decoders.last()@.rounds, channels),
    ensures
        stream_samples(decoders.take(i + 1), calls.take(i)) == pieces(
            views_of(decoders).take(i + 1),
            wants_of(decoders, calls).take(i),
        ),
    decreases i,
{
    if i > 0 {
        lemma_stream_samples(decoders, calls, i - 1, channels);
        lemma_call_keeps_all(decoders, calls, i - 1, channels);
        assert(decoders.take(i + 1).drop_last() =~= decoders.take(i));
        assert(calls.take(i).drop_last() =~= calls.take(i - 1));
        assert(views_of(decoders).take(i + 1).drop_last() =~= views_of(decoders).take(i));
        assert(wants_of(decoders, calls).take(i).drop_last() =~= wants_of(decoders, calls).take(
            i - 1,
        ));
    }
}

/// A steady stream that is read from its start to its end brings all samples that were decoded, and
/// its rounds went on to the end of the medium.
#[verifier::spinoff_prover]
#[verifier::rlimit(30)]
proof fn lemma_stream_is_complete(
    decoders: Seq<SymphoniaCDecoder>,
    calls: Seq<ReadCall>,
    extension: Option<Seq<char>>,
)
    requires
        streamed(decoders, calls),
        fresh(decoders.first(), extension),
        steady(decoders.last()@.rounds, decoders.first()@.channels),
    ensures
        decoders.first()@.channels > 0,
        stream_samples(decoders, calls) == samples_of(decoders.last()@.rounds),
        only_last_stops(decoders.last()@.rounds),
        ended(decoders.last()@.rounds),
        decoders.last()@.channels == decoders.first()@.channels,
        decoders.last()@.sample_rate == rate_after(
            decoders.first()@.sample_rate,
            decoders.last()@.rounds,
        ),
        decoders.last().wf(),
        decoders.last()@.track_id == decoders.first()@.track_id,
        decoders.last()@.rounds.len() <= u64::MAX,
        forall|k: int|
            0 <= k < decoders.last()@.rounds.len() ==> (
            #[trigger] decoders.last()@.rounds[k]).whole(),
{
    let views = views_of(decoders);
    let wants = wants_of(decoders, calls);
    let first = views.first();
    let last = views.last();
    let n = calls.len() as int;
    assert(called(decoders[0], calls[0], decoders[1]));
    lemma_call(decoders[0], calls[0], decoders[1]);
    assert(called(decoders[n - 1], calls[n - 1], decoders[n]));
    lemma_stream_is_read_in_pieces(decoders, calls);
    law_pieces_make_up_the_stream(views, wants);
    law_pending_is_tidy(decoders.last());
    law_rounds_are_the_record(decoders.last());
    assert(last.rounds_since(first) =~= last.rounds);
    lemma_steady_channels(last.rounds, first.channels);
    lemma_stream_samples(decoders, calls, n, first.channels);
    assert(decoders.take(n + 1) =~= decoders);
    assert(calls.take(n) =~= calls);
    assert(views.take(n + 1) =~= views);
    assert(wants.take(n) =~= wants);
    assert(supply(first, last) =~= samples_of(last.rounds));
    let t = taken(first, last, total(wants));
    assert(supply(first, last).take(t) =~= supply(first, last));
}

/// However decoding a whole medium turns out, its rounds went on but for the last one, and the
/// decoder knows whether that was the end.
pub proof fn lemma_decoding_took(
    before: DecoderView,
    after: DecoderView,
    views: Seq<DecoderView>,
    whole: Result<Vec<u32>, ApiError>,
)
    requires
        before.channels > 0,
        decoded_through(before, after, views, whole),
    ensures
        after.reads_on_from(before),
        views.last().reads_on_from(before),
        after.reads_on_from(views.last()),
        only_last_stops(after.rounds_since(before)),
        after.eof == (before.eof || ended(after.rounds_since(before))),
{
    let stride = before.channels as int;
    let wants = Seq::new((views.len() - 1) as nat, |i: int| chunk_want(views[i]));
    assert forall|i: int|
        #![trigger views[i]]
        0 <= i < wants.len() implies {
        &&& wants[i] >= 0
        &&& took(views[i], views[i + 1], wants[i])
        &&& taken(views[i], views[i + 1], wants[i]) == wants[i] || views[i + 1].eof
        &&& !failed(views[i + 1].rounds_since(views[i]))
    } by {
        assert(read_chunk(views[i], views[i + 1], stride));
    }
    law_pieces_make_up_the_stream(views, wants);
    let last = views.last();
    assert(last.rounds_since(last) =~= Seq::<Round>::empty());
    assert(last.rounds =~= last.rounds + Seq::<Round>::empty());
    if after != last {
        assert(whole is Err);
        assert(chunk_failed(last, after, stride, whole->Err_0));
        let want = CHUNK_FRAMES * last.channels;
        assert(took(last, after, want));
        law_takes_add_up(before, last, after, total(wants), want);
    }
}

/// A medium that brings what a stream brought to its end is decoded as a whole without a failure.
#[verifier::spinoff_prover]
proof fn lemma_decoding_succeeds(
    first: DecoderView,
    last: DecoderView,
    whole: Result<Vec<u32>, ApiError>,
    rounds: Seq<Round>,
)
    requires
        first.channels > 0,
        first.pending.len() == 0,
        first.rounds.len() == 0,
        !first.eof,
        decoded_whole(first, last, whole),
        same_course(last.rounds, rounds),
        only_last_stops(rounds),
        ended(rounds),
        rounds.len() <= u64::MAX,
        steady(rounds, first.channels),
        samples_of(rounds).len() + CHUNK_FRAMES * first.channels <= usize::MAX,
    ensures
        whole is Ok,
        last.rounds == rounds,
        last.rounds_since(first) == rounds,
{
    let c = first.channels;
    let views = choose|views: Seq<DecoderView>| #[trigger]
        decoded_through(first, last, views, whole);
    lemma_decoding_took(first, last, views, whole);
    let got = last.rounds;
    assert(last.rounds_since(first) =~= got);
    if got.len() > rounds.len() {
        let k = rounds.len() - 1;
        assert(got[k] == rounds[k]);
        assert(got[k].goes_on());
        assert(false);
    }
    assert(got =~= rounds.take(got.len() as int));
    assert forall|k: int| 0 <= k < got.len() implies ((
    #[trigger] got[k]).verdict() matches Verdict::Play(audio) ==> audio.channels
        == c) by {
        assert(got[k] == rounds[k]);
    }
    if got.len() > 0 && got.len() < rounds.len() {
        assert(got.last() == rounds[got.len() - 1]);
        assert(got.last().goes_on());
    }
    if got.len() == rounds.len() {
        assert(got =~= rounds);
    }
    assert(!failed(got));
    assert(last.eof ==> got == rounds);
    if whole is Err {
        let end = views.last();
        let kept = end.rounds;
        assert(end.rounds_since(first) =~= kept);
        assert(kept =~= got.take(kept.len() as int));
        assert forall|k: int| 0 <= k < kept.len() implies ((
        #[trigger] kept[k]).verdict() matches Verdict::Play(audio)
            ==> audio.channels == c) by {
            assert(kept[k] == got[k]);
        }
        assert forall|i: int| 0 <= i < views.len() implies (#[trigger] views[i]).channels == c by {
            lemma_view_is_steady(views, i, c);
        }
        lemma_chunks_stand(views, c as int);
        let rest = rounds.skip(kept.len() as int);
        assert(rounds =~= kept + rest);
        lemma_samples_of_concat(kept, rest);
        let held = all_chunks(views, c as int);
        let all = supply(first, end);
        assert(all =~= samples_of(kept));
        lemma_floor(0, all.len() as int, c as int);
        assert(held.len() <= all.len());
        let error = whole->Err_0;
        assert(chunk_failed(end, last, c as int, error));
        let out = choose|out: Seq<u32>| #[trigger]
            read_frames(
                end,
                last,
                silence(CHUNK_FRAMES * c as int),
                out,
                CHUNK_FRAMES,
                Err::<usize, ApiError>(error),
            );
        let new = last.rounds_since(end);
        if failed(new) {
            assert(got.last() == new.last());
        }
        assert(last.exhausted());
        assert(false);
    }
}

/// A file brings the same samples whether it is streamed or decoded as a whole. Let a file be opened
/// and read to its end by calls of whatever capacities, none of which fails, and let all its audio
/// have one number of channels. Then decoding the file as a whole, where it opens alike and the same
/// comes of reading its container and asking its codec, succeeds, and gives the samples of all the
/// calls, in order and with nothing before, between or after them, and the number of channels and
/// the sample rate that the decoder had in the end. The samples and one more chunk must be few
/// enough to be counted.
pub proof fn law_streaming_and_decoding_agree<
    F: FnOnce(&str) -> Result<MediaStream, std::io::Error>,
    G: FnOnce(&str) -> Result<MediaStream, std::io::Error>,
>(
    path: Option<&[u8]>,
    open: F,
    opening_message: Seq<u8>,
    decoders: Seq<SymphoniaCDecoder>,
    calls: Seq<ReadCall>,
    open_again: G,
    first: SymphoniaCDecoder,
    last: SymphoniaCDecoder,
    buffer: SymphoniaCAudioBuffer,
    message: Seq<u8>,
    status: i32,
)
    requires
        open_to_status(path, open, Some(Some(decoders.first())), opening_message, SYMPHONIA_C_OK),
        streamed(decoders, calls),
        steady(decoders.last()@.rounds, decoders.first()@.channels),
        decode_course(path, open_again, first, last, buffer, message, status),
        first@ == decoders.first()@,
        same_record(last, decoders.last()),
        stream_samples(decoders, calls).len() + CHUNK_FRAMES * first@.channels <= usize::MAX,
    ensures
        status == SYMPHONIA_C_OK,
        message == Seq::<u8>::empty(),
        buffer.samples@ == stream_samples(decoders, calls),
        buffer.sample_count == stream_samples(decoders, calls).len(),
        buffer.sample_count == buffer.frames * buffer.channels,
        buffer.channels == decoders.last()@.channels,
        buffer.sample_rate == decoders.last()@.sample_rate,
{
    assert(opens(path, open, Ok(decoders.first())));
    let extension = choose|extension: Option<Seq<char>>| #[trigger]
        fresh(decoders.first(), extension);
    lemma_stream_is_complete(decoders, calls, extension);
    let (whole, result) = choose|whole: Result<Vec<u32>, ApiError>, result: Result<(), ApiError>|
        {
            &&& #[trigger] decode_call_on(first, last, whole, buffer, result)
            &&& reported(
                Some(result),
                "panic while decoding file"@,
                Seq::empty(),
                message,
                status,
            )
        };
    let views = choose|views: Seq<DecoderView>| #[trigger]
        decoded_through(first@, last@, views, whole);
    lemma_decoding_took(first@, last@, views, whole);
    let rounds = decoders.last()@.rounds;
    law_rounds_are_the_record(last);
    law_rounds_are_the_record(decoders.last());
    let both = if last@.rounds.len() <= rounds.len() {
        last@.rounds.len() as int
    } else {
        rounds.len() as int
    };
    lemma_same_rounds(last@.rounds, rounds, last@.track_id, both);
    assert forall|k: int|
        #![trigger last@.rounds[k]]
        #![trigger rounds[k]]
        0 <= k < last@.rounds.len() && k < rounds.len() implies last@.rounds[k] == rounds[k] by {
        assert(last@.rounds.take(both)[k] == rounds.take(both)[k]);
    }
    lemma_decoding_succeeds(first@, last@, whole, rounds);
    let samples = whole->Ok_0;
    law_no_sample_is_dropped(first@, last@, views, samples);
    law_buffer_counts_its_samples(first@, last@, views, samples, buffer);
}

} // verus!
