//! What holds of the library as a whole.

use vstd::prelude::*;
use vstd::arithmetic::div_mod::lemma_mod_multiples_vanish;
use vstd::utf8::valid_utf8;
use crate::api::{
    decode_call_on, decode_course, decode_to_status, filled, open_to_status, read_to_status,
    reported,
};
use crate::buffer::{
    CHUNK_FRAMES, SymphoniaCAudioBuffer, all_chunks, chunk_frames, chunk_samples, chunk_want,
    decoded_through, lemma_chunk_frames, read_chunk, read_chunks, was_last_chunk,
};
use crate::decoder::{
    DecoderView, SymphoniaCDecoder, lemma_reads_on_twice, read_frames, supply, taken, took,
};
use crate::error::ApiError;
use crate::media::MediaStream;
use crate::message::message_bytes;
use crate::session::{Round, Verdict, channels_after, failed, lemma_samples_of_concat, samples_of};
use crate::status::{
    SYMPHONIA_C_END_OF_STREAM, SYMPHONIA_C_INVALID_ARGUMENT, SYMPHONIA_C_OK, is_status,
};

verus! {

/// The samples that were taken and those that are still pending are together the samples that were
/// there, in order: none is lost, doubled or moved.
pub proof fn law_samples_are_kept(before: DecoderView, after: DecoderView, want: int)
    requires
        took(before, after, want),
        want >= 0,
    ensures
        supply(before, after).take(taken(before, after, want)) + after.pending == supply(
            before,
            after,
        ),
{
    let all = supply(before, after);
    assert(all.take(taken(before, after, want)) + after.pending =~= all);
}

/// Once the medium has ended nothing more is read from it.
pub proof fn law_nothing_is_read_after_the_end(before: DecoderView, after: DecoderView, want: int)
    requires
        took(before, after, want),
        before.eof,
    ensures
        after.rounds == before.rounds,
        after.eof,
        after.channels == before.channels,
        after.sample_rate == before.sample_rate,
        supply(before, after) == before.pending,
{
    let new = after.rounds_since(before);
    if new.len() > 0 {
        assert(samples_of(new.take(0)).len() >= 0);
        assert(false);
    }
    assert(new =~= Seq::<Round>::empty());
    assert(after.rounds =~= before.rounds);
    assert(supply(before, after) =~= before.pending);
}

/// Taking some samples and then some more is taking them all at once.
#[verifier::spinoff_prover]
pub proof fn law_takes_add_up(
    before: DecoderView,
    between: DecoderView,
    after: DecoderView,
    first: int,
    second: int,
)
    requires
        first >= 0,
        second >= 0,
        took(before, between, first),
        taken(before, between, first) == first || between.eof,
        !failed(between.rounds_since(before)),
        took(between, after, second),
    ensures
        took(before, after, first + second),
        taken(before, after, first + second) == taken(before, between, first) + taken(
            between,
            after,
            second,
        ),
        supply(before, after).take(taken(before, after, first + second)) == supply(
            before,
            between,
        ).take(taken(before, between, first)) + supply(between, after).take(
            taken(between, after, second),
        ),
{
    let new1 = between.rounds_since(before);
    let new2 = after.rounds_since(between);
    let new = after.rounds_since(before);
    lemma_reads_on_twice(before, between, after);
    law_samples_are_kept(before, between, first);
    let n1 = taken(before, between, first);
    let n2 = taken(between, after, second);
    if between.eof {
        law_nothing_is_read_after_the_end(between, after, second);
        assert(new2 =~= Seq::<Round>::empty());
        assert(new =~= new1);
    }
    let head = supply(before, between).take(n1);
    assert(supply(before, after) =~= head + supply(between, after));
    assert(supply(before, after).take(n1 + n2) =~= head + supply(between, after).take(n2));
    assert(supply(before, after).skip(n1 + n2) =~= supply(between, after).skip(n2));
    assert forall|k: int| 0 <= k < new.len() implies !before.eof && before.pending.len()
        + samples_of(#[trigger] new.take(k)).len() < first + second by {
        if k < new1.len() {
            assert(new.take(k) =~= new1.take(k));
        } else {
            assert(new.take(k) =~= new1 + new2.take(k - new1.len()));
            lemma_samples_of_concat(new1, new2.take(k - new1.len()));
        }
    }
    assert forall|k: int| 0 <= k < new.len() - 1 implies (#[trigger] new[k]).goes_on() by {
        if k < new1.len() {
            assert(new[k] == new1[k]);
        } else {
            assert(new[k] == new2[k - new1.len()]);
        }
    }
}

/// A stream is read in pieces: from each of the views to the next one by taking so many samples,
/// none of which failed.
pub open spec fn read_in_pieces(views: Seq<DecoderView>, wants: Seq<int>) -> bool {
    &&& views.len() == wants.len() + 1
    &&& forall|i: int|
        #![trigger views[i]]
        0 <= i < wants.len() ==> {
            &&& wants[i] >= 0
            &&& took(views[i], views[i + 1], wants[i])
            &&& taken(views[i], views[i + 1], wants[i]) == wants[i] || views[i + 1].eof
            &&& !failed(views[i + 1].rounds_since(views[i]))
        }
}

/// The number of samples that were asked for in all.
pub open spec fn total(wants: Seq<int>) -> int
    decreases wants.len(),
{
    if wants.len() == 0 {
        0
    } else {
        total(wants.drop_last()) + wants.last()
    }
}

/// The samples of all the pieces, in order.
pub open spec fn pieces(views: Seq<DecoderView>, wants: Seq<int>) -> Seq<u32>
    decreases wants.len(),
{
    if wants.len() == 0 {
        Seq::empty()
    } else {
        let before = views[wants.len() - 1];
        let after = views[wants.len() as int];
        pieces(views.drop_last(), wants.drop_last()) + supply(before, after).take(
            taken(before, after, wants.last()),
        )
    }
}

/// However a stream is cut into pieces, the pieces make up the samples that one read of them all
/// would bring.
#[verifier::spinoff_prover]
pub proof fn law_pieces_make_up_the_stream(views: Seq<DecoderView>, wants: Seq<int>)
    requires
        read_in_pieces(views, wants),
    ensures
        total(wants) >= 0,
        took(views.first(), views.last(), total(wants)),
        taken(views.first(), views.last(), total(wants)) == total(wants) || views.last().eof,
        !failed(views.last().rounds_since(views.first())),
        pieces(views, wants) == supply(views.first(), views.last()).take(
            taken(views.first(), views.last(), total(wants)),
        ),
    decreases wants.len(),
{
    let first = views.first();
    if wants.len() == 0 {
        assert(first.rounds_since(first) =~= Seq::<Round>::empty());
        assert(first.rounds =~= first.rounds + Seq::<Round>::empty());
        assert(supply(first, first) =~= first.pending);
        assert(supply(first, first).skip(0) =~= first.pending);
        assert(pieces(views, wants) =~= supply(first, first).take(0));
    } else {
        let fewer = views.drop_last();
        let less = wants.drop_last();
        assert forall|i: int|
            #![trigger fewer[i]]
            0 <= i < less.len() implies {
            &&& less[i] >= 0
            &&& took(fewer[i], fewer[i + 1], less[i])
            &&& taken(fewer[i], fewer[i + 1], less[i]) == less[i] || fewer[i + 1].eof
            &&& !failed(fewer[i + 1].rounds_since(fewer[i]))
        } by {
            assert(views[i] == fewer[i]);
        }
        law_pieces_make_up_the_stream(fewer, less);
        let between = fewer.last();
        let last = views.last();
        assert(between == views[wants.len() - 1]);
        law_takes_add_up(first, between, last, total(less), wants.last());
        lemma_reads_on_twice(first, between, last);
        let new2 = last.rounds_since(between);
        if new2.len() == 0 {
            assert(last.rounds_since(first) =~= between.rounds_since(first));
        } else {
            assert(last.rounds_since(first).last() == new2.last());
        }
    }
}

/// Once a read has met the end of the stream, every later read of some frames meets it too.
pub proof fn law_the_end_stays(
    before: DecoderView,
    between: DecoderView,
    after: DecoderView,
    out1: (Seq<u32>, Seq<u32>),
    out2: (Seq<u32>, Seq<u32>),
    capacity1: usize,
    capacity2: usize,
    result: Result<usize, ApiError>,
)
    requires
        capacity1 > 0,
        read_frames(before, between, out1.0, out1.1, capacity1, Ok(0)),
        between.eof,
        capacity2 > 0,
        capacity2 * between.channels <= out2.0.len() <= usize::MAX,
        between.channels > 0,
        read_frames(between, after, out2.0, out2.1, capacity2, result),
    ensures
        result == Ok::<usize, ApiError>(0),
        after.eof,
        after == between,
        out2.1 == out2.0,
{
    let c = before.channels as int;
    let want1 = capacity1 * c;
    let n1 = taken(before, between, want1);
    assert(want1 >= c) by (nonlinear_arith)
        requires
            want1 == capacity1 * c,
            capacity1 > 0,
            c > 0,
    ;
    assert(n1 < c) by (nonlinear_arith)
        requires
            n1 / c == 0,
            n1 >= 0,
            c > 0,
    ;
    assert(between.pending.len() == 0);
    let d = between.channels as int;
    let want2 = capacity2 * d;
    assert(want2 > 0) by (nonlinear_arith)
        requires
            want2 == capacity2 * d,
            capacity2 > 0,
            d > 0,
    ;
    law_nothing_is_read_after_the_end(between, after, want2);
    assert(supply(between, after).skip(0) =~= between.pending);
    assert(after == between);
    assert(out2.1 =~= out2.0);
    assert(0int / d == 0) by (nonlinear_arith)
        requires
            d > 0,
    ;
}

/// All audio of the rounds has this many channels.
pub open spec fn steady(rounds: Seq<Round>, channels: u32) -> bool {
    forall|k: int|
        0 <= k < rounds.len() ==> ((#[trigger] rounds[k]).verdict() matches Verdict::Play(audio)
            ==> audio.channels == channels)
}

/// So many samples without those at the end that fill no frame.
pub open spec fn whole_frames(samples: Seq<u32>, channels: int) -> Seq<u32> {
    samples.take(samples.len() as int / channels * channels)
}

/// Steady rounds leave the number of channels as it was.
pub proof fn lemma_steady_channels(rounds: Seq<Round>, channels: u32)
    requires
        steady(rounds, channels),
    ensures
        channels_after(channels, rounds) == channels,
    decreases rounds.len(),
{
    if rounds.len() > 0 {
        let fewer = rounds.drop_last();
        assert forall|k: int| 0 <= k < fewer.len() implies ((
        #[trigger] fewer[k]).verdict() matches Verdict::Play(audio) ==> audio.channels
            == channels) by {
            assert(fewer[k] == rounds[k]);
        }
        lemma_steady_channels(fewer, channels);
        assert(rounds[rounds.len() - 1] == rounds.last());
    }
}

/// The decoder after each chunk reads on from where it stood before the first one.
proof fn lemma_chunks_read_on(views: Seq<DecoderView>, stride: int)
    requires
        views.len() > 0,
        read_chunks(views, stride),
    ensures
        views.last().reads_on_from(views.first()),
    decreases views.len(),
{
    if views.len() == 1 {
        let only = views.first();
        assert(only.rounds_since(only) =~= Seq::<Round>::empty());
        assert(only.rounds =~= only.rounds + Seq::<Round>::empty());
    } else {
        let fewer = views.drop_last();
        assert forall|i: int| 0 <= i < fewer.len() - 1 implies read_chunk(
            #[trigger] fewer[i],
            fewer[i + 1],
            stride,
        ) by {
            assert(views[i] == fewer[i]);
        }
        lemma_chunks_read_on(fewer, stride);
        let between = views[views.len() - 2];
        assert(read_chunk(between, views.last(), stride));
        lemma_reads_on_twice(views.first(), between, views.last());
    }
}

/// `kept` is what was kept of the samples from `first` to `last`: either all samples that were taken
/// are kept and make up whole frames, or the medium has ended and all its whole frames are kept.
pub open spec fn stands(first: DecoderView, last: DecoderView, kept: Seq<u32>, channels: int) -> bool {
    let all = supply(first, last);
    ||| {
        &&& all == kept + last.pending
        &&& kept.len() as int % channels == 0
    }
    ||| {
        &&& last.eof
        &&& last.pending.len() == 0
        &&& kept == whole_frames(all, channels)
    }
}

/// A number that is a multiple of another, and a remainder.
pub proof fn lemma_floor(whole: int, rest: int, channels: int)
    requires
        channels > 0,
        whole == 0 || whole > 0 && whole % channels == 0,
        rest >= 0,
    ensures
        whole % channels == 0,
        (whole + rest) / channels * channels == whole + rest / channels * channels,
        (whole + rest / channels * channels) % channels == 0,
        0 <= rest / channels * channels <= rest,
        rest < channels ==> rest / channels == 0,
{
    assert(0int % channels == 0) by (nonlinear_arith)
        requires
            channels > 0,
    ;
    let q = whole / channels;
    let r = rest / channels;
    let m = rest % channels;
    assert(whole == q * channels && rest == r * channels + m && 0 <= m < channels) by (
    nonlinear_arith)
        requires
            channels > 0,
            whole % channels == 0,
            q == whole / channels,
            r == rest / channels,
            m == rest % channels,
    ;
    assert((whole + rest) / channels == q + r) by (nonlinear_arith)
        requires
            whole == q * channels,
            rest == r * channels + m,
            0 <= m < channels,
            channels > 0,
    ;
    assert((q + r) * channels == q * channels + r * channels) by (nonlinear_arith);
    assert(((q + r) * channels) % channels == 0) by (nonlinear_arith)
        requires
            channels > 0,
    ;
    assert(r >= 0 && (rest < channels ==> r == 0)) by (nonlinear_arith)
        requires
            rest >= 0,
            channels > 0,
            r == rest / channels,
    ;
    assert(r * channels >= 0) by (nonlinear_arith)
        requires
            r >= 0,
            channels > 0,
    ;
}

/// A chunk keeps the samples that it took, but for those that fill no frame at the end of the
/// medium.
proof fn lemma_chunk_keeps(before: DecoderView, after: DecoderView, channels: int)
    requires
        read_chunk(before, after, channels),
        before.channels == channels,
    ensures
        chunk_samples(before, after, channels) == whole_frames(
            supply(before, after).take(taken(before, after, chunk_want(before))),
            channels,
        ),
        !after.eof || after.pending.len() > 0 ==> chunk_samples(before, after, channels) == supply(
            before,
            after,
        ).take(chunk_want(before)) && chunk_want(before) % channels == 0,
{
    let want = chunk_want(before);
    let n = taken(before, after, want);
    let got = supply(before, after).take(n);
    lemma_chunk_frames(before, after, channels);
    lemma_floor(0, n, channels);
    assert(want % channels == 0) by (nonlinear_arith)
        requires
            want == CHUNK_FRAMES * channels,
            channels > 0,
    ;
    assert(chunk_samples(before, after, channels) =~= whole_frames(got, channels));
    if !after.eof || after.pending.len() > 0 {
        assert(n == want);
        lemma_floor(want, 0, channels);
        assert(whole_frames(got, channels) =~= got);
    }
}

/// A chunk more keeps what is to be kept.
#[verifier::spinoff_prover]
proof fn lemma_chunk_stands(
    first: DecoderView,
    between: DecoderView,
    last: DecoderView,
    kept: Seq<u32>,
    channels: int,
)
    requires
        channels > 0,
        between.reads_on_from(first),
        between.channels == channels,
        read_chunk(between, last, channels),
        stands(first, between, kept, channels),
    ensures
        stands(first, last, kept + chunk_samples(between, last, channels), channels),
{
    let want = chunk_want(between);
    let n = taken(between, last, want);
    let here = supply(between, last);
    let chunk = chunk_samples(between, last, channels);
    lemma_reads_on_twice(first, between, last);
    lemma_chunk_keeps(between, last, channels);
    lemma_chunk_frames(between, last, channels);
    let all = supply(first, last);
    if supply(first, between) == kept + between.pending && kept.len() as int % channels == 0 {
        assert(all =~= kept + here);
        if !last.eof || last.pending.len() > 0 {
            assert(n == want);
            assert(all =~= kept + chunk + last.pending);
            lemma_floor(kept.len() as int, want, channels);
            lemma_floor(want, 0, channels);
        } else {
            assert(here.take(n) =~= here);
            lemma_floor(kept.len() as int, here.len() as int, channels);
            assert(kept + chunk =~= whole_frames(all, channels));
        }
    } else {
        law_nothing_is_read_after_the_end(between, last, want);
        assert(here.len() == 0);
        assert(last.rounds_since(between) =~= Seq::<Round>::empty());
        assert(all =~= supply(first, between));
        lemma_floor(0, 0, channels);
        assert(kept + chunk =~= kept);
    }
}

/// The chunks keep all samples but for those that fill no frame at the end of the medium.
pub proof fn lemma_chunks_stand(views: Seq<DecoderView>, channels: int)
    requires
        views.len() > 0,
        channels > 0,
        read_chunks(views, channels),
        forall|i: int| 0 <= i < views.len() ==> (#[trigger] views[i]).channels == channels,
    ensures
        stands(views.first(), views.last(), all_chunks(views, channels), channels),
    decreases views.len(),
{
    let first = views.first();
    if views.len() == 1 {
        assert(first.rounds_since(first) =~= Seq::<Round>::empty());
        assert(supply(first, first) =~= first.pending);
        assert(all_chunks(views, channels) =~= Seq::<u32>::empty());
        assert(supply(first, first) =~= all_chunks(views, channels) + first.pending);
    } else {
        let fewer = views.drop_last();
        assert forall|i: int| 0 <= i < fewer.len() - 1 implies read_chunk(
            #[trigger] fewer[i],
            fewer[i + 1],
            channels,
        ) by {
            assert(views[i] == fewer[i]);
        }
        assert forall|i: int| 0 <= i < fewer.len() implies (#[trigger] fewer[i]).channels
            == channels by {
            assert(views[i] == fewer[i]);
        }
        lemma_chunks_stand(fewer, channels);
        lemma_chunks_read_on(fewer, channels);
        let between = views[views.len() - 2];
        let last = views.last();
        assert(fewer.last() == between);
        assert(read_chunk(between, last, channels));
        lemma_chunk_stands(first, between, last, all_chunks(fewer, channels), channels);
    }
}

/// With the last chunk all whole frames are kept.
proof fn lemma_last_chunk(
    first: DecoderView,
    before: DecoderView,
    after: DecoderView,
    kept: Seq<u32>,
    channels: int,
)
    requires
        channels > 0,
        before.channels == channels,
        read_chunk(before, after, channels),
        was_last_chunk(before, after),
        stands(first, after, kept, channels),
    ensures
        kept == whole_frames(supply(first, after), channels),
{
    let want = chunk_want(before);
    let n = taken(before, after, want);
    assert(n < channels <= want) by (nonlinear_arith)
        requires
            n >= 0,
            channels > 0,
            n / channels == 0,
            want == CHUNK_FRAMES * channels,
    ;
    assert(after.pending.len() == 0);
    let all = supply(first, after);
    if all == kept + after.pending && kept.len() as int % channels == 0 {
        assert(all =~= kept);
        lemma_floor(kept.len() as int, 0, channels);
        assert(whole_frames(all, channels) =~= all);
    }
}

/// In a list of chunks whose rounds are steady, each view has the number of channels of the first.
pub proof fn lemma_view_is_steady(views: Seq<DecoderView>, i: int, channels: u32)
    requires
        0 <= i < views.len(),
        read_chunks(views, channels as int),
        views.first().channels == channels,
        steady(views.last().rounds_since(views.first()), channels),
    ensures
        views[i].channels == channels,
{
    let first = views.first();
    let head = views.take(i + 1);
    let tail = views.skip(i);
    assert forall|k: int| 0 <= k < head.len() - 1 implies read_chunk(
        #[trigger] head[k],
        head[k + 1],
        channels as int,
    ) by {
        assert(head[k] == views[k]);
    }
    assert forall|k: int| 0 <= k < tail.len() - 1 implies read_chunk(
        #[trigger] tail[k],
        tail[k + 1],
        channels as int,
    ) by {
        assert(tail[k] == views[i + k]);
    }
    lemma_chunks_read_on(head, channels as int);
    lemma_chunks_read_on(tail, channels as int);
    assert(head.last() == views[i]);
    assert(tail.first() == views[i]);
    assert(tail.last() == views.last());
    lemma_reads_on_twice(first, views[i], views.last());
    let new = views[i].rounds_since(first);
    let all = views.last().rounds_since(first);
    assert forall|k: int| 0 <= k < new.len() implies ((
    #[trigger] new[k]).verdict() matches Verdict::Play(audio) ==> audio.channels == channels) by {
        assert(new[k] == all[k]);
    }
    lemma_steady_channels(new, channels);
}

/// A medium that is decoded as a whole brings all its samples in order, but for those at its end
/// that fill no frame, as long as its number of channels stays what it was.
#[verifier::spinoff_prover]
pub proof fn law_whole_medium_is_decoded(
    before: DecoderView,
    after: DecoderView,
    views: Seq<DecoderView>,
    samples: Vec<u32>,
)
    requires
        before.channels > 0,
        decoded_through(before, after, views, Ok(samples)),
        steady(after.rounds_since(before), before.channels),
    ensures
        after.eof,
        after.channels == before.channels,
        samples@ == whole_frames(supply(before, after), before.channels as int),
{
    let channels = before.channels as int;
    lemma_chunks_read_on(views, channels);
    assert forall|i: int| 0 <= i < views.len() implies (#[trigger] views[i]).channels
        == channels by {
        lemma_view_is_steady(views, i, before.channels);
    }
    lemma_chunks_stand(views, channels);
    let last = views[views.len() - 2];
    assert(read_chunk(last, after, channels));
    lemma_last_chunk(before, last, after, samples@, channels);
}

/// A medium brings the same samples whether it is read in pieces to its end or decoded as a whole,
/// as long as the same comes of reading it and its number of channels stays what it was.
pub proof fn law_pieces_and_whole_agree(
    views: Seq<DecoderView>,
    wants: Seq<int>,
    after: DecoderView,
    chunks: Seq<DecoderView>,
    samples: Vec<u32>,
)
    requires
        read_in_pieces(views, wants),
        views.last().eof,
        views.last().pending.len() == 0,
        views.first().channels > 0,
        decoded_through(views.first(), after, chunks, Ok(samples)),
        after.rounds == views.last().rounds,
        steady(after.rounds_since(views.first()), views.first().channels),
    ensures
        samples@ == whole_frames(pieces(views, wants), views.first().channels as int),
{
    law_pieces_make_up_the_stream(views, wants);
    law_whole_medium_is_decoded(views.first(), after, chunks, samples);
    let all = supply(views.first(), views.last());
    assert(all.take(taken(views.first(), views.last(), total(wants))) =~= all);
}

/// Rounds of whole frames bring whole frames.
pub proof fn lemma_whole_rounds(rounds: Seq<Round>, channels: u32)
    requires
        channels > 0,
        steady(rounds, channels),
        forall|k: int| 0 <= k < rounds.len() ==> (#[trigger] rounds[k]).whole(),
    ensures
        samples_of(rounds).len() as int % channels as int == 0,
    decreases rounds.len(),
{
    if rounds.len() > 0 {
        let fewer = rounds.drop_last();
        assert forall|k: int| 0 <= k < fewer.len() implies ((
        #[trigger] fewer[k]).verdict() matches Verdict::Play(audio) ==> audio.channels
            == channels) by {
            assert(fewer[k] == rounds[k]);
        }
        assert forall|k: int| 0 <= k < fewer.len() implies (#[trigger] fewer[k]).whole() by {
            assert(fewer[k] == rounds[k]);
        }
        lemma_whole_rounds(fewer, channels);
        let last = rounds[rounds.len() - 1];
        let rest = last.samples().len() as int;
        lemma_floor(0, 0, channels as int);
        match last.verdict() {
            Verdict::Play(audio) => {
                assert(last.whole());
                assert(audio.channels == channels);
                assert(audio.samples.len() % audio.channels as nat == 0);
            },
            _ => {
                assert(rest == 0);
            },
        }
        lemma_floor(samples_of(fewer).len() as int, rest, channels as int);
        let c = channels as int;
        assert(rest / c * c == rest) by (nonlinear_arith)
            requires
                rest % c == 0,
                c > 0,
        ;
        assert(samples_of(rounds).len() == samples_of(fewer).len() + rest);
    } else {
        lemma_floor(0, 0, channels as int);
    }
}

/// A medium that is decoded as a whole from its start brings every sample that was decoded of it,
/// where all its packets decode to whole frames of one number of channels.
pub proof fn law_no_sample_is_dropped(
    before: DecoderView,
    after: DecoderView,
    views: Seq<DecoderView>,
    samples: Vec<u32>,
)
    requires
        before.channels > 0,
        before.pending.len() == 0,
        decoded_through(before, after, views, Ok(samples)),
        steady(after.rounds_since(before), before.channels),
        forall|k: int|
            0 <= k < after.rounds_since(before).len() ==> (#[trigger] after.rounds_since(
                before,
            )[k]).whole(),
    ensures
        samples@ == samples_of(after.rounds_since(before)),
{
    law_whole_medium_is_decoded(before, after, views, samples);
    let new = after.rounds_since(before);
    let c = before.channels as int;
    lemma_whole_rounds(new, before.channels);
    let all = supply(before, after);
    assert(all =~= samples_of(new));
    lemma_floor(all.len() as int, 0, c);
    assert(whole_frames(all, c) =~= all);
}

/// The samples that the chunks keep make up whole frames.
proof fn lemma_chunks_are_whole(views: Seq<DecoderView>, stride: int)
    requires
        stride > 0,
        read_chunks(views, stride),
    ensures
        all_chunks(views, stride).len() as int % stride == 0,
    decreases views.len(),
{
    if views.len() > 1 {
        let fewer = views.drop_last();
        assert forall|i: int| 0 <= i < fewer.len() - 1 implies read_chunk(
            #[trigger] fewer[i],
            fewer[i + 1],
            stride,
        ) by {
            assert(views[i] == fewer[i]);
        }
        lemma_chunks_are_whole(fewer, stride);
        let before = views[views.len() - 2];
        let after = views.last();
        assert(read_chunk(before, after, stride));
        lemma_chunk_frames(before, after, stride);
        let frames = chunk_frames(before, after);
        let kept = all_chunks(fewer, stride).len() as int;
        assert(chunk_samples(before, after, stride).len() == frames * stride);
        lemma_mod_multiples_vanish(frames, kept, stride);
        assert(stride * frames == frames * stride) by (nonlinear_arith);
    } else {
        lemma_floor(0, 0, stride);
    }
}

/// A buffer that was filled holds as many samples as its frames have channels.
pub proof fn law_buffer_counts_its_samples(
    before: DecoderView,
    after: DecoderView,
    views: Seq<DecoderView>,
    samples: Vec<u32>,
    buffer: SymphoniaCAudioBuffer,
)
    requires
        before.channels > 0,
        decoded_through(before, after, views, Ok(samples)),
        filled(buffer, samples@, before, after),
    ensures
        buffer.sample_count == buffer.samples@.len(),
        buffer.sample_count == buffer.frames * buffer.channels,
{
    let c = before.channels as int;
    lemma_chunks_are_whole(views, c);
    let n = samples@.len() as int;
    let frames = buffer.frames as int;
    assert(n == frames * c) by (nonlinear_arith)
        requires
            n % c == 0,
            c > 0,
            frames == n / c,
    ;
}

/// The caller is told that an argument is invalid, and why.
pub open spec fn told_invalid(status: i32, message: Seq<u8>, why: Seq<char>) -> bool {
    status == SYMPHONIA_C_INVALID_ARGUMENT && message == message_bytes(why)
}

/// Opening a file answers with a status that is not positive. It is the status of success if and
/// only if there is a decoder, and no message is left then. A missing place for the decoder, a
/// missing path and a path that is no text are refused, each with its own message.
pub proof fn law_open_answers<F: FnOnce(&str) -> Result<MediaStream, std::io::Error>>(
    path: Option<&[u8]>,
    open: F,
    slot: Option<Option<SymphoniaCDecoder>>,
    message: Seq<u8>,
    status: i32,
)
    requires
        open_to_status(path, open, slot, message, status),
    ensures
        is_status(status),
        status <= 0,
        status == SYMPHONIA_C_OK <==> slot matches Some(Some(_)),
        status == SYMPHONIA_C_OK ==> message == Seq::<u8>::empty(),
        slot is None ==> told_invalid(status, message, "out_decoder must not be null"@),
        slot is Some && path is None ==> told_invalid(status, message, "path must not be null"@),
        slot is Some && (path matches Some(bytes) && !valid_utf8(bytes@)) ==> told_invalid(
            status,
            message,
            "path must be valid UTF-8"@,
        ),
{
}

/// Decoding a file answers with a status that is not positive. Any status but that of success
/// leaves the buffer empty. Success leaves no message, and a buffer that holds as many samples as its
/// frames have channels. A missing buffer, a missing path and a path
/// that is no text are refused, each with its own message.
pub proof fn law_decode_answers<F: FnOnce(&str) -> Result<MediaStream, std::io::Error>>(
    path: Option<&[u8]>,
    open: F,
    buffer: Option<SymphoniaCAudioBuffer>,
    message: Seq<u8>,
    status: i32,
)
    requires
        decode_to_status(path, open, buffer, message, status),
    ensures
        is_status(status),
        status <= 0,
        status == SYMPHONIA_C_OK ==> buffer is Some && message == Seq::<u8>::empty(),
        status == SYMPHONIA_C_OK ==> buffer->0.sample_count == buffer->0.samples@.len()
            && buffer->0.sample_count == buffer->0.frames * buffer->0.channels,
        status != SYMPHONIA_C_OK ==> (buffer matches Some(b) ==> b.is_empty()),
        buffer is None ==> told_invalid(status, message, "out_buffer must not be null"@),
        buffer is Some && path is None ==> told_invalid(status, message, "path must not be null"@),
        buffer is Some && (path matches Some(bytes) && !valid_utf8(bytes@)) ==> told_invalid(
            status,
            message,
            "path must be valid UTF-8"@,
        ),
{
    if status == SYMPHONIA_C_OK {
        let b = buffer->0;
        let (first, last) = choose|first: SymphoniaCDecoder, last: SymphoniaCDecoder| #[trigger]
            decode_course(path, open, first, last, b, message, status);
        let (whole, result) = choose|whole: Result<Vec<u32>, ApiError>, result: Result<(), ApiError>|
            {
                &&& #[trigger] decode_call_on(first, last, whole, b, result)
                &&& reported(
                    Some(result),
                    "panic while decoding file"@,
                    Seq::empty(),
                    message,
                    status,
                )
            };
        assert(whole is Ok);
        let samples = whole->Ok_0;
        let views = choose|views: Seq<DecoderView>| #[trigger]
            decoded_through(first@, last@, views, whole);
        law_buffer_counts_its_samples(first@, last@, views, samples, b);
    }
}

/// A read answers with a status. With a decoder at hand it leaves the message that belongs to no
/// decoder alone, and a read that does not fail leaves no message in the decoder. A read that fails
/// counts no frames. A read of some frames that does not fail answers that the stream has ended if
/// and only if it has and no frame came. Missing places for the count and for the samples and a
/// missing decoder are refused, each with its own message.
pub proof fn law_read_answers(
    before: Option<DecoderView>,
    after: Option<DecoderView>,
    out_before: Option<Seq<u32>>,
    out_after: Option<Seq<u32>>,
    frame_capacity: usize,
    frames: Option<usize>,
    global_before: Seq<u8>,
    global_after: Seq<u8>,
    status: i32,
)
    requires
        read_to_status(
            before,
            after,
            out_before,
            out_after,
            frame_capacity,
            frames,
            global_before,
            global_after,
            status,
        ),
    ensures
        is_status(status),
        after is Some <==> before is Some,
        before is Some ==> global_after == global_before,
        status >= 0 ==> after is Some && after->0.last_error == Seq::<u8>::empty(),
        status < 0 ==> (frames matches Some(count) ==> count == 0),
        status >= 0 && frame_capacity > 0 ==> (status == SYMPHONIA_C_END_OF_STREAM <==> frames
            == Some(0usize) && after->0.eof),
        frame_capacity == 0 && before is Some && frames is Some ==> status == SYMPHONIA_C_OK,
        frames is None && before is Some ==> told_invalid(
            status,
            after->0.last_error,
            "out_frames must not be null"@,
        ),
        frames is None && before is None ==> told_invalid(
            status,
            global_after,
            "out_frames must not be null"@,
        ),
        frames is Some && before is None ==> told_invalid(
            status,
            global_after,
            "decoder must not be null"@,
        ),
        frames is Some && out_before is None && (before matches Some(view) && 0 < frame_capacity
            * view.channels <= usize::MAX) ==> told_invalid(
            status,
            after->0.last_error,
            "out_samples must not be null"@,
        ),
{
}

} // verus!
