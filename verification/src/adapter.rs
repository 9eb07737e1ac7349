//! The sample adapter: what the capture callback does with one block of
//! samples, and what the playback callback does for one output slot.
//!
//! A block is cut into frames. Each frame yields one value, computed by one
//! of two caller-supplied functions, and the value is offered to the route's
//! buffer once or twice:
//!
//! * one channel in, two out: every sample is a frame; its boosted value is
//!   offered twice, once for each output channel;
//! * two channels in, one out: every pair of samples is a frame; the mix of
//!   the pair is offered once, and an unpaired last sample is left out;
//! * any other combination: every sample is a frame; its boosted value is
//!   offered once.
//!
//! An offer made to a full buffer is dropped. Nothing here waits.

use vstd::prelude::*;
use crate::buffer::{
    SampleConsumer, SampleProducer, at_most, consumer_pop, producer_is_full, producer_push,
};
use crate::config::SILENCE;

verus! {

/// How the channels of a capture device map to those of a playback device.
#[derive(Clone, Copy, Debug, PartialEq, Eq, Structural)]
pub enum ChannelPolicy {
    /// One channel to two: each sample goes to both output channels.
    Duplicate,
    /// Two channels to one: each pair of samples is mixed into one.
    MixDown,
    /// Sample by sample, as the channels come.
    PassThrough,
}

/// The amplitude settings that apply to every route.
#[derive(Clone, Copy, Debug, PartialEq, Eq, Structural)]
pub struct AudioSettings {
    /// Factor applied to the sum of a stereo pair (bit pattern).
    pub mix_ratio: u32,
    /// Lower clamp bound (bit pattern).
    pub sample_min: u32,
    /// Upper clamp bound (bit pattern).
    pub sample_max: u32,
}

impl ChannelPolicy {
    /// The policy for a pair of channel counts.
    pub open spec fn of(in_channels: u16, out_channels: u16) -> ChannelPolicy {
        if in_channels == 1 && out_channels == 2 {
            ChannelPolicy::Duplicate
        } else if in_channels == 2 && out_channels == 1 {
            ChannelPolicy::MixDown
        } else {
            ChannelPolicy::PassThrough
        }
    }

    /// How many input samples make one frame.
    pub open spec fn stride(self) -> nat {
        match self {
            ChannelPolicy::MixDown => 2,
            _ => 1,
        }
    }

    /// How many times the value of a frame is offered to the buffer.
    pub open spec fn copies(self) -> nat {
        match self {
            ChannelPolicy::Duplicate => 2,
            _ => 1,
        }
    }

    /// How many frames a block of `samples` samples holds.
    pub open spec fn frames(self, samples: nat) -> nat {
        samples / self.stride()
    }

    /// How many output samples a block of `samples` samples yields when
    /// nothing is dropped.
    pub open spec fn output_len(self, samples: nat) -> nat {
        self.frames(samples) * self.copies()
    }

    /// How many copies of frame `frame` find room in a buffer that had room
    /// for `room` samples before the block and is not read from meanwhile.
    pub open spec fn copies_kept(self, room: nat, frame: int) -> nat {
        let before = frame * self.copies();
        if before >= room {
            0
        } else {
            at_most(self.copies(), (room - before) as nat)
        }
    }

    /// The policy for a pair of channel counts.
    pub fn select(in_channels: u16, out_channels: u16) -> (policy: ChannelPolicy)
        ensures
            policy == ChannelPolicy::of(in_channels, out_channels),
    {
        if in_channels == 1 && out_channels == 2 {
            ChannelPolicy::Duplicate
        } else if in_channels == 2 && out_channels == 1 {
            ChannelPolicy::MixDown
        } else {
            ChannelPolicy::PassThrough
        }
    }
}

/// `value` is what the caller's functions give for frame `frame` of `data`:
/// the boost of the frame's sample, or the mix of its pair of samples.
pub open spec fn is_frame_value<B: Fn(u32, u32, u32, u32) -> u32, M: Fn(
    u32,
    u32,
    u32,
    u32,
    u32,
    u32,
) -> u32>(
    policy: ChannelPolicy,
    data: Seq<u32>,
    gain: u32,
    settings: AudioSettings,
    boost: B,
    mix: M,
    frame: int,
    value: u32,
) -> bool {
    match policy {
        ChannelPolicy::MixDown => call_ensures(
            mix,
            (
                data[2 * frame],
                data[2 * frame + 1],
                settings.mix_ratio,
                gain,
                settings.sample_min,
                settings.sample_max,
            ),
            value,
        ),
        _ => call_ensures(
            boost,
            (data[frame], gain, settings.sample_min, settings.sample_max),
            value,
        ),
    }
}

/// `count` times `value`.
pub open spec fn repeated(value: u32, count: nat) -> Seq<u32> {
    Seq::new(count, |i: int| value)
}

/// The samples that reach the buffer when frame `k` has the value
/// `values[k]` and `counts[k]` of its copies are accepted.
pub open spec fn emitted(values: Seq<u32>, counts: Seq<nat>) -> Seq<u32>
    decreases values.len(),
{
    if values.len() == 0 || counts.len() == 0 {
        Seq::<u32>::empty()
    } else {
        emitted(values.drop_last(), counts.drop_last()) + repeated(values.last(), counts.last())
    }
}

/// What one call of [`handle_input_data`] did to the accepted samples, told
/// by the value of each frame and the number of its copies that were
/// accepted.
///
/// * There is one value and one count for each frame of the block.
/// * No frame has more copies accepted than the policy offers.
/// * The value of every frame that had a copy accepted is the one the
///   caller's functions give for it.
/// * `after` is `before` followed by the accepted copies, frame by frame.
pub open spec fn is_adaptation<B: Fn(u32, u32, u32, u32) -> u32, M: Fn(
    u32,
    u32,
    u32,
    u32,
    u32,
    u32,
) -> u32>(
    policy: ChannelPolicy,
    data: Seq<u32>,
    gain: u32,
    settings: AudioSettings,
    boost: B,
    mix: M,
    before: Seq<u32>,
    after: Seq<u32>,
    values: Seq<u32>,
    counts: Seq<nat>,
) -> bool {
    &&& values.len() == policy.frames(data.len())
    &&& counts.len() == policy.frames(data.len())
    &&& forall|k: int| 0 <= k < counts.len() ==> #[trigger] counts[k] <= policy.copies()
    &&& forall|k: int|
        0 <= k < counts.len() && #[trigger] counts[k] > 0 ==> is_frame_value(
            policy,
            data,
            gain,
            settings,
            boost,
            mix,
            k,
            values[k],
        )
    &&& after == before + emitted(values, counts)
}

/// Every frame had exactly those copies accepted that fit into a buffer
/// with room for `room` samples from which nothing is removed meanwhile.
pub open spec fn keeps_what_fits(policy: ChannelPolicy, room: nat, counts: Seq<nat>) -> bool {
    forall|k: int| 0 <= k < counts.len() ==> #[trigger] counts[k] == policy.copies_kept(room, k)
}

/// Extending the frames by one appends that frame's accepted copies.
pub proof fn lemma_emitted_push(values: Seq<u32>, counts: Seq<nat>, value: u32, count: nat)
    requires
        values.len() == counts.len(),
    ensures
        emitted(values.push(value), counts.push(count)) == emitted(values, counts) + repeated(
            value,
            count,
        ),
{
    assert(values.push(value).drop_last() =~= values);
    assert(counts.push(count).drop_last() =~= counts);
}

/// The output of a block when nothing is dropped: the value of each frame,
/// as many times in a row as the policy offers it.
pub open spec fn full_output(policy: ChannelPolicy, values: Seq<u32>) -> Seq<u32> {
    Seq::new(values.len() * policy.copies(), |slot: int| values[slot / (policy.copies() as int)])
}

/// When every frame keeps exactly the copies that fit into `room`, what is
/// emitted is the full output cut off after `room` samples.
pub proof fn lemma_emitted_when_undisturbed(
    policy: ChannelPolicy,
    values: Seq<u32>,
    counts: Seq<nat>,
    room: nat,
)
    requires
        values.len() == counts.len(),
        keeps_what_fits(policy, room, counts),
    ensures
        emitted(values, counts) == full_output(policy, values).take(
            at_most(values.len() * policy.copies(), room) as int,
        ),
    decreases values.len(),
{
    let copies = policy.copies();
    let whole = full_output(policy, values);
    let kept = at_most(values.len() * copies, room);
    if values.len() == 0 {
        assert(emitted(values, counts) =~= whole.take(kept as int));
    } else {
        let front_values = values.drop_last();
        let front_counts = counts.drop_last();
        let front = full_output(policy, front_values);
        let front_kept = at_most(front_values.len() * copies, room);
        assert(forall|k: int|
            0 <= k < front_counts.len() ==> #[trigger] front_counts[k] == counts[k]);
        assert(keeps_what_fits(policy, room, front_counts));
        lemma_emitted_when_undisturbed(policy, front_values, front_counts, room);
        assert(counts.last() == policy.copies_kept(room, counts.len() - 1));
        assert(front_values.len() * copies + copies == values.len() * copies)
            by (nonlinear_arith)
            requires
                front_values.len() + 1 == values.len(),
        ;
        let tail = repeated(values.last(), counts.last());
        assert(kept == front_kept + counts.last());
        assert forall|slot: int| 0 <= slot < kept implies (#[trigger] (front.take(
            front_kept as int,
        ) + tail)[slot]) == whole.take(kept as int)[slot] by {
            if copies == 1 {
                assert(slot / 1 == slot);
            } else {
                assert(copies == 2);
            }
        }
        assert(front.take(front_kept as int) + tail =~= whole.take(kept as int));
    }
}

/// One channel to two. If the buffer had room for two samples for every
/// sample of the block and nothing was removed from it meanwhile, the block
/// adds twice as many samples as it holds; the two that sample `k` adds
/// stand side by side, are equal, and are the boost of that sample.
pub proof fn lemma_mono_to_stereo<B: Fn(u32, u32, u32, u32) -> u32, M: Fn(
    u32,
    u32,
    u32,
    u32,
    u32,
    u32,
) -> u32>(
    data: Seq<u32>,
    gain: u32,
    settings: AudioSettings,
    boost: B,
    mix: M,
    before: Seq<u32>,
    after: Seq<u32>,
    room: nat,
    values: Seq<u32>,
    counts: Seq<nat>,
)
    requires
        is_adaptation(
            ChannelPolicy::Duplicate,
            data,
            gain,
            settings,
            boost,
            mix,
            before,
            after,
            values,
            counts,
        ),
        keeps_what_fits(ChannelPolicy::Duplicate, room, counts),
        room >= 2 * data.len(),
    ensures
        after.len() == before.len() + 2 * data.len(),
        after.take(before.len() as int) == before,
        forall|k: int|
            0 <= k < data.len() ==> {
                &&& call_ensures(
                    boost,
                    (data[k], gain, settings.sample_min, settings.sample_max),
                    #[trigger] after[before.len() + 2 * k],
                )
                &&& after[before.len() + 2 * k + 1] == after[before.len() + 2 * k]
            },
{
    lemma_emitted_when_undisturbed(ChannelPolicy::Duplicate, values, counts, room);
    let added = full_output(ChannelPolicy::Duplicate, values);
    assert(added.take(added.len() as int) =~= added);
    assert(after.take(before.len() as int) =~= before);
    assert forall|k: int| 0 <= k < data.len() implies {
        &&& call_ensures(
            boost,
            (data[k], gain, settings.sample_min, settings.sample_max),
            #[trigger] after[before.len() + 2 * k],
        )
        &&& after[before.len() + 2 * k + 1] == after[before.len() + 2 * k]
    } by {
        assert(counts[k] == ChannelPolicy::Duplicate.copies_kept(room, k));
        assert(counts[k] > 0);
        assert(added[2 * k] == values[k]);
        assert(added[2 * k + 1] == values[k]);
    }
}

/// Two channels to one. If the buffer had room for one sample for every
/// pair of the block and nothing was removed from it meanwhile, the block
/// adds one sample for each of its pairs, in order: the mix of the pair. A
/// last sample without a partner belongs to no pair and adds nothing.
pub proof fn lemma_stereo_to_mono<B: Fn(u32, u32, u32, u32) -> u32, M: Fn(
    u32,
    u32,
    u32,
    u32,
    u32,
    u32,
) -> u32>(
    data: Seq<u32>,
    gain: u32,
    settings: AudioSettings,
    boost: B,
    mix: M,
    before: Seq<u32>,
    after: Seq<u32>,
    room: nat,
    values: Seq<u32>,
    counts: Seq<nat>,
)
    requires
        is_adaptation(
            ChannelPolicy::MixDown,
            data,
            gain,
            settings,
            boost,
            mix,
            before,
            after,
            values,
            counts,
        ),
        keeps_what_fits(ChannelPolicy::MixDown, room, counts),
        room >= data.len() / 2,
    ensures
        after.len() == before.len() + data.len() / 2,
        after.take(before.len() as int) == before,
        forall|k: int|
            0 <= k < data.len() / 2 ==> call_ensures(
                mix,
                (
                    data[2 * k],
                    data[2 * k + 1],
                    settings.mix_ratio,
                    gain,
                    settings.sample_min,
                    settings.sample_max,
                ),
                #[trigger] after[before.len() + k],
            ),
{
    lemma_emitted_when_undisturbed(ChannelPolicy::MixDown, values, counts, room);
    let added = full_output(ChannelPolicy::MixDown, values);
    assert(added =~= values);
    assert(added.take(added.len() as int) =~= added);
    assert(after.take(before.len() as int) =~= before);
    assert forall|k: int| 0 <= k < data.len() / 2 implies call_ensures(
        mix,
        (
            data[2 * k],
            data[2 * k + 1],
            settings.mix_ratio,
            gain,
            settings.sample_min,
            settings.sample_max,
        ),
        #[trigger] after[before.len() + k],
    ) by {
        assert(counts[k] == ChannelPolicy::MixDown.copies_kept(room, k));
        assert(counts[k] > 0);
    }
}

/// Any other pair of channel counts. If the buffer had room for every
/// sample of the block and nothing was removed from it meanwhile, the block
/// adds one sample for each of its samples, in order: the boost of the
/// sample.
pub proof fn lemma_pass_through<B: Fn(u32, u32, u32, u32) -> u32, M: Fn(
    u32,
    u32,
    u32,
    u32,
    u32,
    u32,
) -> u32>(
    data: Seq<u32>,
    gain: u32,
    settings: AudioSettings,
    boost: B,
    mix: M,
    before: Seq<u32>,
    after: Seq<u32>,
    room: nat,
    values: Seq<u32>,
    counts: Seq<nat>,
)
    requires
        is_adaptation(
            ChannelPolicy::PassThrough,
            data,
            gain,
            settings,
            boost,
            mix,
            before,
            after,
            values,
            counts,
        ),
        keeps_what_fits(ChannelPolicy::PassThrough, room, counts),
        room >= data.len(),
    ensures
        after.len() == before.len() + data.len(),
        after.take(before.len() as int) == before,
        forall|k: int|
            0 <= k < data.len() ==> call_ensures(
                boost,
                (data[k], gain, settings.sample_min, settings.sample_max),
                #[trigger] after[before.len() + k],
            ),
{
    lemma_emitted_when_undisturbed(ChannelPolicy::PassThrough, values, counts, room);
    let added = full_output(ChannelPolicy::PassThrough, values);
    assert(added =~= values);
    assert(added.take(added.len() as int) =~= added);
    assert(after.take(before.len() as int) =~= before);
    assert forall|k: int| 0 <= k < data.len() implies call_ensures(
        boost,
        (data[k], gain, settings.sample_min, settings.sample_max),
        #[trigger] after[before.len() + k],
    ) by {
        assert(counts[k] == ChannelPolicy::PassThrough.copies_kept(room, k));
        assert(counts[k] > 0);
    }
}

/// Whatever the channel counts: a block offered to a buffer from which
/// nothing is removed meanwhile adds as many samples as there is room for
/// and no more, and leaves what was accepted before as it was. A full
/// buffer takes nothing.
pub proof fn lemma_overrun_drops_the_rest<B: Fn(u32, u32, u32, u32) -> u32, M: Fn(
    u32,
    u32,
    u32,
    u32,
    u32,
    u32,
) -> u32>(
    policy: ChannelPolicy,
    data: Seq<u32>,
    gain: u32,
    settings: AudioSettings,
    boost: B,
    mix: M,
    before: Seq<u32>,
    after: Seq<u32>,
    room: nat,
    values: Seq<u32>,
    counts: Seq<nat>,
)
    requires
        is_adaptation(policy, data, gain, settings, boost, mix, before, after, values, counts),
        keeps_what_fits(policy, room, counts),
    ensures
        after.len() == before.len() + at_most(policy.output_len(data.len()), room),
        before.is_prefix_of(after),
        room == 0 ==> after == before,
{
    lemma_emitted_when_undisturbed(policy, values, counts, room);
    assert(after.take(before.len() as int) =~= before);
    if room == 0 {
        assert(after =~= before);
    }
}

/// Feeds one captured block into the route's buffer.
///
/// The block is cut into frames as the channel counts require. For each
/// frame, in order: if the buffer is full the frame is skipped; otherwise its
/// value is computed, with `boost` from the frame's sample or with `mix` from
/// its pair of samples, and offered to the buffer once, or twice when one
/// channel feeds two. `boost` is handed the sample, the gain and the two
/// clamp bounds; `mix` the two samples, the mix ratio, the gain and the two
/// clamp bounds. An offer the buffer refuses is dropped.
pub fn handle_input_data<B: Fn(u32, u32, u32, u32) -> u32, M: Fn(
    u32,
    u32,
    u32,
    u32,
    u32,
    u32,
) -> u32>(
    data: &[u32],
    producer: &mut SampleProducer,
    in_channels: u16,
    out_channels: u16,
    gain: u32,
    audio_settings: &AudioSettings,
    boost: &B,
    mix: &M,
)
    requires
        forall|sample: u32|
            call_requires(
                *boost,
                (sample, gain, audio_settings.sample_min, audio_settings.sample_max),
            ),
        forall|left: u32, right: u32|
            call_requires(
                *mix,
                (
                    left,
                    right,
                    audio_settings.mix_ratio,
                    gain,
                    audio_settings.sample_min,
                    audio_settings.sample_max,
                ),
            ),
    ensures
        final(producer).capacity() == old(producer).capacity(),
        old(producer).drained() <= final(producer).drained(),
        exists|values: Seq<u32>, counts: Seq<nat>|
            {
                &&& #[trigger] is_adaptation(
                    ChannelPolicy::of(in_channels, out_channels),
                    data@,
                    gain,
                    *audio_settings,
                    *boost,
                    *mix,
                    old(producer).sent(),
                    final(producer).sent(),
                    values,
                    counts,
                )
                &&& final(producer).drained() == old(producer).drained() ==> keeps_what_fits(
                    ChannelPolicy::of(in_channels, out_channels),
                    old(producer).room(),
                    counts,
                )
                &&& final(producer).drained() == old(producer).drained()
                    ==> final(producer).sent() == old(producer).sent() + full_output(
                    ChannelPolicy::of(in_channels, out_channels),
                    values,
                ).take(
                    at_most(
                        ChannelPolicy::of(in_channels, out_channels).output_len(data@.len()),
                        old(producer).room(),
                    ) as int,
                )
            },
{
    let policy = ChannelPolicy::select(in_channels, out_channels);
    let frames: usize = match policy {
        ChannelPolicy::MixDown => data.len() / 2,
        _ => data.len(),
    };
    let ghost room = old(producer).room();
    let ghost mut values: Seq<u32> = Seq::empty();
    let ghost mut counts: Seq<nat> = Seq::empty();
    let mut frame: usize = 0;
    while frame < frames
        invariant
            policy == ChannelPolicy::of(in_channels, out_channels),
            data@.len() <= usize::MAX,
            frames == policy.frames(data@.len()),
            frame <= frames,
            room == old(producer).room(),
            forall|sample: u32|
                call_requires(
                    *boost,
                    (sample, gain, audio_settings.sample_min, audio_settings.sample_max),
                ),
            forall|left: u32, right: u32|
                call_requires(
                    *mix,
                    (
                        left,
                        right,
                        audio_settings.mix_ratio,
                        gain,
                        audio_settings.sample_min,
                        audio_settings.sample_max,
                    ),
                ),
            producer.capacity() == old(producer).capacity(),
            old(producer).drained() <= producer.drained(),
            values.len() == frame,
            counts.len() == frame,
            forall|k: int| 0 <= k < counts.len() ==> #[trigger] counts[k] <= policy.copies(),
            forall|k: int|
                0 <= k < counts.len() && #[trigger] counts[k] > 0 ==> is_frame_value(
                    policy,
                    data@,
                    gain,
                    *audio_settings,
                    *boost,
                    *mix,
                    k,
                    values[k],
                ),
            producer.sent() == old(producer).sent() + emitted(values, counts),
            producer.drained() == old(producer).drained() ==> keeps_what_fits(
                policy,
                room,
                counts,
            ),
        decreases frames - frame,
    {
        let ghost sent_before = producer.sent();
        proof {
            if producer.drained() == old(producer).drained() {
                lemma_emitted_when_undisturbed(policy, values, counts, room);
            }
            if policy == ChannelPolicy::MixDown {
                assert(policy.stride() == 2);
                assert(2 * frame + 1 < data@.len());
            } else {
                assert(policy.stride() == 1);
                assert(frame < data@.len());
            }
        }
        let mut value: u32 = SILENCE;
        let mut kept: usize = 0;
        if !producer_is_full(producer) {
            value = match policy {
                ChannelPolicy::MixDown => mix(
                    data[2 * frame],
                    data[2 * frame + 1],
                    audio_settings.mix_ratio,
                    gain,
                    audio_settings.sample_min,
                    audio_settings.sample_max,
                ),
                _ => boost(
                    data[frame],
                    gain,
                    audio_settings.sample_min,
                    audio_settings.sample_max,
                ),
            };
            if producer_push(producer, value).is_ok() {
                kept += 1;
            }
            match policy {
                ChannelPolicy::Duplicate => {
                    if producer_push(producer, value).is_ok() {
                        kept += 1;
                    }
                },
                _ => {},
            }
        }
        proof {
            lemma_emitted_push(values, counts, value, kept as nat);
            assert(repeated(value, 0) =~= Seq::<u32>::empty());
            assert(repeated(value, 1) =~= seq![value]);
            assert(repeated(value, 2) =~= seq![value, value]);
            assert(sent_before + repeated(value, 0) =~= sent_before);
            assert(sent_before + repeated(value, 1) =~= sent_before.push(value));
            assert(sent_before + repeated(value, 2) =~= sent_before.push(value).push(value));
            assert(old(producer).sent() + (emitted(values, counts) + repeated(value, kept as nat))
                =~= (old(producer).sent() + emitted(values, counts)) + repeated(
                value,
                kept as nat,
            ));
            values = values.push(value);
            counts = counts.push(kept as nat);
        }
        frame += 1;
    }
    proof {
        if producer.drained() == old(producer).drained() {
            lemma_emitted_when_undisturbed(policy, values, counts, room);
        }
        assert(is_adaptation(
            policy,
            data@,
            gain,
            *audio_settings,
            *boost,
            *mix,
            old(producer).sent(),
            producer.sent(),
            values,
            counts,
        ));
    }
}

/// The sample for the next output slot: the oldest sample waiting in the
/// buffer, which is removed, or silence if none is waiting.
pub fn next_output_sample(consumer: &mut SampleConsumer) -> (sample: u32)
    ensures
        old(consumer).arrived().is_prefix_of(final(consumer).arrived()),
        old(consumer).taken() < final(consumer).arrived().len() ==> {
            &&& sample == final(consumer).arrived()[old(consumer).taken() as int]
            &&& final(consumer).taken() == old(consumer).taken() + 1
        },
        old(consumer).taken() >= final(consumer).arrived().len() ==> {
            &&& sample == SILENCE
            &&& final(consumer).taken() == old(consumer).taken()
        },
{
    match consumer_pop(consumer) {
        Some(sample) => sample,
        None => SILENCE,
    }
}

} // verus!
