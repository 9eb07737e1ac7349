use audio_router::adapter::{handle_input_data, next_output_sample, AudioSettings, ChannelPolicy};
use audio_router::buffer::{SampleBuffer, SampleConsumer, SampleProducer};

fn boost(sample: u32, gain: u32, min: u32, max: u32) -> u32 {
    (f32::from_bits(sample) * f32::from_bits(gain))
        .clamp(f32::from_bits(min), f32::from_bits(max))
        .to_bits()
}

fn mix(left: u32, right: u32, ratio: u32, gain: u32, min: u32, max: u32) -> u32 {
    ((f32::from_bits(left) + f32::from_bits(right)) * f32::from_bits(ratio) * f32::from_bits(gain))
        .clamp(f32::from_bits(min), f32::from_bits(max))
        .to_bits()
}

fn settings(mix_ratio: f32, min: f32, max: f32) -> AudioSettings {
    AudioSettings {
        mix_ratio: mix_ratio.to_bits(),
        sample_min: min.to_bits(),
        sample_max: max.to_bits(),
    }
}

fn bits(samples: &[f32]) -> Vec<u32> {
    samples.iter().map(|sample| sample.to_bits()).collect()
}

fn queue(capacity: usize) -> (SampleProducer, SampleConsumer) {
    SampleBuffer::new(capacity).split()
}

fn feed(
    producer: &mut SampleProducer,
    samples: &[f32],
    in_channels: u16,
    out_channels: u16,
    gain: f32,
    settings: &AudioSettings,
) {
    handle_input_data(
        &bits(samples),
        producer,
        in_channels,
        out_channels,
        gain.to_bits(),
        settings,
        &boost,
        &mix,
    );
}

fn drain(consumer: &mut SampleConsumer, count: usize) -> Vec<f32> {
    (0..count).map(|_| f32::from_bits(next_output_sample(consumer))).collect()
}

#[test]
fn mono_to_stereo_boosts_and_clamps_into_both_slots() {
    let (mut producer, mut consumer) = queue(8);
    feed(&mut producer, &[0.6], 1, 2, 2.0, &settings(0.5, -1.0, 1.0));
    assert_eq!(drain(&mut consumer, 3), vec![1.0, 1.0, 0.0]);
}

#[test]
fn stereo_to_mono_mixes_the_pair() {
    let (mut producer, mut consumer) = queue(8);
    feed(&mut producer, &[0.2, -0.4], 2, 1, 1.0, &settings(0.5, -1.0, 1.0));
    assert_eq!(drain(&mut consumer, 2), vec![-0.1, 0.0]);
}

#[test]
fn mono_to_stereo_output_is_interleaved_pairs() {
    let (mut producer, mut consumer) = queue(16);
    feed(&mut producer, &[0.1, -0.25, 0.5], 1, 2, 2.0, &settings(0.5, -0.75, 0.75));
    assert_eq!(
        drain(&mut consumer, 7),
        vec![0.2, 0.2, -0.5, -0.5, 0.75, 0.75, 0.0]
    );
}

#[test]
fn stereo_to_mono_drops_an_unpaired_last_sample() {
    let (mut producer, mut consumer) = queue(16);
    feed(
        &mut producer,
        &[0.5, 0.25, -0.5, -0.25, 0.125],
        2,
        1,
        2.0,
        &settings(0.5, -1.0, 1.0),
    );
    assert_eq!(drain(&mut consumer, 3), vec![0.75, -0.75, 0.0]);
}

#[test]
fn stereo_to_mono_clamps_the_mix() {
    let (mut producer, mut consumer) = queue(4);
    feed(&mut producer, &[1.0, 1.0, -1.0, -1.0], 2, 1, 4.0, &settings(0.5, -0.5, 0.5));
    assert_eq!(drain(&mut consumer, 2), vec![0.5, -0.5]);
}

#[test]
fn equal_channel_counts_pass_each_sample_once() {
    let (mut producer, mut consumer) = queue(8);
    feed(&mut producer, &[0.25, -0.5, 2.0], 2, 2, 0.5, &settings(0.5, -0.5, 0.5));
    assert_eq!(drain(&mut consumer, 4), vec![0.125, -0.25, 0.5, 0.0]);
}

#[test]
fn unsupported_channel_counts_pass_each_sample_once() {
    let (mut producer, mut consumer) = queue(8);
    feed(&mut producer, &[0.25, 0.5, 0.75], 6, 2, 1.0, &settings(0.5, -1.0, 1.0));
    assert_eq!(drain(&mut consumer, 4), vec![0.25, 0.5, 0.75, 0.0]);
}

#[test]
fn samples_offered_to_a_full_buffer_are_dropped() {
    let (mut producer, mut consumer) = queue(2);
    feed(&mut producer, &[0.25, 0.5, 0.75], 1, 1, 1.0, &settings(0.5, -1.0, 1.0));
    assert_eq!(drain(&mut consumer, 3), vec![0.25, 0.5, 0.0]);
}

#[test]
fn a_pair_that_fits_only_half_keeps_its_first_copy() {
    let (mut producer, mut consumer) = queue(3);
    feed(&mut producer, &[0.25, 0.5, 0.75], 1, 2, 1.0, &settings(0.5, -1.0, 1.0));
    assert_eq!(drain(&mut consumer, 4), vec![0.25, 0.25, 0.5, 0.0]);
}

#[test]
fn a_drained_buffer_accepts_samples_again() {
    let (mut producer, mut consumer) = queue(2);
    let plain = settings(0.5, -1.0, 1.0);
    feed(&mut producer, &[0.25, 0.5, 0.75], 1, 1, 1.0, &plain);
    assert_eq!(drain(&mut consumer, 1), vec![0.25]);
    feed(&mut producer, &[0.875, 0.625], 1, 1, 1.0, &plain);
    assert_eq!(drain(&mut consumer, 3), vec![0.5, 0.875, 0.0]);
}

#[test]
fn an_empty_block_changes_nothing() {
    let (mut producer, mut consumer) = queue(2);
    feed(&mut producer, &[], 1, 2, 1.0, &settings(0.5, -1.0, 1.0));
    feed(&mut producer, &[0.5], 2, 1, 1.0, &settings(0.5, -1.0, 1.0));
    assert_eq!(drain(&mut consumer, 1), vec![0.0]);
}

#[test]
fn an_empty_buffer_yields_silence() {
    let (_producer, mut consumer) = queue(4);
    assert_eq!(next_output_sample(&mut consumer), 0);
    assert_eq!(next_output_sample(&mut consumer), 0.0f32.to_bits());
}

#[test]
fn samples_come_out_in_the_order_they_went_in() {
    let (mut producer, mut consumer) = queue(4);
    feed(&mut producer, &[0.5, -0.5], 1, 1, 1.0, &settings(0.5, -1.0, 1.0));
    assert_eq!(next_output_sample(&mut consumer), 0.5f32.to_bits());
    assert_eq!(next_output_sample(&mut consumer), (-0.5f32).to_bits());
    assert_eq!(next_output_sample(&mut consumer), 0);
}

#[test]
fn the_functions_are_handed_gain_and_settings() {
    let (mut producer, mut consumer) = queue(8);
    let echo_boost = |sample: u32, gain: u32, min: u32, max: u32| sample + gain + min + max;
    let echo_mix = |left: u32, right: u32, ratio: u32, gain: u32, min: u32, max: u32| {
        left * 100_000 + right * 10_000 + ratio * 1_000 + gain * 100 + min * 10 + max
    };
    let numbered = AudioSettings { mix_ratio: 3, sample_min: 5, sample_max: 6 };
    handle_input_data(&[1, 2], &mut producer, 2, 1, 4, &numbered, &echo_boost, &echo_mix);
    handle_input_data(&[1000], &mut producer, 1, 1, 4, &numbered, &echo_boost, &echo_mix);
    assert_eq!(next_output_sample(&mut consumer), 123_456);
    assert_eq!(next_output_sample(&mut consumer), 1015);
}

#[test]
fn the_policy_follows_the_channel_counts() {
    assert_eq!(ChannelPolicy::select(1, 2), ChannelPolicy::Duplicate);
    assert_eq!(ChannelPolicy::select(2, 1), ChannelPolicy::MixDown);
    assert_eq!(ChannelPolicy::select(1, 1), ChannelPolicy::PassThrough);
    assert_eq!(ChannelPolicy::select(2, 2), ChannelPolicy::PassThrough);
    assert_eq!(ChannelPolicy::select(2, 6), ChannelPolicy::PassThrough);
    assert_eq!(ChannelPolicy::select(0, 0), ChannelPolicy::PassThrough);
}
