use dmr_bridge_discord::resampler::resample;

#[test]
fn radio_frame_becomes_1920_samples_and_back_160() {
    let frame: Vec<i16> = (0..160).map(|i| (i * 100 - 8000) as i16).collect();
    let native = resample(&frame, 8000, 1, 48000, 2);
    assert_eq!(native.len(), 1920);
    let back = resample(&native, 48000, 2, 8000, 1);
    assert_eq!(back.len(), 160);
    assert_eq!(back, frame);
}

#[test]
fn rate_law_holds_for_silence_and_for_full_scale() {
    for value in [0i16, i16::MIN, i16::MAX] {
        let native = resample(&[value; 160], 8000, 1, 48000, 2);
        assert_eq!(native, vec![value; 1920]);
        let radio = resample(&[value; 1920], 48000, 2, 8000, 1);
        assert_eq!(radio, vec![value; 160]);
    }
}

#[test]
fn upsampling_interpolates_between_neighbours_and_holds_the_last() {
    let out = resample(&[0, 600], 8000, 1, 48000, 1);
    assert_eq!(out, vec![0, 100, 200, 300, 400, 500, 600, 600, 600, 600, 600, 600]);
}

#[test]
fn mono_to_stereo_duplicates() {
    let out = resample(&[0, 600], 8000, 1, 48000, 2);
    assert_eq!(
        out,
        vec![
            0, 0, 100, 100, 200, 200, 300, 300, 400, 400, 500, 500, 600, 600, 600, 600, 600, 600,
            600, 600, 600, 600, 600, 600
        ]
    );
    assert_eq!(resample(&[5, -5], 8000, 1, 8000, 2), vec![5, 5, -5, -5]);
}

#[test]
fn interpolation_rounds_toward_the_earlier_sample() {
    assert_eq!(resample(&[0, 7], 8000, 1, 48000, 1)[..6], [0, 1, 2, 3, 4, 5]);
    assert_eq!(resample(&[0, -7], 8000, 1, 48000, 1)[..6], [0, -1, -2, -3, -4, -5]);
    assert_eq!(resample(&[7, 0], 8000, 1, 48000, 1)[..6], [7, 6, 5, 4, 3, 2]);
    assert_eq!(resample(&[-7, 0], 8000, 1, 48000, 1)[..6], [-7, -6, -5, -4, -3, -2]);
}

#[test]
fn interpolation_spans_the_whole_sample_range() {
    let out = resample(&[i16::MIN, i16::MAX], 1, 1, 4, 1);
    assert_eq!(out, vec![-32768, -16385, -1, 16383, 32767, 32767, 32767, 32767]);
    let out = resample(&[i16::MAX, i16::MIN], 1, 1, 4, 1);
    assert_eq!(out, vec![32767, 16384, 0, -16384, -32768, -32768, -32768, -32768]);
}

#[test]
fn downsampling_takes_every_sixth_frame_and_averages_the_channels() {
    let mut native = Vec::new();
    for frame in 0..12i16 {
        native.push(frame * 10);
        native.push(frame * 10 + 4);
    }
    assert_eq!(resample(&native, 48000, 2, 8000, 1), vec![2, 62]);
}

#[test]
fn stereo_to_mono_average_rounds_toward_zero() {
    assert_eq!(resample(&[3, 0], 8000, 2, 8000, 1), vec![1]);
    assert_eq!(resample(&[-3, 0], 8000, 2, 8000, 1), vec![-1]);
    assert_eq!(resample(&[i16::MIN, i16::MIN], 8000, 2, 8000, 1), vec![i16::MIN]);
    assert_eq!(resample(&[i16::MAX, i16::MAX], 8000, 2, 8000, 1), vec![i16::MAX]);
    assert_eq!(resample(&[i16::MIN, i16::MAX], 8000, 2, 8000, 1), vec![0]);
}

#[test]
fn equal_channel_counts_keep_the_channels_apart() {
    let out = resample(&[10, 20, 30, 40], 8000, 2, 16000, 2);
    assert_eq!(out, vec![10, 20, 20, 30, 30, 40, 30, 40]);
}

#[test]
fn other_channel_counts_carry_the_mean() {
    assert_eq!(resample(&[3, 6, 9], 8000, 3, 8000, 2), vec![6, 6]);
    assert_eq!(resample(&[4, 8], 8000, 2, 8000, 3), vec![6, 6, 6]);
}

#[test]
fn same_rate_and_channels_is_the_identity() {
    let block: Vec<i16> = vec![1, -1, 2, -2, 30000, -30000];
    assert_eq!(resample(&block, 48000, 2, 48000, 2), block);
    assert_eq!(resample(&block, 8000, 1, 8000, 1), block);
}

#[test]
fn output_length_is_frames_times_rate_ratio_rounded_down() {
    assert_eq!(resample(&[0; 7], 48000, 1, 8000, 1).len(), 1);
    assert_eq!(resample(&[0; 5], 48000, 1, 8000, 1).len(), 0);
    assert_eq!(resample(&[0; 3], 8000, 1, 12000, 1).len(), 4);
    assert_eq!(resample(&[0; 3], 44100, 1, 48000, 2).len(), 6);
    assert_eq!(resample(&[], 8000, 1, 48000, 2), Vec::<i16>::new());
}

#[test]
fn fractional_ratio_interpolates_at_the_right_positions() {
    // Three frames at 2 Hz become four at 3 Hz, at positions 0, 2/3, 4/3 and 2.
    assert_eq!(resample(&[0, 30, 90], 2, 1, 3, 1), vec![0, 20, 50, 90]);
}
