use dmr_bridge_discord::framing::{classify, FrameKind, FramingState};
use dmr_bridge_discord::packet::{PacketType, USRP};
use dmr_bridge_discord::resampler::resample;
use dmr_bridge_discord::transmitter::{Transmitter, VoiceEvent};

fn speaking(on: bool) -> VoiceEvent {
    VoiceEvent::SpeakingUpdate(on)
}

fn packet(samples: usize, level: i16) -> VoiceEvent {
    VoiceEvent::VoicePacket(Some(vec![level; samples]))
}

fn kinds(datagrams: &[Vec<u8>]) -> Vec<FrameKind> {
    datagrams.iter().map(|d| classify(&USRP::from_buffer(d).unwrap())).collect()
}

fn counters(datagrams: &[Vec<u8>]) -> Vec<u32> {
    datagrams.iter().map(|d| u32::from_be_bytes([d[4], d[5], d[6], d[7]])).collect()
}

#[test]
fn two_bursts_give_two_starts_and_two_ends_in_order() {
    let mut transmitter = Transmitter::new();
    let events = [
        packet(1920, 1),
        speaking(true),
        packet(1920, 2),
        packet(1920, 3),
        speaking(false),
        packet(1920, 4),
        packet(1920, 5),
        speaking(true),
        packet(1920, 6),
        speaking(false),
        packet(1920, 7),
    ];
    let mut sent = Vec::new();
    for event in &events {
        sent.extend(transmitter.act(event));
    }
    assert_eq!(
        kinds(&sent),
        vec![
            FrameKind::Start,
            FrameKind::Voice,
            FrameKind::Voice,
            FrameKind::End,
            FrameKind::Start,
            FrameKind::Voice,
            FrameKind::End
        ]
    );
    let levels: Vec<i16> = sent
        .iter()
        .filter_map(|d| USRP::from_buffer(d).unwrap().audio)
        .map(|audio| audio[0])
        .collect();
    assert_eq!(levels, vec![2, 3, 6]);
    assert_eq!(counters(&sent), vec![0, 1, 2, 3, 4, 5, 6]);
    assert_eq!(transmitter.state(), FramingState::Idle);
    assert_eq!(transmitter.sequence(), 7);
}

#[test]
fn start_and_end_are_bare_headers() {
    let mut transmitter = Transmitter::starting_at(0x0102_0304);
    let start = transmitter.act(&speaking(true));
    assert_eq!(start.len(), 1);
    let mut expected = vec![0u8; 32];
    expected[..4].copy_from_slice(b"USRP");
    expected[4..8].copy_from_slice(&[1, 2, 3, 4]);
    expected[15] = 1;
    assert_eq!(start[0], expected);
    let end = transmitter.act(&speaking(false));
    assert_eq!(end.len(), 1);
    expected[7] = 5;
    expected[15] = 0;
    assert_eq!(end[0], expected);
}

#[test]
fn voice_frame_carries_the_unit_at_8_khz_mono() {
    let mut native = Vec::new();
    for frame in 0..960i32 {
        native.push((frame * 30 - 14000) as i16);
        native.push((frame * 30 - 14000 + 10) as i16);
    }
    let mut transmitter = Transmitter::new();
    transmitter.act(&speaking(true));
    let sent = transmitter.act(&VoiceEvent::VoicePacket(Some(native.clone())));
    assert_eq!(sent.len(), 1);
    assert_eq!(sent[0].len(), 352);
    let frame = USRP::from_buffer(&sent[0]).unwrap();
    assert_eq!(frame.sequence_counter, 1);
    assert_eq!(frame.stream_id, 0);
    assert!(frame.push_to_talk);
    assert_eq!(frame.talk_group, 0);
    assert_eq!(frame.packet_type, PacketType::Voice);
    assert_eq!(frame.multiplex_id, 0);
    assert_eq!(frame.reserved, 0);
    let audio = frame.audio.unwrap();
    for k in 0..160i32 {
        assert_eq!(audio[k as usize] as i32, k * 180 - 14000 + 5);
    }
    assert_eq!(audio.to_vec(), resample(&native, 48000, 2, 8000, 1));
}

#[test]
fn sequence_counters_count_up_by_one() {
    let mut transmitter = Transmitter::starting_at(41);
    let mut sent = transmitter.act(&speaking(true));
    sent.extend(transmitter.act(&packet(1920 * 5, 0)));
    sent.extend(transmitter.act(&speaking(false)));
    sent.extend(transmitter.act(&speaking(true)));
    sent.extend(transmitter.act(&packet(1920, 0)));
    assert_eq!(counters(&sent), vec![41, 42, 43, 44, 45, 46, 47, 48, 49]);
    assert_eq!(transmitter.sequence(), 50);
}

#[test]
fn sequence_counter_wraps() {
    let mut transmitter = Transmitter::starting_at(u32::MAX - 1);
    let mut sent = transmitter.act(&speaking(true));
    sent.extend(transmitter.act(&packet(1920 * 2, 0)));
    sent.extend(transmitter.act(&speaking(false)));
    assert_eq!(counters(&sent), vec![u32::MAX - 1, u32::MAX, 0, 1]);
    assert_eq!(transmitter.sequence(), 2);
}

#[test]
fn audio_is_cut_into_units_of_20_ms() {
    let mut transmitter = Transmitter::new();
    transmitter.act(&speaking(true));
    assert_eq!(transmitter.act(&packet(1000, 1)).len(), 0);
    assert_eq!(transmitter.act(&packet(919, 1)).len(), 0);
    let sent = transmitter.act(&packet(2, 2));
    assert_eq!(sent.len(), 1);
    let audio = USRP::from_buffer(&sent[0]).unwrap().audio.unwrap();
    assert_eq!(audio[..159], [1i16; 159]);
    // The last frame of the unit pairs a sample of the earlier packets with one of
    // this packet, but the frames picked lie six apart and end at frame 954.
    assert_eq!(audio[159], 1);
    // One sample is left over; 1919 more complete the next unit.
    assert_eq!(transmitter.act(&packet(1918, 3)).len(), 0);
    assert_eq!(transmitter.act(&packet(1, 3)).len(), 1);
    assert_eq!(transmitter.act(&packet(1920 * 3 + 5, 4)).len(), 3);
    assert_eq!(transmitter.act(&packet(1914, 4)).len(), 0);
    assert_eq!(transmitter.act(&packet(1, 4)).len(), 1);
}

#[test]
fn audio_outside_a_burst_is_not_forwarded() {
    let mut transmitter = Transmitter::new();
    assert_eq!(transmitter.act(&packet(1920 * 4, 9)), Vec::<Vec<u8>>::new());
    assert_eq!(transmitter.sequence(), 0);
    assert_eq!(transmitter.state(), FramingState::Idle);
    transmitter.act(&speaking(true));
    transmitter.act(&speaking(false));
    assert_eq!(transmitter.act(&packet(1920, 9)), Vec::<Vec<u8>>::new());
    assert_eq!(transmitter.sequence(), 2);
    // Nothing of it was kept for the next burst either.
    transmitter.act(&speaking(true));
    assert_eq!(transmitter.act(&packet(1919, 1)).len(), 0);
}

#[test]
fn an_end_discards_the_unfinished_unit() {
    let mut transmitter = Transmitter::new();
    transmitter.act(&speaking(true));
    assert_eq!(transmitter.act(&packet(1900, 1)).len(), 0);
    transmitter.act(&speaking(false));
    transmitter.act(&speaking(true));
    assert_eq!(transmitter.act(&packet(1919, 2)).len(), 0);
    let sent = transmitter.act(&packet(1, 2));
    assert_eq!(sent.len(), 1);
    assert_eq!(USRP::from_buffer(&sent[0]).unwrap().audio, Some([2i16; 160]));
}

#[test]
fn repeated_speaking_updates_send_nothing() {
    let mut transmitter = Transmitter::new();
    assert_eq!(transmitter.act(&speaking(false)).len(), 0);
    assert_eq!(transmitter.act(&speaking(true)).len(), 1);
    assert_eq!(transmitter.act(&speaking(true)).len(), 0);
    assert_eq!(transmitter.state(), FramingState::Talking);
    assert_eq!(transmitter.act(&speaking(false)).len(), 1);
    assert_eq!(transmitter.act(&speaking(false)).len(), 0);
    assert_eq!(transmitter.sequence(), 2);
}

#[test]
fn packets_without_audio_send_nothing() {
    let mut transmitter = Transmitter::new();
    transmitter.act(&speaking(true));
    assert_eq!(transmitter.act(&VoiceEvent::VoicePacket(None)).len(), 0);
    assert_eq!(transmitter.act(&VoiceEvent::VoicePacket(Some(Vec::new()))).len(), 0);
    assert_eq!(transmitter.sequence(), 1);
    assert_eq!(transmitter.state(), FramingState::Talking);
}
