use dmr_bridge_discord::packet::{FormatError, PacketType, USRP};

fn header(seq: u32, ptt: u32, packet_type: [u8; 4]) -> Vec<u8> {
    let mut bytes = Vec::new();
    bytes.extend_from_slice(b"USRP");
    bytes.extend_from_slice(&seq.to_be_bytes());
    bytes.extend_from_slice(&7u32.to_be_bytes());
    bytes.extend_from_slice(&ptt.to_be_bytes());
    bytes.extend_from_slice(&0x0102_0304u32.to_be_bytes());
    bytes.extend_from_slice(&packet_type);
    bytes.extend_from_slice(&9u32.to_be_bytes());
    bytes.extend_from_slice(&0xdead_beefu32.to_be_bytes());
    bytes
}

fn ramp() -> [i16; 160] {
    let mut audio = [0i16; 160];
    for (i, sample) in audio.iter_mut().enumerate() {
        *sample = (i as i16 - 80) * 257;
    }
    audio
}

fn sample_frame(packet_type: PacketType, audio: Option<[i16; 160]>) -> USRP {
    USRP {
        sequence_counter: 0x0a0b_0c0d,
        stream_id: 7,
        push_to_talk: true,
        talk_group: 0x0102_0304,
        packet_type,
        multiplex_id: 9,
        reserved: 0xdead_beef,
        audio,
    }
}

#[test]
fn control_frame_layout_is_bit_exact() {
    let bytes = sample_frame(PacketType::Text, None).to_buffer();
    assert_eq!(bytes.len(), 32);
    assert_eq!(bytes, header(0x0a0b_0c0d, 1, [2, 0, 0, 0]));
    assert_eq!(&bytes[0..4], &[0x55, 0x53, 0x52, 0x50]);
    assert_eq!(&bytes[4..8], &[0x0a, 0x0b, 0x0c, 0x0d]);
    assert_eq!(&bytes[8..12], &[0, 0, 0, 7]);
    assert_eq!(&bytes[12..16], &[0, 0, 0, 1]);
    assert_eq!(&bytes[16..20], &[1, 2, 3, 4]);
    assert_eq!(&bytes[20..24], &[2, 0, 0, 0]);
    assert_eq!(&bytes[24..28], &[0, 0, 0, 9]);
    assert_eq!(&bytes[28..32], &[0xde, 0xad, 0xbe, 0xef]);
}

#[test]
fn voice_frame_layout_is_bit_exact() {
    let mut audio = [0i16; 160];
    audio[0] = 1;
    audio[1] = -2;
    audio[2] = 0x1234;
    audio[3] = i16::MIN;
    audio[159] = i16::MAX;
    let bytes = sample_frame(PacketType::Voice, Some(audio)).to_buffer();
    assert_eq!(bytes.len(), 352);
    assert_eq!(&bytes[..32], &header(0x0a0b_0c0d, 1, [0, 0, 0, 0])[..]);
    assert_eq!(&bytes[32..34], &[0x01, 0x00]);
    assert_eq!(&bytes[34..36], &[0xfe, 0xff]);
    assert_eq!(&bytes[36..38], &[0x34, 0x12]);
    assert_eq!(&bytes[38..40], &[0x00, 0x80]);
    assert_eq!(&bytes[40..350], &[0u8; 310][..]);
    assert_eq!(&bytes[350..352], &[0xff, 0x7f]);
}

#[test]
fn push_to_talk_off_is_written_as_zero() {
    let mut frame = sample_frame(PacketType::Voice, None);
    frame.push_to_talk = false;
    assert_eq!(&frame.to_buffer()[12..16], &[0, 0, 0, 0]);
}

#[test]
fn decode_reads_every_header_field() {
    let bytes = header(0xfffe_fdfc, 1, [1, 0, 0, 0]);
    let frame = USRP::from_buffer(&bytes).unwrap();
    assert_eq!(frame.sequence_counter, 0xfffe_fdfc);
    assert_eq!(frame.stream_id, 7);
    assert!(frame.push_to_talk);
    assert_eq!(frame.talk_group, 0x0102_0304);
    assert_eq!(frame.packet_type, PacketType::DualToneMultiFrequency);
    assert_eq!(frame.multiplex_id, 9);
    assert_eq!(frame.reserved, 0xdead_beef);
    assert_eq!(frame.audio, None);
}

#[test]
fn decode_reads_samples_little_endian() {
    let mut bytes = header(1, 1, [0, 0, 0, 0]);
    bytes.extend_from_slice(&[0x01, 0x00, 0xfe, 0xff, 0x34, 0x12, 0x00, 0x80, 0xff, 0x7f]);
    bytes.resize(352, 0);
    let frame = USRP::from_buffer(&bytes).unwrap();
    let audio = frame.audio.unwrap();
    assert_eq!(&audio[..6], &[1, -2, 0x1234, i16::MIN, i16::MAX, 0]);
    assert_eq!(&audio[6..], &[0i16; 154][..]);
}

#[test]
fn decode_reads_any_nonzero_push_to_talk_as_on() {
    assert!(USRP::from_buffer(&header(0, 2, [0, 0, 0, 0])).unwrap().push_to_talk);
    assert!(USRP::from_buffer(&header(0, 0x0100_0000, [0, 0, 0, 0])).unwrap().push_to_talk);
    assert!(!USRP::from_buffer(&header(0, 0, [0, 0, 0, 0])).unwrap().push_to_talk);
}

#[test]
fn decode_rejects_bad_length() {
    assert_eq!(USRP::from_buffer(&[]), Err(FormatError::Length));
    assert_eq!(USRP::from_buffer(&header(0, 0, [0; 4])[..31]), Err(FormatError::Length));
    let mut bytes = header(0, 0, [0; 4]);
    bytes.push(0);
    assert_eq!(USRP::from_buffer(&bytes), Err(FormatError::Length));
    bytes.resize(351, 0);
    assert_eq!(USRP::from_buffer(&bytes), Err(FormatError::Length));
    bytes.resize(353, 0);
    assert_eq!(USRP::from_buffer(&bytes), Err(FormatError::Length));
    bytes.resize(352, 0);
    assert!(USRP::from_buffer(&bytes).is_ok());
}

#[test]
fn decode_rejects_bad_magic() {
    for at in 0..4 {
        let mut bytes = header(0, 0, [0; 4]);
        bytes[at] ^= 0x20;
        assert_eq!(USRP::from_buffer(&bytes), Err(FormatError::Magic));
        bytes.resize(352, 0);
        assert_eq!(USRP::from_buffer(&bytes), Err(FormatError::Magic));
    }
    assert_eq!(USRP::from_buffer(&[0u8; 32]), Err(FormatError::Magic));
    assert_eq!(USRP::from_buffer(&[0u8; 352]), Err(FormatError::Magic));
}

#[test]
fn decode_checks_length_before_magic() {
    assert_eq!(USRP::from_buffer(b"USRP"), Err(FormatError::Length));
    assert_eq!(USRP::from_buffer(&[0u8; 40]), Err(FormatError::Length));
}

#[test]
fn decode_takes_unknown_packet_type_for_voice() {
    let frame = USRP::from_buffer(&header(0, 0, [3, 0, 0, 0])).unwrap();
    assert_eq!(frame.packet_type, PacketType::Voice);
    // The number 1 written big-endian is not the number 1 of this field.
    let frame = USRP::from_buffer(&header(0, 0, [0, 0, 0, 1])).unwrap();
    assert_eq!(frame.packet_type, PacketType::Voice);
}

#[test]
fn strict_decode_rejects_unknown_packet_type() {
    assert_eq!(
        USRP::from_buffer_strict(&header(0, 0, [3, 0, 0, 0])),
        Err(FormatError::UnknownType)
    );
    assert_eq!(
        USRP::from_buffer_strict(&header(0, 0, [0, 0, 0, 1])),
        Err(FormatError::UnknownType)
    );
    assert_eq!(USRP::from_buffer_strict(&[0u8; 31]), Err(FormatError::Length));
    assert_eq!(USRP::from_buffer_strict(&[0u8; 32]), Err(FormatError::Magic));
    let frame = USRP::from_buffer_strict(&header(5, 1, [2, 0, 0, 0])).unwrap();
    assert_eq!(frame.packet_type, PacketType::Text);
    assert_eq!(frame.sequence_counter, 5);
}

#[test]
fn round_trip_keeps_every_field_and_sample() {
    let types = [PacketType::Voice, PacketType::DualToneMultiFrequency, PacketType::Text];
    for packet_type in types {
        for audio in [None, Some(ramp()), Some([0i16; 160]), Some([i16::MIN; 160])] {
            for push_to_talk in [false, true] {
                let mut frame = sample_frame(packet_type, audio);
                frame.push_to_talk = push_to_talk;
                let bytes = frame.to_buffer();
                assert_eq!(bytes.len(), if audio.is_some() { 352 } else { 32 });
                assert_eq!(USRP::from_buffer(&bytes), Ok(frame.clone()));
                assert_eq!(USRP::from_buffer_strict(&bytes), Ok(frame));
            }
        }
    }
}

#[test]
fn round_trip_at_the_ends_of_the_number_range() {
    for value in [0u32, 1, 0x7fff_ffff, 0x8000_0000, u32::MAX] {
        let frame = USRP {
            sequence_counter: value,
            stream_id: !value,
            push_to_talk: value % 2 == 1,
            talk_group: value.rotate_left(8),
            packet_type: PacketType::Voice,
            multiplex_id: value.rotate_left(16),
            reserved: value.rotate_left(24),
            audio: None,
        };
        assert_eq!(USRP::from_buffer(&frame.to_buffer()), Ok(frame));
    }
}

#[test]
fn default_is_a_silent_voice_frame() {
    let frame = USRP::default();
    assert_eq!(frame.sequence_counter, 0);
    assert_eq!(frame.stream_id, 0);
    assert!(!frame.push_to_talk);
    assert_eq!(frame.talk_group, 0);
    assert_eq!(frame.packet_type, PacketType::Voice);
    assert_eq!(frame.multiplex_id, 0);
    assert_eq!(frame.reserved, 0);
    assert_eq!(frame.audio, Some([0i16; 160]));
    let mut expected = vec![0u8; 352];
    expected[..4].copy_from_slice(b"USRP");
    assert_eq!(frame.to_buffer(), expected);
}

#[test]
fn packet_type_numbers() {
    assert_eq!(u32::from(PacketType::Voice), 0);
    assert_eq!(u32::from(PacketType::DualToneMultiFrequency), 1);
    assert_eq!(u32::from(PacketType::Text), 2);
    assert_eq!(PacketType::from(0), PacketType::Voice);
    assert_eq!(PacketType::from(1), PacketType::DualToneMultiFrequency);
    assert_eq!(PacketType::from(2), PacketType::Text);
    assert_eq!(PacketType::from(3), PacketType::Voice);
    assert_eq!(PacketType::from(u32::MAX), PacketType::Voice);
    assert_eq!(PacketType::recognize(2), Some(PacketType::Text));
    assert_eq!(PacketType::recognize(3), None);
    let converted: u32 = PacketType::Text.into();
    assert_eq!(converted, 2);
}
