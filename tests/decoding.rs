use mp3_parser::id3v2::{FrameIdentifier, ID3v2, ID3v2Frame};
use mp3_parser::mp3::{MP3Frame, MP3};
use mp3_parser::mpegframeheader::crcprotection::CRCProtection;
use mp3_parser::mpegframeheader::framebitrate::FrameBitrate;
use mp3_parser::mpegframeheader::framepadding::FramePadding;
use mp3_parser::mpegframeheader::mpeglayer::MPEGLayer;
use mp3_parser::mpegframeheader::mpegversion::MPEGVersion;
use mp3_parser::mpegframeheader::samplerate::SampleRate;
use mp3_parser::mpegframeheader::{MP3ChannelMode, MP3Emphasis, MP3FrameHeader, MPEGFrameHeader};
use mp3_parser::mpegparserror::{ID3v2ParseError, MPEGParseError};

/// MPEG-1 layer III, no checksum, 128 kbps, 44100 Hz, no padding, stereo.
const HEADER_128K: [u8; 4] = [0xFF, 0xFB, 0x90, 0x00];

fn frame_128k() -> Vec<u8> {
    let mut frame = HEADER_128K.to_vec();
    frame.resize(417, 0);
    frame
}

fn empty_tag() -> Vec<u8> {
    vec![0x49, 0x44, 0x33, 3, 0, 0, 0, 0, 0, 0]
}

#[test]
fn frame_length_of_128k_44100_is_417() {
    let header = MPEGFrameHeader::parse(&HEADER_128K.to_vec()).unwrap();
    assert_eq!(header.bitrate, FrameBitrate::Bitrate(128));
    assert_eq!(header.sample_rate, SampleRate::Hz44100);
    assert_eq!(header.padding, FramePadding::Disabled);
    assert_eq!(header.crc_protection, CRCProtection::Disabled);
    assert_eq!(header.frame_length(), Some(417));
    assert_eq!(header.version, MPEGVersion::Version1);
    assert_eq!(header.layer, MPEGLayer::Layer3);
    assert_eq!(header.channel_mode, MP3ChannelMode::Stereo);
    assert_eq!(header.emphasis, MP3Emphasis::NoEmphasis);
    assert!(!header.private_bit);
    assert_eq!(header.raw_header, 0xFFFB9000);
    let same = MP3FrameHeader::parse(&HEADER_128K.to_vec()).unwrap();
    assert_eq!(same.frame_length(), Some(417));
}

#[test]
fn frame_length_counts_padding_and_checksum() {
    let padded = MPEGFrameHeader::parse(&vec![0xFF, 0xFB, 0x92, 0x00]).unwrap();
    assert_eq!(padded.frame_length(), Some(418));
    let protected = MPEGFrameHeader::parse(&vec![0xFF, 0xFA, 0x90, 0x00, 0x12, 0x34]).unwrap();
    assert_eq!(protected.crc_protection, CRCProtection::Enabled { checksum: 0x1234 });
    assert_eq!(protected.frame_length(), Some(419));
    let fast = MPEGFrameHeader::parse(&vec![0xFF, 0xFB, 0xE4, 0x00]).unwrap();
    assert_eq!(fast.bitrate, FrameBitrate::Bitrate(320));
    assert_eq!(fast.sample_rate, SampleRate::Hz48000);
    assert_eq!(fast.frame_length(), Some(960));
}

#[test]
fn header_with_sync_parses_and_without_fails() {
    for b1 in [0xE3u8, 0xEB, 0xF3, 0xFB, 0xFF] {
        for b2 in [0x10u8, 0x94, 0xE8, 0x5A] {
            for b3 in [0x00u8, 0xFF, 0x5C] {
                let header = MPEGFrameHeader::parse(&vec![0xFF, b1, b2, b3]);
                assert!(header.is_ok());
            }
        }
    }
    for bytes in [[0x7F, 0xFB, 0x90, 0x00], [0xFF, 0xDB, 0x90, 0x00], [0, 0, 0, 0]] {
        let header = MPEGFrameHeader::parse(&bytes.to_vec());
        assert_eq!(header, Err(MPEGParseError::NoFrameSync));
    }
}

#[test]
fn bitrate_index_round_trips() {
    let table = [32, 40, 48, 56, 64, 80, 96, 112, 128, 160, 192, 224, 256, 320];
    for (i, kbps) in table.iter().enumerate() {
        let header = FrameBitrate::Bitrate(*kbps).apply(0xFFFB_0000);
        assert_eq!((header >> 12) & 0xF, i as u32 + 1);
        assert_eq!(FrameBitrate::parse(header), Ok(FrameBitrate::Bitrate(*kbps)));
    }
    assert_eq!(FrameBitrate::parse(FrameBitrate::Free.apply(0xFFFB_F000)), Ok(FrameBitrate::Free));
    assert_eq!(FrameBitrate::parse(0xFFFB_F000), Err(MPEGParseError::BadFrameBitrate));
    assert_eq!(FrameBitrate::Bitrate(100).apply(0), 0xF000);
}

#[test]
fn reserved_fields_are_errors() {
    let bad_bitrate = MPEGFrameHeader::parse(&vec![0xFF, 0xFB, 0xF0, 0x00]);
    assert_eq!(bad_bitrate, Err(MPEGParseError::BadFrameBitrate));
    let bad_rate = MPEGFrameHeader::parse(&vec![0xFF, 0xFB, 0x9C, 0x00]);
    assert_eq!(bad_rate, Err(MPEGParseError::ReservedSampleRate));
    assert_eq!(SampleRate::parse(0x0C00), Err(MPEGParseError::ReservedSampleRate));
}

#[test]
fn short_data_is_truncated_buffer() {
    assert_eq!(MPEGFrameHeader::parse(&vec![0xFF, 0xFB, 0x90]), Err(MPEGParseError::TruncatedBuffer));
    assert_eq!(MPEGFrameHeader::parse(&vec![]), Err(MPEGParseError::TruncatedBuffer));
    let missing_checksum = MPEGFrameHeader::parse(&vec![0xFF, 0xFA, 0x90, 0x00, 0x12]).unwrap();
    assert_eq!(missing_checksum.crc_protection, CRCProtection::EnabledChecksumMissing);
    assert_eq!(missing_checksum.frame_length(), Some(419));
    let mut frame = vec![0xFF, 0xFA, 0x90, 0x00, 0x12];
    frame.resize(418, 0);
    assert!(matches!(MP3Frame::parse(frame), Err(MPEGParseError::TruncatedBuffer)));
    let short_frame = MP3Frame::parse(frame_128k()[..416].to_vec());
    assert!(matches!(short_frame, Err(MPEGParseError::TruncatedBuffer)));
}

#[test]
fn free_bitrate_frame_ends_at_next_sync() {
    let mut data = vec![0xFF, 0xFB, 0x00, 0x00];
    data.resize(100, 0);
    data.extend_from_slice(&HEADER_128K);
    let header = MPEGFrameHeader::parse(&data).unwrap();
    assert_eq!(header.bitrate, FrameBitrate::Free);
    assert_eq!(header.free_frame_length, Some(100));
    assert_eq!(header.frame_length(), Some(100));
    let unterminated = MPEGFrameHeader::parse(&data[..100].to_vec()).unwrap();
    assert_eq!(unterminated.free_frame_length, None);
    assert_eq!(unterminated.frame_length(), None);
    assert!(matches!(MP3Frame::parse(data[..100].to_vec()), Err(MPEGParseError::TruncatedBuffer)));
    let frame = MP3Frame::parse(data).unwrap();
    assert_eq!(frame.data.len(), 96);
}

#[test]
fn frame_payload_follows_header() {
    let mut bytes = frame_128k();
    bytes[4] = 7;
    bytes[416] = 9;
    let frame = MP3Frame::parse(bytes).unwrap();
    assert_eq!(frame.offset, 0);
    assert_eq!(frame.data.len(), 413);
    assert_eq!(frame.data[0], 7);
    assert_eq!(frame.data[412], 9);
}

#[test]
fn synchsafe_size_decodes_to_257() {
    let mut data = vec![0x49, 0x44, 0x33, 3, 0, 0x40, 0x00, 0x00, 0x02, 0x01];
    data.extend_from_slice(&[0x54, 0x49, 0x54, 0x32, 0, 0, 0, 247, 0, 0]);
    data.resize(267, 0x41);
    let tag = ID3v2::parse(data).unwrap();
    assert_eq!(tag.size, 267);
    assert_eq!(tag.version, 0x0300);
    assert_eq!(tag.flags, 0x40);
    assert_eq!(tag.frames.len(), 1);
    assert_eq!(tag.frames[0].id, FrameIdentifier::SongName);
    assert_eq!(tag.frames[0].size, 257);
    assert_eq!(tag.frames[0].data.len(), 247);
}

#[test]
fn synchsafe_size_ignores_top_bits() {
    let data = vec![0x49, 0x44, 0x33, 4, 0, 0, 0x80, 0x80, 0x80, 0x80];
    let tag = ID3v2::parse(data).unwrap();
    assert_eq!(tag.size, 10);
    assert_eq!(tag.frames.len(), 0);
}

#[test]
fn tag_errors() {
    assert!(matches!(ID3v2::parse(vec![0x49, 0x44, 0x34, 0, 0, 0, 0, 0, 0, 0]), Err(ID3v2ParseError::InvalidHeader)));
    assert!(matches!(ID3v2::parse(vec![0x49, 0x44]), Err(ID3v2ParseError::InvalidHeader)));
    assert!(matches!(ID3v2::parse(vec![0x49, 0x44, 0x33, 3, 0]), Err(ID3v2ParseError::TruncatedBuffer)));
    let mut overrun = vec![0x49, 0x44, 0x33, 3, 0, 0, 0, 0, 0, 20];
    overrun.extend_from_slice(&[0x54, 0x49, 0x54, 0x32, 0, 0, 0, 50, 0, 0]);
    overrun.resize(100, 0);
    assert!(matches!(ID3v2::parse(overrun), Err(ID3v2ParseError::TruncatedBuffer)));
    let result = MP3::parse(vec![0x49, 0x44, 0x33, 3]);
    assert!(matches!(result, Err(MPEGParseError::InvalidID3v2Tag(ID3v2ParseError::TruncatedBuffer))));
}

#[test]
fn has_tag_needs_three_bytes() {
    assert!(ID3v2::has_id3v2_tag(vec![0x49, 0x44, 0x33]));
    assert!(!ID3v2::has_id3v2_tag(vec![0x49, 0x44]));
    assert!(!ID3v2::has_id3v2_tag(vec![]));
    assert!(!ID3v2::has_id3v2_tag(vec![0x49, 0x45, 0x33, 0]));
}

#[test]
fn frame_identifiers() {
    assert_eq!(FrameIdentifier::parse(b"TIT2".to_vec()), FrameIdentifier::SongName);
    assert_eq!(FrameIdentifier::parse(b"TPE1".to_vec()), FrameIdentifier::Artist);
    assert_eq!(FrameIdentifier::parse(b"TCOPxx".to_vec()), FrameIdentifier::Copyright);
    assert_eq!(FrameIdentifier::parse(b"WXXX".to_vec()), FrameIdentifier::URL);
    assert_eq!(FrameIdentifier::parse(b"APIC".to_vec()), FrameIdentifier::Other(String::from("APIC")));
}

#[test]
fn id3v2_frame_record() {
    let mut data = vec![0x54, 0x41, 0x4C, 0x42, 0, 0, 0, 3, 0x12, 0x34, 0x61, 0x62, 0x63];
    let frame = ID3v2Frame::parse(data.clone()).unwrap();
    assert_eq!(frame.id, FrameIdentifier::Album);
    assert_eq!(frame.size, 13);
    assert_eq!(frame.flags, 0x1234);
    assert_eq!(frame.data, vec![0x61, 0x62, 0x63]);
    data.pop();
    assert!(matches!(ID3v2Frame::parse(data), Err(ID3v2ParseError::TruncatedBuffer)));
}

#[test]
fn tag_then_frames_starts_after_tag() {
    let mut data = empty_tag();
    for _ in 0..3 {
        data.extend_from_slice(&frame_128k());
    }
    let mp3 = MP3::parse(data).unwrap();
    assert!(mp3.id3v2.is_some());
    assert_eq!(mp3.id3v2.as_ref().unwrap().size, 10);
    assert_eq!(mp3.frame_count(), 3);
    assert_eq!(mp3.frames[0].offset, 10);
    assert_eq!(mp3.frames[1].offset, 427);
    assert_eq!(mp3.frames[2].offset, 844);
    assert!(mp3.skipped.is_empty());
}

#[test]
fn garbage_byte_between_frames_is_skipped() {
    let mut data = frame_128k();
    data.push(0x00);
    data.extend_from_slice(&frame_128k());
    let mp3 = MP3::parse(data).unwrap();
    assert!(mp3.id3v2.is_none());
    assert_eq!(mp3.frame_count(), 2);
    assert_eq!(mp3.frames[0].offset, 0);
    assert_eq!(mp3.frames[1].offset, 418);
    assert_eq!(mp3.skipped.len(), 1);
    assert_eq!(mp3.skipped[0].offset, 417);
    assert_eq!(mp3.skipped[0].error, MPEGParseError::NoFrameSync);
    let covered: usize = mp3.frames.iter().map(|f| f.header.frame_length().unwrap() as usize).sum::<usize>() + mp3.skipped.len();
    assert_eq!(covered, 835);
}

#[test]
fn parsing_twice_gives_the_same_document() {
    let mut data = empty_tag();
    data.extend_from_slice(&frame_128k());
    data.extend_from_slice(&[1, 2, 3, 4, 5]);
    data.extend_from_slice(&frame_128k());
    let first = MP3::parse(data.clone()).unwrap();
    let second = MP3::parse(data).unwrap();
    assert_eq!(first.frame_count(), second.frame_count());
    for (a, b) in first.frames.iter().zip(second.frames.iter()) {
        assert_eq!(a.offset, b.offset);
        assert!(a.header == b.header);
        assert_eq!(a.data, b.data);
    }
    assert_eq!(first.skipped, second.skipped);
    assert_eq!(first.skipped.len(), 5);
}

#[test]
fn short_tail_ends_walk_with_truncated_buffer() {
    let mp3 = MP3::parse(vec![0xFF, 0xFB]).unwrap();
    assert_eq!(mp3.frame_count(), 0);
    assert_eq!(mp3.skipped.len(), 2);
    assert!(mp3.skipped.iter().all(|s| s.error == MPEGParseError::TruncatedBuffer));

    let mut data = frame_128k();
    data.extend_from_slice(&[0xFF, 0xFB, 0x90]);
    let mp3 = MP3::parse(data).unwrap();
    assert_eq!(mp3.frame_count(), 1);
    assert_eq!(mp3.skipped.len(), 3);
    assert_eq!(mp3.skipped[0].offset, 417);
    assert!(mp3.skipped.iter().all(|s| s.error == MPEGParseError::TruncatedBuffer));
}

#[test]
fn no_frames_is_not_an_error() {
    let mp3 = MP3::parse(vec![0; 20]).unwrap();
    assert_eq!(mp3.frame_count(), 0);
    assert_eq!(mp3.skipped.len(), 20);
    let empty = MP3::parse(vec![]).unwrap();
    assert_eq!(empty.frame_count(), 0);
    assert!(empty.skipped.is_empty());
}

#[test]
fn parse_stream_starts_past_given_tag() {
    let mut data = empty_tag();
    data.extend_from_slice(&frame_128k());
    let tag = ID3v2::parse(data.clone()).unwrap();
    let mp3 = MP3::parse_stream(&data, Some(tag));
    assert_eq!(mp3.frame_count(), 1);
    assert_eq!(mp3.frames[0].offset, 10);
    let untagged = MP3::parse_stream(&data, None);
    assert_eq!(untagged.frame_count(), 1);
    assert_eq!(untagged.skipped.len(), 10);
}

#[test]
fn error_descriptions() {
    assert_eq!(MPEGParseError::NoFrameSync.description(), "Header frame sync expected but not found.");
    assert_eq!(MPEGParseError::BadFrameBitrate.description(), "Frame header bitrate indicated as bad.");
    assert_eq!(MPEGParseError::ReservedSampleRate.description(), "Frame header sample rate index is reserved.");
    assert_eq!(MPEGParseError::TruncatedBuffer.description(), "Not enough bytes left for the frame.");
    assert_eq!(
        MPEGParseError::InvalidID3v2Tag(ID3v2ParseError::InvalidHeader).description(),
        "ID3v2 tag is missing the ID3 identifier."
    );
}

#[test]
fn field_apply_then_parse() {
    for layer in [MPEGLayer::Reserved, MPEGLayer::Layer1, MPEGLayer::Layer2, MPEGLayer::Layer3] {
        assert_eq!(MPEGLayer::parse(layer.apply(0xFFFF_FFFF)), Ok(layer));
    }
    for version in [MPEGVersion::Version1, MPEGVersion::Version2, MPEGVersion::Version2_5, MPEGVersion::VersionReserved] {
        assert_eq!(MPEGVersion::parse(version.apply(0x1234_5678)), Ok(version));
    }
    assert_eq!(SampleRate::Hz48000.apply(0xFFFF_FFFF), 0xFFFF_F7FF);
}

#[test]
fn four_byte_header_with_valid_tables_decodes() {
    let free = MPEGFrameHeader::parse(&vec![0xFF, 0xFB, 0x00, 0x00]).unwrap();
    assert_eq!(free.bitrate, FrameBitrate::Free);
    assert_eq!(free.frame_length(), None);
    let protected = MPEGFrameHeader::parse(&vec![0xFF, 0xFA, 0x90, 0x00]).unwrap();
    assert_eq!(protected.crc_protection, CRCProtection::EnabledChecksumMissing);
    let free_protected = MPEGFrameHeader::parse(&vec![0xFF, 0xFA, 0x00, 0x00, 0xAB]).unwrap();
    assert_eq!(free_protected.crc_protection, CRCProtection::EnabledChecksumMissing);
    assert_eq!(free_protected.free_frame_length, None);
}

#[test]
fn reserved_tables_are_checked_before_the_checksum() {
    assert_eq!(MPEGFrameHeader::parse(&vec![0xFF, 0xFA, 0xF0, 0x00]), Err(MPEGParseError::BadFrameBitrate));
    assert_eq!(MPEGFrameHeader::parse(&vec![0xFF, 0xFA, 0xF0, 0x00, 0x01]), Err(MPEGParseError::BadFrameBitrate));
    assert_eq!(MPEGFrameHeader::parse(&vec![0xFF, 0xFA, 0x9C, 0x00]), Err(MPEGParseError::ReservedSampleRate));
    assert_eq!(MPEGFrameHeader::parse(&vec![0xFF, 0xFA, 0xFC, 0x00]), Err(MPEGParseError::BadFrameBitrate));
}

#[test]
fn frame_length_of_hand_built_header() {
    let mut header = MPEGFrameHeader::parse(&HEADER_128K.to_vec()).unwrap();
    header.bitrate = FrameBitrate::Bitrate(320);
    header.sample_rate = SampleRate::Hz32000;
    header.padding = FramePadding::Enabled;
    header.crc_protection = CRCProtection::Enabled { checksum: 0 };
    assert_eq!(header.frame_length(), Some(1443));
    header.bitrate = FrameBitrate::Free;
    header.free_frame_length = Some(77);
    assert_eq!(header.frame_length(), Some(77));
}

#[test]
fn missing_checksum_apply_sets_protection_bit_only() {
    let mut data = vec![5, 6];
    let header = CRCProtection::EnabledChecksumMissing.apply(0xFFFF_FFFF, &mut data);
    assert_eq!(header, 0xFFFE_FFFF);
    assert_eq!(data, vec![5, 6]);
    assert_eq!(CRCProtection::parse(0xFFFA_9000, &[0xFF, 0xFA, 0x90, 0x00]), Ok(CRCProtection::EnabledChecksumMissing));
}

#[test]
fn free_bitrate_scan_starts_just_past_the_header() {
    let protected = MPEGFrameHeader::parse(&vec![0xFF, 0xFA, 0x00, 0x00, 0xFF, 0xFB, 0x90, 0x00]).unwrap();
    assert_eq!(protected.bitrate, FrameBitrate::Free);
    assert_eq!(protected.crc_protection, CRCProtection::Enabled { checksum: 0xFFFB });
    assert_eq!(protected.free_frame_length, Some(4));
    assert_eq!(protected.frame_length(), Some(4));
}

#[test]
fn free_bitrate_scan_limit_is_chosen_by_caller() {
    let mut data = vec![0xFF, 0xFB, 0x00, 0x00];
    data.resize(100, 0);
    data.extend_from_slice(&HEADER_128K);
    let near = MPEGFrameHeader::parse_with_scan_limit(&data, 50).unwrap();
    assert_eq!(near.free_frame_length, None);
    let exact = MPEGFrameHeader::parse_with_scan_limit(&data, 100).unwrap();
    assert_eq!(exact.free_frame_length, Some(100));
    let mut long = vec![0xFF, 0xFB, 0x00, 0x00];
    long.resize(5000, 0);
    long.extend_from_slice(&HEADER_128K);
    assert_eq!(MPEGFrameHeader::parse(&long).unwrap().free_frame_length, None);
    assert_eq!(MPEGFrameHeader::parse_with_scan_limit(&long, 8192).unwrap().free_frame_length, Some(5000));
    assert_eq!(
        MPEGFrameHeader::parse_with_scan_limit(&vec![0xFF, 0xFB, 0xF0, 0x00], 10),
        Err(MPEGParseError::BadFrameBitrate)
    );
}
