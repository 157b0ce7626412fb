use mp3_parser::mpegframeheader::copyright::Copyright;
use mp3_parser::mpegframeheader::crcprotection::CRCProtection;
use mp3_parser::mpegframeheader::framepadding::FramePadding;
use mp3_parser::mpegframeheader::mpegframesync::MPEGFrameSync;
use mp3_parser::mpegframeheader::mpeglayer::MPEGLayer;
use mp3_parser::mpegframeheader::mpegversion::MPEGVersion;
use mp3_parser::mpegframeheader::samplerate::SampleRate;
use mp3_parser::mpegparserror::MPEGParseError;

#[test]
fn parses_copy_unprotected() {
    let header = 0b00000000_00000000_00000000_00000000;
    let result = Copyright::parse(header);
    assert!(result.is_ok());
    assert_eq!(result.unwrap(), Copyright::Unprotected);
}

#[test]
fn applies_copyright_protected() {
    let header = 0b00000000_00000000_00000000_00000000;
    let result = Copyright::Protected.apply(header);
    assert_eq!(result, 0b00000000_00000000_00000000_00001000);
}

#[test]
fn parses_disabled_crc_protection() {
    let header = 0b00000000_00000001_00000000_00000000;
    let data = vec![0; 10];
    let result = CRCProtection::parse(header, &data);
    assert!(result.is_ok());
    assert_eq!(result.unwrap(), CRCProtection::Disabled);
}

#[test]
fn parses_enabled_crc_protection() {
    let header = 0b00000000_00000000_00000000_00000000;
    let mut data = vec![0; 10];
    data[4] = 0b10000000;
    data[5] = 0b00000001;
    let result = CRCProtection::parse(header, &data);
    assert!(result.is_ok());
    assert_eq!(
        result.unwrap(),
        CRCProtection::Enabled {
            checksum: 0b10000000_00000001
        }
    );
}

#[test]
fn applies_disabled_crc_protection() {
    let header = 0b00000000_00000000_00000000_00000000;
    let mut data = vec![0; 10];
    let result = CRCProtection::Disabled.apply(header, &mut data);
    assert_eq!(result, 0b00000000_00000001_00000000_00000000);
}

#[test]
fn applies_enabled_crc_protection() {
    let header = 0b00000000_00000000_00000000_00000000;
    let mut data = vec![0; 10];
    data[0] = 0b00000000;
    data[1] = 0b00000000;
    let result = CRCProtection::Enabled {
        checksum: 0b10000000_00000001,
    }
    .apply(header, &mut data);
    assert_eq!(result, 0b00000000_00000000_00000000_00000000);
    assert_eq!(data[0], 0b10000000);
    assert_eq!(data[1], 0b00000001);
}

#[test]
fn parses_padding_enabled() {
    let header = 0b00000000_00000000_00000010_00000000;
    let result = FramePadding::parse(header);
    assert!(result.is_ok());
    assert_eq!(result.unwrap(), FramePadding::Enabled);
}

#[test]
fn applies_padding_enabled() {
    let header = 0b00000000_00000000_00000000_00000000;
    let result = FramePadding::Enabled.apply(header);
    assert_eq!(result, 0b00000000_00000000_00000010_00000000);
}

#[test]
fn parses_frame_sync() {
    let header = 0b11111111_11100000_00000000_00000000;
    let result = MPEGFrameSync::parse(header);
    assert!(result.is_ok());
    assert_eq!(result.unwrap(), MPEGFrameSync::Sync);
}

#[test]
fn errors_on_missing_frame_sync() {
    let header = 0b10111111_11100000_00000000_00000000;
    let result = MPEGFrameSync::parse(header);
    assert!(result.is_err());
    assert_eq!(result.unwrap_err(), MPEGParseError::NoFrameSync);
}

#[test]
fn correctly_identifies_frame_sync() {
    let data = vec![0xFF, 0xE0, 0x00, 0x00];
    assert!(MPEGFrameSync::has_frame_sync(&data));
    let data = vec![0xFF, 0x00, 0x00, 0x00];
    assert!(!MPEGFrameSync::has_frame_sync(&data));
}

#[test]
fn parses_mpeg_layer_3() {
    let header = 0b00000000_00000010_00000000_00000000;
    let result = MPEGLayer::parse(header);
    assert!(result.is_ok());
    assert_eq!(result.unwrap(), MPEGLayer::Layer3);
}

#[test]
fn applies_mpeg_layer_3() {
    let header = 0b00000000_00000000_00000000_00000000;
    let result = MPEGLayer::Layer3.apply(header);
    assert_eq!(result, 0b00000000_00000010_00000000_00000000);
}

#[test]
fn parses_mpeg_version_1() {
    let header = 0b00000000_00011000_00000000_00000000;
    let result = MPEGVersion::parse(header);
    assert!(result.is_ok());
    assert_eq!(result.unwrap(), MPEGVersion::Version1);
}

#[test]
fn applies_mpeg_version_1() {
    let header = 0b00000000_00000000_00000000_00000000;
    let result = MPEGVersion::Version1.apply(header);
    assert_eq!(result, 0b00000000_00011000_00000000_00000000);
}

#[test]
fn parses_correct_sample_rate() {
    let header: u32 = 0b11111111_11100000_00000100_00000000;
    let sample_rate = SampleRate::parse(header).unwrap();
    assert!(sample_rate == SampleRate::Hz48000);

    let header: u32 = 0b11111111_11100000_00110011_00000000;
    let sample_rate = SampleRate::parse(header).unwrap();
    assert!(sample_rate == SampleRate::Hz44100);
}

#[test]
fn applies_sample_rate_to_header() {
    let header: u32 = 0b11111111_11100000_00000100_00000000;
    let sample_rate = SampleRate::Hz32000;
    let header = sample_rate.apply(header);
    assert!(header == 0b11111111_11100000_00001000_00000000);
}
