use xiaozhi_client_rs::audio::pcm::{bytes_to_mono, decode_samples, fill_output_buffer};
use xiaozhi_client_rs::audio::pcm::{
    downmix, i32_to_i16, i8_to_i16, interleave, u16_to_i16, u32_to_i16, u8_to_i16, PcmFramer,
};
use xiaozhi_client_rs::audio::ring::Ring;
use xiaozhi_client_rs::audio::{
    choose_stream_config, find_device, format_preference, frame_samples, opus_channels, OpusChannels,
    SampleFormat, StreamChoice, StreamConfigRange,
};

#[test]
fn ring_drops_oldest_past_capacity() {
    let mut r = Ring::new(3);
    r.push(&[1, 2]);
    r.push(&[3, 4, 5]);
    assert_eq!(r.len(), 3);
    let mut out = [9i16; 5];
    r.drain(&mut out);
    assert_eq!(out, [3, 4, 5, 0, 0]);
    assert_eq!(r.len(), 0);
}

#[test]
fn ring_drain_partial_and_clear() {
    let mut r = Ring::new(10);
    r.push(&[1, 2, 3, 4]);
    let mut out = [0i16; 2];
    r.drain(&mut out);
    assert_eq!(out, [1, 2]);
    assert_eq!(r.len(), 2);
    r.clear();
    assert_eq!(r.len(), 0);
    let mut zero = Ring::new(0);
    zero.push(&[7, 8]);
    assert_eq!(zero.len(), 1);
}

#[test]
fn framer_cuts_whole_frames() {
    let mut f = PcmFramer::new(3);
    assert!(f.push(&[1, 2]).is_empty());
    let frames = f.push(&[3, 4, 5, 6, 7]);
    assert_eq!(frames, vec![vec![1, 2, 3], vec![4, 5, 6]]);
    let frames = f.push(&[8, 9]);
    assert_eq!(frames, vec![vec![7, 8, 9]]);
    assert!(f.push(&[]).is_empty());
}

#[test]
fn downmix_means_toward_zero() {
    assert_eq!(downmix(&[1, 3, -3, -2, 5], 2), vec![2, -2, 5]);
    assert_eq!(downmix(&[32767, 32767, -32768, -32768], 2), vec![32767, -32768]);
    assert_eq!(downmix(&[4, 5, 6], 1), vec![4, 5, 6]);
    assert_eq!(downmix(&[], 2), Vec::<i16>::new());
}

#[test]
fn sample_conversions() {
    assert_eq!(i8_to_i16(-128), -32768);
    assert_eq!(i8_to_i16(127), 32639);
    assert_eq!(u8_to_i16(0), -32768);
    assert_eq!(u8_to_i16(128), 0);
    assert_eq!(u8_to_i16(255), 32639);
    assert_eq!(u16_to_i16(0), -32768);
    assert_eq!(u16_to_i16(65535), 32767);
    assert_eq!(i32_to_i16(-1), -1);
    assert_eq!(i32_to_i16(0x7fff_ffff), 32767);
    assert_eq!(i32_to_i16(i32::MIN), -32768);
    assert_eq!(u32_to_i16(0), -32768);
    assert_eq!(u32_to_i16(0x8000_0000), 0);
    assert_eq!(u32_to_i16(u32::MAX), 32767);
}

#[test]
fn interleave_integer_formats() {
    assert_eq!(interleave(&[256, -1], 2, SampleFormat::I16), vec![0, 1, 0, 1, 255, 255, 255, 255]);
    assert_eq!(interleave(&[-32768, 0], 1, SampleFormat::U16), vec![0, 0, 0, 128]);
    assert_eq!(interleave(&[-257, 256], 1, SampleFormat::I8), vec![254, 1]);
    assert_eq!(interleave(&[-32768, 32767], 1, SampleFormat::U8), vec![0, 255]);
    assert_eq!(interleave(&[1], 1, SampleFormat::I32), vec![0, 0, 1, 0]);
    assert_eq!(interleave(&[-1], 1, SampleFormat::U32), vec![0, 0, 0xff, 0x7f]);
    assert_eq!(interleave(&[0], 1, SampleFormat::U32), vec![0, 0, 0, 0x80]);
    assert_eq!(interleave(&[-32768], 1, SampleFormat::U32), vec![0, 0, 0, 0]);
    assert_eq!(interleave(&[1], 3, SampleFormat::U8).len(), 3);
}

fn range(channels: u16, min: u32, max: u32, f: SampleFormat) -> StreamConfigRange {
    StreamConfigRange { channels, min_sample_rate: min, max_sample_rate: max, sample_format: f }
}

#[test]
fn stream_choice_prefers_channels_rate_format() {
    let ranges = vec![
        range(2, 8000, 48000, SampleFormat::F32),
        range(1, 44100, 48000, SampleFormat::F32),
        range(1, 8000, 48000, SampleFormat::I16),
        range(1, 8000, 48000, SampleFormat::F32),
        range(1, 8000, 48000, SampleFormat::F32),
    ];
    assert_eq!(choose_stream_config(&ranges, 16000, 1), Some(StreamChoice { index: 3, sample_rate: 16000 }));
    let ranges = vec![range(1, 44100, 48000, SampleFormat::I16)];
    assert_eq!(choose_stream_config(&ranges, 16000, 1), Some(StreamChoice { index: 0, sample_rate: 48000 }));
    assert_eq!(choose_stream_config(&[], 16000, 1), None);
    assert_eq!(format_preference(SampleFormat::U8), 7);
    assert_eq!(format_preference(SampleFormat::I64), 8);
}

#[test]
fn device_names_match_ignoring_case() {
    let names = vec![None, Some("HDA Intel PCH".to_string()), Some("USB Mic".to_string())];
    assert_eq!(find_device(&names, "usb"), Some(2));
    assert_eq!(find_device(&names, "intel"), Some(1));
    assert_eq!(find_device(&names, "bluetooth"), None);
    assert_eq!(find_device(&names, ""), Some(1));
}

#[test]
fn frame_sizes_and_opus_layout() {
    assert_eq!(frame_samples(16000, 60), 960);
    assert_eq!(frame_samples(24000, 60), 1440);
    assert_eq!(opus_channels(2), OpusChannels::Stereo);
    assert_eq!(opus_channels(1), OpusChannels::Mono);
    assert_eq!(opus_channels(6), OpusChannels::Mono);
}

#[test]
fn ring_gives_back_in_order_within_capacity() {
    let mut r = Ring::new(8);
    r.push(&[1, 2, 3]);
    r.push(&[4, 5]);
    let mut out = [0i16; 5];
    r.drain(&mut out);
    assert_eq!(out, [1, 2, 3, 4, 5]);
    assert_eq!(r.len(), 0);
}

#[test]
fn interleaved_length_is_samples_channels_width() {
    let mono = [1i16, -2, 3];
    assert_eq!(interleave(&mono, 2, SampleFormat::I32).len(), 3 * 2 * 4);
    assert_eq!(interleave(&mono, 3, SampleFormat::U16).len(), 3 * 3 * 2);
    assert_eq!(interleave(&mono, 1, SampleFormat::I8).len(), 3);
}

#[test]
fn device_bytes_decode_in_either_byte_order() {
    assert_eq!(decode_samples(&[1, 2, 3], SampleFormat::I16, true), vec![0x0201]);
    assert_eq!(decode_samples(&[1, 2, 3], SampleFormat::I16, false), vec![0x0102]);
    assert_eq!(decode_samples(&[0xff, 0xff], SampleFormat::I16, true), vec![-1]);
    assert_eq!(decode_samples(&[0, 0, 0, 0x80], SampleFormat::U32, true), vec![0]);
    assert_eq!(decode_samples(&[0, 0, 0xff, 0xff], SampleFormat::I32, true), vec![-1]);
    assert_eq!(decode_samples(&[0, 255], SampleFormat::U8, true), vec![-32768, 32639]);
    assert_eq!(bytes_to_mono(&[2, 0, 4, 0], SampleFormat::I16, 2, true), vec![3]);
    assert_eq!(bytes_to_mono(&[2, 0, 4, 0], SampleFormat::I16, 0, true), vec![2, 4]);
}

#[test]
fn downmix_handles_65536_channels() {
    let low = vec![-32768i16; 65536];
    assert_eq!(downmix(&low, 65536), vec![-32768]);
    let high = vec![32767i16; 65536];
    assert_eq!(downmix(&high, 65536), vec![32767]);
}

#[test]
fn unreadable_formats_are_silence() {
    assert!(bytes_to_mono(&[1, 2, 3, 4, 5, 6, 7, 8], SampleFormat::I64, 1, true).is_empty());
    assert!(bytes_to_mono(&[1, 2, 3, 4, 5, 6, 7, 8], SampleFormat::U64, 2, true).is_empty());
    assert!(decode_samples(&[1, 2], SampleFormat::Other, true).is_empty());
    assert!(interleave(&[1, 2], 2, SampleFormat::I64).is_empty());
    let mut buf = [7u8; 6];
    fill_output_buffer(&mut buf, &[1, 2], 1, SampleFormat::U64);
    assert_eq!(buf, [0u8; 6]);
    let mut buf = [7u8; 6];
    fill_output_buffer(&mut buf, &[1, -1], 1, SampleFormat::I16);
    assert_eq!(buf, [1, 0, 255, 255, 7, 7]);
}

#[test]
fn empty_packet_clears_the_ring() {
    let mut r = Ring::new(4);
    r.push(&[1, 2, 3]);
    assert!(r.on_packet(&[9]));
    assert_eq!(r.len(), 3);
    assert!(!r.on_packet(&[]));
    assert_eq!(r.len(), 0);
}
