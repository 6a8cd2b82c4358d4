use dictado::{
    encode, is_recording, negotiate, pcm_from_i16, pcm_from_i8, pcm_from_u16, pcm_from_u8,
    start_recording, stop_recording, CaptureError, DeviceFormat, EncodeFailure,
    RecordingSession, SampleChunk, StartPoll, DEFAULT_SAMPLE_RATE, START_TIMEOUT_MS,
};

fn decode(bytes: &[u8]) -> (hound::WavSpec, Vec<i16>) {
    let reader = hound::WavReader::new(std::io::Cursor::new(bytes.to_vec())).unwrap();
    let spec = reader.spec();
    let samples: Vec<i16> = reader.into_samples::<i16>().map(|s| s.unwrap()).collect();
    (spec, samples)
}

fn pcm_of_float(s: f32) -> i16 {
    (s * 32767.0).round() as i16
}

fn open_session(rate: u32) -> RecordingSession {
    let mut session = RecordingSession::new();
    start_recording(&mut session).unwrap();
    session.set_sample_rate(rate);
    session.confirm_started();
    session
}

#[test]
fn unsigned_samples_scale_to_full_range() {
    assert_eq!(pcm_from_u16(0), -32767);
    assert_eq!(pcm_from_u16(65535), 32767);
    assert_eq!(pcm_from_u16(32768), 0);
    assert_eq!(pcm_from_u16(32767), 0);
    assert_eq!(pcm_from_u8(0), -32767);
    assert_eq!(pcm_from_u8(255), 32767);
    assert_eq!(pcm_from_u8(128), 128);
}

#[test]
fn signed_samples_divide_by_max_magnitude() {
    assert_eq!(pcm_from_i16(-32768), -32767);
    assert_eq!(pcm_from_i16(1234), 1234);
    assert_eq!(pcm_from_i8(127), 32767);
    assert_eq!(pcm_from_i8(1), 258);
    assert_eq!(pcm_from_i8(-1), -258);
    assert_eq!(pcm_from_i8(-128), -32767);
}

#[test]
fn encode_is_deterministic() {
    let samples: Vec<i16> = vec![0, 1, -1, 32767, -32768, 100];
    let a = encode(&samples, 16000).unwrap();
    let b = encode(&samples, 16000).unwrap();
    assert_eq!(a, b);
    let (spec, back) = decode(&a);
    assert_eq!(spec.channels, 1);
    assert_eq!(spec.bits_per_sample, 16);
    assert_eq!(spec.sample_rate, 16000);
    assert_eq!(back, samples);
    assert_eq!(a.len(), 44 + 2 * samples.len());
}

#[test]
fn encode_refuses_zero_rate() {
    assert_eq!(encode(&vec![1, 2, 3], 0), Err(EncodeFailure::OutOfRange));
    assert_eq!(encode(&vec![1], u32::MAX), Err(EncodeFailure::OutOfRange));
}

#[test]
fn second_start_fails_and_keeps_buffer() {
    let mut session = open_session(8000);
    session.ingest(&SampleChunk::I16(vec![5, 6, 7]));
    assert_eq!(start_recording(&mut session), Err(CaptureError::AlreadyActive));
    assert!(is_recording(&session));
    session.ingest(&SampleChunk::I16(vec![8]));
    let clip = stop_recording(&mut session).unwrap();
    assert_eq!(decode(&clip).1, vec![5, 6, 7, 8]);
}

#[test]
fn stop_without_session_reports_no_audio() {
    let mut session = RecordingSession::new();
    assert_eq!(stop_recording(&mut session), Err(CaptureError::NoAudioCaptured));
    assert!(!is_recording(&session));
}

#[test]
fn stop_of_empty_session_reports_no_audio() {
    let mut session = open_session(44100);
    assert_eq!(stop_recording(&mut session), Err(CaptureError::NoAudioCaptured));
}

#[test]
fn sine_round_trip_keeps_count_and_peak() {
    let n = 1000;
    let source: Vec<f32> = (0..n)
        .map(|i| (2.0 * std::f32::consts::PI * 440.0 * i as f32 / 44100.0).sin())
        .collect();
    let mut session = open_session(44100);
    session.ingest(&SampleChunk::Pcm(source.iter().map(|&s| pcm_of_float(s)).collect()));
    let clip = stop_recording(&mut session).unwrap();
    let (spec, back) = decode(&clip);
    assert_eq!(spec.sample_rate, 44100);
    assert_eq!(back.len(), n);
    let source_peak = source.iter().fold(0.0f32, |m, &s| m.max(s.abs()));
    let peak = back.iter().map(|&s| (s as i32).abs()).max().unwrap() as f32 / 32767.0;
    assert!((peak - source_peak).abs() <= 1.0 / 32767.0);
}

#[test]
fn interleaved_appends_lose_nothing() {
    let mut session = open_session(22050);
    let mut expected: Vec<i16> = Vec::new();
    for k in 0..200i32 {
        let chunk: Vec<i16> = (0..(k % 7)).map(|j| (k * 10 + j) as i16).collect();
        expected.extend_from_slice(&chunk);
        session.ingest(&SampleChunk::I16(chunk));
    }
    let drained = session.take();
    assert_eq!(drained, expected);
    session.ingest(&SampleChunk::I16(vec![1, 2]));
    assert!(session.take().is_empty());
}

#[test]
fn unconfirmed_start_times_out() {
    let mut session = RecordingSession::new();
    start_recording(&mut session).unwrap();
    assert_eq!(session.poll_start(0), StartPoll::Wait);
    assert_eq!(session.poll_start(START_TIMEOUT_MS - 1), StartPoll::Wait);
    assert_eq!(session.poll_start(START_TIMEOUT_MS), StartPoll::GiveUp);
    assert_eq!(session.abandon_start(), CaptureError::StartTimeout);
    assert!(!is_recording(&session));
    assert!(start_recording(&mut session).is_ok());
}

#[test]
fn failed_capture_gives_up_before_timeout() {
    let mut session = RecordingSession::new();
    start_recording(&mut session).unwrap();
    session.signal_stop();
    assert_eq!(session.poll_start(10), StartPoll::GiveUp);
}

#[test]
fn confirmed_start_succeeds() {
    let mut session = RecordingSession::new();
    start_recording(&mut session).unwrap();
    session.confirm_started();
    assert_eq!(session.poll_start(0), StartPoll::Confirmed);
    assert!(session.keep_capturing());
}

#[test]
fn half_scale_samples_encode_exactly() {
    let mut session = open_session(48000);
    session.ingest(&SampleChunk::Pcm(vec![pcm_of_float(0.5); 5000]));
    let clip = stop_recording(&mut session).unwrap();
    let (_, back) = decode(&clip);
    assert_eq!(back.len(), 5000);
    assert!(back.iter().all(|&s| s == 16384));
}

#[test]
fn late_callbacks_are_dropped() {
    let mut session = open_session(8000);
    session.ingest(&SampleChunk::U8(vec![255, 0]));
    session.signal_stop();
    session.ingest(&SampleChunk::U8(vec![128]));
    let clip = stop_recording(&mut session).unwrap();
    assert_eq!(decode(&clip).1, vec![32767, -32767]);
}

#[test]
fn unsigned_and_signed_chunks_are_normalized() {
    let mut session = open_session(8000);
    session.ingest(&SampleChunk::U16(vec![0, 65535]));
    session.ingest(&SampleChunk::I8(vec![-128, 1]));
    assert_eq!(session.take(), vec![-32767, 32767, -32767, 258]);
}

#[test]
fn rate_defaults_when_never_recorded() {
    let mut session = RecordingSession::new();
    assert_eq!(session.sample_rate(), DEFAULT_SAMPLE_RATE);
    start_recording(&mut session).unwrap();
    session.confirm_started();
    session.ingest(&SampleChunk::I16(vec![3]));
    let clip = stop_recording(&mut session).unwrap();
    assert_eq!(decode(&clip).0.sample_rate, 44100);
}

#[test]
fn zero_rate_fails_to_encode() {
    let mut session = open_session(0);
    session.ingest(&SampleChunk::I16(vec![3]));
    assert_eq!(stop_recording(&mut session), Err(CaptureError::EncodeError));
}

#[test]
fn only_known_formats_are_accepted() {
    assert_eq!(negotiate(DeviceFormat::Other), Err(CaptureError::UnsupportedFormat));
    assert_eq!(negotiate(DeviceFormat::F32), Ok(DeviceFormat::F32));
    assert_eq!(negotiate(DeviceFormat::U8), Ok(DeviceFormat::U8));
}

#[test]
fn clip_header_fields_are_exact() {
    let samples: Vec<i16> = vec![0, 32767, -32767];
    let clip = encode(&samples, 16000).unwrap();
    assert_eq!(clip.len(), 50);
    assert_eq!(&clip[0..4], b"RIFF");
    assert_eq!(u32::from_le_bytes([clip[4], clip[5], clip[6], clip[7]]), 42);
    assert_eq!(&clip[8..16], b"WAVEfmt ");
    assert_eq!(u32::from_le_bytes([clip[16], clip[17], clip[18], clip[19]]), 16);
    assert_eq!(u16::from_le_bytes([clip[20], clip[21]]), 1);
    assert_eq!(u16::from_le_bytes([clip[22], clip[23]]), 1);
    assert_eq!(u32::from_le_bytes([clip[24], clip[25], clip[26], clip[27]]), 16000);
    assert_eq!(u32::from_le_bytes([clip[28], clip[29], clip[30], clip[31]]), 32000);
    assert_eq!(u16::from_le_bytes([clip[32], clip[33]]), 2);
    assert_eq!(u16::from_le_bytes([clip[34], clip[35]]), 16);
    assert_eq!(&clip[36..40], b"data");
    assert_eq!(u32::from_le_bytes([clip[40], clip[41], clip[42], clip[43]]), 6);
    assert_eq!(&clip[44..], &[0x00, 0x00, 0xff, 0x7f, 0x01, 0x80]);
    let (spec, back) = decode(&clip);
    assert_eq!((spec.channels, spec.bits_per_sample, spec.sample_rate), (1, 16, 16000));
    assert_eq!(back, samples);
}

#[test]
fn payload_of_concatenation_concatenates() {
    let a: Vec<i16> = vec![1, -2, 300];
    let b: Vec<i16> = vec![-32767, 7];
    let ab: Vec<i16> = a.iter().chain(b.iter()).copied().collect();
    let ca = encode(&a, 8000).unwrap();
    let cb = encode(&b, 8000).unwrap();
    let cab = encode(&ab, 8000).unwrap();
    let mut joined = ca[44..].to_vec();
    joined.extend_from_slice(&cb[44..]);
    assert_eq!(cab[44..].to_vec(), joined);
}

#[test]
fn stop_equals_encoding_at_recorded_rate() {
    let mut session = open_session(11025);
    session.ingest(&SampleChunk::I16(vec![4, -4, 9]));
    let clip = stop_recording(&mut session).unwrap();
    assert_eq!(clip, encode(&vec![4, -4, 9], 11025).unwrap());
}
