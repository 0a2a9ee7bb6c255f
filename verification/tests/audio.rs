use jarvis::audio::{encode_wav_pcm16, is_audio_extension, path_id};

fn u32_at(b: &[u8], offset: usize) -> u32 {
    u32::from_le_bytes([b[offset], b[offset + 1], b[offset + 2], b[offset + 3]])
}

fn u16_at(b: &[u8], offset: usize) -> u16 {
    u16::from_le_bytes([b[offset], b[offset + 1]])
}

#[test]
fn wav_header_is_valid_for_synthetic_buffer() {
    let samples: Vec<i16> = vec![0, 16383, -16383, 32767, -32767, 8191, -8191, 0];
    let sample_rate = 16_000u32;
    let wav = encode_wav_pcm16(&samples, sample_rate);
    assert_eq!(wav.len(), 44 + samples.len() * 2);
    assert_eq!(&wav[0..4], b"RIFF");
    assert_eq!(&wav[8..12], b"WAVE");
    let data_len = (samples.len() * 2) as u32;
    assert_eq!(u32_at(&wav, 4), 36 + data_len);
    assert_eq!(&wav[12..16], b"fmt ");
    assert_eq!(u32_at(&wav, 16), 16);
    assert_eq!(u16_at(&wav, 20), 1);
    assert_eq!(u16_at(&wav, 22), 1);
    assert_eq!(u32_at(&wav, 24), sample_rate);
    assert_eq!(u32_at(&wav, 28), sample_rate * 2);
    assert_eq!(u16_at(&wav, 32), 2);
    assert_eq!(u16_at(&wav, 34), 16);
    assert_eq!(&wav[36..40], b"data");
    assert_eq!(u32_at(&wav, 40), data_len);
}

#[test]
fn wav_samples_are_encoded_little_endian() {
    let wav = encode_wav_pcm16(&[0, i16::MAX, -i16::MAX, i16::MIN], 44_100);
    assert_eq!(u16_at(&wav, 44), 0);
    assert_eq!(u16_at(&wav, 46) as i16, i16::MAX);
    assert_eq!(u16_at(&wav, 48) as i16, -i16::MAX);
    assert_eq!(u16_at(&wav, 50) as i16, i16::MIN);
}

#[test]
fn empty_recording_is_a_valid_zero_data_wav() {
    let wav = encode_wav_pcm16(&[], 48_000);
    assert_eq!(wav.len(), 44);
    assert_eq!(&wav[0..4], b"RIFF");
    assert_eq!(&wav[8..12], b"WAVE");
    assert_eq!(u32_at(&wav, 4), 36);
    assert_eq!(u32_at(&wav, 40), 0);
    assert_eq!(u32_at(&wav, 24), 48_000);
}

#[test]
fn sample_rate_is_written_into_header() {
    for rate in [8_000u32, 16_000, 22_050, 44_100, 48_000] {
        let wav = encode_wav_pcm16(&[3276, -3276], rate);
        assert_eq!(u32_at(&wav, 24), rate, "sample rate {rate} mismatch");
        assert_eq!(u32_at(&wav, 28), rate * 2, "byte rate for {rate} mismatch");
    }
}

#[test]
fn audio_extensions_any_case() {
    assert!(is_audio_extension("mp3"));
    assert!(is_audio_extension("FLAC"));
    assert!(is_audio_extension("Opus"));
    assert!(!is_audio_extension("txt"));
    assert!(!is_audio_extension(""));
}

#[test]
fn path_ids_are_stable_and_distinguish_paths() {
    assert_eq!(path_id("/music/a.mp3"), path_id("/music/a.mp3"));
    assert_ne!(path_id("/music/a.mp3"), path_id("/music/b.mp3"));
}

use jarvis::audio::{track_order, TrackKey};

fn key(artist: Option<&str>, album: Option<&str>, n: Option<u32>) -> TrackKey {
    TrackKey { artist: artist.map(String::from), album: album.map(String::from), track_number: n }
}

#[test]
fn library_orders_by_artist_album_track() {
    let keys = vec![
        key(Some("beta"), Some("X"), Some(2)),
        key(Some("Alpha"), Some("B"), Some(1)),
        key(Some("beta"), Some("X"), Some(1)),
        key(None, None, None),
        key(Some("alpha"), Some("A"), None),
    ];
    assert_eq!(track_order(&keys), vec![3, 4, 1, 2, 0]);
}

#[test]
fn library_order_keeps_ties_in_scan_order() {
    let keys = vec![
        key(Some("Same"), Some("A"), Some(1)),
        key(Some("same"), Some("A"), Some(1)),
        key(Some("SAME"), Some("A"), Some(1)),
    ];
    assert_eq!(track_order(&keys), vec![0, 1, 2]);
}
