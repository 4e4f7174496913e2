use voicepeak::wav::{complete_pcm, extract_pcm};

/// Mono samples of two bytes at 48 kHz, with both sizes left open.
fn wav_header() -> Vec<u8> {
    let mut header = b"RIFF\xff\xff\xff\xffWAVEfmt ".to_vec();
    header.extend(b"\x10\0\0\0\x01\0\x01\0\x80\xbb\0\0\0\x77\x01\0\x02\0\x10\0");
    header.extend(b"data\xff\xff\xff\xff");
    header
}

fn chunk(name: &[u8; 4], body: &[u8]) -> Vec<u8> {
    let mut bytes = name.to_vec();
    bytes.extend((body.len() as u32).to_le_bytes());
    bytes.extend(body);
    if body.len() % 2 == 1 {
        bytes.push(0);
    }
    bytes
}

fn wav(chunks: &[Vec<u8>]) -> Vec<u8> {
    let body = chunks.concat();
    let mut bytes = b"RIFF".to_vec();
    bytes.extend((4 + body.len() as u32).to_le_bytes());
    bytes.extend(b"WAVE");
    bytes.extend(body);
    bytes
}

#[test]
fn rejects_unfinished_or_empty_wavs() {
    let mut wav = wav_header();
    wav.extend([1, 2, 3, 4]);
    wav[4..8].copy_from_slice(&40u32.to_le_bytes());
    wav[40..44].copy_from_slice(&4u32.to_le_bytes());
    assert_eq!(complete_pcm(&wav).unwrap(), [1, 2, 3, 4]);
    assert!(complete_pcm(&wav[..47]).is_err());
    wav[40..44].copy_from_slice(&100u32.to_le_bytes());
    assert!(complete_pcm(&wav).is_err());
    wav.truncate(44);
    wav[4..8].copy_from_slice(&36u32.to_le_bytes());
    wav[40..44].copy_from_slice(&0u32.to_le_bytes());
    assert!(complete_pcm(&wav).is_err());
}

#[test]
fn no_part_of_a_file_is_whole() {
    let whole = wav(&[chunk(b"fmt ", &[0; 16]), chunk(b"data", &[1, 2, 3, 4])]);
    assert_eq!(complete_pcm(&whole).unwrap(), [1, 2, 3, 4]);
    for len in 0..whole.len() {
        assert_eq!(complete_pcm(&whole[..len]).unwrap_err(), "incomplete resident WAV");
    }
    let mut longer = whole;
    longer.push(0);
    assert_eq!(complete_pcm(&longer).unwrap_err(), "incomplete resident WAV");
}

#[test]
fn odd_chunks_are_padded() {
    let bytes = wav(&[chunk(b"LIST", &[9, 9, 9]), chunk(b"data", &[5, 6])]);
    assert_eq!(complete_pcm(&bytes).unwrap(), [5, 6]);
    assert_eq!(extract_pcm(&bytes).unwrap(), [5, 6]);
    let mut unpadded = b"RIFF\x0d\0\0\0WAVEdata\x01\0\0\0".to_vec();
    unpadded.push(7);
    assert_eq!(complete_pcm(&unpadded).unwrap_err(), "incomplete WAV chunk");
    assert_eq!(extract_pcm(&unpadded).unwrap(), [7]);
}

#[test]
fn every_fault_has_its_message() {
    let cut_header = b"RIFF\x0b\0\0\0WAVEdata\x02\0\0".to_vec();
    assert_eq!(complete_pcm(&cut_header).unwrap_err(), "incomplete WAV chunk header");
    let cut_body = b"RIFF\x0d\0\0\0WAVEdata\x02\0\0\0\x01".to_vec();
    assert_eq!(complete_pcm(&cut_body).unwrap_err(), "incomplete WAV chunk");
    let huge = b"RIFF\x0d\0\0\0WAVEdata\xff\xff\xff\xff\x01".to_vec();
    assert_eq!(complete_pcm(&huge).unwrap_err(), "incomplete WAV chunk");
    let empty = wav(&[chunk(b"data", &[])]);
    assert_eq!(complete_pcm(&empty).unwrap_err(), "empty or incomplete resident PCM");
    let half = wav(&[chunk(b"data", &[1, 2, 3])]);
    assert_eq!(complete_pcm(&half).unwrap_err(), "empty or incomplete resident PCM");
    let silent = wav(&[chunk(b"fmt ", &[0; 16])]);
    assert_eq!(complete_pcm(&silent).unwrap_err(), "no data chunk");
    let mut other = wav(&[chunk(b"data", &[1, 2])]);
    other[8] = b'X';
    assert_eq!(complete_pcm(&other).unwrap_err(), "not a RIFF/WAVE file");
    assert_eq!(complete_pcm(b"incomplete").unwrap_err(), "incomplete resident WAV");
    assert_eq!(extract_pcm(b"incomplete").unwrap_err(), "not a RIFF/WAVE file");
}

#[test]
fn samples_end_with_the_file_where_it_need_not_be_whole() {
    let mut streamed = wav_header();
    streamed.extend([1, 2, 3]);
    assert_eq!(extract_pcm(&streamed).unwrap(), [1, 2, 3]);
    let beyond = b"RIFF\xff\xff\xff\xffWAVELIST\xff\xff\xff\xff\x01".to_vec();
    assert_eq!(extract_pcm(&beyond).unwrap_err(), "no data chunk");
}

#[test]
fn first_data_chunk_counts() {
    let bytes = wav(&[chunk(b"data", &[1, 2]), chunk(b"data", &[3, 4])]);
    assert_eq!(complete_pcm(&bytes).unwrap(), [1, 2]);
}
