use voicepeak::wire::{encode_args, MAX_ARGS, MAX_ARG_BYTES};

const REFUSED: &str = "invalid resident voicepeak arguments";

#[test]
fn frames_utf8_arguments_and_rejects_invalid_requests() {
    let args: Vec<String> = vec!["voicepeak".into(), "雨\n声".into(), "/tmp/a wav".into()];
    let wire = encode_args(&args).unwrap();
    let mut expected = 3u32.to_le_bytes().to_vec();
    expected.extend(9u32.to_le_bytes());
    expected.extend(b"voicepeak");
    expected.extend(7u32.to_le_bytes());
    expected.extend("雨\n声".as_bytes());
    expected.extend(10u32.to_le_bytes());
    expected.extend(b"/tmp/a wav");
    assert_eq!(wire, expected);
    assert!(encode_args(&[]).is_err());
    assert!(encode_args(&vec![String::new(); 33]).is_err());
    assert!(encode_args(&["a\0b".into()]).is_err());
    assert!(encode_args(&["a".repeat(1024 * 1024 + 1)]).is_err());
}

#[test]
fn refusal_has_one_message() {
    assert_eq!(encode_args(&[]).unwrap_err(), REFUSED);
    assert_eq!(encode_args(&vec![String::new(); 33]).unwrap_err(), REFUSED);
    assert_eq!(encode_args(&["ok".into(), "\0".into()]).unwrap_err(), REFUSED);
    assert_eq!(encode_args(&["a".repeat(MAX_ARG_BYTES + 1)]).unwrap_err(), REFUSED);
}

#[test]
fn limits_are_inclusive() {
    let most = vec![String::new(); MAX_ARGS];
    assert_eq!(encode_args(&most).unwrap().len(), 4 + 4 * MAX_ARGS);
    let longest = vec!["a".repeat(MAX_ARG_BYTES)];
    assert_eq!(encode_args(&longest).unwrap().len(), 8 + MAX_ARG_BYTES);
    let halves = vec!["a".repeat(MAX_ARG_BYTES / 2), "b".repeat(MAX_ARG_BYTES / 2)];
    assert_eq!(encode_args(&halves).unwrap().len(), 12 + MAX_ARG_BYTES);
    let over = vec!["a".repeat(MAX_ARG_BYTES / 2), "b".repeat(MAX_ARG_BYTES / 2 + 1)];
    assert!(encode_args(&over).is_err());
}

#[test]
fn the_byte_limit_counts_bytes_and_not_characters() {
    let third = MAX_ARG_BYTES / 3;
    assert!(encode_args(&["雨".repeat(third)]).is_ok());
    assert!(encode_args(&["雨".repeat(third + 1)]).is_err());
}

fn read(bytes: &[u8]) -> (Vec<String>, usize) {
    let number = |at: usize| {
        u32::from_le_bytes([bytes[at], bytes[at + 1], bytes[at + 2], bytes[at + 3]]) as usize
    };
    let mut at = 4;
    let mut args = Vec::new();
    for _ in 0..number(0) {
        let end = at + 4 + number(at);
        args.push(String::from_utf8(bytes[at + 4..end].to_vec()).unwrap());
        at = end;
    }
    (args, at)
}

#[test]
fn requests_on_one_stream_read_back_in_turn() {
    let one: Vec<String> = vec!["voicepeak".into(), "-s".into(), "".into(), "é😀".into()];
    let two: Vec<String> = vec!["x".into()];
    let mut stream = encode_args(&one).unwrap();
    let first_len = stream.len();
    stream.extend(encode_args(&two).unwrap());
    assert_eq!(read(&stream), (one, first_len));
    assert_eq!(read(&stream[first_len..]), (two, stream.len() - first_len));
}
