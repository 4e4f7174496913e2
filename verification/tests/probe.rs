use voicepeak::probe::{first_runnable, supported_header, switched_off, FileInfo, BUILD_ID};

fn known_build() -> Vec<u8> {
    let mut header = vec![0; 0x320];
    header[..7].copy_from_slice(b"\x7fELF\x02\x01\x01");
    header[0x30c..0x320].copy_from_slice(&BUILD_ID);
    header
}

#[test]
fn requires_the_verified_elf_build() {
    let mut header = vec![0; 0x320];
    header[..7].copy_from_slice(b"\x7fELF\x02\x01\x01");
    header[0x30c..0x320].copy_from_slice(&BUILD_ID);
    assert!(supported_header(&header));
    header[0x31f] ^= 1;
    assert!(!supported_header(&header));
    assert!(!supported_header(b"#!/bin/sh"));
}

#[test]
fn every_byte_of_magic_and_identity_counts_and_no_other() {
    for at in 0..0x320 {
        let mut header = known_build();
        header[at] ^= 0x80;
        assert_eq!(supported_header(&header), !(at < 7 || at >= 0x30c), "{at:#x}");
    }
}

#[test]
fn header_must_reach_the_end_of_the_identity() {
    let mut header = known_build();
    assert!(!supported_header(&header[..0x31f]));
    assert!(!supported_header(&[]));
    header.push(7);
    assert!(supported_header(&header));
}

#[test]
fn only_zero_switches_off() {
    assert!(switched_off(&Some("0".into())));
    for other in ["", "1", "00", " 0", "no"] {
        assert!(!switched_off(&Some(other.into())));
    }
    assert!(!switched_off(&None));
}

#[test]
fn first_runnable_file_is_found() {
    let file = |mode| Some(FileInfo { is_file: true, mode });
    let directory = Some(FileInfo { is_file: false, mode: 0o755 });
    assert_eq!(first_runnable(&[]), None);
    assert_eq!(first_runnable(&[None, directory, file(0o644)]), None);
    assert_eq!(first_runnable(&[None, directory, file(0o644), file(0o755), file(0o755)]), Some(3));
    for bit in [0o100, 0o010, 0o001] {
        assert_eq!(first_runnable(&[file(0o100_000 | bit)]), Some(0));
    }
}
