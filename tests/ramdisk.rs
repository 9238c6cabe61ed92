use std::io::Write;

use bootimg_info::error::ExtractError;
use bootimg_info::magisk_version::{find_magisk_version, version_from_match};
use bootimg_info::ramdisk::{
    decompress_ramdisk, find_payload_entry, get_magisk_bin, ArchiveWalker,
};

fn pad(out: &mut Vec<u8>) {
    while out.len() % 4 != 0 {
        out.push(0);
    }
}

fn entry(out: &mut Vec<u8>, name: &str, body: &[u8]) {
    let fields = [1u32, 0o100644, 0, 0, 1, 0, body.len() as u32, 0, 0, 0, 0, name.len() as u32 + 1, 0];
    out.extend_from_slice(b"070701");
    for f in fields {
        out.extend_from_slice(format!("{:08X}", f).as_bytes());
    }
    out.extend_from_slice(name.as_bytes());
    out.push(0);
    pad(out);
    out.extend_from_slice(body);
    pad(out);
}

fn trailer(out: &mut Vec<u8>) {
    entry(out, "TRAILER!!!", b"");
}

fn xz(data: &[u8]) -> Vec<u8> {
    let mut out = Vec::new();
    lzma_rs::xz_compress(&mut &data[..], &mut out).unwrap();
    out
}

#[test]
fn target_entry_second_of_three() {
    let mut a = Vec::new();
    entry(&mut a, "init", b"first body, skipped");
    entry(&mut a, "overlay.d/sbin/magisk.xz", b"\x00\x01second\xffbody");
    entry(&mut a, "system/bin/sh", b"third");
    trailer(&mut a);
    let body = find_payload_entry(&a).unwrap().unwrap();
    assert_eq!(body, b"\x00\x01second\xffbody");
}

#[test]
fn alternate_payload_name_matches() {
    let mut a = Vec::new();
    entry(&mut a, "overlay.d/sbin/magisk.xz.bak", b"no");
    entry(&mut a, "overlay.d/sbin/magisk32.xz", b"yes");
    trailer(&mut a);
    assert_eq!(find_payload_entry(&a).unwrap().unwrap(), b"yes");
}

#[test]
fn trailer_first_is_absent() {
    let mut a = Vec::new();
    trailer(&mut a);
    assert_eq!(find_payload_entry(&a).unwrap(), None);
    assert_eq!(get_magisk_bin(&a).unwrap(), None);
}

#[test]
fn no_payload_before_trailer_is_absent() {
    let mut a = Vec::new();
    entry(&mut a, "init", b"abc");
    entry(&mut a, "sbin", b"");
    trailer(&mut a);
    entry(&mut a, "overlay.d/sbin/magisk.xz", b"after the end");
    assert_eq!(find_payload_entry(&a).unwrap(), None);
}

#[test]
fn garbage_is_corrupt() {
    assert_eq!(find_payload_entry(b"not an archive at all").unwrap_err(), ExtractError::CorruptArchive);
    assert_eq!(find_payload_entry(b"").unwrap_err(), ExtractError::CorruptArchive);
}

#[test]
fn missing_trailer_is_corrupt() {
    let mut a = Vec::new();
    entry(&mut a, "init", b"abcd");
    assert_eq!(find_payload_entry(&a).unwrap_err(), ExtractError::CorruptArchive);
}

#[test]
fn truncated_body_is_corrupt() {
    let mut a = Vec::new();
    entry(&mut a, "overlay.d/sbin/magisk.xz", b"0123456789");
    a.truncate(a.len() - 4);
    assert_eq!(find_payload_entry(&a).unwrap_err(), ExtractError::CorruptArchive);
}

#[test]
fn walker_reads_and_skips() {
    let mut a = Vec::new();
    entry(&mut a, "a", b"12345");
    entry(&mut a, "b", b"xy");
    trailer(&mut a);
    let e = ArchiveWalker::new(&a).next_entry().unwrap();
    assert_eq!(e.name(), "a");
    assert!(!e.is_trailer());
    let w = e.skip().unwrap();
    let e = w.next_entry().unwrap();
    assert_eq!(e.name(), "b");
    let w = e.skip().unwrap();
    let e = w.next_entry().unwrap();
    assert!(e.is_trailer());
    let mut a2 = Vec::new();
    entry(&mut a2, "c", b"body");
    let e = ArchiveWalker::new(&a2).next_entry().unwrap();
    assert_eq!(e.read_body(), b"body");
}

#[test]
fn payload_is_decompressed() {
    let payload = b"\x7fELF....Magisk 25.2(25200) built....";
    let mut a = Vec::new();
    entry(&mut a, "init", b"x");
    entry(&mut a, "overlay.d/sbin/magisk.xz", &xz(payload));
    trailer(&mut a);
    let bin = get_magisk_bin(&a).unwrap().unwrap();
    assert_eq!(bin, payload);
    assert_eq!(find_magisk_version(&bin).unwrap(), b"25.2(25200)");
}

#[test]
fn bad_xz_payload_fails_decompression() {
    let mut a = Vec::new();
    entry(&mut a, "overlay.d/sbin/magisk.xz", b"this is not xz");
    trailer(&mut a);
    assert_eq!(get_magisk_bin(&a).unwrap_err(), ExtractError::DecompressionFailed);
}

#[test]
fn gzip_ramdisk_is_expanded() {
    let mut a = Vec::new();
    entry(&mut a, "init", b"x");
    trailer(&mut a);
    let mut enc = flate2::write::GzEncoder::new(Vec::new(), flate2::Compression::default());
    enc.write_all(&a).unwrap();
    let gz = enc.finish().unwrap();
    assert_eq!(decompress_ramdisk(&gz).unwrap(), a);
    assert_eq!(decompress_ramdisk(&a).unwrap_err(), ExtractError::DecompressionFailed);
}

#[test]
fn version_found_in_payload() {
    assert_eq!(find_magisk_version(b"...Magisk 25.2(25200)...").unwrap(), b"25.2(25200)");
    assert_eq!(find_magisk_version(b"v1.0(123) then 26.10(26100)").unwrap(), b"26.10(26100)");
}

#[test]
fn version_missing_is_pattern_not_found() {
    assert_eq!(find_magisk_version(b"Magisk 25.2").unwrap_err(), ExtractError::PatternNotFound);
    assert_eq!(find_magisk_version(b"").unwrap_err(), ExtractError::PatternNotFound);
}

#[test]
fn version_cut_from_span() {
    assert_eq!(version_from_match(b"abc1.2(12345)", Some((3, 13))).unwrap(), b"1.2(12345)");
    assert_eq!(version_from_match(b"abc", None).unwrap_err(), ExtractError::PatternNotFound);
}

#[test]
fn entry_from_declared_header() {
    let data: Vec<u8> = (0..200u8).collect();
    let e = ArchiveWalker::new(&data)
        .entry_from_header("x".to_string(), false, 10, 120)
        .unwrap();
    assert_eq!(e.name(), "x");
    assert_eq!(e.read_body(), &data[120..130]);
    let err = ArchiveWalker::new(&data)
        .entry_from_header("x".to_string(), false, 81, 120)
        .err()
        .unwrap();
    assert_eq!(err, ExtractError::CorruptArchive);
    let t = ArchiveWalker::new(&data)
        .entry_from_header("TRAILER!!!".to_string(), true, 999, 120)
        .unwrap();
    assert!(t.is_trailer());
}
