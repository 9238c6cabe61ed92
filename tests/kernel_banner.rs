use bootimg_info::kernel_banner::{banner_from_captures, find_kernel_banner, parse_kernel_banner};

const BANNER: &[u8] = b"Linux version 5.10.110-foo (bot@host) (gcc 9.3, GNU ld 2.30) #1 SMP PREEMPT Thu Jan 1 00:00:01 UTC 1970\n";

#[test]
fn finds_banner_inside_image() {
    let mut image = vec![0u8, 1, 2, 0xff, 0xfe];
    image.extend_from_slice(BANNER);
    image.extend_from_slice(&[0, 0, 9]);
    let b = find_kernel_banner(&image).unwrap();
    assert_eq!(b.version, b"5.10.110");
    assert_eq!(b.release, b"5.10.110-foo");
    assert_eq!(b.builder, b"bot@host");
    assert_eq!(b.compiler, b"gcc 9.3, GNU ld 2.30");
    assert_eq!(b.extra, b"#1 SMP PREEMPT Thu Jan 1 00:00:01 UTC 1970");
    assert_eq!(b.banner, BANNER);
}

#[test]
fn bare_prefix_is_not_found() {
    assert!(find_kernel_banner(b"Linux version ").is_none());
    assert!(find_kernel_banner(b"").is_none());
    assert!(find_kernel_banner(b"no banner here\n").is_none());
}

#[test]
fn skips_false_positive_prefix() {
    let image = b"Linux version garbage\nLinux version 1.2.3 (a@b) (c) d\n";
    let b = find_kernel_banner(image).unwrap();
    assert_eq!(b.banner, b"Linux version 1.2.3 (a@b) (c) d\n");
    assert_eq!(b.version, b"1.2.3");
    assert_eq!(b.release, b"1.2.3");
    assert_eq!(b.builder, b"a@b");
    assert_eq!(b.compiler, b"c");
    assert_eq!(b.extra, b"d");
}

#[test]
fn banner_without_newline_is_not_found() {
    assert!(find_kernel_banner(b"Linux version 1.2.3 (a@b) (c) d").is_none());
}

#[test]
fn parse_is_anchored_at_start() {
    assert!(parse_kernel_banner(b"xLinux version 1.2.3 (a@b) (c) d\n").is_none());
    let b = parse_kernel_banner(b"Linux version 4.19.0 (u@h) (clang) x\ntrailing").unwrap();
    assert_eq!(b.version, b"4.19.0");
    assert_eq!(b.banner, b"Linux version 4.19.0 (u@h) (clang) x\n");
}

#[test]
fn cuts_parts_along_spans() {
    let h = b"abcdefghij";
    let caps = vec![(0, 10), (1, 4), (1, 2), (5, 6), (6, 8), (9, 10)];
    let b = banner_from_captures(h, &caps);
    assert_eq!(b.banner, b"abcdefghij");
    assert_eq!(b.release, b"bcd");
    assert_eq!(b.version, b"b");
    assert_eq!(b.builder, b"f");
    assert_eq!(b.compiler, b"gh");
    assert_eq!(b.extra, b"j");
}
