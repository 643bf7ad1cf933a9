use find_binary_version::uboot::get_version_in_stanzas;
use find_binary_version::{version, BinaryKind, ByteSource, Lookup};

fn uboot_version(data: Vec<u8>) -> Option<String> {
    let mut src = ByteSource::new(data);
    match version(&mut src, BinaryKind::UBoot) {
        Lookup::Done(v) => v,
        Lookup::Decompress(_) => panic!("a U-Boot lookup asks for no decompression"),
    }
}

#[test]
fn uboot_banner() {
    let mut data = vec![0u8; 100];
    data.extend_from_slice(b"U-Boot 2019.04 (01/04/2019)");
    data.extend_from_slice(&[0u8; 50]);
    assert_eq!(uboot_version(data), Some("2019.04".to_string()));
}

#[test]
fn uboot_spl_banner() {
    let data = b"U-Boot SPL 2019.04 (01/04/2019)".to_vec();
    assert_eq!(uboot_version(data), Some("2019.04".to_string()));
}

#[test]
fn uboot_banner_with_long_version() {
    let mut data = vec![0xffu8; 40];
    data.extend_from_slice(b"\0U-Boot 2019.04-00014-gc93ced78db (Apr 29 2019 - 10:00:00 +0000)\0");
    assert_eq!(uboot_version(data), Some("2019.04-00014-gc93ced78db".to_string()));
}

#[test]
fn uboot_banner_in_a_later_chunk() {
    let mut data = vec![0u8; 1024 + 7];
    data.extend_from_slice(b"U-Boot 2020.01 (Jan 1 2020)");
    assert_eq!(uboot_version(data), Some("2020.01".to_string()));
}

#[test]
fn uboot_banner_across_chunks_needs_stanzas() {
    let mut data = vec![0u8; 500];
    data.extend_from_slice(b"U-Boot 2020.01 (Jan 1 2020)\0");
    assert_eq!(uboot_version(data.clone()), None);
    let mut src = ByteSource::new(data);
    assert_eq!(get_version_in_stanzas(&mut src), Some("2020.01".to_string()));
}

#[test]
fn uboot_without_banner() {
    assert_eq!(uboot_version(b"U-Boot without a version".to_vec()), None);
    assert_eq!(uboot_version(Vec::new()), None);
    assert_eq!(uboot_version(vec![0x55; 3000]), None);
}

#[test]
fn uboot_banner_without_date() {
    assert_eq!(uboot_version(b"U-Boot 2019.04".to_vec()), Some("2019.04".to_string()));
    let mut data = vec![0u8; 20];
    data.extend_from_slice(b"U-Boot SPL 2018.03-rc1\n");
    assert_eq!(uboot_version(data), Some("2018.03-rc1".to_string()));
    let mut data = vec![0u8; 20];
    data.extend_from_slice(b"U-Boot SPL 2018.03-rc1\0\0");
    let mut src = ByteSource::new(data);
    assert_eq!(get_version_in_stanzas(&mut src), Some("2018.03-rc1".to_string()));
    assert_eq!(src.position(), 44);
}
