use find_binary_version::ByteSource;

#[test]
fn fixed_width_reads() {
    let mut src = ByteSource::new(vec![0x27, 0x05, 0x19, 0x56, 0x55, 0xaa]);
    assert_eq!(src.read_u32_be(), Some(0x2705_1956));
    assert_eq!(src.position(), 4);
    assert_eq!(src.read_u16_le(), Some(0xaa55));
    assert_eq!(src.read_u8(), None);
    assert_eq!(src.position(), 6);
    src.seek(0);
    assert_eq!(src.read_u32_le(), Some(0x5619_0527));
    src.seek(5);
    assert_eq!(src.read_u8(), Some(0xaa));
}

#[test]
fn short_reads_fail_without_moving() {
    let mut src = ByteSource::new(vec![1, 2, 3]);
    src.seek(1);
    assert_eq!(src.read_u32_le(), None);
    assert_eq!(src.position(), 1);
    assert_eq!(src.read_u16_le(), Some(0x0302));
    src.seek(100);
    assert_eq!(src.read_u8(), None);
    assert_eq!(src.position(), 100);
}

#[test]
fn windowed_reads() {
    let data: Vec<u8> = (0..10).collect();
    let mut src = ByteSource::new(data);
    assert_eq!(src.len(), 10);
    assert_eq!(src.read(4), vec![0, 1, 2, 3]);
    assert_eq!(src.read(4), vec![4, 5, 6, 7]);
    assert_eq!(src.read(4), vec![8, 9]);
    assert_eq!(src.position(), 10);
    assert_eq!(src.read(4), Vec::<u8>::new());
    src.seek(3);
    assert_eq!(src.read_to_end(), vec![3, 4, 5, 6, 7, 8, 9]);
    assert_eq!(src.bytes_from(8), &[8, 9]);
    assert_eq!(src.bytes_from(50), &[] as &[u8]);
}
