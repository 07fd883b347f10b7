use facecam::bytes::{read_i32, read_i64, read_u32, write_i32, write_u32, ByteOrder};

#[test]
fn integers_survive_a_write_and_a_read() {
    for order in [ByteOrder::Little, ByteOrder::Big] {
        let mut buf = [0xAAu8; 12];
        write_u32(order, &mut buf, 4, 0x12345678);
        assert_eq!(read_u32(order, &buf, 4), 0x12345678);
        assert_eq!(&buf[..4], &[0xAA; 4]);
        assert_eq!(&buf[8..], &[0xAA; 4]);
        write_i32(order, &mut buf, 0, -2);
        assert_eq!(read_i32(order, &buf, 0), -2);
        write_i32(order, &mut buf, 0, i32::MIN);
        assert_eq!(read_i32(order, &buf, 0), i32::MIN);
    }
}

#[test]
fn byte_orders_agree_with_the_standard_library() {
    let mut little = [0u8; 4];
    write_u32(ByteOrder::Little, &mut little, 0, 0x01020304);
    assert_eq!(little, 0x01020304u32.to_le_bytes());
    let mut big = [0u8; 4];
    write_u32(ByteOrder::Big, &mut big, 0, 0x01020304);
    assert_eq!(big, 0x01020304u32.to_be_bytes());
    for v in [0i64, -1, 1, i64::MIN, i64::MAX, -0x1_0000_0001] {
        assert_eq!(read_i64(ByteOrder::Little, &v.to_le_bytes(), 0), v);
        assert_eq!(read_i64(ByteOrder::Big, &v.to_be_bytes(), 0), v);
    }
}
