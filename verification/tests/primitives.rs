use matroska::primitive::{read_bin, read_date, read_float, read_int, read_string, read_uint};
use matroska::vint::read_element_id_size;
use matroska::{Corruption, DateTime, FloatBits, IoError, MatroskaError, Source};

#[test]
fn header_of_one_byte_id_and_size() {
    let data = [0xAE, 0x83, 1, 2, 3];
    let mut r = Source::new(&data);
    assert_eq!(read_element_id_size(&mut r), Ok((0xAE, 3, 2)));
    assert_eq!(r.position(), 2);
}

#[test]
fn header_keeps_id_marker_and_strips_size_marker() {
    let data = [0x18, 0x53, 0x80, 0x67, 0x40, 0x7F];
    let mut r = Source::new(&data);
    assert_eq!(read_element_id_size(&mut r), Ok((0x1853_8067, 127, 6)));
}

#[test]
fn id_of_width_five_is_invalid() {
    let data = [0x08, 0, 0, 0, 0, 0x81];
    let mut r = Source::new(&data);
    assert_eq!(read_element_id_size(&mut r), Err(MatroskaError::InvalidId));
    assert_eq!(r.position(), 0);
}

#[test]
fn size_of_width_nine_is_invalid() {
    let data = [0x80, 0x00, 0x80, 0, 0, 0, 0, 0, 0, 0];
    let mut r = Source::new(&data);
    assert_eq!(read_element_id_size(&mut r), Err(MatroskaError::InvalidSize));
    assert_eq!(r.position(), 0);
}

#[test]
fn unknown_size_is_rejected() {
    let data = [0x80, 0xFF];
    let mut r = Source::new(&data);
    assert_eq!(
        read_element_id_size(&mut r),
        Err(MatroskaError::CorruptFile { reason: Corruption::UnknownSize })
    );
    let data = [0x80, 0x01, 0xFF, 0xFF, 0xFF, 0xFF, 0xFF, 0xFF, 0xFF];
    let mut r = Source::new(&data);
    assert_eq!(
        read_element_id_size(&mut r),
        Err(MatroskaError::CorruptFile { reason: Corruption::UnknownSize })
    );
}

#[test]
fn largest_size_of_eight_bytes() {
    let data = [0x80, 0x01, 0xFF, 0xFF, 0xFF, 0xFF, 0xFF, 0xFF, 0xFE];
    let mut r = Source::new(&data);
    assert_eq!(read_element_id_size(&mut r), Ok((0x80, 0x00FF_FFFF_FFFF_FFFE, 9)));
}

#[test]
fn cut_off_header() {
    let mut r = Source::new(&[]);
    assert_eq!(read_element_id_size(&mut r), Err(MatroskaError::Io(IoError::UnexpectedEof)));
    let data = [0x18, 0x53];
    let mut r = Source::new(&data);
    assert_eq!(read_element_id_size(&mut r), Err(MatroskaError::InvalidId));
    let data = [0x80];
    let mut r = Source::new(&data);
    assert_eq!(read_element_id_size(&mut r), Err(MatroskaError::Io(IoError::UnexpectedEof)));
    let data = [0x80, 0x40];
    let mut r = Source::new(&data);
    assert_eq!(read_element_id_size(&mut r), Err(MatroskaError::InvalidSize));
}

#[test]
fn unsigned_integers_are_big_endian() {
    let data = [0x01, 0x02, 0x03, 0x04, 0x05, 0x06, 0x07, 0x08, 0x09];
    for (width, expected) in [
        (0u64, 0u64),
        (1, 0x01),
        (2, 0x0102),
        (3, 0x01_0203),
        (4, 0x0102_0304),
        (5, 0x01_0203_0405),
        (6, 0x0102_0304_0506),
        (7, 0x01_0203_0405_0607),
        (8, 0x0102_0304_0506_0708),
    ] {
        let mut r = Source::new(&data);
        assert_eq!(read_uint(&mut r, width), Ok(expected));
        assert_eq!(r.position(), width);
    }
    let mut r = Source::new(&data);
    assert_eq!(read_uint(&mut r, 9), Err(MatroskaError::InvalidInt));
    let data = [0xFF; 8];
    let mut r = Source::new(&data);
    assert_eq!(read_uint(&mut r, 8), Ok(u64::MAX));
}

#[test]
fn signed_integers_are_sign_extended() {
    let data = [0xFF, 0xFE, 0x03, 0x04, 0x05, 0x06, 0x07, 0x08];
    for (width, expected) in [
        (0u64, 0i64),
        (1, -1),
        (2, -2),
        (3, -0x1_0000 + 0xFE03),
        (4, -0x1_0000_0000 + 0xFFFE_0304),
        (8, -0x0001_FCFB_FAF9_F8F8),
    ] {
        let mut r = Source::new(&data);
        assert_eq!(read_int(&mut r, width), Ok(expected));
    }
    let data = [0x7F, 0xFF];
    let mut r = Source::new(&data);
    assert_eq!(read_int(&mut r, 2), Ok(0x7FFF));
    let data = [0x80, 0, 0, 0, 0, 0, 0, 0];
    let mut r = Source::new(&data);
    assert_eq!(read_int(&mut r, 8), Ok(i64::MIN));
    let mut r = Source::new(&data);
    assert_eq!(read_int(&mut r, 9), Err(MatroskaError::InvalidInt));
    let mut r = Source::new(&data[..3]);
    assert_eq!(read_int(&mut r, 4), Err(MatroskaError::Io(IoError::UnexpectedEof)));
}

#[test]
fn floats_keep_their_bits() {
    let single = 48000.0f32.to_bits().to_be_bytes();
    let mut r = Source::new(&single);
    let read = read_float(&mut r, 4).unwrap();
    assert_eq!(read, FloatBits::Single(48000.0f32.to_bits()));
    let double = 1015.0f64.to_bits().to_be_bytes();
    let mut r = Source::new(&double);
    assert_eq!(read_float(&mut r, 8), Ok(FloatBits::Double(1015.0f64.to_bits())));
}

#[test]
fn float_of_width_three_is_invalid() {
    let data = [0u8; 8];
    let mut r = Source::new(&data);
    assert_eq!(read_float(&mut r, 3), Err(MatroskaError::InvalidFloat));
    assert_eq!(read_float(&mut r, 0), Err(MatroskaError::InvalidFloat));
    let mut r = Source::new(&data[..3]);
    assert_eq!(read_float(&mut r, 4), Err(MatroskaError::Io(IoError::UnexpectedEof)));
}

#[test]
fn date_counts_from_2001() {
    let data = 0i64.to_be_bytes();
    let mut r = Source::new(&data);
    assert_eq!(read_date(&mut r, 8), Ok(DateTime { secs: 978_307_200, nanos: 0 }));
    let data = 1_500_000_000i64.to_be_bytes();
    let mut r = Source::new(&data);
    assert_eq!(read_date(&mut r, 8), Ok(DateTime { secs: 978_307_201, nanos: 500_000_000 }));
    let data = (-1i64).to_be_bytes();
    let mut r = Source::new(&data);
    assert_eq!(read_date(&mut r, 8), Ok(DateTime { secs: 978_307_199, nanos: 999_999_999 }));
    let data = i64::MIN.to_be_bytes();
    let mut r = Source::new(&data);
    assert_eq!(
        read_date(&mut r, 8),
        Ok(DateTime { secs: 978_307_200 - 9_223_372_037, nanos: 145_224_192 })
    );
}

#[test]
fn date_of_width_seven_is_invalid() {
    let data = [0u8; 8];
    let mut r = Source::new(&data);
    assert_eq!(read_date(&mut r, 7), Err(MatroskaError::InvalidDate));
}

#[test]
fn strings_must_be_utf8() {
    let data = "héllo".as_bytes();
    let mut r = Source::new(data);
    assert_eq!(read_string(&mut r, data.len() as u64), Ok("héllo".to_string()));
    let bad = [0x61, 0xFF, 0x62];
    let mut r = Source::new(&bad);
    assert_eq!(read_string(&mut r, 3), Err(MatroskaError::InvalidUtf8));
    assert_eq!(r.position(), 0);
}

#[test]
fn binary_reads_exactly_size_bytes() {
    let data = [1, 2, 3, 4];
    let mut r = Source::new(&data);
    assert_eq!(read_bin(&mut r, 3), Ok(vec![1, 2, 3]));
    assert_eq!(r.position(), 3);
    assert_eq!(read_bin(&mut r, 2), Err(MatroskaError::Io(IoError::UnexpectedEof)));
    assert_eq!(r.position(), 3);
    assert_eq!(read_bin(&mut r, 0), Ok(vec![]));
}
