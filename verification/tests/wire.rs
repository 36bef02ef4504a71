use nom::error::ErrorKind;
use thor::wire::{le_i16, le_i32, le_u32, le_u8, take};
use thor::ThorError;

type NomError<'a> = (&'a [u8], ErrorKind);

const SAMPLES: [[u8; 5]; 8] = [
    [0x00, 0x00, 0x00, 0x00, 0x00],
    [0x01, 0x00, 0x00, 0x00, 0xaa],
    [0xff, 0xff, 0xff, 0xff, 0x01],
    [0xff, 0xff, 0xff, 0x7f, 0x02],
    [0x00, 0x00, 0x00, 0x80, 0x03],
    [0x78, 0x56, 0x34, 0x12, 0x04],
    [0x00, 0x80, 0x21, 0x00, 0x05],
    [0xff, 0x7f, 0x30, 0x00, 0x06],
];

#[test]
fn le_u8_reads_the_first_byte() {
    assert_eq!(le_u8(&[0x2a, 0x01]), Ok((&[0x01u8][..], 0x2a)));
    assert_eq!(le_u8(&[0xff]), Ok((&[][..], 0xff)));
}

#[test]
fn le_u8_of_nothing_is_truncated() {
    assert_eq!(le_u8(&[]), Err(ThorError::TruncatedInput));
}

#[test]
fn le_u32_reads_low_byte_first() {
    assert_eq!(le_u32(&[0x78, 0x56, 0x34, 0x12, 0x99]), Ok((&[0x99u8][..], 0x1234_5678)));
    assert_eq!(le_u32(&[0xff, 0xff, 0xff, 0xff]), Ok((&[][..], u32::MAX)));
    assert_eq!(le_u32(&[3, 0, 0, 0]), Ok((&[][..], 3)));
}

#[test]
fn le_u32_of_three_bytes_is_truncated() {
    assert_eq!(le_u32(&[1, 2, 3]), Err(ThorError::TruncatedInput));
    assert_eq!(le_u32(&[]), Err(ThorError::TruncatedInput));
}

#[test]
fn le_i16_reads_twos_complement() {
    assert_eq!(le_i16(&[33, 0]), Ok((&[][..], 33)));
    assert_eq!(le_i16(&[48, 0, 7]), Ok((&[7u8][..], 48)));
    assert_eq!(le_i16(&[0xff, 0xff]), Ok((&[][..], -1)));
    assert_eq!(le_i16(&[0x00, 0x80]), Ok((&[][..], i16::MIN)));
    assert_eq!(le_i16(&[0xff, 0x7f]), Ok((&[][..], i16::MAX)));
}

#[test]
fn le_i16_of_one_byte_is_truncated() {
    assert_eq!(le_i16(&[33]), Err(ThorError::TruncatedInput));
}

#[test]
fn le_i32_reads_twos_complement() {
    assert_eq!(le_i32(&[0x3f, 0, 0, 0]), Ok((&[][..], 63)));
    assert_eq!(le_i32(&[0xff, 0xff, 0xff, 0xff, 1]), Ok((&[1u8][..], -1)));
    assert_eq!(le_i32(&[0x00, 0x00, 0x00, 0x80]), Ok((&[][..], i32::MIN)));
    assert_eq!(le_i32(&[0xff, 0xff, 0xff, 0x7f]), Ok((&[][..], i32::MAX)));
    assert_eq!(le_i32(&[0xfe, 0xff, 0xff, 0xff]), Ok((&[][..], -2)));
}

#[test]
fn le_i32_of_three_bytes_is_truncated() {
    assert_eq!(le_i32(&[1, 2, 3]), Err(ThorError::TruncatedInput));
}

#[test]
fn take_splits_the_input() {
    assert_eq!(take(&[1, 2, 3, 4], 3), Ok((&[4u8][..], &[1u8, 2, 3][..])));
    assert_eq!(take(&[1, 2], 0), Ok((&[1u8, 2][..], &[][..])));
    assert_eq!(take(&[1, 2], 2), Ok((&[][..], &[1u8, 2][..])));
}

#[test]
fn take_of_more_than_there_is_is_truncated() {
    assert_eq!(take(&[1, 2], 3), Err(ThorError::TruncatedInput));
}

#[test]
fn readers_agree_with_nom_on_whole_fields() {
    for sample in SAMPLES.iter() {
        let input = &sample[..];
        let (rest, value) = nom::number::complete::le_u8::<NomError>(input).unwrap();
        assert_eq!(le_u8(input), Ok((rest, value)));
        let (rest, value) = nom::number::complete::le_u32::<NomError>(input).unwrap();
        assert_eq!(le_u32(input), Ok((rest, value)));
        let (rest, value) = nom::number::complete::le_i16::<NomError>(input).unwrap();
        assert_eq!(le_i16(input), Ok((rest, value)));
        let (rest, value) = nom::number::complete::le_i32::<NomError>(input).unwrap();
        assert_eq!(le_i32(input), Ok((rest, value)));
    }
}

#[test]
fn readers_agree_with_nom_on_short_input() {
    for sample in SAMPLES.iter() {
        for len in 0..4 {
            let input = &sample[..len];
            assert_eq!(
                le_u8(input).is_err(),
                nom::number::complete::le_u8::<NomError>(input).is_err()
            );
            assert_eq!(
                le_i16(input).is_err(),
                nom::number::complete::le_i16::<NomError>(input).is_err()
            );
            assert!(nom::number::complete::le_u32::<NomError>(input).is_err());
            assert_eq!(le_u32(input), Err(ThorError::TruncatedInput));
            assert!(nom::number::complete::le_i32::<NomError>(input).is_err());
            assert_eq!(le_i32(input), Err(ThorError::TruncatedInput));
        }
    }
}
