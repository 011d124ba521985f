use ledpanel::image::Image;
use ledpanel::pixel::Pixel;
use ledpanel::ppm::{
    decode_ppm_image, parse_number, read_constants, read_max_value_or_comment,
    read_size_or_comment, ByteCursor, PpmError,
};

#[test]
fn read_file_header_test_P_values() {
    let vector: Vec<u8> = vec!['P' as u8, '6' as u8, '\n' as u8];
    let mut cursor = ByteCursor::new(vector);
    assert!(read_constants(&mut cursor).is_ok());
}

#[test]
fn read_file_header_test_width_and_height_no_comments() {
    let vector: Vec<u8> = vec!['3' as u8, '2' as u8, ' ' as u8, '1' as u8, '6' as u8, '\n' as u8];
    let mut cursor = ByteCursor::new(vector);
    let mut image: Image = Image::new();
    read_size_or_comment(&mut cursor, &mut image).unwrap();

    assert_eq!(32, image.width, "Image width is not 32");
    assert_eq!(16, image.height, "Image height is not 16");
}

#[test]
fn read_file_header_test_width_and_height_with_comments() {
    let vector: Vec<u8> = vec![
        '#' as u8, 'M' as u8, 'y' as u8, ' ' as u8, 'c' as u8, 'o' as u8, 'm' as u8, 'm' as u8,
        'e' as u8, 'n' as u8, 't' as u8, '\n' as u8, '3' as u8, '2' as u8, ' ' as u8, '1' as u8,
        '6' as u8, '\n' as u8,
    ];
    let mut cursor = ByteCursor::new(vector);
    let mut image: Image = Image::new();
    read_size_or_comment(&mut cursor, &mut image).unwrap();

    assert_eq!(32, image.width, "Image width is not 32");
    assert_eq!(16, image.height, "Image height is not 16");
}

#[test]
fn read_file_header_test_max_value_no_comments() {
    let vector: Vec<u8> = vec!['2' as u8, '5' as u8, '5' as u8, '\n' as u8];
    let mut cursor = ByteCursor::new(vector);
    let result = read_max_value_or_comment(&mut cursor);

    assert_eq!(255, result.unwrap(), "The right max value was not found");
}

#[test]
fn read_file_header_test_max_value_with_comments() {
    let vector: Vec<u8> = vec![
        '#' as u8, 'M' as u8, 'y' as u8, ' ' as u8, 'c' as u8, 'o' as u8, 'm' as u8, 'm' as u8,
        'e' as u8, 'n' as u8, 't' as u8, '\n' as u8, '2' as u8, '5' as u8, '5' as u8, '\n' as u8,
    ];
    let mut cursor = ByteCursor::new(vector);
    let result = read_max_value_or_comment(&mut cursor);

    assert_eq!(255, result.unwrap(), "The right max value was not found");
}

fn decode(bytes: &[u8]) -> Result<Image, PpmError> {
    let mut cursor = ByteCursor::new(bytes.to_vec());
    decode_ppm_image(&mut cursor)
}

#[test]
fn decodes_small_eight_bit_image() {
    let mut data = b"P6\n# two by one\n2 1\n255\n".to_vec();
    data.extend_from_slice(&[10, 20, 30, 40, 50, 60]);
    let image = decode(&data).unwrap();
    assert_eq!(image.width, 2);
    assert_eq!(image.height, 1);
    assert_eq!(image.pixels.len(), 1);
    assert_eq!(image.pixels[0], vec![Pixel::new_colored_pixel(10, 20, 30), Pixel::new_colored_pixel(40, 50, 60)]);
}

#[test]
fn decodes_sixteen_bit_samples_big_endian() {
    let mut data = b"P6 1 1 65535\n".to_vec();
    data.extend_from_slice(&[0x01, 0x02, 0x00, 0xff, 0xff, 0x00]);
    let image = decode(&data).unwrap();
    assert_eq!(image.pixels[0][0], Pixel::new_colored_pixel(0x0102, 0x00ff, 0xff00));
}

#[test]
fn decode_errors_name_their_cause() {
    assert_eq!(decode(b"Q6\n1 1\n255\n\0\0\0").err(), Some(PpmError::InvalidHeader));
    assert_eq!(decode(b"P3\n1 1\n255\n\0\0\0").err(), Some(PpmError::InvalidType));
    assert_eq!(decode(b"P6\n1 x\n255\n\0\0\0").err(), Some(PpmError::InvalidDigit));
    assert_eq!(decode(b"P6\n1  1\n255\n\0\0\0").err(), Some(PpmError::EmptyNumber));
    assert_eq!(decode(b"P6\n99999999999 1\n255\n\0\0\0").err(), Some(PpmError::NumberTooLarge));
    assert_eq!(decode(b"P6\n2 1\n255\n\0\0\0\0\0").err(), Some(PpmError::Truncated));
    assert_eq!(decode(b"P6\n# only a comment\n").err(), Some(PpmError::Truncated));
}

#[test]
fn parses_number_fields() {
    assert_eq!(parse_number(&b"4294967295".to_vec()), Ok(4294967295));
    assert_eq!(parse_number(&b"4294967296".to_vec()), Err(PpmError::NumberTooLarge));
    assert_eq!(parse_number(&b"+17".to_vec()), Ok(17));
    assert_eq!(parse_number(&b"+".to_vec()), Err(PpmError::InvalidDigit));
    assert_eq!(parse_number(&b"".to_vec()), Err(PpmError::EmptyNumber));
    assert_eq!(parse_number(&b"1a".to_vec()), Err(PpmError::InvalidDigit));
}
