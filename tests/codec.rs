use farbfeld::{Decoder, Error, FarbfeldEncoder, Format};

const HEADER_LEN: usize = 16;

const IMAGE_DATA: &[u8] = b"farbfeld\
      \x00\x00\x00\x03\
      \x00\x00\x00\x03\
      \xff\xff\x00\x00\x00\x00\xff\xff\x00\x00\xff\xff\x00\x00\xff\xff\x00\x00\x00\x00\xff\xff\xff\xff\
      \x00\x00\x00\x00\xff\xff\xff\xff\x80\x00\x80\x00\x80\x00\x80\x00\x00\x00\xff\xff\x00\x00\xff\xff\
      \x00\x00\xff\xff\x00\x00\xff\xff\x00\x00\x00\x00\xff\xff\xff\xff\xff\xff\x00\x00\x00\x00\xff\xff";

fn encode_to_vec(format: Format, width: u32, height: u32, data: &[u8]) -> Result<Vec<u8>, Error> {
    let mut out = Vec::new();
    FarbfeldEncoder::new(format).encode(&mut out, width, height, data)?;
    Ok(out)
}

#[test]
fn invalid_magic() {
    let mut img_data = Vec::new();
    img_data.extend_from_slice(b"test fail");
    img_data.extend_from_slice(&IMAGE_DATA[8..]);

    match Decoder::new(&Format::farbfeld(), img_data) {
        Err(e) => match e {
            Error::FormatError(_) => return,
            e => panic!("{:?}", e),
        },
        Ok(_) => panic!("Got Ok expected FarbfeldError::FormatError"),
    }
}

#[test]
fn truncate_header() {
    match Decoder::new(&Format::farbfeld(), IMAGE_DATA[0..8].to_vec()) {
        Err(Error::TruncatedInput) => return,
        Err(e) => panic!("{:?}", e),
        Ok(_) => panic!("Got Ok expected FarbfeldError::FormatError"),
    }
}

#[test]
fn truncate_data() {
    let img_data = IMAGE_DATA[..IMAGE_DATA.len() - 1].to_vec();
    let img = Decoder::new(&Format::farbfeld(), img_data).unwrap();
    match img.read_image() {
        Err(Error::TruncatedInput) => return,
        Err(e) => panic!("{:?}", e),
        Ok(_) => panic!("Got Ok expected FarbfeldError::FormatError"),
    }
}

#[test]
fn decode() {
    let img = Decoder::new(&Format::farbfeld(), IMAGE_DATA.to_vec()).unwrap();
    let (w, h) = img.dimensions();
    let data = img.read_image().unwrap();
    assert_eq!(w, 3);
    assert_eq!(h, 3);
    assert_eq!(data, &IMAGE_DATA[HEADER_LEN..])
}

#[test]
fn encode() {
    let mut buf: Vec<u8> = Vec::new();
    if let Err(e) = FarbfeldEncoder::new(Format::farbfeld()).encode(&mut buf, 3, 3, &IMAGE_DATA[HEADER_LEN..]) {
        panic!("{:?}", e)
    }
    assert_eq!(&buf[..], IMAGE_DATA)
}

#[test]
fn round_trip_preserves_dimensions_and_pixels() {
    let pixels: Vec<u8> = (0..(5 * 2 * 8)).map(|i| (i * 7 % 256) as u8).collect();
    let bytes = encode_to_vec(Format::farbfeld(), 5, 2, &pixels).unwrap();
    let img = Decoder::new(&Format::farbfeld(), bytes).unwrap();
    assert_eq!(img.dimensions(), (5, 2));
    assert_eq!(img.read_image().unwrap(), pixels);
}

#[test]
fn round_trip_of_empty_image() {
    let bytes = encode_to_vec(Format::farbfeld(), 0, 7, &[]).unwrap();
    assert_eq!(bytes, b"farbfeld\x00\x00\x00\x00\x00\x00\x00\x07");
    let img = Decoder::new(&Format::farbfeld(), bytes).unwrap();
    assert_eq!(img.dimensions(), (0, 7));
    assert_eq!(img.row_len(), 0);
    assert_eq!(img.read_image().unwrap(), Vec::<u8>::new());
}

#[test]
fn rows_joined_equal_whole_image() {
    let img = Decoder::new(&Format::farbfeld(), IMAGE_DATA.to_vec()).unwrap();
    let (_, h) = img.dimensions();
    let mut joined = Vec::new();
    let mut buf = vec![0u8; img.row_len()];
    for row in 0..h {
        let n = img.read_row(row, &mut buf).unwrap();
        joined.extend_from_slice(&buf[..n]);
    }
    assert_eq!(joined, img.read_image().unwrap());
}

#[test]
fn rows_can_be_read_in_any_order() {
    let img = Decoder::new(&Format::farbfeld(), IMAGE_DATA.to_vec()).unwrap();
    let mut buf = vec![0xaau8; 30];
    assert_eq!(img.read_row(2, &mut buf).unwrap(), 24);
    assert_eq!(&buf[..24], &IMAGE_DATA[HEADER_LEN + 48..]);
    assert_eq!(&buf[24..], &[0xaau8; 6]);
    assert_eq!(img.read_row(0, &mut buf).unwrap(), 24);
    assert_eq!(&buf[..24], &IMAGE_DATA[HEADER_LEN..HEADER_LEN + 24]);
    assert_eq!(img.read_row(0, &mut buf).unwrap(), 24);
    assert_eq!(&buf[..24], &IMAGE_DATA[HEADER_LEN..HEADER_LEN + 24]);
}

#[test]
fn row_at_height_is_not_image_end() {
    let img = Decoder::new(&Format::farbfeld(), IMAGE_DATA.to_vec()).unwrap();
    let mut buf = vec![0u8; img.row_len()];
    match img.read_row(3, &mut buf) {
        Err(Error::TruncatedInput) => {}
        other => panic!("{:?}", other),
    }
    match img.read_row(4, &mut buf) {
        Err(Error::ImageEnd) => {}
        other => panic!("{:?}", other),
    }
}

#[test]
fn row_at_height_is_read_when_bytes_follow() {
    let mut data = IMAGE_DATA.to_vec();
    data.extend_from_slice(&[9u8; 24]);
    let img = Decoder::new(&Format::farbfeld(), data).unwrap();
    let mut buf = vec![0u8; 24];
    assert_eq!(img.read_row(3, &mut buf).unwrap(), 24);
    assert_eq!(buf, vec![9u8; 24]);
    assert_eq!(img.read_image().unwrap(), &IMAGE_DATA[HEADER_LEN..]);
}

#[test]
fn truncated_row_is_reported() {
    let img = Decoder::new(&Format::farbfeld(), IMAGE_DATA[..HEADER_LEN + 30].to_vec()).unwrap();
    let mut buf = vec![7u8; 24];
    assert_eq!(img.read_row(0, &mut buf).unwrap(), 24);
    match img.read_row(1, &mut buf) {
        Err(Error::TruncatedInput) => {}
        other => panic!("{:?}", other),
    }
}

#[test]
fn header_shorter_than_magic_is_truncated() {
    match Decoder::new(&Format::farbfeld(), b"xx".to_vec()) {
        Err(Error::TruncatedInput) => {}
        other => panic!("{:?}", other.map(|d| d.dimensions())),
    }
}

#[test]
fn magic_mismatch_message() {
    let mut data = IMAGE_DATA.to_vec();
    data[0] = b'F';
    match Decoder::new(&Format::farbfeld(), data) {
        Err(Error::FormatError(msg)) => assert_eq!(msg, "unexpected magic number"),
        other => panic!("{:?}", other.map(|d| d.dimensions())),
    }
}

#[test]
fn header_dimensions_are_big_endian() {
    let data = b"farbfeld\x01\x02\x03\x04\x00\x00\x01\x00".to_vec();
    let img = Decoder::new(&Format::farbfeld(), data).unwrap();
    assert_eq!(img.dimensions(), (0x0102_0304, 256));
    assert_eq!(img.row_len(), 0x0102_0304 * 8);
    match img.read_image() {
        Err(Error::TruncatedInput) => {}
        other => panic!("{:?}", other),
    }
}

#[test]
fn encode_writes_big_endian_dimensions() {
    let bytes = encode_to_vec(Format::farbfeld(), 0x0102_0304, 0, &[]).unwrap();
    assert_eq!(bytes, b"farbfeld\x01\x02\x03\x04\x00\x00\x00\x00");
}

#[test]
fn encode_underflow_writes_nothing() {
    let mut buf = vec![1u8, 2, 3];
    let r = FarbfeldEncoder::new(Format::farbfeld()).encode(&mut buf, 3, 3, &IMAGE_DATA[HEADER_LEN + 1..]);
    match r {
        Err(Error::NotEnoughData) => {}
        other => panic!("{:?}", other),
    }
    assert_eq!(buf, vec![1u8, 2, 3]);
}

#[test]
fn encode_with_huge_dimensions_is_not_enough_data() {
    let mut buf = Vec::new();
    match FarbfeldEncoder::new(Format::farbfeld()).encode(&mut buf, u32::MAX, u32::MAX, &[0u8; 8]) {
        Err(Error::NotEnoughData) => {}
        other => panic!("{:?}", other),
    }
    assert!(buf.is_empty());
}

#[test]
fn encode_drops_trailing_bytes_and_appends() {
    let mut buf = vec![0xeeu8];
    let mut data = IMAGE_DATA[HEADER_LEN..].to_vec();
    data.extend_from_slice(&[1, 2, 3]);
    FarbfeldEncoder::new(Format::farbfeld()).encode(&mut buf, 3, 3, &data).unwrap();
    assert_eq!(buf[0], 0xee);
    assert_eq!(&buf[1..], IMAGE_DATA);
}

#[test]
fn rgba8_scenario() {
    let red = [0xffu8, 0x00, 0x00, 0xff];
    let green = [0x00u8, 0xff, 0x00, 0xff];
    let blue = [0x00u8, 0x00, 0xff, 0xff];
    let gray = [0x80u8, 0x80, 0x80, 0xff];
    let order = [red, green, blue, blue, gray, green, green, blue, red];
    let pixels: Vec<u8> = order.iter().flat_map(|p| p.iter().copied()).collect();
    let magic = b"farbfeld8".to_vec();
    let format = Format::new(magic.clone(), 4);
    assert_eq!(format.header_len(), 17);
    let bytes = encode_to_vec(format, 3, 3, &pixels).unwrap();
    assert_eq!(bytes.len(), 9 + 8 + 36);
    assert_eq!(&bytes[..9], &magic[..]);
    assert_eq!(&bytes[9..17], b"\x00\x00\x00\x03\x00\x00\x00\x03");
    assert_eq!(&bytes[17..], &pixels[..]);

    let img = Decoder::new(&Format::new(magic, 4), bytes).unwrap();
    assert_eq!(img.dimensions(), (3, 3));
    assert_eq!(img.row_len(), 12);
    let decoded = img.read_image().unwrap();
    let decoded_pixels: Vec<[u8; 4]> = decoded.chunks(4).map(|c| [c[0], c[1], c[2], c[3]]).collect();
    assert_eq!(decoded_pixels, order.to_vec());
    let mut row = [0u8; 12];
    img.read_row(1, &mut row).unwrap();
    assert_eq!(&row[..], &pixels[12..24]);
}

#[test]
fn rgba8_magic_is_checked() {
    let bytes = encode_to_vec(Format::farbfeld(), 1, 1, &[0u8; 8]).unwrap();
    match Decoder::new(&Format::new(b"farbfeld8".to_vec(), 4), bytes) {
        Err(Error::FormatError(_)) => {}
        other => panic!("{:?}", other.map(|d| d.dimensions())),
    }
}

#[test]
fn format_accessors() {
    let f = Format::farbfeld();
    assert_eq!(f.magic(), b"farbfeld");
    assert_eq!(f.bytes_per_pixel(), 8);
    assert_eq!(f.header_len(), 16);
}

#[test]
fn error_descriptions() {
    assert_eq!(Error::FormatError("x".to_string()).description(), "Format error");
    assert_eq!(Error::NotEnoughData.description(), "Not enough data");
    assert_eq!(Error::TruncatedInput.description(), "Truncated input");
    assert_eq!(Error::ImageEnd.description(), "Image end");
    let io = std::io::Error::new(std::io::ErrorKind::Other, "disk");
    assert_eq!(Error::IoError(io).description(), "IO error");
}
