use las::raw;
use las::{Error, Header};

#[test]
fn default_raw_header_is_227_bytes() {
    let bytes = raw::Header::default().to_bytes();
    assert_eq!(227, bytes.len());
    assert_eq!(b"LASF", &bytes[0..4]);
    assert_eq!([1, 2], bytes[24..26]);
    assert_eq!([227, 0], bytes[94..96]);
}

#[test]
fn written_header_is_header_size_bytes_long() {
    for minor in 0..5 {
        let mut header = Header::default();
        header.version = (1, minor).into();
        header.padding = vec![7; 3];
        let raw_header = header.to_raw().unwrap();
        let bytes = raw_header.to_bytes();
        assert_eq!(raw_header.header_size as usize, bytes.len());
        assert_eq!([7, 7, 7], bytes[bytes.len() - 3..]);
    }
}

#[test]
fn fields_are_little_endian() {
    let mut raw_header = raw::Header::default();
    raw_header.file_source_id = 0x0102;
    raw_header.offset_to_point_data = 0x0A0B0C0D;
    raw_header.x_scale_factor = 0x1122334455667788;
    let bytes = raw_header.to_bytes();
    assert_eq!([0x02, 0x01], bytes[4..6]);
    assert_eq!([0x0D, 0x0C, 0x0B, 0x0A], bytes[96..100]);
    assert_eq!(
        [0x88, 0x77, 0x66, 0x55, 0x44, 0x33, 0x22, 0x11],
        bytes[131..139]
    );
}

#[test]
fn bytes_read_back() {
    let mut header = Header::default();
    header.version = (1, 4).into();
    header.number_of_points = 1 << 40;
    header.number_of_points_by_return.insert(3, 17);
    header.number_of_points_by_return.insert(12, 1 << 35);
    header.padding = vec![1, 2];
    header.vlrs.push(las::Vlr {
        is_extended: true,
        ..Default::default()
    });
    let raw_header = header.to_raw().unwrap();
    let mut bytes = raw_header.to_bytes();
    bytes.extend_from_slice(&[9, 9, 9]);
    let read = raw::Header::from_bytes(&bytes).unwrap();
    assert_eq!(raw_header.header_size, read.header_size);
    assert_eq!(raw_header.number_of_points_by_return, read.number_of_points_by_return);
    assert_eq!(raw_header.large_file, read.large_file);
    assert_eq!(raw_header.evlr, read.evlr);
    assert_eq!(vec![1, 2], read.padding);
    assert_eq!(raw_header.to_bytes(), read.to_bytes());
    let again = Header::new(read, header.vlrs.clone(), vec![]).unwrap();
    assert_eq!(header.number_of_points, again.number_of_points);
    assert_eq!(17, again.number_of_points_by_return[&3]);
}

#[test]
fn short_bytes_are_truncated() {
    let bytes = raw::Header::default().to_bytes();
    assert_eq!(
        Err(Error::Truncated(100)),
        raw::Header::from_bytes(&bytes[..100]).map(|_| ())
    );
    let mut raw_header = raw::Header::default();
    raw_header.header_size = 230;
    let bytes = raw_header.to_bytes();
    assert_eq!(
        Err(Error::Truncated(227)),
        raw::Header::from_bytes(&bytes).map(|_| ())
    );
}

#[test]
fn wrong_signature_is_refused() {
    let mut bytes = raw::Header::default().to_bytes();
    bytes[0] = b'X';
    assert_eq!(
        Err(Error::Signature(*b"XASF")),
        raw::Header::from_bytes(&bytes).map(|_| ())
    );
}

#[test]
fn header_size_below_the_fixed_part_is_too_small() {
    let mut raw_header = raw::Header::default();
    raw_header.version = (1, 3).into();
    raw_header.header_size = 227;
    let mut bytes = raw_header.to_bytes();
    bytes.extend_from_slice(&[0; 8]);
    assert_eq!(
        Err(Error::TooSmall(227)),
        raw::Header::from_bytes(&bytes).map(|_| ())
    );
}

#[test]
fn unknown_version_bytes_are_refused() {
    let mut bytes = raw::Header::default().to_bytes();
    bytes[25] = 9;
    assert_eq!(
        Err(Error::UnsupportedVersion((1, 9).into())),
        raw::Header::from_bytes(&bytes).map(|_| ())
    );
}

#[test]
fn optional_fields_follow_the_version_on_reading() {
    let bytes = raw::Header::default().to_bytes();
    let read = raw::Header::from_bytes(&bytes).unwrap();
    assert!(read.start_of_waveform_data_packet_record.is_none());
    assert!(read.evlr.is_none());
    assert!(read.large_file.is_none());
    let mut raw_header = raw::Header::default();
    raw_header.version = (1, 4).into();
    raw_header.header_size = 375;
    let read = raw::Header::from_bytes(&raw_header.to_bytes()).unwrap();
    assert_eq!(Some(0), read.start_of_waveform_data_packet_record);
    assert_eq!(Some(raw::Evlr { start_of_first_evlr: 0, number_of_evlrs: 0 }), read.evlr);
    assert_eq!(Some(raw::LargeFile::default()), read.large_file);
}
