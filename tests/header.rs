use las::raw;
use las::{Error, Header};

#[test]
fn no_day_no_date() {
    let raw_header = raw::Header {
        file_creation_day_of_year: 0,
        ..Default::default()
    };
    let header = Header::new(raw_header, Vec::new(), Vec::new()).unwrap();
    assert!(header.date.is_none());
}

#[test]
fn no_year_no_date() {
    let raw_header = raw::Header {
        file_creation_year: 0,
        ..Default::default()
    };
    let header = Header::new(raw_header, Vec::new(), Vec::new()).unwrap();
    assert!(header.date.is_none());
}

#[test]
fn number_of_points_by_return_zero_return_number() {
    let mut header = Header::default();
    header.number_of_points_by_return.insert(0, 1);
    assert_eq!([0; 5], header.to_raw().unwrap().number_of_points_by_return);
}

#[test]
fn number_of_points_by_return_las_1_2() {
    let mut header = Header::default();
    header.version = (1, 2).into();
    for i in 1..6 {
        header.number_of_points_by_return.insert(i, 42);
    }
    assert_eq!([42; 5], header.to_raw().unwrap().number_of_points_by_return);
}

#[test]
fn number_of_points_by_return_las_1_2_return_6() {
    let mut header = Header::default();
    header.version = (1, 2).into();
    header.number_of_points_by_return.insert(6, 1);
    assert!(header.to_raw().is_err());
}

#[test]
fn header_too_large() {
    let header = Header {
        padding: vec![0; u16::MAX as usize - 226],
        version: (1, 2).into(),
        ..Default::default()
    };
    assert!(header.to_raw().is_err());
}

#[test]
fn synchronize_legacy_fields() {
    let mut header = Header {
        version: (1, 4).into(),
        number_of_points: 42,
        ..Default::default()
    };
    header.number_of_points_by_return.insert(2, 42);
    let raw_header = header.to_raw().unwrap();
    assert_eq!(42, raw_header.number_of_point_records);
    assert_eq!([0, 42, 0, 0, 0], raw_header.number_of_points_by_return);
    assert_eq!(42, raw_header.large_file.unwrap().number_of_point_records);
    assert_eq!(
        [0, 42, 0, 0, 0, 0, 0, 0, 0, 0, 0, 0, 0, 0, 0],
        raw_header.large_file.unwrap().number_of_points_by_return
    );
}

#[test]
fn zero_legacy_fields_when_too_large() {
    let mut header = Header {
        version: (1, 4).into(),
        number_of_points: u32::MAX as u64 + 1,
        ..Default::default()
    };
    header.number_of_points_by_return.insert(6, 42);
    let raw_header = header.to_raw().unwrap();
    assert_eq!(0, raw_header.number_of_point_records);
    assert_eq!(
        u32::MAX as u64 + 1,
        raw_header.large_file.unwrap().number_of_point_records
    );
    assert_eq!([0; 5], raw_header.number_of_points_by_return);
    assert_eq!(
        [0, 0, 0, 0, 0, 42, 0, 0, 0, 0, 0, 0, 0, 0, 0],
        raw_header.large_file.unwrap().number_of_points_by_return
    );
}

#[test]
fn prefer_legacy_fields() {
    let mut raw_header = raw::Header::default();
    raw_header.version = (1, 4).into();
    raw_header.number_of_point_records = 42;
    raw_header.number_of_points_by_return[0] = 42;
    let mut large_file = raw::header::LargeFile::default();
    large_file.number_of_point_records = 43;
    large_file.number_of_points_by_return[0] = 43;
    raw_header.large_file = Some(large_file);
    let header = Header::new(raw_header, vec![], vec![]).unwrap();
    assert_eq!(42, header.number_of_points);
    assert_eq!(42, header.number_of_points_by_return[&1]);
}

#[test]
fn number_of_points_large() {
    let mut header = Header::default();
    header.version = (1, 2).into();
    header.number_of_points = u32::MAX as u64 + 1;
    assert!(header.to_raw().is_err());
    header.version = (1, 4).into();
    let raw_header = header.to_raw().unwrap();
    assert_eq!(0, raw_header.number_of_point_records);
    assert_eq!(
        u32::MAX as u64 + 1,
        raw_header.large_file.unwrap().number_of_point_records
    );
}

#[test]
fn number_of_points_by_return_large() {
    let mut header = Header::default();
    header.version = (1, 2).into();
    header.number_of_points_by_return.insert(1, u32::MAX as u64 + 1);
    assert!(header.to_raw().is_err());
    header.version = (1, 4).into();
    let raw_header = header.to_raw().unwrap();
    assert_eq!(0, raw_header.number_of_points_by_return[0]);
    assert_eq!(
        u32::MAX as u64 + 1,
        raw_header.large_file.unwrap().number_of_points_by_return[0]
    );
}

#[test]
fn large_file_fallback_errors_name_the_count() {
    let mut header = Header::default();
    header.version = (1, 2).into();
    header.number_of_points = 1 << 32;
    assert_eq!(
        Err(Error::TooManyPoints(1 << 32, (1, 2).into())),
        header.to_raw().map(|_| ())
    );
}

#[test]
fn return_six_on_1_4_fills_only_large_file_slot() {
    let mut header = Header::default();
    header.version = (1, 4).into();
    header.number_of_points_by_return.insert(6, 7);
    let raw_header = header.to_raw().unwrap();
    assert_eq!([0; 5], raw_header.number_of_points_by_return);
    assert_eq!(7, raw_header.large_file.unwrap().number_of_points_by_return[5]);
}

#[test]
fn return_six_on_1_2_is_a_return_number_error() {
    let mut header = Header::default();
    header.version = (1, 2).into();
    header.number_of_points_by_return.insert(6, 1);
    assert_eq!(
        Err(Error::ReturnNumber(6, Some((1, 2).into()))),
        header.to_raw().map(|_| ())
    );
}

#[test]
fn return_sixteen_on_1_4_is_a_return_number_error() {
    let mut header = Header::default();
    header.version = (1, 4).into();
    header.number_of_points_by_return.insert(16, 1);
    assert_eq!(
        Err(Error::ReturnNumber(16, Some((1, 4).into()))),
        header.to_raw().map(|_| ())
    );
}

#[test]
fn header_size_at_the_limit_encodes() {
    let header = Header {
        padding: vec![0; u16::MAX as usize - 227],
        version: (1, 2).into(),
        ..Default::default()
    };
    let raw_header = header.to_raw().unwrap();
    assert_eq!(u16::MAX, raw_header.header_size);
    assert_eq!(u16::MAX as u32, raw_header.offset_to_point_data);
}

#[test]
fn header_size_past_the_limit_is_too_large() {
    let header = Header {
        padding: vec![0; u16::MAX as usize - 226],
        version: (1, 2).into(),
        ..Default::default()
    };
    assert_eq!(Err(Error::TooLarge(65536)), header.to_raw().map(|_| ()));
}

#[test]
fn header_sizes_by_version() {
    for (minor, size) in [(0, 227), (1, 227), (2, 227), (3, 235), (4, 375)] {
        let header = Header {
            version: (1, minor).into(),
            ..Default::default()
        };
        let raw_header = header.to_raw().unwrap();
        assert_eq!(size, raw_header.header_size);
        assert_eq!(minor == 4, raw_header.large_file.is_some());
    }
}

#[test]
fn unknown_version_is_refused_both_ways() {
    let header = Header {
        version: (2, 0).into(),
        ..Default::default()
    };
    assert_eq!(
        Err(Error::UnsupportedVersion((2, 0).into())),
        header.to_raw().map(|_| ())
    );
    let raw_header = raw::Header {
        version: (1, 5).into(),
        ..Default::default()
    };
    assert_eq!(
        Err(Error::UnsupportedVersion((1, 5).into())),
        Header::new(raw_header, vec![], vec![]).map(|_| ())
    );
}

#[test]
fn offset_counts_standard_vlrs_and_padding() {
    let mut header = Header::default();
    header.vlrs.push(las::Vlr {
        data: vec![1, 2, 3],
        ..Default::default()
    });
    header.vlr_padding = vec![0; 5];
    header.padding = vec![0; 2];
    let raw_header = header.to_raw().unwrap();
    assert_eq!(229, raw_header.header_size);
    assert_eq!(229 + 54 + 3 + 5, raw_header.offset_to_point_data);
    assert_eq!(1, raw_header.number_of_variable_length_records);
    assert!(raw_header.evlr.is_none());
    assert_eq!(vec![0, 0], raw_header.padding);
}

#[test]
fn evlr_block_locates_the_first_extended_record() {
    let mut header = Header::default();
    header.version = (1, 4).into();
    header.number_of_points = 10;
    header.vlrs.push(las::Vlr::default());
    header.vlrs.push(las::Vlr {
        is_extended: true,
        ..Default::default()
    });
    let raw_header = header.to_raw().unwrap();
    assert_eq!(375 + 54, raw_header.offset_to_point_data);
    assert_eq!(1, raw_header.number_of_variable_length_records);
    let evlr = raw_header.evlr.unwrap();
    assert_eq!(1, evlr.number_of_evlrs);
    assert_eq!(375 + 54 + 10 * 20, evlr.start_of_first_evlr);
}

#[test]
fn evlr_start_past_64_bits_is_too_many_points() {
    let mut header = Header::default();
    header.version = (1, 4).into();
    header.number_of_points = u64::MAX;
    header.vlrs.push(las::Vlr {
        is_extended: true,
        ..Default::default()
    });
    assert_eq!(
        Err(Error::TooManyPoints(u64::MAX, (1, 4).into())),
        header.to_raw().map(|_| ())
    );
}
