use las::point::Format;
use las::raw;
use las::{number_of_points_hash_map, Date, Error, GpsTimeType, Header, Transform};

fn field(s: &str) -> [u8; 32] {
    let mut out = [0u8; 32];
    out[..s.len()].copy_from_slice(s.as_bytes());
    out
}

#[test]
fn round_trip_keeps_counts_transforms_and_bounds() {
    let mut header = Header::default();
    header.version = (1, 4).into();
    header.number_of_points = 1 << 33;
    header.number_of_points_by_return.insert(0, 9);
    header.number_of_points_by_return.insert(2, 0);
    header.number_of_points_by_return.insert(7, 1 << 33);
    header.number_of_points_by_return.insert(15, 3);
    header.transforms.x = Transform::new(1.5f64.to_bits(), (-2.0f64).to_bits());
    header.transforms.z = Transform::new(0.25f64.to_bits(), 100.0f64.to_bits());
    header.bounds.min.y = (-7.5f64).to_bits();
    header.bounds.max.y = 8.5f64.to_bits();
    header.system_identifier = "scanner".to_string();
    let raw_header = header.to_raw().unwrap();
    let vlrs = header.vlrs.clone();
    let again = Header::new(raw_header, vlrs, header.vlr_padding.clone()).unwrap();
    assert_eq!(header.number_of_points, again.number_of_points);
    assert_eq!(2, again.number_of_points_by_return.len());
    assert_eq!(1 << 33, again.number_of_points_by_return[&7]);
    assert_eq!(3, again.number_of_points_by_return[&15]);
    assert_eq!(header.transforms, again.transforms);
    assert_eq!(header.bounds, again.bounds);
    assert_eq!("scanner", again.system_identifier);
    assert_eq!(header.generating_software, again.generating_software);
    assert_eq!(header.date, again.date);
}

#[test]
fn round_trip_under_1_2() {
    let mut header = Header::default();
    header.number_of_points = 12;
    header.number_of_points_by_return.insert(1, 5);
    header.number_of_points_by_return.insert(5, 7);
    header.gps_time_type = GpsTimeType::Standard;
    let raw_header = header.to_raw().unwrap();
    assert_eq!(1, raw_header.global_encoding);
    assert!(raw_header.large_file.is_none());
    let again = Header::new(raw_header, vec![], vec![]).unwrap();
    assert_eq!(12, again.number_of_points);
    assert_eq!(header.number_of_points_by_return, again.number_of_points_by_return);
    assert_eq!(GpsTimeType::Standard, again.gps_time_type);
}

#[test]
fn large_file_used_when_legacy_is_zero() {
    let mut raw_header = raw::Header::default();
    raw_header.version = (1, 4).into();
    let mut large_file = raw::LargeFile::default();
    large_file.number_of_point_records = 43;
    large_file.number_of_points_by_return[9] = 43;
    raw_header.large_file = Some(large_file);
    let header = Header::new(raw_header, vec![], vec![]).unwrap();
    assert_eq!(43, header.number_of_points);
    assert_eq!(1, header.number_of_points_by_return.len());
    assert_eq!(43, header.number_of_points_by_return[&10]);
}

#[test]
fn decodes_text_fields_up_to_the_first_nul() {
    let mut raw_header = raw::Header::default();
    raw_header.system_identifier = field("my scanner");
    raw_header.generating_software = [b'x'; 32];
    let header = Header::new(raw_header, vec![], vec![]).unwrap();
    assert_eq!("my scanner", header.system_identifier);
    assert_eq!("x".repeat(32), header.generating_software);
}

#[test]
fn invalid_text_is_refused() {
    let mut raw_header = raw::Header::default();
    let mut bad = field("ab");
    bad[1] = 0xFF;
    raw_header.system_identifier = bad;
    assert_eq!(
        Err(Error::InvalidText(bad)),
        Header::new(raw_header, vec![], vec![]).map(|_| ())
    );
}

#[test]
fn long_text_is_refused() {
    let mut header = Header::default();
    header.generating_software = "y".repeat(33);
    assert_eq!(
        Err(Error::StringTooLong("y".repeat(33))),
        header.to_raw().map(|_| ())
    );
    header.generating_software = "é".repeat(16);
    let raw_header = header.to_raw().unwrap();
    assert_eq!("é".repeat(16).as_bytes(), &raw_header.generating_software[..]);
    header.generating_software = "é".repeat(17);
    assert!(header.to_raw().is_err());
}

#[test]
fn unknown_point_format_is_refused() {
    let mut raw_header = raw::Header::default();
    raw_header.point_data_format_id = 11;
    assert_eq!(
        Err(Error::Format(11)),
        Header::new(raw_header, vec![], vec![]).map(|_| ())
    );
    let mut header = Header::default();
    header.point_format = Format { id: 11, is_compressed: false };
    assert_eq!(Err(Error::Format(11)), header.to_raw().map(|_| ()));
}

#[test]
fn compressed_point_format_round_trips() {
    let format = Format::new(131).unwrap();
    assert_eq!(3, format.id);
    assert!(format.is_compressed);
    assert_eq!(Ok(131), format.to_u8());
    assert_eq!(34, format.len());
    let mut header = Header::default();
    header.point_format = format;
    let raw_header = header.to_raw().unwrap();
    assert_eq!(131, raw_header.point_data_format_id);
    assert_eq!(34, raw_header.point_data_record_length);
}

#[test]
fn dates_resolve_by_day_of_year() {
    let mut raw_header = raw::Header::default();
    raw_header.file_creation_year = 2016;
    raw_header.file_creation_day_of_year = 366;
    let header = Header::new(raw_header.clone(), vec![], vec![]).unwrap();
    assert_eq!(Some(Date { year: 2016, ordinal: 366 }), header.date);
    raw_header.file_creation_year = 2017;
    let header = Header::new(raw_header.clone(), vec![], vec![]).unwrap();
    assert_eq!(None, header.date);
    raw_header.file_creation_day_of_year = 365;
    let header = Header::new(raw_header, vec![], vec![]).unwrap();
    let raw_again = header.to_raw().unwrap();
    assert_eq!(2017, raw_again.file_creation_year);
    assert_eq!(365, raw_again.file_creation_day_of_year);
}

#[test]
fn date_from_yo_checks_the_calendar() {
    assert_eq!(Some(Date { year: 2000, ordinal: 366 }), Date::from_yo(2000, 366));
    assert_eq!(None, Date::from_yo(1900, 366));
    assert_eq!(None, Date::from_yo(2020, 0));
}

#[test]
fn default_header_is_dated_today() {
    let header = Header::default();
    let date = header.date.unwrap();
    assert!(date.year >= 2000);
    assert!((1..=366).contains(&date.ordinal));
    let raw_header = header.to_raw().unwrap();
    assert_eq!(date.year as u16, raw_header.file_creation_year);
}

#[test]
fn hash_map_keeps_nonzero_slots() {
    let map = number_of_points_hash_map(&[0, 4, 0, 9]);
    assert_eq!(2, map.len());
    assert_eq!(4, map[&2]);
    assert_eq!(9, map[&4]);
    assert!(number_of_points_hash_map(&[]).is_empty());
}

#[test]
fn gps_time_type_reads_bit_zero() {
    assert_eq!(GpsTimeType::Standard, GpsTimeType::from_encoding(0b11));
    assert_eq!(GpsTimeType::Week, GpsTimeType::from_encoding(0b10));
    assert_eq!(1, GpsTimeType::Standard.to_encoding());
}

#[test]
fn legacy_and_large_file_slots_merge_on_reading() {
    let mut header = Header::default();
    header.version = (1, 4).into();
    header.number_of_points_by_return.insert(1, 5);
    header.number_of_points_by_return.insert(2, 1 << 33);
    header.number_of_points_by_return.insert(6, 7);
    let raw_header = header.to_raw().unwrap();
    assert_eq!([5, 0, 0, 0, 0], raw_header.number_of_points_by_return);
    assert_eq!(7, raw_header.large_file.unwrap().number_of_points_by_return[5]);
    let again = Header::new(raw_header, vec![], vec![]).unwrap();
    assert_eq!(3, again.number_of_points_by_return.len());
    assert_eq!(5, again.number_of_points_by_return[&1]);
    assert_eq!(1 << 33, again.number_of_points_by_return[&2]);
    assert_eq!(7, again.number_of_points_by_return[&6]);
}

#[test]
fn raw_slots_are_chosen_one_by_one() {
    let mut raw_header = raw::Header::default();
    raw_header.version = (1, 4).into();
    raw_header.number_of_points_by_return[0] = 5;
    let mut large_file = raw::LargeFile::default();
    large_file.number_of_points_by_return[0] = 9;
    large_file.number_of_points_by_return[1] = 8;
    large_file.number_of_points_by_return[5] = 7;
    raw_header.large_file = Some(large_file);
    let header = Header::new(raw_header, vec![], vec![]).unwrap();
    assert_eq!(3, header.number_of_points_by_return.len());
    assert_eq!(5, header.number_of_points_by_return[&1]);
    assert_eq!(8, header.number_of_points_by_return[&2]);
    assert_eq!(7, header.number_of_points_by_return[&6]);
}

#[test]
fn identifiers_are_cut_at_a_nul_character() {
    let mut header = Header::default();
    header.system_identifier = "ab\0cd".to_string();
    let raw_header = header.to_raw().unwrap();
    let again = Header::new(raw_header, vec![], vec![]).unwrap();
    assert_eq!("ab", again.system_identifier);
}

#[test]
fn invalid_dates_are_refused() {
    let mut header = Header::default();
    header.date = Some(Date { year: 2017, ordinal: 366 });
    assert_eq!(
        Err(Error::InvalidDate(Date { year: 2017, ordinal: 366 })),
        header.to_raw().map(|_| ())
    );
    header.date = Some(Date { year: 70000, ordinal: 1 });
    assert_eq!(
        Err(Error::InvalidDate(Date { year: 70000, ordinal: 1 })),
        header.to_raw().map(|_| ())
    );
    header.date = Some(Date { year: -1, ordinal: 1 });
    assert!(header.to_raw().is_err());
    header.date = Some(Date { year: 2016, ordinal: 366 });
    let again = Header::new(header.to_raw().unwrap(), vec![], vec![]).unwrap();
    assert_eq!(Some(Date { year: 2016, ordinal: 366 }), again.date);
}
