use las::{Header, Vlr};

fn three_records() -> Vec<Vlr> {
    vec![
        Vlr::default(),
        Vlr {
            is_extended: true,
            ..Default::default()
        },
        Vlr {
            data: vec![0; u16::MAX as usize + 1],
            ..Default::default()
        },
    ]
}

#[test]
fn classification_under_1_4() {
    let mut header = Header::default();
    header.version = (1, 4).into();
    header.vlrs = three_records();
    assert_eq!(1, header.vlrs().len());
    assert_eq!(2, header.evlrs().len());
    assert!(!header.vlrs()[0].is_extended);
}

#[test]
fn classification_under_1_2() {
    let mut header = Header::default();
    header.version = (1, 2).into();
    header.vlrs = three_records();
    assert_eq!(2, header.vlrs().len());
    assert_eq!(1, header.evlrs().len());
    assert_eq!(u16::MAX as usize + 1, header.evlrs()[0].data.len());
}

#[test]
fn classification_at_the_length_limit() {
    let mut header = Header::default();
    header.vlrs = vec![
        Vlr {
            data: vec![0; u16::MAX as usize - 54],
            ..Default::default()
        },
        Vlr {
            data: vec![0; u16::MAX as usize - 53],
            ..Default::default()
        },
    ];
    assert_eq!(1, header.vlrs().len());
    assert_eq!(1, header.evlrs().len());
    assert_eq!(u16::MAX as usize, header.vlrs()[0].len());
}

#[test]
fn vlr_len_adds_the_record_header() {
    let vlr = Vlr {
        data: vec![0; 10],
        ..Default::default()
    };
    assert_eq!(64, vlr.len());
}
