use drop_sharing::discovery::connection::{DecodeError, Deserialize, IndicationBytes, Serialize};
use drop_sharing::discovery::hostinfo::{Host, HostError, HostInfo};

fn host_info_raw(name_bytes: &[u8], num_of_files: u32) -> Option<HostInfo> {
    let host = Host::try_from(name_bytes).ok()?;
    Some(HostInfo::from_host(host, num_of_files))
}

#[test]
fn fuzz_host_info() {
    let cases: Vec<(Vec<u8>, u32)> = vec![
        (b"".to_vec(), 0),
        (b"host".to_vec(), 1),
        (b"my-laptop".to_vec(), u32::MAX),
        ("k\u{f6}nig-\u{1f600}".as_bytes().to_vec(), 17),
        (vec![0xff, 0xfe], 3),
        (vec![0xc3], 3),
        (vec![b'a'; 300], 42),
        (vec![0; 5], 9),
    ];
    for (name, num_of_files) in cases {
        let Some(host_info) = host_info_raw(&name, num_of_files) else {
            continue;
        };

        let seri = host_info.serialize();
        let deseri = HostInfo::deserialize(&seri).expect("it can never error if valid data");

        assert_eq!(host_info, deseri);
    }
}

#[test]
fn test_host_info_round_trip() {
    let host_info = HostInfo::new(4).unwrap();

    let serilized = host_info.clone().serialize();

    let deserialized = HostInfo::deserialize(&serilized).unwrap();

    assert_eq!(host_info, deserialized);
}

#[test]
fn test_host_round_trip() {
    let host = Host::new().unwrap();

    let seri = host.clone().serialize();

    let desiri = Host::deserialize(&seri).unwrap();

    assert_eq!(host, desiri);
}

#[test]
fn host_bytes_are_indication_length_and_name() {
    let host = Host::try_from(b"pc".as_slice()).unwrap();
    assert_eq!(host.serialize(), vec![4, 0, 0, 0, 2, b'p', b'c']);
    assert_eq!(host.name(), "pc");
    assert_eq!(Host::total_size(&[4, 0, 0, 0, 2]).unwrap(), 7);
    assert!(Host::try_from([0x80u8].as_slice()).is_err());
}

#[test]
fn host_info_bytes_and_accessors() {
    let info = host_info_raw(b"pc", 3).unwrap();
    assert_eq!(info.serialize(), vec![2, 0, 0, 0, 7, 4, 0, 0, 0, 2, b'p', b'c', 0, 0, 0, 3]);
    assert_eq!(info.name(), "pc");
    assert_eq!(info.file_num(), 3);
    let bytes = info.serialize();
    assert_eq!(HostInfo::total_size(&bytes[..5]).unwrap(), bytes.len());
}

#[test]
fn host_info_rejects_bad_headers() {
    assert!(matches!(
        HostInfo::total_size(&[2, 0, 0, 0, 0]),
        Err(DecodeError::InvalidValue("invalid len"))
    ));
    assert!(matches!(
        HostInfo::total_size(&[2, 0, 0, 1, 1]),
        Err(DecodeError::InvalidValue("invalid len"))
    ));
    assert!(matches!(
        HostInfo::total_size(&[2, 0, 0]),
        Err(DecodeError::InvalidLen { declared: 4, available: 3 })
    ));
    assert!(matches!(
        HostInfo::deserialize(&[4, 0, 0, 0, 0]),
        Err(DecodeError::UnexpectedIndicationType { expected: IndicationBytes::HostInfo, actual: 4 })
    ));
    assert!(matches!(
        HostInfo::deserialize(&[2, 0, 0, 0, 7, 4, 0, 0, 0, 2, b'p', b'c', 0, 0]),
        Err(DecodeError::Truncated { expected: 16, actual: 14 })
    ));
    assert!(matches!(
        HostInfo::deserialize(&[2, 0, 0, 0, 9, 4]),
        Err(DecodeError::InvalidLen { declared: 9, available: 1 })
    ));
}

#[test]
fn host_errors_follow_the_reported_name() {
    assert!(matches!(Host::from_system_name(Ok(None)), Err(HostError::NonUtf8)));
    assert!(matches!(
        Host::from_system_name(Err(std::io::Error::other("no name"))),
        Err(HostError::Io(_))
    ));
}

#[test]
fn system_host_names_hold_no_nul() {
    if let Ok(host) = Host::new() {
        assert!(!host.name().contains('\0'));
    }
    if let Ok(info) = HostInfo::new(3) {
        assert_eq!(info.file_num(), 3);
        assert!(!info.name().contains('\0'));
    }
}
