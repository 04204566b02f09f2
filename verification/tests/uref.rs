use highway::uref::{AccessRights, FromStrError, URef};

#[test]
fn uref_as_string() {
    // Since URefs are put into named-key maps keyed by the label that the
    // formatted string returns, any change to the string representation of
    // the type would break the format.
    let addr_array = [0u8; 32];
    let uref_a = URef::new(addr_array, AccessRights::read());
    assert_eq!(
        uref_a.to_formatted_string(),
        "uref-0000000000000000000000000000000000000000000000000000000000000000-001"
    );
    let uref_b = URef::new(addr_array, AccessRights::write());
    assert_eq!(
        uref_b.to_formatted_string(),
        "uref-0000000000000000000000000000000000000000000000000000000000000000-002"
    );

    let uref_c = uref_b.remove_access_rights();
    assert_eq!(
        uref_c.to_formatted_string(),
        "uref-0000000000000000000000000000000000000000000000000000000000000000-000"
    );
}

fn round_trip(uref: URef) {
    let string = uref.to_formatted_string();
    let parsed_uref = URef::from_formatted_str(&string).unwrap();
    assert_eq!(uref, parsed_uref);
}

#[test]
fn uref_from_str() {
    round_trip(URef::new([0; 32], AccessRights::none()));
    round_trip(URef::new([255; 32], AccessRights::read_add_write()));

    let invalid_prefix =
        "ref-0000000000000000000000000000000000000000000000000000000000000000-000";
    assert!(URef::from_formatted_str(invalid_prefix).is_err());

    let invalid_prefix =
        "uref0000000000000000000000000000000000000000000000000000000000000000-000";
    assert!(URef::from_formatted_str(invalid_prefix).is_err());

    let short_addr = "uref-00000000000000000000000000000000000000000000000000000000000000-000";
    assert!(URef::from_formatted_str(short_addr).is_err());

    let long_addr =
        "uref-000000000000000000000000000000000000000000000000000000000000000000-000";
    assert!(URef::from_formatted_str(long_addr).is_err());

    let invalid_hex =
        "uref-000000000000000000000000000000000000000000000000000000000000000g-000";
    assert!(URef::from_formatted_str(invalid_hex).is_err());

    let invalid_suffix_separator =
        "uref-0000000000000000000000000000000000000000000000000000000000000000:000";
    assert!(URef::from_formatted_str(invalid_suffix_separator).is_err());

    let invalid_suffix =
        "uref-0000000000000000000000000000000000000000000000000000000000000000-abc";
    assert!(URef::from_formatted_str(invalid_suffix).is_err());

    let invalid_access_rights =
        "uref-0000000000000000000000000000000000000000000000000000000000000000-200";
    assert!(URef::from_formatted_str(invalid_access_rights).is_err());
}

#[test]
fn uref_accessors_and_permissions() {
    let addr = [7u8; 32];
    let uref = URef::new(addr, AccessRights::read_add_write());
    assert_eq!(addr, uref.addr());
    assert_eq!(AccessRights::read_add_write(), uref.access_rights());
    assert!(uref.is_readable());
    assert!(uref.is_writeable());
    assert!(uref.is_addable());

    let read_only = uref.into_read();
    assert!(read_only.is_readable());
    assert!(!read_only.is_writeable());
    assert!(!read_only.is_addable());

    let full = read_only.into_read_add_write();
    assert_eq!(AccessRights::read_add_write(), full.access_rights());

    let with_write = uref.with_access_rights(AccessRights::write());
    assert!(!with_write.is_readable());
    assert!(with_write.is_writeable());

    assert!(AccessRights::from_bits(7).is_some());
    assert!(AccessRights::from_bits(8).is_none());
    assert!(!AccessRights::none().is_readable());
    assert!(AccessRights::add_only().is_addable());
}

#[test]
fn uref_from_str_reports_the_failing_part() {
    let e = URef::from_formatted_str("xref-00-000").unwrap_err();
    assert_eq!(FromStrError::InvalidPrefix, e);
    let e = URef::from_formatted_str("uref-0123abcd").unwrap_err();
    assert_eq!(FromStrError::MissingSuffix, e);
    let e = URef::from_formatted_str("uref-0g-000").unwrap_err();
    assert_eq!(FromStrError::Hex, e);
    let e = URef::from_formatted_str("uref-00-000").unwrap_err();
    assert_eq!(FromStrError::Address, e);
    let addr64 = "0000000000000000000000000000000000000000000000000000000000000000";
    let e = URef::from_formatted_str(&format!("uref-{}-9", addr64)).unwrap_err();
    assert_eq!(FromStrError::Int, e);
    let e = URef::from_formatted_str(&format!("uref-{}-377", addr64)).unwrap_err();
    assert_eq!(FromStrError::InvalidAccessRights, e);
    // An odd-length address fails hexadecimal decoding.
    let e = URef::from_formatted_str("uref-012-000").unwrap_err();
    assert_eq!(FromStrError::Hex, e);
}

#[test]
fn uref_bytes_round_trip() {
    let uref = URef::new([9u8; 32], AccessRights::read_add_write());
    let bytes = uref.to_bytes();
    assert_eq!(33, uref.serialized_length());
    assert_eq!(33, bytes.len());
    let (parsed, rest) = URef::from_bytes(&bytes).unwrap();
    assert_eq!(uref, parsed);
    assert!(rest.is_empty());

    // Trailing data is handed back.
    let mut with_tail = bytes.clone();
    with_tail.push(0xAB);
    let (parsed, rest) = URef::from_bytes(&with_tail).unwrap();
    assert_eq!(uref, parsed);
    assert_eq!(&[0xAB], rest);

    // Invalid access rights bits are refused.
    let mut bad = bytes.clone();
    bad[32] = 8;
    assert!(URef::from_bytes(&bad).is_none());
    assert!(URef::from_bytes(&bytes[..32]).is_none());
}
