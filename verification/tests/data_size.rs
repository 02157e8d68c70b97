use hivemqtt::data_size::{fields_size, get_size, field_size, Prefix, SizeError, SizedField};

fn field(prefix: Prefix, length: usize, optional: bool, present: bool, content_len: usize) -> SizedField {
    SizedField { prefix, length, optional, present, content_len, pairs: vec![] }
}

#[test]
fn size_attributes_are_read_with_their_prefix() {
    assert_eq!(get_size("4"), Ok((None, 4)));
    assert_eq!(get_size("+7"), Ok((None, 7)));
    assert_eq!(get_size("wl_2"), Ok((Some(Prefix::Wl), 2)));
    assert_eq!(get_size("kv_2"), Ok((Some(Prefix::Kv), 2)));
    assert_eq!(get_size("max_10"), Ok((Some(Prefix::Max), 10)));
    assert_eq!(get_size("wlx_3"), Ok((Some(Prefix::Unknown), 3)));
    assert_eq!(get_size("wl_3_9"), Ok((Some(Prefix::Wl), 3)));
}

#[test]
fn invalid_size_attributes_are_refused() {
    assert_eq!(get_size(""), Err(SizeError::InvalidSize));
    assert_eq!(get_size("abc"), Err(SizeError::InvalidSize));
    assert_eq!(get_size("wl_x"), Err(SizeError::InvalidSize));
    assert_eq!(get_size("-1"), Err(SizeError::InvalidSize));
    assert_eq!(get_size("+"), Err(SizeError::InvalidSize));
    assert_eq!(get_size("99999999999999999999999"), Err(SizeError::InvalidSize));
}

#[test]
fn field_sizes_follow_their_attribute() {
    assert_eq!(field_size(&field(Prefix::Unknown, 0, false, false, 9)), 0);
    assert_eq!(field_size(&field(Prefix::Unknown, 4, false, false, 0)), 5);
    assert_eq!(field_size(&field(Prefix::Unknown, 4, true, true, 0)), 5);
    assert_eq!(field_size(&field(Prefix::Unknown, 4, true, false, 0)), 0);
    assert_eq!(field_size(&field(Prefix::Wl, 2, false, false, 5)), 7);
    assert_eq!(field_size(&field(Prefix::Wl, 4, false, false, 7)), 11);
    assert_eq!(field_size(&field(Prefix::Wl, 2, true, true, 5)), 8);
    assert_eq!(field_size(&field(Prefix::Wl, 2, true, false, 5)), 0);
    assert_eq!(field_size(&field(Prefix::Max, 2, true, true, 5)), 0);
    let kv = SizedField { prefix: Prefix::Kv, length: 2, optional: false, present: false, content_len: 0, pairs: vec![(3, 5), (1, 1)] };
    assert_eq!(field_size(&kv), 13 + 7);
}

#[test]
fn a_struct_takes_the_sum_of_its_fields() {
    let fields = vec![
        field(Prefix::Unknown, 4, true, true, 0),
        field(Prefix::Unknown, 2, true, false, 0),
        field(Prefix::Wl, 2, true, true, 6),
    ];
    assert_eq!(fields_size(&fields), 5 + 0 + 9);
    assert_eq!(fields_size(&vec![]), 0);
}
