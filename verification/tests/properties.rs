use hivemqtt::error::MQTTError;
use hivemqtt::properties::try_update;

#[test]
fn try_update_sets_an_empty_field() {
    let mut field: Option<u16> = None;
    assert_eq!(try_update(&mut field, Some(7), 0x21), Ok(()));
    assert_eq!(field, Some(7));
}

#[test]
fn try_update_reports_a_duplicate_and_keeps_the_new_value() {
    let mut field: Option<u32> = Some(1);
    assert_eq!(try_update(&mut field, Some(2), 0x11), Err(MQTTError::DuplicateProperty(0x11)));
    assert_eq!(field, Some(2));
}

#[test]
fn a_string_that_is_not_utf8_gives_the_conversion_error() {
    let mut buf = bytes::Bytes::from(b"\x00\x02\xff\xfe".to_vec());
    match hivemqtt::codec::read_string(&mut buf) {
        Err(MQTTError::Utf8Error(e)) => {
            assert_eq!(e.as_bytes(), &[0xff, 0xfe]);
            assert_eq!(e.utf8_error().valid_up_to(), 0);
        }
        other => panic!("unexpected {:?}", other),
    }
}
