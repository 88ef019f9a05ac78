use physics_core::body::{
    swept_endpoints, BodyTag, BODY_FLAG_ENABLE_CCD, BODY_FLAG_ENABLE_SLEEP, BODY_TYPE_DYNAMIC,
};

fn tag(body_type: u32, flags: u32, has_mass: bool) -> BodyTag {
    BodyTag { id: 1, body_type, flags, has_mass }
}

#[test]
fn constants_have_their_documented_values() {
    assert_eq!(BODY_TYPE_DYNAMIC, 1);
    assert_eq!(BODY_FLAG_ENABLE_CCD, 1 << 0);
    assert_eq!(BODY_FLAG_ENABLE_SLEEP, 1 << 1);
}

#[test]
fn dynamic_needs_type_and_mass() {
    assert!(tag(1, 0, true).is_dynamic());
    assert!(!tag(1, 0, false).is_dynamic());
    assert!(!tag(0, 0, true).is_dynamic());
    assert!(!tag(0, 0, false).is_dynamic());
}

#[test]
fn reserved_body_types_are_static() {
    for body_type in [2u32, 3, 7, 255, u32::MAX] {
        assert!(!tag(body_type, 3, true).is_dynamic());
        assert!(!tag(body_type, 3, true).is_swept());
    }
}

#[test]
fn flag_bits_are_read_independently() {
    assert!(!tag(1, 0, true).enable_ccd());
    assert!(!tag(1, 0, true).enable_sleep());
    assert!(tag(1, 1, true).enable_ccd());
    assert!(!tag(1, 1, true).enable_sleep());
    assert!(!tag(1, 2, true).enable_ccd());
    assert!(tag(1, 2, true).enable_sleep());
    assert!(tag(1, 3, true).enable_ccd());
    assert!(tag(1, 3, true).enable_sleep());
}

#[test]
fn reserved_flag_bits_are_ignored() {
    assert!(!tag(1, 0xffff_fffc, true).enable_ccd());
    assert!(!tag(1, 0xffff_fffc, true).enable_sleep());
    assert!(tag(1, 0xffff_fffd, true).enable_ccd());
    assert!(tag(1, 0xffff_fffe, true).enable_sleep());
}

#[test]
fn swept_ignores_mass() {
    assert!(tag(1, 1, false).is_swept());
    assert!(tag(1, 1, true).is_swept());
    assert!(!tag(1, 2, true).is_swept());
    assert!(!tag(0, 1, true).is_swept());
}

#[test]
fn swept_endpoints_of_a_pair() {
    let bullet = tag(1, 1, true);
    let wall = tag(0, 0, false);
    let crate_body = tag(1, 2, true);
    assert_eq!(swept_endpoints(&bullet, &wall), Some((true, false)));
    assert_eq!(swept_endpoints(&wall, &bullet), Some((false, true)));
    assert_eq!(swept_endpoints(&bullet, &bullet), Some((true, true)));
    assert_eq!(swept_endpoints(&wall, &crate_body), None);
    assert_eq!(swept_endpoints(&crate_body, &crate_body), None);
}

#[test]
fn tags_compare_by_fields() {
    assert_eq!(tag(1, 3, true), tag(1, 3, true));
    assert_ne!(tag(1, 3, true), tag(1, 3, false));
}
