use std::cmp::Ordering;

use new_array::demo::ByteN;

#[test]
fn default_is_all_zero_and_equal_to_itself() {
    let a = ByteN::default();
    let b = ByteN::default();
    assert!(a.as_slice().iter().all(|&v| v == 0));
    assert_eq!(a.as_slice().len(), 33);
    assert!(a == b);
}

#[test]
fn equality_is_element_wise() {
    let mut raw = [0u8; 33];
    raw[7] = 9;
    let a = ByteN::from_array(raw);
    let b = ByteN::from_array(raw);
    assert!(a == b);
    let mut other = raw;
    other[32] = 1;
    let c = ByteN::from_array(other);
    assert!(a != c);
}

#[test]
fn conversion_round_trips() {
    let mut raw = [0u8; 33];
    for (k, v) in raw.iter_mut().enumerate() {
        *v = (k as u8).wrapping_mul(7);
    }
    let wrapped = ByteN::from_array(raw);
    assert_eq!(wrapped.into_array(), raw);
}

#[test]
fn equal_instances_feed_equal_hash_input() {
    let mut raw = [0u8; 33];
    raw[0] = 255;
    raw[16] = 128;
    let a = ByteN::from_array(raw);
    let b = ByteN::from_array(raw);
    assert!(a == b);
    assert_eq!(a.hash_input(), b.hash_input());
}

#[test]
fn ordering_is_lexicographic_and_consistent_with_equality() {
    let a = ByteN::from_array([0u8; 33]);
    let mut raw = [0u8; 33];
    raw[32] = 1;
    let b = ByteN::from_array(raw);
    assert_eq!(a.cmp_bytes(&b), Ordering::Less);
    assert_eq!(b.cmp_bytes(&a), Ordering::Greater);
    assert_eq!(a.cmp_bytes(&a), Ordering::Equal);
    let mut early = [0u8; 33];
    early[0] = 2;
    let mut late = [0u8; 33];
    late[0] = 1;
    late[32] = 200;
    let c = ByteN::from_array(early);
    let d = ByteN::from_array(late);
    assert_eq!(c.cmp_bytes(&d), Ordering::Greater, "the first differing byte decides");
}

#[test]
fn debug_text_default_mode_is_exact() {
    let a = ByteN::from_array([0u8; 33]);
    let mut expected = String::from("ByteN([0");
    for _ in 1..33 {
        expected.push_str(", 0");
    }
    expected.push_str("])");
    assert_eq!(a.debug_text(false), expected);
}

#[test]
fn debug_text_alternate_mode_is_exact() {
    let a = ByteN::from_array([0u8; 33]);
    let mut expected = String::from("ByteN([0x00");
    for _ in 1..33 {
        expected.push_str(", 0x00");
    }
    expected.push_str("])");
    assert_eq!(a.debug_text(true), expected);
}

#[test]
fn debug_text_renders_byte_values() {
    let mut raw = [0u8; 33];
    raw[0] = 10;
    raw[1] = 255;
    let a = ByteN::from_array(raw);
    let text = a.debug_text(false);
    assert!(text.starts_with("ByteN([10, 255, 0"));
    let hex = a.debug_text(true);
    assert!(hex.starts_with("ByteN([0x0a, 0xff, 0x00"));
}

#[test]
fn display_text_matches_debug_text() {
    let mut raw = [0u8; 33];
    raw[5] = 77;
    let a = ByteN::from_array(raw);
    assert_eq!(a.display_text(false), a.debug_text(false));
    assert_eq!(a.display_text(true), a.debug_text(true));
}

#[test]
fn erase_zeroes_every_byte() {
    let mut raw = [0u8; 33];
    for (k, v) in raw.iter_mut().enumerate() {
        *v = k as u8 + 1;
    }
    let mut a = ByteN::from_array(raw);
    a.erase();
    assert!(a.as_slice().iter().all(|&v| v == 0));
}

#[test]
fn set_byte_updates_the_mutable_view() {
    let mut a = ByteN::default();
    a.set_byte(3, 42);
    assert_eq!(a.as_slice()[3], 42);
    assert_eq!(a.as_slice()[2], 0);
}
