use projfs::cache::{cache_dir_for, repr_of_path, to_hex};

fn b(s: &str) -> Vec<u8> {
    s.as_bytes().to_vec()
}

#[test]
fn hex_has_no_leading_zeros() {
    assert_eq!(to_hex(0), b("0"));
    assert_eq!(to_hex(9), b("9"));
    assert_eq!(to_hex(10), b("a"));
    assert_eq!(to_hex(15), b("f"));
    assert_eq!(to_hex(16), b("10"));
    assert_eq!(to_hex(255), b("ff"));
    assert_eq!(to_hex(4096), b("1000"));
    assert_eq!(to_hex(0xdead_beef), b("deadbeef"));
    assert_eq!(to_hex(u64::MAX), b("ffffffffffffffff"));
}

#[test]
fn hex_agrees_with_formatting() {
    for n in [0u64, 1, 15, 16, 17, 255, 256, 0x1b99_3a82_6f4a_e575, u64::MAX - 1] {
        assert_eq!(to_hex(n), b(&format!("{:x}", n)));
    }
}

#[test]
fn repr_is_the_sea_hash_in_hex() {
    assert_eq!(repr_of_path(&b("to be or not to be")), b("1b993a826f4ae575"));
    assert_eq!(repr_of_path(&b("/home/me/music")), b(&format!("{:x}", seahash::hash(b"/home/me/music"))));
}

#[test]
fn distinct_sources_get_distinct_names() {
    assert_ne!(repr_of_path(&b("/home/me/music")), repr_of_path(&b("/home/me/video")));
    assert_ne!(repr_of_path(&b("/a")), b("/a"));
}

#[test]
fn cache_dir_is_namespaced() {
    let expected = format!("/home/me/.cache/projfs/{:x}", seahash::hash(b"/home/me/music"));
    assert_eq!(cache_dir_for(&b("/home/me/.cache"), &b("/home/me/music")), b(&expected));
    assert_eq!(cache_dir_for(&b("/home/me/.cache/"), &b("/home/me/music")), b(&expected));
}
