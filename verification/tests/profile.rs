use ainc_mac::profile::{decode_photo, profile_name, Profile};

#[test]
fn the_account_name_is_its_first_word() {
    assert_eq!(profile_name(Some("Ada Lovelace\n")), "Ada");
    assert_eq!(profile_name(Some("   ")), "Profile");
    assert_eq!(profile_name(None), "Profile");
}

#[test]
fn photos_decode_from_the_directory_output() {
    let output = b"JPEGPhoto:\n ffd8 ffe0\n 0010 4\n".to_vec();
    assert_eq!(decode_photo(&output), Some(vec![0xff, 0xd8, 0xff, 0xe0, 0x00, 0x10]));
    // Mixed case digits are read; anything else is skipped.
    let output = b"dsAttrTypeNative:JPEGPhoto: FFD8-00\n".to_vec();
    assert_eq!(decode_photo(&output), None);
    let output = b"JPEGPhoto: FFd8zz01".to_vec();
    assert_eq!(decode_photo(&output), Some(vec![0xff, 0xd8, 0x01]));
    // Not a JPEG, no colon, or too short.
    assert_eq!(decode_photo(&b"JPEGPhoto: 8950".to_vec()), None);
    assert_eq!(decode_photo(&b"ffd8".to_vec()), None);
    assert_eq!(decode_photo(&b"x: ff".to_vec()), None);
}

#[test]
fn profiles_combine_name_and_photo() {
    let record = b"JPEGPhoto: ffd8".to_vec();
    let p = Profile::from_output(Some("Grace Hopper"), Some(&record));
    assert_eq!(p.name, "Grace");
    assert_eq!(p.photo, Some(vec![0xff, 0xd8]));
    let p = Profile::from_output(None, None);
    assert_eq!(p.name, "Profile");
    assert!(p.photo.is_none());
}
