use momo::manager::cache::{
    Platform,
    is_cross_device_error, is_ignored_sync_error, lock_file_name, offline_not_found, package_key,
    random_suffix, removal_trash_name, scratch_name, suffix_of, validate_package_id,
    validate_symlink_target, CacheError, ErrorClass, PathComponent, ScratchKind,
};

#[test]
fn empty_package_id_is_refused() {
    let e = validate_package_id("").unwrap_err();
    assert_eq!(e, CacheError::EmptyPackageId);
    assert_eq!(e.message(), "Package ID cant be empty");
    assert_eq!(e.class(), ErrorClass::InvalidInput);
}

#[test]
fn package_ids_with_path_characters_are_refused() {
    for id in ["a/b", "a\\b", "c:", "*", "what?", "\"q\"", "<x", "x>", "a|b"] {
        let e = validate_package_id(id).unwrap_err();
        assert_eq!(e, CacheError::InvalidPackageId(id.to_string()));
        assert_eq!(e.class(), ErrorClass::InvalidInput);
    }
    let e = validate_package_id("left/pad").unwrap_err();
    assert_eq!(e.message(), "Invalid package ID: 'left/pad'");
}

#[test]
fn ordinary_package_ids_pass() {
    assert!(validate_package_id("react@18.2.0").is_ok());
    assert!(validate_package_id("@scope%2Fname").is_ok());
    assert!(validate_package_id("ünïcödé").is_ok());
}

#[test]
fn package_key_is_the_blake3_hex_digest() {
    assert_eq!(
        package_key(""),
        "af1349b9f5f9a1a6a0404dea36dcc9499bcb25c9adc112b7cc9a93cae41f3262"
    );
    assert_eq!(
        package_key("abc"),
        "6437b3ac38465133ffb63b75273a8db548c558465d79db03fd359c6cd5bd9d85"
    );
}

#[test]
fn package_keys_are_deterministic_plain_names() {
    let k1 = package_key("lodash@4.17.21");
    let k2 = package_key("lodash@4.17.21");
    assert_eq!(k1, k2);
    assert_eq!(k1.len(), 64);
    assert!(k1.chars().all(|c| c.is_ascii_digit() || ('a'..='f').contains(&c)));
    assert!(validate_package_id(&k1).is_ok());
    assert_ne!(k1, package_key("lodash@4.17.20"));
}

#[test]
fn suffixes_are_sixteen_hex_digits() {
    assert_eq!(suffix_of(0), "0000000000000000");
    assert_eq!(suffix_of(255), "00000000000000ff");
    assert_eq!(suffix_of(0xdead_beef_0123_4567), "deadbeef01234567");
    assert_eq!(suffix_of(u64::MAX), "ffffffffffffffff");
    let r = random_suffix();
    assert_eq!(r.len(), 16);
    assert!(r.chars().all(|c| c.is_ascii_digit() || ('a'..='f').contains(&c)));
}

#[test]
fn scratch_and_lock_names() {
    assert_eq!(scratch_name(ScratchKind::Staging, "00ff"), ".staging_00ff");
    assert_eq!(scratch_name(ScratchKind::Trash, "00ff"), ".trash_00ff");
    assert_eq!(scratch_name(ScratchKind::Temp, "00ff"), ".tmp_00ff");
    assert_eq!(scratch_name(ScratchKind::ProbeSource, "1"), ".probe_src_1");
    assert_eq!(scratch_name(ScratchKind::ProbeTarget, "1"), ".probe_dst_1");
    assert_eq!(removal_trash_name("pkg", "abc"), ".trash_pkg_abc");
    assert_eq!(lock_file_name("beef"), "beef.lock");
}

#[test]
fn offline_not_found_message() {
    let e = offline_not_found("react");
    assert_eq!(e.message(), "Package 'react' not found in offline mode.");
    assert_eq!(e.class(), ErrorClass::NotFound);
}

#[test]
fn symlinks_inside_the_tree_pass() {
    assert!(validate_symlink_target(0, &vec![PathComponent::Normal, PathComponent::Normal]).is_ok());
    assert!(validate_symlink_target(2, &vec![PathComponent::ParentDir, PathComponent::ParentDir, PathComponent::Normal]).is_ok());
    assert!(validate_symlink_target(0, &vec![PathComponent::CurDir, PathComponent::Normal, PathComponent::ParentDir]).is_ok());
    assert!(validate_symlink_target(0, &vec![]).is_ok());
}

#[test]
fn symlinks_climbing_out_are_refused() {
    let e = validate_symlink_target(0, &vec![PathComponent::ParentDir]).unwrap_err();
    assert_eq!(e, CacheError::PathTraversal);
    assert_eq!(e.message(), "Path traversal symlink forbidden");
    assert_eq!(e.class(), ErrorClass::InvalidData);
    assert_eq!(
        validate_symlink_target(1, &vec![PathComponent::ParentDir, PathComponent::ParentDir, PathComponent::Normal]).unwrap_err(),
        CacheError::PathTraversal
    );
    assert_eq!(
        validate_symlink_target(0, &vec![PathComponent::Normal, PathComponent::ParentDir, PathComponent::ParentDir]).unwrap_err(),
        CacheError::PathTraversal
    );
}

#[test]
fn absolute_symlinks_are_refused() {
    let e = validate_symlink_target(3, &vec![PathComponent::RootDir, PathComponent::Normal]).unwrap_err();
    assert_eq!(e, CacheError::AbsoluteSymlink);
    assert_eq!(e.message(), "Absolute symlinks forbidden");
    assert_eq!(validate_symlink_target(0, &vec![PathComponent::Prefix]).unwrap_err(), CacheError::AbsoluteSymlink);
    assert_eq!(
        validate_symlink_target(0, &vec![PathComponent::ParentDir, PathComponent::RootDir]).unwrap_err(),
        CacheError::PathTraversal
    );
}

#[test]
fn deeper_links_stay_accepted() {
    let target = vec![PathComponent::ParentDir, PathComponent::Normal, PathComponent::ParentDir];
    assert!(validate_symlink_target(1, &target).is_ok());
    assert!(validate_symlink_target(2, &target).is_ok());
    assert!(validate_symlink_target(0, &target).is_err());
}

#[test]
fn cross_device_errors() {
    assert!(is_cross_device_error(true, None, Platform::Unix));
    assert!(is_cross_device_error(false, Some(18), Platform::Unix));
    assert!(!is_cross_device_error(false, Some(17), Platform::Unix));
    assert!(!is_cross_device_error(false, None, Platform::Unix));
    assert!(is_cross_device_error(false, Some(17), Platform::Windows));
    assert!(!is_cross_device_error(false, Some(18), Platform::Windows));
    assert!(is_cross_device_error(true, Some(5), Platform::Windows));
    assert!(!is_cross_device_error(false, Some(18), Platform::Other));
    assert!(is_cross_device_error(true, None, Platform::Other));
}

#[test]
fn only_einval_sync_errors_are_ignored() {
    assert!(is_ignored_sync_error(Some(22)));
    assert!(!is_ignored_sync_error(Some(5)));
    assert!(!is_ignored_sync_error(None));
}

#[test]
fn package_keys_never_look_like_scratch_entries() {
    for id in ["react", "vue@3", "a"] {
        let key = package_key(id);
        assert!(!key.starts_with('.'));
        for kind in [
            ScratchKind::Staging,
            ScratchKind::Trash,
            ScratchKind::Temp,
            ScratchKind::ProbeSource,
            ScratchKind::ProbeTarget,
        ] {
            assert!(scratch_name(kind, "").starts_with('.'));
            assert_ne!(scratch_name(kind, &key), key);
        }
    }
}
