use boxxy::path::{append_all, container_root, path_is_under, path_relative_to_root, runtime_dir_or_default, strip_slashes};

#[test]
fn append_all_treats_leading_slash_as_relative() {
    let segs = vec![b"/home/me/.config".to_vec(), b"foo".to_vec()];
    assert_eq!(append_all(b"/run/boxxy/x", &segs), b"/run/boxxy/x/home/me/.config/foo".to_vec());
}

#[test]
fn append_all_does_not_double_separators() {
    let segs = vec![b"///etc".to_vec(), b"".to_vec()];
    assert_eq!(append_all(b"/root/", &segs), b"/root/etc".to_vec());
    assert_eq!(append_all(b"", &vec![b"a".to_vec()]), b"a".to_vec());
}

#[test]
fn container_root_layout() {
    assert_eq!(container_root(b"/run/user/1000", b"misty-lake-1234"), b"/run/user/1000/boxxy/misty-lake-1234".to_vec());
}

#[test]
fn runtime_dir_defaults_to_tmp() {
    assert_eq!(runtime_dir_or_default(None), b"/tmp".to_vec());
    assert_eq!(runtime_dir_or_default(Some(b"/run/user/5".to_vec())), b"/run/user/5".to_vec());
}

#[test]
fn under_root_compares_components() {
    assert!(path_is_under(b"/tmp/boxxy/a/etc", b"/tmp/boxxy/a"));
    assert!(path_is_under(b"/tmp/boxxy/a", b"/tmp/boxxy/a"));
    assert!(!path_is_under(b"/tmp/boxxy/ab", b"/tmp/boxxy/a"));
    assert!(!path_is_under(b"/etc", b"/tmp/boxxy/a"));
}

#[test]
fn relative_path_keeps_one_leading_slash() {
    assert_eq!(path_relative_to_root(b"/r/etc/passwd", b"/r"), b"/etc/passwd".to_vec());
    assert_eq!(path_relative_to_root(b"/r", b"/r"), b"/".to_vec());
    assert_eq!(strip_slashes(b"//a/b"), b"a/b".to_vec());
}
