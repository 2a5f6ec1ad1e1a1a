use boxxy::appimage::{contains_bytes, AppImageScan};

fn scanned(chunks: &[&[u8]]) -> AppImageScan {
    let mut scan = AppImageScan::new();
    for c in chunks {
        scan.observe(c);
    }
    scan
}

#[test]
fn unextracted_appimage_is_refused() {
    let scan = scanned(&[&b"x --appimage-help y"[..], &b"--appimage-mount"[..], &b"..--appimage-extract.."[..]]);
    assert!(scan.found_help && scan.found_mount && scan.found_extract);
    assert!(scan.refuses(&vec![b"--verbose".to_vec()]));
}

#[test]
fn self_extracting_appimage_is_allowed() {
    let scan = scanned(&[&b"--appimage-help --appimage-mount --appimage-extract"[..]]);
    assert!(!scan.refuses(&vec![b"--appimage-extract-and-run".to_vec()]));
}

#[test]
fn ordinary_binary_is_allowed() {
    let scan = scanned(&[&b"--appimage-help"[..], &b"--appimage-extract"[..]]);
    assert!(!scan.found_mount);
    assert!(!scan.refuses(&vec![]));
}

#[test]
fn substring_search() {
    assert!(contains_bytes(b"abcabd", b"abd"));
    assert!(!contains_bytes(b"abcab", b"abd"));
    assert!(contains_bytes(b"abc", b""));
    assert!(!contains_bytes(b"ab", b"abc"));
}
