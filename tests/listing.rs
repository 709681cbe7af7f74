use usb2snes::files::{decode_file_list, normalize_path, FileType, ListingError};

#[test]
fn normalize_strips_trailing_separators() {
    assert_eq!(normalize_path("roms/"), "roms");
    assert_eq!(normalize_path("a/b///"), "a/b");
    assert_eq!(normalize_path("/"), "");
    assert_eq!(normalize_path(""), "");
    assert_eq!(normalize_path("/roms"), "/roms");
}

#[test]
fn normalize_is_idempotent() {
    for p in ["", "/", "x//", "/a/b/", "a/b"] {
        let once = normalize_path(p);
        assert!(!once.ends_with('/'));
        assert_eq!(normalize_path(&once), once);
    }
}

#[test]
fn decode_pairs_in_order() {
    let rs: Vec<String> = ["0", "roms", "1", "game.sfc", "2", "save.srm"]
        .iter()
        .map(|s| s.to_string())
        .collect();
    let files = decode_file_list(&rs).unwrap();
    assert_eq!(files.len(), 3);
    assert_eq!(files[0].ty, FileType::Dir);
    assert_eq!(files[0].name, "roms");
    assert_eq!(files[1].ty, FileType::File);
    assert_eq!(files[1].name, "game.sfc");
    assert_eq!(files[2].ty, FileType::File);
    assert_eq!(files[2].name, "save.srm");
}

#[test]
fn decode_marker_must_be_exactly_zero() {
    let rs: Vec<String> = ["00", "a", "", "b"].iter().map(|s| s.to_string()).collect();
    let files = decode_file_list(&rs).unwrap();
    assert_eq!(files[0].ty, FileType::File);
    assert_eq!(files[1].ty, FileType::File);
}

#[test]
fn decode_empty_listing() {
    assert!(decode_file_list(&Vec::new()).unwrap().is_empty());
}

#[test]
fn decode_odd_length_is_refused() {
    let rs: Vec<String> = ["0", "roms", "1"].iter().map(|s| s.to_string()).collect();
    assert_eq!(decode_file_list(&rs).unwrap_err(), ListingError::OddLength);
}
