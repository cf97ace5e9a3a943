use line_counter::file_types::{ends_with, is_letter, is_valid_file_type, path_has_qualifying_suffix};

#[test]
fn letters_are_recognized() {
    assert!(is_letter(b'a'));
    assert!(is_letter(b'z'));
    assert!(is_letter(b'A'));
    assert!(is_letter(b'Z'));
    assert!(is_letter(b'm'));
    assert!(!is_letter(b'0'));
    assert!(!is_letter(b'.'));
    assert!(!is_letter(b' '));
    assert!(!is_letter(b'_'));
}

#[test]
fn valid_file_types() {
    assert!(is_valid_file_type(&b".rs".to_vec()));
    assert!(is_valid_file_type(&b".c".to_vec()));
    assert!(is_valid_file_type(&b".JAVA".to_vec()));
}

#[test]
fn invalid_file_types() {
    assert!(!is_valid_file_type(&b"".to_vec()));
    assert!(!is_valid_file_type(&b".".to_vec()));
    assert!(!is_valid_file_type(&b"rs".to_vec()));
    assert!(!is_valid_file_type(&b".r2".to_vec()));
    assert!(!is_valid_file_type(&b"a.rs".to_vec()));
    assert!(!is_valid_file_type(&b". s".to_vec()));
}

#[test]
fn suffix_matching() {
    assert!(ends_with(&b"main.rs".to_vec(), &b".rs".to_vec()));
    assert!(ends_with(&b".rs".to_vec(), &b".rs".to_vec()));
    assert!(!ends_with(&b"main.rc".to_vec(), &b".rs".to_vec()));
    assert!(!ends_with(&b"s".to_vec(), &b".rs".to_vec()));
    assert!(ends_with(&b"anything".to_vec(), &b"".to_vec()));
}

#[test]
fn qualifying_paths() {
    let types = vec![b".rs".to_vec(), b".toml".to_vec()];
    assert!(path_has_qualifying_suffix(&b"src/main.rs".to_vec(), &types));
    assert!(path_has_qualifying_suffix(&b"Cargo.toml".to_vec(), &types));
    assert!(!path_has_qualifying_suffix(&b"notes.txt".to_vec(), &types));
    let no_types: Vec<Vec<u8>> = Vec::new();
    assert!(!path_has_qualifying_suffix(&b"src/main.rs".to_vec(), &no_types));
}
