use input_validation::is_valid_file_path;

#[test]
fn file_path_accepted_characters() {
    assert!(is_valid_file_path("images/file_example_png.png"));
    assert!(is_valid_file_path("files\\a-b.jpg"));
    assert!(is_valid_file_path("../up/./x"));
    assert!(is_valid_file_path("a"));
}

#[test]
fn file_path_refused_characters() {
    assert!(!is_valid_file_path(""));
    assert!(!is_valid_file_path("A:/HEIG/Semestre 6/file.png"));
    assert!(!is_valid_file_path("a;rm -rf"));
    assert!(!is_valid_file_path("a:b"));
    assert!(!is_valid_file_path("é.png"));
    assert!(!is_valid_file_path("a\nb"));
}
