use envlang::io::has_envl_extension;

#[test]
fn io_invalid_file_extension() {
    // A path without the `.envl` extension is refused before anything is read.
    assert!(!has_envl_extension("tests/data/io_invalidextension.txt"));
}

#[test]
fn envl_extension_is_accepted() {
    assert!(has_envl_extension("tests/data/io_validextension.envl"));
    assert!(has_envl_extension(".envl"));
}

#[test]
fn extension_must_end_the_path() {
    assert!(!has_envl_extension("program.envl.txt"));
    assert!(!has_envl_extension("envl"));
    assert!(!has_envl_extension(""));
    assert!(!has_envl_extension("program.ENVL"));
}
