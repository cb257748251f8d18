use loggit::logger::file_handler::file_manager::{CompressFileError, FileManager};
use loggit::Config;
use loggit::Level;

/// Helper to build a dummy configuration.
fn dummy_config() -> Config {
    Config {
        level: Level::INFO,
        file_manager: None,
        ..Default::default()
    }
}

/// Helper to create a FileManager using a valid file format.
/// Panics if initialization fails.
fn get_dummy_file_manager() -> FileManager {
    let config = dummy_config();
    let fm_opt = FileManager::init_from_string("test_log_{date}_{time}.txt", config.clone());
    assert!(
        fm_opt.is_ok(),
        "FileManager initialization failed with a valid format"
    );
    fm_opt.unwrap()
}

#[test]
fn test_init_from_string_valid() {
    let config = dummy_config();
    let fm = FileManager::init_from_string("log_{date}_{time}.txt", config);
    assert!(
        fm.is_ok(),
        "Expected valid FileManager from a correct file format"
    );
}

#[test]
fn test_init_from_string_invalid() {
    let config = dummy_config();
    let fm = FileManager::init_from_string("log_{date}_{time}<.txt", config);
    assert!(
        fm.is_err(),
        "Expected failure when using forbidden characters in the format"
    );
}

#[test]
fn test_remove_rotations() {
    let mut fm = get_dummy_file_manager();
    // Add a valid rotation
    let added = fm.add_rotation("1 day");
    assert!(
        added,
        "Expected add_rotation to succeed for a valid rotation definition"
    );
    fm.remove_rotations();
    // Since internal rotation list is private, check via Debug formatting.
    let fm_debug = format!("{:?}", fm);
    assert!(
        fm_debug.contains("rotation: []"),
        "Expected rotations to be removed (empty list)"
    );
}

#[test]
fn test_add_rotation() {
    let mut fm = get_dummy_file_manager();
    // Valid rotation
    let valid = fm.add_rotation("1 day");
    assert!(valid, "Expected add_rotation to succeed with '1 day'");

    // Invalid rotation should return false.
    let invalid = fm.add_rotation("invalid");
    assert!(
        !invalid,
        "Expected add_rotation to fail with an invalid rotation string"
    );
}

#[test]
fn test_set_and_remove_compression() {
    let mut fm = get_dummy_file_manager();
    // Valid compression type ("zip")
    let set_ok = fm.set_compression("zip");
    assert!(set_ok, "Expected set_compression to accept 'zip'");
    // Remove compression
    fm.remove_compression();
    // Now, trying to compress should fail due to missing settings.
    let result = fm.compress_file("nonexistent.txt");
    match result {
        Err(CompressFileError::UnableToGetCompressionSettings) => {}
        _ => panic!("Expected an error for missing compression settings after removal"),
    }
}
