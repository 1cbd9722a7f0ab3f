use collab_database::importer::{
    get_file_type, is_multi_part_zip_file, name_and_id_from_path, FileType, ImporterError,
};

#[test]
fn test_valid_path_with_single_space() {
    let path = "root 3 103d4deadd2c80b482abfc878985035f";
    let result = name_and_id_from_path(path);
    assert!(result.is_ok());
    let (name, id) = result.unwrap();
    assert_eq!(name, "root 3");
    assert_eq!(id, "103d4deadd2c80b482abfc878985035f");
}

#[test]
fn test_valid_path_with_single_space2() {
    let path = "root 1 2 3 103d4deadd2c80b482abfc878985035f";
    let result = name_and_id_from_path(path);
    assert!(result.is_ok());
    let (name, id) = result.unwrap();
    assert_eq!(name, "root 1 2 3");
    assert_eq!(id, "103d4deadd2c80b482abfc878985035f");
}

#[test]
fn test_valid_path_with_dashes() {
    let path = "root-2-1 103d4deadd2c8032bc32d094d8d5f41f";
    let result = name_and_id_from_path(path);
    assert!(result.is_ok());
    let (name, id) = result.unwrap();
    assert_eq!(name, "root-2-1");
    assert_eq!(id, "103d4deadd2c8032bc32d094d8d5f41f");
}

#[test]
fn test_invalid_path_format_missing_id() {
    let path = "root-2-1";
    let result = name_and_id_from_path(path);
    assert!(result.is_err());
    assert_eq!(result.unwrap_err().to_string(), "Invalid path format");
}

#[test]
fn test_invalid_path_format_missing_name() {
    let path = " 103d4deadd2c8032bc32d094d8d5f41f";
    let result = name_and_id_from_path(path);
    assert!(result.is_err());
    assert_eq!(result.unwrap_err().to_string(), "Invalid path format");
}

#[test]
fn test_path_with_multiple_spaces_in_name() {
    let path = "root with spaces 103d4deadd2c8032bc32d094d8d5f41f";
    let result = name_and_id_from_path(path);
    assert!(result.is_ok());
    let (name, id) = result.unwrap();
    assert_eq!(name, "root with spaces");
    assert_eq!(id, "103d4deadd2c8032bc32d094d8d5f41f");
}

#[test]
fn test_valid_path_with_no_spaces_in_name() {
    let path = "rootname103d4deadd2c8032bc32d094d8d5f41f";
    let result = name_and_id_from_path(path);
    assert!(result.is_err());
}

#[test]
fn name_and_id_strip_directories_and_extension() {
    let (name, id) = name_and_id_from_path("export/Projects abc123.md").unwrap();
    assert_eq!(name, "Projects");
    assert_eq!(id, "abc123");
    let (name, id) = name_and_id_from_path("Tasks .hidden").unwrap();
    assert_eq!(name, "Tasks");
    assert_eq!(id, ".hidden");
    assert_eq!(
        name_and_id_from_path("dir/").unwrap_err(),
        ImporterError::InvalidPathFormat
    );
}

#[test]
fn file_types_from_extensions() {
    assert_eq!(get_file_type("a/b/page 1.md"), Some(FileType::Markdown));
    assert_eq!(get_file_type("table.csv"), Some(FileType::CSV));
    assert_eq!(get_file_type("image.png"), None);
    assert_eq!(get_file_type("README"), None);
    assert_eq!(get_file_type(".md"), None);
}

#[test]
fn zip_signatures() {
    assert!(is_multi_part_zip_file(&[0x50, 0x4b, 0x07, 0x08]));
    assert!(is_multi_part_zip_file(&[0x50, 0x4b, 0x03, 0x04]));
    assert!(!is_multi_part_zip_file(&[0x50, 0x4b, 0x05, 0x06]));
    assert!(!is_multi_part_zip_file(&[0, 0, 0, 0]));
}

#[test]
fn invalid_path_message() {
    let e = ImporterError::InvalidPath("can't get file name".to_string());
    assert_eq!(e.to_string(), "Invalid path: can't get file name");
}
