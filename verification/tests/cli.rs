use macro_circom::cli::{create_files, remove_filename_suffix};

#[test]
fn test_main() {}

#[test]
fn light_suffix_is_required() {
    assert_eq!(
        remove_filename_suffix("dir/sub/file.light"),
        Ok(("dir/sub".to_string(), "file".to_string()))
    );
    assert_eq!(remove_filename_suffix("file.light"), Ok(("".to_string(), "file".to_string())));
    assert_eq!(
        remove_filename_suffix("file.txt"),
        Err("The file does not have a .light suffix")
    );
    assert_eq!(
        remove_filename_suffix("file"),
        Err("The file does not have a .light suffix")
    );
}

#[test]
fn files_to_create() {
    let files = create_files(
        "main".to_string(),
        "circuit".to_string(),
        "rust".to_string(),
        "dir".to_string(),
        "app".to_string(),
        "prog".to_string(),
    );
    assert_eq!(
        files,
        vec![
            ("dir/app.circom".to_string(), "main".to_string()),
            ("dir/app.circom".to_string(), "circuit".to_string()),
            ("./programs/prog/src/auto_generated_accounts.rs".to_string(), "rust".to_string()),
        ]
    );
}
