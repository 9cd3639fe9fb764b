use macro_circom::parser::{
    check_custom_gates_version, check_number_version, parse_number_version, FileSearch,
    VersionReport,
};

#[test]
fn version_numbers() {
    assert_eq!(parse_number_version("2.1.4"), (2, 1, 4));
    assert_eq!(parse_number_version("+2.01.4.9"), (2, 1, 4));
    assert_eq!(parse_number_version("10.0.123"), (10, 0, 123));
}

#[test]
fn compiler_version_checks() {
    assert_eq!(check_number_version("f".to_string(), Some((2, 1, 4)), (2, 1, 4)), Ok(vec![]));
    assert_eq!(check_number_version("f".to_string(), Some((2, 0, 9)), (2, 1, 0)), Ok(vec![]));
    assert_eq!(
        check_number_version("f".to_string(), Some((2, 1, 5)), (2, 1, 4)),
        Err(VersionReport::CompilerVersionError {
            path: "f".to_string(),
            required_version: (2, 1, 5),
            version: (2, 1, 4)
        })
    );
    assert_eq!(
        check_number_version("f".to_string(), Some((1, 0, 0)), (2, 1, 4)),
        Err(VersionReport::CompilerVersionError {
            path: "f".to_string(),
            required_version: (1, 0, 0),
            version: (2, 1, 4)
        })
    );
    assert_eq!(
        check_number_version("f".to_string(), None, (2, 1, 4)),
        Ok(vec![VersionReport::NoCompilerVersionWarning { path: "f".to_string(), version: (2, 1, 4) }])
    );
}

#[test]
fn custom_gates_version_checks() {
    assert_eq!(check_custom_gates_version("f".to_string(), Some((2, 0, 6)), (2, 0, 0)), Ok(()));
    assert_eq!(check_custom_gates_version("f".to_string(), None, (2, 1, 0)), Ok(()));
    assert_eq!(
        check_custom_gates_version("a.circom".to_string(), Some((2, 0, 5)), (2, 1, 0)),
        Err(VersionReport::CustomGatesVersionError {
            message: "File a.circom requires at least version (2, 0, 6) to use custom templates (currently (2, 0, 5))".to_string()
        })
    );
    assert_eq!(
        check_custom_gates_version("a.circom".to_string(), None, (1, 9, 10)),
        Err(VersionReport::CustomGatesVersionError {
            message: "File a.circom does not include pragma version and the compiler version (currently (1, 9, 10)) should be at least (2, 0, 6) to use custom templates".to_string()
        })
    );
}

#[test]
fn file_search_tries_libraries_in_order() {
    let libs = vec!["".to_string(), "lib".to_string()];
    let mut search = FileSearch::new("a.circom");
    let first = search.next_candidate(&libs, "a.circom").unwrap();
    assert_eq!(first, "a.circom");
    search.record(first, Err("not there".to_string()));
    let second = search.next_candidate(&libs, "a.circom").unwrap();
    assert_eq!(second, "lib/a.circom");
    search.record(second, Ok(("lib/a.circom".to_string(), "src".to_string())));
    assert!(search.found);
    assert_eq!(search.src, "src");
    assert_eq!(search.reports, vec!["not there".to_string()]);
    assert_eq!(search.next_candidate(&libs, "a.circom"), None);
}
