use windows_toolchain_builder::error::ProgramError;

#[test]
fn missing_dependency_message() {
    let error = ProgramError::MissingDependency("mingw-w64-x86_64-gtk3".to_string());
    assert_eq!(error.message(), "Package mingw-w64-x86_64-gtk3 not found");
}

#[test]
fn download_failure_message() {
    let error = ProgramError::DownloadFailure {
        package: "zlib".to_string(),
        cause: "connection reset".to_string(),
    };
    assert_eq!(error.message(), "Package zlib could not be downloaded: connection reset");
}

#[test]
fn extraction_failure_messages() {
    let entry = ProgramError::ExtractionFailure {
        package: "zlib".to_string(),
        entry: Some("bin/zlib1.dll".to_string()),
        cause: "truncated".to_string(),
    };
    assert_eq!(
        entry.message(),
        "Entry bin/zlib1.dll of package zlib could not be extracted: truncated"
    );
    let listing = ProgramError::ExtractionFailure {
        package: "zlib".to_string(),
        entry: None,
        cause: "not an archive".to_string(),
    };
    assert_eq!(listing.message(), "Archive of package zlib could not be read: not an archive");
}

#[test]
fn filesystem_failure_message() {
    let error = ProgramError::FilesystemFailure {
        path: "out/bin/a.dll".to_string(),
        cause: "denied".to_string(),
    };
    assert_eq!(error.message(), "File out/bin/a.dll could not be written: denied");
}
