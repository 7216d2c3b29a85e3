use windows_toolchain_builder::package::PackageMetadata;
use windows_toolchain_builder::progress::BarAction;
use windows_toolchain_builder::progress::BarStyle;
use windows_toolchain_builder::progress::LoadEvent;
use windows_toolchain_builder::progress::Progress;
use windows_toolchain_builder::progress::PROGRESS_CHARS;

fn text(s: &str) -> String {
    s.to_string()
}

fn transfer_bar(length: Option<u64>, message: &str) -> BarAction {
    BarAction::Create { length, style: BarStyle::Transfer, message: Some(text(message)) }
}

fn reading_bar() -> BarAction {
    BarAction::Create { length: None, style: BarStyle::Reading, message: None }
}

#[test]
fn requests_show_nothing() {
    let mut display = Progress::new().repo();
    assert!(display.report(LoadEvent::LoadingDb).is_empty());
    assert!(!display.is_open());
    assert!(display.report(LoadEvent::LoadingFilesMetadata).is_empty());
    assert!(!display.is_open());
}

#[test]
fn database_transfer_opens_moves_and_closes_the_bar() {
    let mut display = Progress::new().repo();
    assert_eq!(
        display.report(LoadEvent::LoadingDbChunk(10, Some(30))),
        vec![transfer_bar(Some(30), "Loading repository"), BarAction::SetPosition(10)]
    );
    assert!(display.is_open());
    assert_eq!(
        display.report(LoadEvent::LoadingDbChunk(20, Some(30))),
        vec![BarAction::SetPosition(20)]
    );
    assert_eq!(
        display.report(LoadEvent::LoadingDbChunk(30, Some(30))),
        vec![
            BarAction::SetPosition(30),
            BarAction::Println(text("Repository loaded")),
            BarAction::FinishAndClear,
        ]
    );
    assert!(!display.is_open());
}

#[test]
fn transfer_of_unknown_size_is_a_spinner_that_stays_open() {
    let mut display = Progress::new().repo();
    assert_eq!(
        display.report(LoadEvent::LoadingDbChunk(5, None)),
        vec![transfer_bar(None, "Loading repository"), BarAction::SetPosition(5)]
    );
    assert_eq!(display.report(LoadEvent::LoadingDbChunk(9, None)), vec![BarAction::SetPosition(9)]);
    assert!(display.is_open());
}

#[test]
fn transfer_that_comes_in_one_piece_opens_and_closes_at_once() {
    let mut display = Progress::new().repo();
    assert_eq!(
        display.report(LoadEvent::LoadingFilesMetadataChunk(8, Some(8))),
        vec![
            transfer_bar(Some(8), "Loading files metadata"),
            BarAction::SetLength(8),
            BarAction::Println(text("Files metadata loaded")),
            BarAction::FinishAndClear,
        ]
    );
    assert!(!display.is_open());
}

#[test]
fn file_lists_transfer_sets_the_length() {
    let mut display = Progress::new().repo();
    assert_eq!(
        display.report(LoadEvent::LoadingFilesMetadataChunk(3, Some(8))),
        vec![transfer_bar(Some(8), "Loading files metadata"), BarAction::SetLength(3)]
    );
    assert!(display.is_open());
}

#[test]
fn reading_names_the_file_and_the_end_closes_the_bar() {
    let mut display = Progress::new().repo();
    assert_eq!(
        display.report(LoadEvent::ReadingDbFile(text("zlib-1.2/desc"))),
        vec![reading_bar(), BarAction::SetMessage(text("Reading file zlib-1.2/desc"))]
    );
    assert_eq!(
        display.report(LoadEvent::ReadingDbFile(text("gtk/desc"))),
        vec![BarAction::SetMessage(text("Reading file gtk/desc"))]
    );
    assert_eq!(
        display.report(LoadEvent::ReadingDbDone),
        vec![BarAction::Println(text("Repository reading complete")), BarAction::FinishAndClear]
    );
    assert!(!display.is_open());
    assert!(display.report(LoadEvent::ReadingDbDone).is_empty());
}

#[test]
fn file_lists_reading_ends_with_its_own_line() {
    let mut display = Progress::new().repo();
    assert_eq!(
        display.report(LoadEvent::ReadingFilesMetadataFile(text("gtk/files"))),
        vec![reading_bar(), BarAction::SetMessage(text("Reading file gtk/files"))]
    );
    assert_eq!(
        display.report(LoadEvent::ReadingFilesDone),
        vec![
            BarAction::Println(text("Repository files metadata reading complete")),
            BarAction::FinishAndClear,
        ]
    );
    assert!(display.report(LoadEvent::ReadingFilesDone).is_empty());
}

#[test]
fn reading_goes_on_in_a_bar_that_a_transfer_left_open() {
    let mut display = Progress::new().repo();
    display.report(LoadEvent::LoadingDbChunk(1, None));
    assert_eq!(
        display.report(LoadEvent::ReadingDbFile(text("a"))),
        vec![BarAction::SetMessage(text("Reading file a"))]
    );
}

#[test]
fn download_display() {
    let display = Progress::new().package_download("zlib");
    assert_eq!(
        display.open(),
        vec![BarAction::Create {
            length: Some(1),
            style: BarStyle::Download,
            message: Some(text("zlib")),
        }]
    );
    assert_eq!(
        display.chunk(512, Some(2048)),
        vec![BarAction::SetLength(2048), BarAction::SetPosition(512)]
    );
    assert_eq!(display.chunk(512, None), vec![BarAction::SetPosition(512)]);
    assert_eq!(
        display.complete(),
        vec![BarAction::Println(text("Package zlib downloaded")), BarAction::FinishAndClear]
    );
}

#[test]
fn extract_display() {
    let display = Progress::new().package_extract("zlib");
    assert_eq!(
        display.open(),
        vec![BarAction::Create {
            length: Some(1),
            style: BarStyle::Extract,
            message: Some(text("zlib")),
        }]
    );
    assert_eq!(display.set_count(12), vec![BarAction::SetLength(12)]);
    assert_eq!(
        display.file("bin/zlib1.dll"),
        vec![BarAction::SetMessage(text("bin/zlib1.dll")), BarAction::Advance(1)]
    );
    assert_eq!(
        display.complete(),
        vec![BarAction::Println(text("Package zlib extracted")), BarAction::FinishAndClear]
    );
}

#[test]
fn tree_display() {
    let display = Progress::new().tree();
    assert_eq!(
        display.open(),
        vec![BarAction::Create {
            length: None,
            style: BarStyle::Tree,
            message: Some(text("Building tree")),
        }]
    );
    let package = PackageMetadata {
        name: text("gtk3"),
        base: None,
        version: text("3"),
        depends: vec![],
        file_name: text("gtk3.pkg"),
        compressed_size: 1,
    };
    assert_eq!(display.index(&package), vec![BarAction::SetMessage(text("Indexing gtk3"))]);
    assert_eq!(
        display.done(),
        vec![BarAction::Println(text("Tree built")), BarAction::FinishAndClear]
    );
}

#[test]
fn templates() {
    assert_eq!(
        BarStyle::Transfer.template(),
        "{spinner:.green} {wide_msg}: [{elapsed_precise}] [{bar:80.cyan/blue}] {bytes}/{total_bytes} ({eta})"
    );
    assert_eq!(BarStyle::Reading.template(), "{spinner:.green} {wide_msg}: [{bar:80.cyan/blue}]");
    assert_eq!(
        BarStyle::Download.template(),
        "{spinner:.green} Downloading {wide_msg}: [{elapsed_precise}] [{bar:80.cyan/blue}] {bytes}/{total_bytes} ({eta})"
    );
    assert_eq!(
        BarStyle::Extract.template(),
        "{spinner:.green} Extracting {wide_msg}: [{elapsed_precise}] [{bar:80.cyan/blue}] {pos}/{len} ({eta})"
    );
    assert_eq!(
        BarStyle::Tree.template(),
        "{spinner:.green} {wide_msg}: [{elapsed_precise}] [{bar:80.cyan/blue}]"
    );
    assert_eq!(PROGRESS_CHARS, "#>-");
}
