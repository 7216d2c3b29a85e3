//! What the progress display shows.
//!
//! The presenters of this module decide what a progress bar is to do at
//! each step of a run: when it is opened and in which style, which message
//! it carries, how far it has come, and when it is closed with a line of
//! text. They draw nothing; they hand the caller [`BarAction`]s to carry
//! out on a bar of its own.
use crate::package::PackageMetadata;
use vstd::prelude::*;

verus! {

/// How a bar is laid out.
#[derive(Debug, Clone, Copy, PartialEq, Eq, Structural)]
pub enum BarStyle {
    /// A transfer counted in bytes, with elapsed time and time left.
    Transfer,
    /// A file being read: message and bar only.
    Reading,
    /// The download of one package, counted in bytes.
    Download,
    /// The unpacking of one package, counted in entries.
    Extract,
    /// The building of the package tree.
    Tree,
}

/// One thing to do to a progress bar.
#[derive(Clone, Debug, PartialEq, Eq)]
pub enum BarAction {
    /// Open the bar: with a length where it is known, as a spinner where it
    /// is not, in the given style and with the given message, if any.
    Create { length: Option<u64>, style: BarStyle, message: Option<String> },
    SetLength(u64),
    SetPosition(u64),
    /// Move the position on by this much.
    Advance(u64),
    SetMessage(String),
    /// Print a line above the bar.
    Println(String),
    /// Close the bar and take it off the screen.
    FinishAndClear,
}

/// The mathematical value of a [`BarAction`].
pub enum BarActionView {
    Create { length: Option<u64>, style: BarStyle, message: Option<Seq<char>> },
    SetLength(u64),
    SetPosition(u64),
    Advance(u64),
    SetMessage(Seq<char>),
    Println(Seq<char>),
    FinishAndClear,
}

impl View for BarAction {
    type V = BarActionView;

    open spec fn view(&self) -> BarActionView {
        match *self {
            BarAction::Create { length, style, message } => BarActionView::Create {
                length,
                style,
                message: match message {
                    Some(text) => Some(text@),
                    None => None,
                },
            },
            BarAction::SetLength(length) => BarActionView::SetLength(length),
            BarAction::SetPosition(position) => BarActionView::SetPosition(position),
            BarAction::Advance(steps) => BarActionView::Advance(steps),
            BarAction::SetMessage(text) => BarActionView::SetMessage(text@),
            BarAction::Println(text) => BarActionView::Println(text@),
            BarAction::FinishAndClear => BarActionView::FinishAndClear,
        }
    }
}

/// The values of a list of actions.
pub open spec fn action_views(actions: Seq<BarAction>) -> Seq<BarActionView> {
    Seq::new(actions.len(), |i: int| actions[i]@)
}

/// The characters that draw the filled part, the tip and the empty part of a
/// bar.
pub const PROGRESS_CHARS: &'static str = "#>-";

/// The layout of a style, in the notation of the display.
pub open spec fn template_spec(style: BarStyle) -> Seq<char> {
    match style {
        BarStyle::Transfer => "{spinner:.green} {wide_msg}: [{elapsed_precise}] [{bar:80.cyan/blue}] {bytes}/{total_bytes} ({eta})"@,
        BarStyle::Reading => "{spinner:.green} {wide_msg}: [{bar:80.cyan/blue}]"@,
        BarStyle::Download => "{spinner:.green} Downloading {wide_msg}: [{elapsed_precise}] [{bar:80.cyan/blue}] {bytes}/{total_bytes} ({eta})"@,
        BarStyle::Extract => "{spinner:.green} Extracting {wide_msg}: [{elapsed_precise}] [{bar:80.cyan/blue}] {pos}/{len} ({eta})"@,
        BarStyle::Tree => "{spinner:.green} {wide_msg}: [{elapsed_precise}] [{bar:80.cyan/blue}]"@,
    }
}

impl BarStyle {
    /// The layout of the style, in the notation of the display.
    pub fn template(&self) -> (layout: &'static str)
        ensures
            layout@ == template_spec(*self),
    {
        match self {
            BarStyle::Transfer => "{spinner:.green} {wide_msg}: [{elapsed_precise}] [{bar:80.cyan/blue}] {bytes}/{total_bytes} ({eta})",
            BarStyle::Reading => "{spinner:.green} {wide_msg}: [{bar:80.cyan/blue}]",
            BarStyle::Download => "{spinner:.green} Downloading {wide_msg}: [{elapsed_precise}] [{bar:80.cyan/blue}] {bytes}/{total_bytes} ({eta})",
            BarStyle::Extract => "{spinner:.green} Extracting {wide_msg}: [{elapsed_precise}] [{bar:80.cyan/blue}] {pos}/{len} ({eta})",
            BarStyle::Tree => "{spinner:.green} {wide_msg}: [{elapsed_precise}] [{bar:80.cyan/blue}]",
        }
    }
}

/// A step of the loading of a repository.
#[derive(Clone, Debug, PartialEq, Eq)]
pub enum LoadEvent {
    /// The database is asked for.
    LoadingDb,
    /// Bytes of the database have come: how many so far, and of how many
    /// where that is known.
    LoadingDbChunk(u64, Option<u64>),
    /// A file of the database is read. Holds its name.
    ReadingDbFile(String),
    /// The database is read.
    ReadingDbDone,
    /// The file lists are asked for.
    LoadingFilesMetadata,
    /// Bytes of the file lists have come: how many so far, and of how many
    /// where that is known.
    LoadingFilesMetadataChunk(u64, Option<u64>),
    /// A file of the file lists is read. Holds its name.
    ReadingFilesMetadataFile(String),
    /// The file lists are read.
    ReadingFilesDone,
}

/// What opens a bar for an event where none is open: nothing where one is.
pub open spec fn opening(open: bool, create: BarActionView) -> Seq<BarActionView> {
    if open {
        Seq::empty()
    } else {
        seq![create]
    }
}

/// What closes a bar with a line of text.
pub open spec fn closing(line: Seq<char>) -> Seq<BarActionView> {
    seq![BarActionView::Println(line), BarActionView::FinishAndClear]
}

/// What a transfer in progress does to the bar and whether the bar stays
/// open: the bar is opened where none is, `moved` is done, and a transfer
/// that has all its bytes closes the bar with `done`.
pub open spec fn transfer_spec(
    open: bool,
    current: u64,
    size: Option<u64>,
    title: Seq<char>,
    moved: BarActionView,
    done: Seq<char>,
) -> (bool, Seq<BarActionView>) {
    let begun = opening(
        open,
        BarActionView::Create { length: size, style: BarStyle::Transfer, message: Some(title) },
    ) + seq![moved];
    if size == Some(current) {
        (false, begun + closing(done))
    } else {
        (true, begun)
    }
}

/// What the reading of a file does to the bar: the bar is opened where none
/// is, and the file is named in the message. The bar stays open.
pub open spec fn reading_spec(open: bool, file: Seq<char>) -> (bool, Seq<BarActionView>) {
    (
        true,
        opening(
            open,
            BarActionView::Create { length: None, style: BarStyle::Reading, message: None },
        ) + seq![BarActionView::SetMessage("Reading file "@ + file)],
    )
}

/// What the end of a reading does to the bar: an open bar is closed with
/// `done`. No bar is open afterwards.
pub open spec fn finished_spec(open: bool, done: Seq<char>) -> (bool, Seq<BarActionView>) {
    if open {
        (false, closing(done))
    } else {
        (false, Seq::empty())
    }
}

/// What an event of the loading of a repository does to the bar, and
/// whether a bar is open afterwards, given whether one is open before.
pub open spec fn report_spec(open: bool, event: LoadEvent) -> (bool, Seq<BarActionView>) {
    match event {
        LoadEvent::LoadingDb => (open, Seq::empty()),
        LoadEvent::LoadingFilesMetadata => (open, Seq::empty()),
        LoadEvent::LoadingDbChunk(current, size) => transfer_spec(
            open,
            current,
            size,
            "Loading repository"@,
            BarActionView::SetPosition(current),
            "Repository loaded"@,
        ),
        LoadEvent::LoadingFilesMetadataChunk(current, size) => transfer_spec(
            open,
            current,
            size,
            "Loading files metadata"@,
            BarActionView::SetLength(current),
            "Files metadata loaded"@,
        ),
        LoadEvent::ReadingDbFile(file) => reading_spec(open, file@),
        LoadEvent::ReadingFilesMetadataFile(file) => reading_spec(open, file@),
        LoadEvent::ReadingDbDone => finished_spec(open, "Repository reading complete"@),
        LoadEvent::ReadingFilesDone => finished_spec(
            open,
            "Repository files metadata reading complete"@,
        ),
    }
}

/// The views of a list with one more action.
proof fn lemma_action_views_push(actions: Seq<BarAction>, action: BarAction)
    ensures
        action_views(actions.push(action)) == action_views(actions).push(action@),
{
    assert(action_views(actions.push(action)) =~= action_views(actions).push(action@));
}

/// Adds an action to a list.
fn put(actions: &mut Vec<BarAction>, action: BarAction)
    ensures
        action_views(final(actions)@) == action_views(old(actions)@).push(action@),
{
    proof {
        lemma_action_views_push(actions@, action);
    }
    actions.push(action);
}

/// The display of the loading of a repository: one bar, opened by the first
/// event that has something to show and closed when a stage is over.
#[derive(Debug)]
pub struct RepoLoadProgress {
    open: bool,
}

impl View for RepoLoadProgress {
    type V = bool;

    /// Whether a bar is open.
    closed spec fn view(&self) -> bool {
        self.open
    }
}

impl RepoLoadProgress {
    /// Whether a bar is open.
    pub fn is_open(&self) -> (open: bool)
        ensures
            open == self@,
    {
        self.open
    }

    /// Opens the bar in the given way where none is open.
    fn begin(&self, length: Option<u64>, style: BarStyle, message: Option<String>) -> (actions:
        Vec<BarAction>)
        ensures
            action_views(actions@) == opening(
                self@,
                (BarAction::Create { length, style, message })@,
            ),
    {
        let mut actions: Vec<BarAction> = Vec::new();
        assert(action_views(actions@) =~= Seq::<BarActionView>::empty());
        if !self.open {
            put(&mut actions, BarAction::Create { length, style, message });
        }
        actions
    }

    /// Shows a transfer in progress.
    fn transfer(
        &mut self,
        current: u64,
        size: Option<u64>,
        title: &str,
        moved: BarAction,
        done: &str,
    ) -> (actions: Vec<BarAction>)
        ensures
            (final(self)@, action_views(actions@)) == transfer_spec(
                old(self)@,
                current,
                size,
                title@,
                moved@,
                done@,
            ),
    {
        let mut actions = self.begin(size, BarStyle::Transfer, Some(title.to_owned()));
        put(&mut actions, moved);
        self.open = true;
        let complete = match size {
            Some(all) => all == current,
            None => false,
        };
        if complete {
            put(&mut actions, BarAction::Println(done.to_owned()));
            put(&mut actions, BarAction::FinishAndClear);
            self.open = false;
            assert(action_views(actions@) =~= opening(
                old(self)@,
                BarActionView::Create {
                    length: size,
                    style: BarStyle::Transfer,
                    message: Some(title@),
                },
            ) + seq![moved@] + closing(done@));
        }
        actions
    }

    /// Shows the reading of a file.
    fn reading(&mut self, file: &str) -> (actions: Vec<BarAction>)
        ensures
            (final(self)@, action_views(actions@)) == reading_spec(old(self)@, file@),
    {
        let mut actions = self.begin(None, BarStyle::Reading, None);
        put(
            &mut actions,
            BarAction::SetMessage(String::from_str("Reading file ").concat(file)),
        );
        self.open = true;
        actions
    }

    /// Shows the end of a reading.
    fn finished(&mut self, done: &str) -> (actions: Vec<BarAction>)
        ensures
            (final(self)@, action_views(actions@)) == finished_spec(old(self)@, done@),
    {
        let mut actions: Vec<BarAction> = Vec::new();
        assert(action_views(actions@) =~= Seq::<BarActionView>::empty());
        if self.open {
            put(&mut actions, BarAction::Println(done.to_owned()));
            put(&mut actions, BarAction::FinishAndClear);
            assert(action_views(actions@) =~= closing(done@));
        }
        self.open = false;
        actions
    }

    /// Takes note of an event of the loading and says what the bar is to
    /// do.
    pub fn report(&mut self, progress: LoadEvent) -> (actions: Vec<BarAction>)
        ensures
            (final(self)@, action_views(actions@)) == report_spec(old(self)@, progress),
    {
        match progress {
            LoadEvent::LoadingDb => {
                let actions: Vec<BarAction> = Vec::new();
                assert(action_views(actions@) =~= Seq::<BarActionView>::empty());
                actions
            },
            LoadEvent::LoadingFilesMetadata => {
                let actions: Vec<BarAction> = Vec::new();
                assert(action_views(actions@) =~= Seq::<BarActionView>::empty());
                actions
            },
            LoadEvent::LoadingDbChunk(current, size) => self.transfer(
                current,
                size,
                "Loading repository",
                BarAction::SetPosition(current),
                "Repository loaded",
            ),
            LoadEvent::LoadingFilesMetadataChunk(current, size) => self.transfer(
                current,
                size,
                "Loading files metadata",
                BarAction::SetLength(current),
                "Files metadata loaded",
            ),
            LoadEvent::ReadingDbFile(file) => self.reading(file.as_str()),
            LoadEvent::ReadingFilesMetadataFile(file) => self.reading(file.as_str()),
            LoadEvent::ReadingDbDone => self.finished("Repository reading complete"),
            LoadEvent::ReadingFilesDone => self.finished(
                "Repository files metadata reading complete",
            ),
        }
    }
}

/// The display of the download of one package.
#[derive(Debug)]
pub struct PackageDownloadProgress {
    name: String,
}

impl View for PackageDownloadProgress {
    type V = Seq<char>;

    /// The name of the package.
    closed spec fn view(&self) -> Seq<char> {
        self.name@
    }
}

impl PackageDownloadProgress {
    /// Opens the bar, which carries the name of the package.
    pub fn open(&self) -> (actions: Vec<BarAction>)
        ensures
            action_views(actions@) == seq![
                BarActionView::Create {
                    length: Some(1u64),
                    style: BarStyle::Download,
                    message: Some(self@),
                },
            ],
    {
        let mut actions: Vec<BarAction> = Vec::new();
        assert(action_views(actions@) =~= Seq::<BarActionView>::empty());
        put(
            &mut actions,
            BarAction::Create {
                length: Some(1),
                style: BarStyle::Download,
                message: Some(self.name.clone()),
            },
        );
        actions
    }

    /// Shows that `pos` bytes have come, of `max` where the total is known.
    pub fn chunk(&self, pos: u64, max: Option<u64>) -> (actions: Vec<BarAction>)
        ensures
            action_views(actions@) == match max {
                Some(total) => seq![
                    BarActionView::SetLength(total),
                    BarActionView::SetPosition(pos),
                ],
                None => seq![BarActionView::SetPosition(pos)],
            },
    {
        let mut actions: Vec<BarAction> = Vec::new();
        assert(action_views(actions@) =~= Seq::<BarActionView>::empty());
        match max {
            Some(total) => {
                put(&mut actions, BarAction::SetLength(total));
            },
            None => {},
        }
        put(&mut actions, BarAction::SetPosition(pos));
        actions
    }

    /// Closes the bar and says that the package is downloaded.
    pub fn complete(self) -> (actions: Vec<BarAction>)
        ensures
            action_views(actions@) == closing("Package "@ + self@ + " downloaded"@),
    {
        let mut actions: Vec<BarAction> = Vec::new();
        assert(action_views(actions@) =~= Seq::<BarActionView>::empty());
        put(
            &mut actions,
            BarAction::Println(
                String::from_str("Package ").concat(self.name.as_str()).concat(" downloaded"),
            ),
        );
        put(&mut actions, BarAction::FinishAndClear);
        actions
    }
}

/// The display of the unpacking of one package.
#[derive(Debug)]
pub struct PackageExtractProgress {
    name: String,
}

impl View for PackageExtractProgress {
    type V = Seq<char>;

    /// The name of the package.
    closed spec fn view(&self) -> Seq<char> {
        self.name@
    }
}

impl PackageExtractProgress {
    /// Opens the bar, which carries the name of the package.
    pub fn open(&self) -> (actions: Vec<BarAction>)
        ensures
            action_views(actions@) == seq![
                BarActionView::Create {
                    length: Some(1u64),
                    style: BarStyle::Extract,
                    message: Some(self@),
                },
            ],
    {
        let mut actions: Vec<BarAction> = Vec::new();
        assert(action_views(actions@) =~= Seq::<BarActionView>::empty());
        put(
            &mut actions,
            BarAction::Create {
                length: Some(1),
                style: BarStyle::Extract,
                message: Some(self.name.clone()),
            },
        );
        actions
    }

    /// Shows how many entries the archive lists.
    pub fn set_count(&self, count: usize) -> (actions: Vec<BarAction>)
        ensures
            action_views(actions@) == seq![BarActionView::SetLength(count as u64)],
    {
        let mut actions: Vec<BarAction> = Vec::new();
        assert(action_views(actions@) =~= Seq::<BarActionView>::empty());
        put(&mut actions, BarAction::SetLength(count as u64));
        actions
    }

    /// Shows that the entry `file` is looked at: it is named in the
    /// message, and the bar moves on by one.
    pub fn file(&self, file: &str) -> (actions: Vec<BarAction>)
        ensures
            action_views(actions@) == seq![
                BarActionView::SetMessage(file@),
                BarActionView::Advance(1u64),
            ],
    {
        let mut actions: Vec<BarAction> = Vec::new();
        assert(action_views(actions@) =~= Seq::<BarActionView>::empty());
        put(&mut actions, BarAction::SetMessage(file.to_owned()));
        put(&mut actions, BarAction::Advance(1));
        actions
    }

    /// Closes the bar and says that the package is unpacked.
    pub fn complete(self) -> (actions: Vec<BarAction>)
        ensures
            action_views(actions@) == closing("Package "@ + self@ + " extracted"@),
    {
        let mut actions: Vec<BarAction> = Vec::new();
        assert(action_views(actions@) =~= Seq::<BarActionView>::empty());
        put(
            &mut actions,
            BarAction::Println(
                String::from_str("Package ").concat(self.name.as_str()).concat(" extracted"),
            ),
        );
        put(&mut actions, BarAction::FinishAndClear);
        actions
    }
}

/// The display of the building of the package tree.
#[derive(Debug)]
pub struct TreeBuildProgress {}

impl TreeBuildProgress {
    /// Opens the bar as a spinner.
    pub fn open(&self) -> (actions: Vec<BarAction>)
        ensures
            action_views(actions@) == seq![
                BarActionView::Create {
                    length: None,
                    style: BarStyle::Tree,
                    message: Some("Building tree"@),
                },
            ],
    {
        let mut actions: Vec<BarAction> = Vec::new();
        assert(action_views(actions@) =~= Seq::<BarActionView>::empty());
        put(
            &mut actions,
            BarAction::Create {
                length: None,
                style: BarStyle::Tree,
                message: Some(String::from_str("Building tree")),
            },
        );
        actions
    }

    /// Shows that `package` is looked at.
    pub fn index(&self, package: &PackageMetadata) -> (actions: Vec<BarAction>)
        ensures
            action_views(actions@) == seq![
                BarActionView::SetMessage("Indexing "@ + package@.name),
            ],
    {
        let mut actions: Vec<BarAction> = Vec::new();
        assert(action_views(actions@) =~= Seq::<BarActionView>::empty());
        put(
            &mut actions,
            BarAction::SetMessage(String::from_str("Indexing ").concat(package.name.as_str())),
        );
        actions
    }

    /// Closes the bar and says that the tree is built.
    pub fn done(self) -> (actions: Vec<BarAction>)
        ensures
            action_views(actions@) == closing("Tree built"@),
    {
        let mut actions: Vec<BarAction> = Vec::new();
        assert(action_views(actions@) =~= Seq::<BarActionView>::empty());
        put(&mut actions, BarAction::Println(String::from_str("Tree built")));
        put(&mut actions, BarAction::FinishAndClear);
        actions
    }
}

/// Where the displays of a run come from.
#[derive(Debug)]
pub struct Progress {}

impl Progress {
    pub fn new() -> Progress {
        Progress {  }
    }

    /// The display of the loading of the repository, with no bar open.
    pub fn repo(&self) -> (display: RepoLoadProgress)
        ensures
            !display@,
    {
        RepoLoadProgress { open: false }
    }

    /// The display of the building of the package tree.
    pub fn tree(&self) -> TreeBuildProgress {
        TreeBuildProgress {  }
    }

    /// The display of the download of the package named `name`.
    pub fn package_download(&self, name: &str) -> (display: PackageDownloadProgress)
        ensures
            display@ == name@,
    {
        PackageDownloadProgress { name: name.to_owned() }
    }

    /// The display of the unpacking of the package named `name`.
    pub fn package_extract(&self, name: &str) -> (display: PackageExtractProgress)
        ensures
            display@ == name@,
    {
        PackageExtractProgress { name: name.to_owned() }
    }
}

} // verus!
