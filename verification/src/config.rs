//! Configuration values the viewer core is driven by: the kind of an opened
//! container, the pagination mode, the resize-quality selection, and the set
//! of user actions. The core takes these as plain inputs; reading them from
//! disk and binding them to keys is the surrounding application's job.
use vstd::prelude::*;

verus! {

/// The kind of container an opened source was recognised as.
#[derive(Debug, PartialEq, Eq, Structural, Clone, Copy)]
pub enum SourceMode {
    Zip,
    Folder,
    Pdf,
    Rar,
}

/// How pages are combined into one view.
#[derive(Debug, PartialEq, Eq, Structural, Clone, Copy)]
pub enum PageViewOptions {
    /// One page at a time.
    Single,
    /// Two pages, read right to left.
    DoubleRL,
    /// Two pages, read left to right.
    DoubleLR,
}

/// The resize-quality selection for display scaling. The scaling itself runs
/// outside the core; the core only carries the choice.
#[derive(Debug, PartialEq, Eq, Structural, Clone, Copy)]
pub enum ResizeMethod {
    /// Use the original resolution.
    Original,
    /// Nearest neighbour (fastest).
    Nearest,
    /// Bilinear.
    Triangle,
    /// Bicubic.
    CatmullRom,
    /// High quality, slow.
    Lanczos3,
}

/// Everything a user gesture can ask of the viewer.
#[derive(Debug, PartialEq, Eq, Structural, Clone, Copy)]
pub enum MangaAction {
    Idle,
    NextPage,
    PrevPage,
    FirstPage,
    LastPage,
    NextFile,
    PrevFile,
    NextFolder,
    PrevFolder,
    FullScreen,
    ViewMode,
    OpenFile,
    QuitApp,
}

/// The settings the core consumes. Persisting them, and the display-only
/// values that go with them (panel width, key bindings), stay outside.
#[derive(Debug, PartialEq, Eq, Structural, Clone, Copy)]
pub struct ViewConfig {
    pub resize_method: ResizeMethod,
    pub page_view_options: PageViewOptions,
    pub transparency_support: bool,
    pub enable_single_file_caching: bool,
}

impl ViewConfig {
    /// The defaults used when no stored settings exist.
    pub fn new_default() -> (r: ViewConfig)
        ensures
            r.resize_method == ResizeMethod::Triangle,
            r.page_view_options == PageViewOptions::DoubleRL,
            !r.transparency_support,
            r.enable_single_file_caching,
    {
        ViewConfig {
            resize_method: ResizeMethod::Triangle,
            page_view_options: PageViewOptions::DoubleRL,
            transparency_support: false,
            enable_single_file_caching: true,
        }
    }
}

} // verus!
