use vstd::prelude::*;

verus! {

/// Whether source maps and TypeScript sources are served beside the files
/// that a browser needs.
pub const INCLUDE_SOURCEMAPS_AND_TS: bool = true;

/// The kind of a file that is served to browsers.
#[derive(Debug, Clone, Copy, PartialEq, Eq, Structural)]
pub enum FileKind {
    Html,
    Css,
    Js,
    Ts,
    JsMap,
    Ico,
}

impl FileKind {
    /// Whether files of this kind are sources, which a browser can do
    /// without.
    pub open spec fn is_source(self) -> bool {
        self == FileKind::JsMap || self == FileKind::Ts
    }

    /// Whether files of this kind are served: all are, but sources only
    /// where `INCLUDE_SOURCEMAPS_AND_TS` says so.
    pub fn is_served(&self) -> (served: bool)
        ensures
            served == (INCLUDE_SOURCEMAPS_AND_TS || !self.is_source()),
    {
        INCLUDE_SOURCEMAPS_AND_TS || !matches!(self, FileKind::JsMap | FileKind::Ts)
    }

    /// The value of the `Content-Type` header for a file of this kind.
    pub fn content_type(&self) -> (header: &'static str)
        ensures
            header@ == match *self {
                FileKind::Html => "text/html; charset=utf-8"@,
                FileKind::Css => "text/css; charset=utf-8"@,
                FileKind::Js => "text/javascript; charset=utf-8"@,
                FileKind::Ts => "text/typescript; charset=utf-8"@,
                FileKind::JsMap => "application/json; charset=utf-8"@,
                FileKind::Ico => "image/x-icon"@,
            },
    {
        match self {
            FileKind::Html => "text/html; charset=utf-8",
            FileKind::Css => "text/css; charset=utf-8",
            FileKind::Js => "text/javascript; charset=utf-8",
            FileKind::Ts => "text/typescript; charset=utf-8",
            FileKind::JsMap => "application/json; charset=utf-8",
            FileKind::Ico => "image/x-icon",
        }
    }
}

/// A file of the browser front end, as it is served.
pub struct FrontEndFile {
    pub kind: FileKind,
    pub name: &'static str,
    pub path: &'static str,
    pub content: &'static [u8],
}

} // verus!
