//! Which file answers a request for the web UI, and with which headers.
//!
//! The UI is served from one of three places: files bundled into the
//! program, a directory on disk, or nowhere. Everything here is a decision
//! on plain values; reading the disk and speaking HTTP are left to the host.

use include_dir::{Dir, File};
use std::path::Path;
use vstd::prelude::*;

verus! {

/// Status of a response that carries the requested file.
pub const STATUS_OK: u16 = 200;

/// Status of a response for a path that names no file.
pub const STATUS_NOT_FOUND: u16 = 404;

/// Status of a response for a file that exists but could not be read.
pub const STATUS_INTERNAL_SERVER_ERROR: u16 = 500;

/// Where `/` redirects to.
pub const INDEX_PATH: &'static str = "/index.html";

/// The content type of every error page.
pub const HTML: &'static str = "text/html";

/// The content type of a file whose extension is not in the table.
pub const OCTET_STREAM: &'static str = "application/octet-stream";

/// Body of the answer for a path that names no file.
pub const NOT_FOUND_PAGE: &'static str = "<body><h1>404 Not Found</h1></body>";

/// Body of every answer when the program runs without a UI.
pub const NO_UI_PAGE: &'static str =
    "<body><h1>There is no UI bundled with this version of the application.</h1></body>";

/// Body of the answer for a file on disk that could not be read.
pub const READ_FAILED_PAGE: &'static str =
    "<body><h1>500 Internal Server Error</h1><p>Failed to read file in override web-ui directory</p></body>";

/// The content type that the table gives for a file extension (without its
/// dot). Extensions are matched exactly, case included; any other extension
/// is served as an opaque byte stream.
pub open spec fn content_type_of(ext: Seq<char>) -> Seq<char> {
    if ext == "htm"@ || ext == "html"@ {
        "text/html"@
    } else if ext == "jpg"@ || ext == "jpeg"@ {
        "image/jpeg"@
    } else if ext == "js"@ {
        "text/javascript"@
    } else if ext == "json"@ {
        "application/json"@
    } else if ext == "png"@ {
        "image/png"@
    } else if ext == "weba"@ {
        "audio/weba"@
    } else if ext == "webm"@ {
        "video/webm"@
    } else if ext == "webp"@ {
        "image/webp"@
    } else if ext == "txt"@ {
        "text/plain"@
    } else if ext == "mp3"@ {
        "audio/mp3"@
    } else if ext == "mp4"@ {
        "video/mp4"@
    } else if ext == "ttf"@ {
        "font/ttf"@
    } else if ext == "otf"@ {
        "font/otf"@
    } else if ext == "css"@ {
        "text/css"@
    } else {
        OCTET_STREAM@
    }
}

/// The content type of a file with no extension: that of the extension `bin`.
pub open spec fn content_type_of_extension(ext: Option<Seq<char>>) -> Seq<char> {
    match ext {
        Some(ext) => content_type_of(ext),
        None => content_type_of("bin"@),
    }
}

/// `str`'s `==`: two strings are equal exactly when they hold the same
/// characters.
pub assume_specification[ <str as PartialEq>::eq ](a: &str, b: &str) -> (same: bool)
    ensures
        same == (a@ == b@),
;

/// The extension of the file that `path` names, if it has one: what the
/// platform's path syntax makes of the text, and of nothing else.
pub uninterp spec fn path_extension(path: Seq<char>) -> Option<Seq<char>>;

/// `path` adjoined to `dir` by the platform's path syntax.
pub uninterp spec fn path_join(dir: Seq<char>, path: Seq<char>) -> Seq<char>;

/// `Path::extension` on `path`, as text: the part of the file name after its
/// last dot, if the path has a file name with a dot that is not its first
/// character. The contract claims no more than that the result is fixed by
/// the path's text, and calls it [`path_extension`].
#[verifier::external_body]
fn extension(path: &str) -> (ext: Option<&str>)
    ensures
        path_extension(path@) == match ext {
            Some(ext) => Some(ext@),
            None => None,
        },
{
    match Path::new(path).extension() {
        Some(ext) => ext.to_str(),
        None => None,
    }
}

/// `Path::join`, as text: `path` adjoined to `dir` (an absolute `path`
/// replaces `dir`). The contract claims no more than that the result is
/// fixed by the two texts, and calls it [`path_join`].
#[verifier::external_body]
fn join(dir: &str, path: &str) -> (joined: String)
    ensures
        joined@ == path_join(dir@, path@),
{
    Path::new(dir).join(path).to_string_lossy().into_owned()
}

/// The content type for a file extension, from the table.
pub fn content_type_for(ext: Option<&str>) -> (mime: &'static str)
    ensures
        mime@ == content_type_of_extension(
            match ext {
                Some(ext) => Some(ext@),
                None => None,
            },
        ),
{
    let ext = match ext {
        Some(ext) => ext,
        None => "bin",
    };
    if ext.eq("htm") || ext.eq("html") {
        "text/html"
    } else if ext.eq("jpg") || ext.eq("jpeg") {
        "image/jpeg"
    } else if ext.eq("js") {
        "text/javascript"
    } else if ext.eq("json") {
        "application/json"
    } else if ext.eq("png") {
        "image/png"
    } else if ext.eq("weba") {
        "audio/weba"
    } else if ext.eq("webm") {
        "video/webm"
    } else if ext.eq("webp") {
        "image/webp"
    } else if ext.eq("txt") {
        "text/plain"
    } else if ext.eq("mp3") {
        "audio/mp3"
    } else if ext.eq("mp4") {
        "video/mp4"
    } else if ext.eq("ttf") {
        "font/ttf"
    } else if ext.eq("otf") {
        "font/otf"
    } else if ext.eq("css") {
        "text/css"
    } else {
        OCTET_STREAM
    }
}

/// Guesses the content type of a file from the extension of its path: the
/// table's entry for the extension, and an opaque byte stream for a path
/// without one.
pub fn guess_content_type(path: &str) -> (mime: &'static str)
    ensures
        mime@ == content_type_of_extension(path_extension(path@)),
{
    content_type_for(extension(path))
}

/// What a response carries after its headers.
#[derive(Debug, PartialEq, Eq)]
pub enum UiBody {
    /// One of the fixed error pages.
    Page(&'static str),
    /// The bytes of the requested file.
    Bytes(Vec<u8>),
}

/// An answer to a request for a UI file, as plain values.
#[derive(Debug, PartialEq, Eq)]
pub struct UiResponse {
    pub status: u16,
    pub content_type: &'static str,
    /// Whether the answer may be read from any origin
    /// (`Access-Control-Allow-Origin: *`).
    pub allow_any_origin: bool,
    pub body: UiBody,
}

impl UiResponse {
    /// The response is the error page `page`, sent as HTML with `status`.
    pub open spec fn is_page(&self, status: u16, page: Seq<char>) -> bool {
        &&& self.status == status
        &&& self.content_type@ == HTML@
        &&& !self.allow_any_origin
        &&& self.body matches UiBody::Page(text)
        &&& text@ == page
    }

    /// The response delivers a file of content type `mime` holding `bytes`,
    /// readable from any origin.
    pub open spec fn is_file(&self, mime: Seq<char>, bytes: Seq<u8>) -> bool {
        &&& self.status == STATUS_OK
        &&& self.content_type@ == mime
        &&& self.allow_any_origin
        &&& self.body matches UiBody::Bytes(body)
        &&& body@ == bytes
    }

    /// An error page.
    pub fn page(status: u16, page: &'static str) -> (response: UiResponse)
        ensures
            response.is_page(status, page@),
    {
        UiResponse { status, content_type: HTML, allow_any_origin: false, body: UiBody::Page(page) }
    }

    /// A file, served to any origin.
    pub fn file(content_type: &'static str, bytes: Vec<u8>) -> (response: UiResponse)
        ensures
            response.is_file(content_type@, bytes@),
    {
        UiResponse {
            status: STATUS_OK,
            content_type,
            allow_any_origin: true,
            body: UiBody::Bytes(bytes),
        }
    }
}

/// `include_dir::Dir`: a directory of files that were built into the
/// program. Nothing of its inside is known here.
#[verifier::external_type_specification]
#[verifier::external_body]
pub struct ExDir<'a>(Dir<'a>);

/// `include_dir::File`: one file of such a directory. Nothing of its inside
/// is known here.
#[verifier::external_type_specification]
#[verifier::external_body]
pub struct ExFile<'a>(File<'a>);

/// The files of a bundle: each path that a lookup finds, with the path under
/// which the file was bundled and its bytes. Several spellings of a path may
/// lead to one file.
pub uninterp spec fn bundle_files(dir: Dir<'static>) -> Map<Seq<char>, (Seq<char>, Seq<u8>)>;

/// The path under which a bundled file was stored.
pub uninterp spec fn file_path(file: File<'static>) -> Seq<char>;

/// The bytes of a bundled file.
pub uninterp spec fn file_bytes(file: File<'static>) -> Seq<u8>;

/// `Dir::get_file`: searches the bundle, subdirectories included, for the
/// entry at `path`, and hands it out if it is a file. The bundle is
/// immutable, so a path always leads to the same file or to none, and that
/// is all the contract claims: [`bundle_files`] is the name for what the
/// lookups find.
#[verifier::external_body]
fn get_file(dir: &'static Dir<'static>, path: &str) -> (found: Option<&'static File<'static>>)
    ensures
        match found {
            Some(file) => bundle_files(*dir).dom().contains(path@) && bundle_files(*dir)[path@] == (
                file_path(*file),
                file_bytes(*file),
            ),
            None => !bundle_files(*dir).dom().contains(path@),
        },
{
    dir.get_file(path)
}

/// `File::path`, as text: the path that the file was bundled under, which
/// the contract calls [`file_path`].
#[verifier::external_body]
fn stored_path(file: &'static File<'static>) -> (path: String)
    ensures
        path@ == file_path(*file),
{
    file.path().to_string_lossy().into_owned()
}

/// `File::contents`, copied out: the file's bytes, which the contract calls
/// [`file_bytes`].
#[verifier::external_body]
fn contents(file: &'static File<'static>) -> (bytes: Vec<u8>)
    ensures
        bytes@ == file_bytes(*file),
{
    file.contents().to_vec()
}

/// What came of looking for a file on disk.
#[derive(Debug, PartialEq, Eq)]
pub enum DiskRead {
    /// The path names no regular file.
    NotAFile,
    /// The file is there but reading it failed.
    Failed,
    /// The file's bytes.
    Contents(Vec<u8>),
}

/// The next thing to do for a request: send a response, or read a file from
/// disk and come back with [`UISource::get_dynamic_ui`].
#[derive(Debug, PartialEq, Eq)]
pub enum UiAnswer {
    Ready(UiResponse),
    ReadFile(String),
}

/// Where to get the web UI files to serve.
#[derive(Debug)]
pub enum UISource {
    /// Serve the files bundled into the program.
    Bundled(&'static Dir<'static>),
    /// Load from this directory on disk.
    Dynamic(String),
    /// Serve no UI.
    NoUi,
}

impl Clone for UISource {
    fn clone(&self) -> (twin: UISource)
        ensures
            twin == *self,
    {
        match self {
            UISource::Bundled(dir) => UISource::Bundled(dir),
            UISource::Dynamic(dir) => UISource::Dynamic(dir.clone()),
            UISource::NoUi => UISource::NoUi,
        }
    }
}

impl Default for UISource {
    fn default() -> (source: UISource)
        ensures
            source is NoUi,
    {
        UISource::NoUi
    }
}

impl UISource {
    /// The source that serves the bundle `dir`.
    pub fn bundled(dir: &'static Dir<'static>) -> (source: UISource)
        ensures
            source == UISource::Bundled(dir),
    {
        UISource::Bundled(dir)
    }

    /// `response` answers a request for `path` from the bundle `dir`: the
    /// file that the bundle holds there, with the content type of the path it
    /// was bundled under, or the not-found page.
    pub open spec fn answers_from_bundle(
        dir: Dir<'static>,
        path: Seq<char>,
        response: UiResponse,
    ) -> bool {
        if bundle_files(dir).dom().contains(path) {
            let (stored, bytes) = bundle_files(dir)[path];
            response.is_file(content_type_of_extension(path_extension(stored)), bytes)
        } else {
            response.is_page(STATUS_NOT_FOUND, NOT_FOUND_PAGE@)
        }
    }

    /// `response` is what a read of the file at `file_path` with outcome
    /// `read` leads to.
    pub open spec fn answers_from_disk(
        file_path: Seq<char>,
        read: DiskRead,
        response: UiResponse,
    ) -> bool {
        match read {
            DiskRead::NotAFile => response.is_page(STATUS_NOT_FOUND, NOT_FOUND_PAGE@),
            DiskRead::Failed => response.is_page(STATUS_INTERNAL_SERVER_ERROR, READ_FAILED_PAGE@),
            DiskRead::Contents(bytes) => response.is_file(
                content_type_of_extension(path_extension(file_path)),
                bytes@,
            ),
        }
    }

    /// Decides how a request for `path` is answered. A bundled file and the
    /// absence of a UI are answered at once; a file on disk, at `path` under
    /// the source's directory, has to be read first.
    pub fn get_ui(&self, path: &str) -> (answer: UiAnswer)
        ensures
            match *self {
                UISource::Bundled(dir) => answer matches UiAnswer::Ready(response)
                    && Self::answers_from_bundle(*dir, path@, response),
                UISource::Dynamic(dir) => answer matches UiAnswer::ReadFile(file_path)
                    && file_path@ == path_join(dir@, path@),
                UISource::NoUi => answer matches UiAnswer::Ready(response) && response.is_page(
                    STATUS_NOT_FOUND,
                    NO_UI_PAGE@,
                ),
            },
    {
        match self {
            UISource::Bundled(dir) => UiAnswer::Ready(Self::get_bundled_ui(dir, path)),
            UISource::Dynamic(dir) => UiAnswer::ReadFile(join(dir.as_str(), path)),
            UISource::NoUi => UiAnswer::Ready(UiResponse::page(STATUS_NOT_FOUND, NO_UI_PAGE)),
        }
    }

    /// Answers a request for `path` from the bundle `dir`.
    pub fn get_bundled_ui(dir: &'static Dir<'static>, path: &str) -> (response: UiResponse)
        ensures
            Self::answers_from_bundle(*dir, path@, response),
    {
        match get_file(dir, path) {
            None => UiResponse::page(STATUS_NOT_FOUND, NOT_FOUND_PAGE),
            Some(file) => {
                let stored = stored_path(file);
                let content_type = guess_content_type(stored.as_str());
                UiResponse::file(content_type, contents(file))
            },
        }
    }

    /// Answers a request for the file at `file_path` on disk, given what
    /// reading it gave.
    pub fn get_dynamic_ui(file_path: &str, read: DiskRead) -> (response: UiResponse)
        ensures
            Self::answers_from_disk(file_path@, read, response),
    {
        match read {
            DiskRead::NotAFile => UiResponse::page(STATUS_NOT_FOUND, NOT_FOUND_PAGE),
            DiskRead::Failed => UiResponse::page(STATUS_INTERNAL_SERVER_ERROR, READ_FAILED_PAGE),
            DiskRead::Contents(bytes) => {
                let content_type = guess_content_type(file_path);
                UiResponse::file(content_type, bytes)
            },
        }
    }
}

} // verus!
