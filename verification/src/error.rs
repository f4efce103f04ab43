//! Errors produced by the library.

use vstd::prelude::*;
use vstd::string::*;

verus! {

/// Declares `std::io::Error`; nothing is known of what is inside a value.
#[verifier::external_type_specification]
#[verifier::external_body]
pub struct ExIoError(std::io::Error);

/// Declares `thirtyfour::error::WebDriverError`; nothing is known of what is inside a value.
#[verifier::external_type_specification]
#[verifier::external_body]
pub struct ExWebDriverError(thirtyfour::error::WebDriverError);

/// Declares `reqwest::Error`; nothing is known of what is inside a value.
#[verifier::external_type_specification]
#[verifier::external_body]
pub struct ExHttpError(reqwest::Error);

/// Declares `zip::result::ZipError`; nothing is known of what is inside a value.
#[verifier::external_type_specification]
#[verifier::external_body]
pub struct ExZipError(zip::result::ZipError);

/// Declares `base64::DecodeError`; nothing is known of what is inside a value.
#[verifier::external_type_specification]
#[verifier::external_body]
pub struct ExDecodeError(base64::DecodeError);

/// Unified error type for all fallible operations in this crate.
#[derive(Debug)]
pub enum ChromeError {
    /// An error of the file system or of a process.
    Io(std::io::Error),
    /// An error of the browser session.
    WebDriver(thirtyfour::error::WebDriverError),
    /// An error of a download.
    Http(reqwest::Error),
    /// A text that is not JSON.
    Json(serde_json::Error),
    /// A broken archive.
    Zip(zip::result::ZipError),
    /// A text that is not base64.
    Base64(base64::DecodeError),
    /// Bytes that are not UTF-8.
    Utf8(std::string::FromUtf8Error),
    /// Anything else, in words.
    Other(String),
}

/// The error is `Other`, with these words.
pub open spec fn says(error: ChromeError, words: Seq<char>) -> bool {
    error matches ChromeError::Other(s) && s@ == words
}

impl From<&str> for ChromeError {
    fn from(s: &str) -> (r: Self)
        ensures
            says(r, s@),
    {
        ChromeError::Other(s.to_string())
    }
}

impl vstd::std_specs::convert::FromSpecImpl<&str> for ChromeError {
    open spec fn obeys_from_spec() -> bool {
        false
    }

    open spec fn from_spec(s: &str) -> Self {
        arbitrary()
    }
}

impl From<String> for ChromeError {
    fn from(s: String) -> (r: Self)
        ensures
            says(r, s@),
    {
        ChromeError::Other(s)
    }
}

impl vstd::std_specs::convert::FromSpecImpl<String> for ChromeError {
    open spec fn obeys_from_spec() -> bool {
        true
    }

    open spec fn from_spec(s: String) -> Self {
        ChromeError::Other(s)
    }
}

impl From<std::io::Error> for ChromeError {
    fn from(e: std::io::Error) -> (r: Self)
        ensures
            r == ChromeError::Io(e),
    {
        ChromeError::Io(e)
    }
}

impl vstd::std_specs::convert::FromSpecImpl<std::io::Error> for ChromeError {
    open spec fn obeys_from_spec() -> bool {
        true
    }

    open spec fn from_spec(e: std::io::Error) -> Self {
        ChromeError::Io(e)
    }
}

impl From<thirtyfour::error::WebDriverError> for ChromeError {
    fn from(e: thirtyfour::error::WebDriverError) -> (r: Self)
        ensures
            r == ChromeError::WebDriver(e),
    {
        ChromeError::WebDriver(e)
    }
}

impl vstd::std_specs::convert::FromSpecImpl<thirtyfour::error::WebDriverError> for ChromeError {
    open spec fn obeys_from_spec() -> bool {
        true
    }

    open spec fn from_spec(e: thirtyfour::error::WebDriverError) -> Self {
        ChromeError::WebDriver(e)
    }
}

impl From<reqwest::Error> for ChromeError {
    fn from(e: reqwest::Error) -> (r: Self)
        ensures
            r == ChromeError::Http(e),
    {
        ChromeError::Http(e)
    }
}

impl vstd::std_specs::convert::FromSpecImpl<reqwest::Error> for ChromeError {
    open spec fn obeys_from_spec() -> bool {
        true
    }

    open spec fn from_spec(e: reqwest::Error) -> Self {
        ChromeError::Http(e)
    }
}

impl From<serde_json::Error> for ChromeError {
    fn from(e: serde_json::Error) -> (r: Self)
        ensures
            r == ChromeError::Json(e),
    {
        ChromeError::Json(e)
    }
}

impl vstd::std_specs::convert::FromSpecImpl<serde_json::Error> for ChromeError {
    open spec fn obeys_from_spec() -> bool {
        true
    }

    open spec fn from_spec(e: serde_json::Error) -> Self {
        ChromeError::Json(e)
    }
}

impl From<zip::result::ZipError> for ChromeError {
    fn from(e: zip::result::ZipError) -> (r: Self)
        ensures
            r == ChromeError::Zip(e),
    {
        ChromeError::Zip(e)
    }
}

impl vstd::std_specs::convert::FromSpecImpl<zip::result::ZipError> for ChromeError {
    open spec fn obeys_from_spec() -> bool {
        true
    }

    open spec fn from_spec(e: zip::result::ZipError) -> Self {
        ChromeError::Zip(e)
    }
}

impl From<base64::DecodeError> for ChromeError {
    fn from(e: base64::DecodeError) -> (r: Self)
        ensures
            r == ChromeError::Base64(e),
    {
        ChromeError::Base64(e)
    }
}

impl vstd::std_specs::convert::FromSpecImpl<base64::DecodeError> for ChromeError {
    open spec fn obeys_from_spec() -> bool {
        true
    }

    open spec fn from_spec(e: base64::DecodeError) -> Self {
        ChromeError::Base64(e)
    }
}

impl From<std::string::FromUtf8Error> for ChromeError {
    fn from(e: std::string::FromUtf8Error) -> (r: Self)
        ensures
            r == ChromeError::Utf8(e),
    {
        ChromeError::Utf8(e)
    }
}

impl vstd::std_specs::convert::FromSpecImpl<std::string::FromUtf8Error> for ChromeError {
    open spec fn obeys_from_spec() -> bool {
        true
    }

    open spec fn from_spec(e: std::string::FromUtf8Error) -> Self {
        ChromeError::Utf8(e)
    }
}

// ─── The text of an error ────────────────────────────────────────────────────

/// The text of an error: its words where it is in words, else what kind of error it is, and then
/// the text of the error from outside.
pub open spec fn described(error: ChromeError, detail: Seq<char>) -> Seq<char> {
    match error {
        ChromeError::Io(_) => "IO error: "@ + detail,
        ChromeError::WebDriver(_) => "WebDriver error: "@ + detail,
        ChromeError::Http(_) => "HTTP request error: "@ + detail,
        ChromeError::Json(_) => "JSON error: "@ + detail,
        ChromeError::Zip(_) => "ZIP extraction error: "@ + detail,
        ChromeError::Base64(_) => "Base64 decode error: "@ + detail,
        ChromeError::Utf8(_) => "UTF-8 decode error: "@ + detail,
        ChromeError::Other(s) => s@,
    }
}

/// Trusted: `to_string` of a `std::io::Error` gives its text, of which nothing is claimed.
#[verifier::external_body]
fn io_error_text(e: &std::io::Error) -> String {
    e.to_string()
}

/// Trusted: `to_string` of a `thirtyfour::error::WebDriverError` gives its text, of which nothing is claimed.
#[verifier::external_body]
fn web_driver_error_text(e: &thirtyfour::error::WebDriverError) -> String {
    e.to_string()
}

/// Trusted: `to_string` of a `reqwest::Error` gives its text, of which nothing is claimed.
#[verifier::external_body]
fn http_error_text(e: &reqwest::Error) -> String {
    e.to_string()
}

/// Trusted: `to_string` of a `serde_json::Error` gives its text, of which nothing is claimed.
#[verifier::external_body]
fn json_error_text(e: &serde_json::Error) -> String {
    e.to_string()
}

/// Trusted: `to_string` of a `zip::result::ZipError` gives its text, of which nothing is claimed.
#[verifier::external_body]
fn zip_error_text(e: &zip::result::ZipError) -> String {
    e.to_string()
}

/// Trusted: `to_string` of a `base64::DecodeError` gives its text, of which nothing is claimed.
#[verifier::external_body]
fn base64_error_text(e: &base64::DecodeError) -> String {
    e.to_string()
}

/// Trusted: `to_string` of a `std::string::FromUtf8Error` gives its text, of which nothing is claimed.
#[verifier::external_body]
fn utf8_error_text(e: &std::string::FromUtf8Error) -> String {
    e.to_string()
}

impl ChromeError {
    /// The text of the error, where `detail` is the text of the error from outside.
    pub fn describe(&self, detail: &str) -> (r: String)
        ensures
            r@ == described(*self, detail@),
    {
        let kind: &str = match self {
            ChromeError::Io(_) => "IO error: ",
            ChromeError::WebDriver(_) => "WebDriver error: ",
            ChromeError::Http(_) => "HTTP request error: ",
            ChromeError::Json(_) => "JSON error: ",
            ChromeError::Zip(_) => "ZIP extraction error: ",
            ChromeError::Base64(_) => "Base64 decode error: ",
            ChromeError::Utf8(_) => "UTF-8 decode error: ",
            ChromeError::Other(s) => {
                return s.as_str().to_string();
            },
        };
        let mut text: String = kind.to_string();
        text.append(detail);
        text
    }

    /// The text of the error. What an error from outside says of itself is left to it.
    pub fn message(&self) -> (r: String)
        ensures
            exists|detail: Seq<char>| r@ == #[trigger] described(*self, detail),
            forall|words: Seq<char>| #[trigger] says(*self, words) ==> r@ == words,
    {
        let detail: String = match self {
            ChromeError::Io(e) => io_error_text(e),
            ChromeError::WebDriver(e) => web_driver_error_text(e),
            ChromeError::Http(e) => http_error_text(e),
            ChromeError::Json(e) => json_error_text(e),
            ChromeError::Zip(e) => zip_error_text(e),
            ChromeError::Base64(e) => base64_error_text(e),
            ChromeError::Utf8(e) => utf8_error_text(e),
            ChromeError::Other(_) => String::new(),
        };
        let text: String = self.describe(detail.as_str());
        assert(text@ == described(*self, detail@));
        text
    }
}

/// Law: an error made from words has those words as its text, with nothing in front; it does not
/// matter whether they came as `&str` or as `String`.
pub proof fn law_words_are_the_text(error: ChromeError, words: Seq<char>, detail: Seq<char>)
    requires
        says(error, words),
    ensures
        described(error, detail) == words,
{
}

/// Convenience alias used throughout the crate.
pub type ChromeResult<T> = Result<T, ChromeError>;

/// Law: what is said in front of the text of an error from outside names its kind, and the text
/// follows it unchanged; an error is in words exactly where it is `Other` with these words.
pub proof fn law_kinds_in_front(error: ChromeError, detail: Seq<char>, words: Seq<char>)
    ensures
        error is Io ==> described(error, detail) == "IO error: "@ + detail,
        error is WebDriver ==> described(error, detail) == "WebDriver error: "@ + detail,
        error is Http ==> described(error, detail) == "HTTP request error: "@ + detail,
        error is Json ==> described(error, detail) == "JSON error: "@ + detail,
        error is Zip ==> described(error, detail) == "ZIP extraction error: "@ + detail,
        error is Base64 ==> described(error, detail) == "Base64 decode error: "@ + detail,
        error is Utf8 ==> described(error, detail) == "UTF-8 decode error: "@ + detail,
        says(error, words) <==> error is Other && error->Other_0@ == words,
        error is Other ==> described(error, detail) == error->Other_0@,
{
}

/// Law: an error from outside becomes the kind of error that it is, and is kept whole.
pub proof fn law_errors_are_kept(
    io_error: std::io::Error,
    web_error: thirtyfour::error::WebDriverError,
    http_error: reqwest::Error,
    json_error: serde_json::Error,
    zip_error: zip::result::ZipError,
    base64_error: base64::DecodeError,
    utf8_error: std::string::FromUtf8Error,
    words: String,
)
    ensures
        <ChromeError as vstd::std_specs::convert::FromSpec<std::io::Error>>::from_spec(io_error)
            == ChromeError::Io(io_error),
        <ChromeError as vstd::std_specs::convert::FromSpec<thirtyfour::error::WebDriverError>>::from_spec(web_error)
            == ChromeError::WebDriver(web_error),
        <ChromeError as vstd::std_specs::convert::FromSpec<reqwest::Error>>::from_spec(http_error)
            == ChromeError::Http(http_error),
        <ChromeError as vstd::std_specs::convert::FromSpec<serde_json::Error>>::from_spec(json_error)
            == ChromeError::Json(json_error),
        <ChromeError as vstd::std_specs::convert::FromSpec<zip::result::ZipError>>::from_spec(zip_error)
            == ChromeError::Zip(zip_error),
        <ChromeError as vstd::std_specs::convert::FromSpec<base64::DecodeError>>::from_spec(base64_error)
            == ChromeError::Base64(base64_error),
        <ChromeError as vstd::std_specs::convert::FromSpec<std::string::FromUtf8Error>>::from_spec(utf8_error)
            == ChromeError::Utf8(utf8_error),
        <ChromeError as vstd::std_specs::convert::FromSpec<String>>::from_spec(words)
            == ChromeError::Other(words),
{
}

} // verus!
