//! The manifest document and the file records that feed it.

use vstd::prelude::*;

verus! {

/// A raw file descriptor as the remote store reports it. The size arrives
/// as decimal text and is parsed later, when the manifest is built.
pub struct FileInfo {
    pub id: String,
    pub size: String,
    pub name: String,
    pub shared: bool,
}

/// The uppercase hex digit for `n` (`n < 16`).
pub open spec fn hex_digit_upper(n: u8) -> u8 {
    if n < 10 {
        (0x30 + n) as u8
    } else {
        (0x37 + n) as u8
    }
}

/// `b` is an ASCII alphanumeric byte.
pub open spec fn is_alphanumeric_byte(b: u8) -> bool {
    (0x30 <= b <= 0x39) || (0x41 <= b <= 0x5A) || (0x61 <= b <= 0x7A)
}

/// How one byte is percent-encoded under the non-alphanumeric set: an
/// ASCII alphanumeric byte passes through, every other byte becomes
/// `%XX` with uppercase hex digits.
pub open spec fn percent_encoded_byte(b: u8) -> Seq<u8> {
    if is_alphanumeric_byte(b) {
        seq![b]
    } else {
        seq![0x25u8, hex_digit_upper(b / 16), hex_digit_upper(b % 16)]
    }
}

/// The percent-encoded form of the UTF-8 bytes `bytes`, as the UTF-8
/// bytes of the resulting string.
pub open spec fn percent_encoded(bytes: Seq<u8>) -> Seq<u8>
    decreases bytes.len(),
{
    if bytes.len() == 0 {
        Seq::empty()
    } else {
        percent_encoded(bytes.drop_last()) + percent_encoded_byte(bytes.last())
    }
}

/// Relies on `percent_encoding::utf8_percent_encode` with the
/// `NON_ALPHANUMERIC` set, which encodes exactly the non-alphanumeric
/// ASCII bytes and every non-ASCII byte, as `%XX` with uppercase hex.
#[verifier::external_body]
fn percent_encode_non_alphanumeric(s: &str) -> (r: String)
    ensures
        vstd::utf8::encode_utf8(r@) == percent_encoded(vstd::utf8::encode_utf8(s@)),
{
    percent_encoding::utf8_percent_encode(s, percent_encoding::NON_ALPHANUMERIC).to_string()
}

/// A descriptor together with the percent-encoded display name used to
/// build the locator string. `name_encoded` is recomputed from `name` at
/// construction, never cached across renames.
#[derive(Clone)]
pub struct ParsedFileInfo {
    pub id: String,
    pub size: String,
    pub name: String,
    pub name_encoded: String,
    pub shared: bool,
}

/// `parsed` carries the same fields as `info`, with the display name also
/// present in percent-encoded form.
pub open spec fn parsed_matches(parsed: ParsedFileInfo, info: FileInfo) -> bool {
    &&& parsed.id@ == info.id@
    &&& parsed.size@ == info.size@
    &&& parsed.name@ == info.name@
    &&& vstd::utf8::encode_utf8(parsed.name_encoded@) == percent_encoded(
        vstd::utf8::encode_utf8(info.name@),
    )
    &&& parsed.shared == info.shared
}

impl ParsedFileInfo {
    pub fn new(info: FileInfo) -> (r: ParsedFileInfo)
        ensures
            parsed_matches(r, info),
    {
        let name_encoded = percent_encode_non_alphanumeric(info.name.as_str());
        ParsedFileInfo {
            id: info.id,
            size: info.size,
            name: info.name,
            name_encoded,
            shared: info.shared,
        }
    }
}

/// One manifest entry: a locator string and the parsed size.
pub struct FileEntry {
    pub url: String,
    pub size: u64,
}

impl FileEntry {
    pub fn new(url: String, size: u64) -> (r: FileEntry)
        ensures
            r.url == url,
            r.size == size,
    {
        FileEntry { url, size }
    }
}

/// The canonical manifest document. Every field is optional: a field is
/// serialized exactly when it is set, and an unset field is omitted from
/// the output entirely, so the external reader's field-presence check
/// behaves correctly. The minimum reader version is kept as decimal text
/// and emitted verbatim as a JSON number.
pub struct Index {
    pub files: Option<Vec<FileEntry>>,
    pub directories: Option<Vec<String>>,
    pub success: Option<String>,
    pub referrer: Option<String>,
    pub google_api_key: Option<String>,
    pub one_fichier_keys: Option<Vec<String>>,
    pub headers: Option<Vec<String>>,
    pub version: Option<String>,
    pub theme_blacklist: Option<Vec<String>>,
    pub theme_whitelist: Option<Vec<String>>,
    pub theme_error: Option<String>,
}

impl Index {
    pub fn new() -> (r: Index)
        ensures
            r.files is None,
            r.directories is None,
            r.success is None,
            r.referrer is None,
            r.google_api_key is None,
            r.one_fichier_keys is None,
            r.headers is None,
            r.version is None,
            r.theme_blacklist is None,
            r.theme_whitelist is None,
            r.theme_error is None,
    {
        Index {
            files: None,
            directories: None,
            success: None,
            referrer: None,
            google_api_key: None,
            one_fichier_keys: None,
            headers: None,
            version: None,
            theme_blacklist: None,
            theme_whitelist: None,
            theme_error: None,
        }
    }
}

} // verus!
