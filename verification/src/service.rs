//! The run configuration and the service functions around the pipeline:
//! input validation, manifest building from the scanned files, the
//! share decision, and assembling the output bytes.

use crate::compress::CompressionFlag;
use crate::decimal::check_version_text;
use crate::decimal::dec_value;
use crate::decimal::parse_u64;
use crate::decimal::parses_as_u64;
use crate::decimal::version_text_ok;
use crate::encrypt::rsa_modulus_len;
use crate::encrypt::rsa_pem_ok;
use crate::error::RustfoilError;
use crate::index::FileEntry;
use crate::index::Index;
use crate::index::ParsedFileInfo;
use crate::json::json_of;
use crate::json::serialize_index;
use crate::tinfoil::container_ok;
use crate::tinfoil::convert_to_tinfoil_format;
use crate::tinfoil::pem_view;
use vstd::prelude::*;
use vstd::utf8::encode_utf8;

verus! {

/// The run configuration. Paths are plain strings here; the caller that
/// owns the file system resolves and reads them.
pub struct Input {
    /// Folder identifiers of the remote folders to scan.
    pub folder_ids: Vec<String>,
    /// Path to the credentials file.
    pub credentials: String,
    /// Path to the cached user token.
    pub token: String,
    /// Path the container is written to.
    pub output_path: String,
    /// Share every file named by the manifest.
    pub share_files: bool,
    /// Scan only the top level of each root folder.
    pub no_recursion: bool,
    /// Identifier-policy override: keep files without a title-id token.
    pub add_nsw_files_without_title_id: bool,
    /// Extension-policy override: keep files of any extension.
    pub add_non_nsw_files: bool,
    /// Success banner shown by the reader.
    pub success: Option<String>,
    /// Referrer the reader must send.
    pub referrer: Option<String>,
    /// Credential passed through to the reader.
    pub google_api_key: Option<String>,
    /// Rotated credentials passed through to the reader.
    pub one_fichier_keys: Option<Vec<String>>,
    /// Custom headers the reader should send.
    pub headers: Option<Vec<String>>,
    /// Minimum reader version, as decimal text.
    pub min_version: Option<String>,
    /// Hash-based theme filters.
    pub theme_blacklist: Option<Vec<String>>,
    pub theme_whitelist: Option<Vec<String>>,
    /// Custom theme error banner.
    pub theme_error: Option<String>,
    /// Path to the RSA public key; encryption runs exactly when set.
    pub public_key: Option<String>,
    /// Share the uploaded manifest itself.
    pub share_index: bool,
    /// Upload destination folder, when uploading to a specific folder.
    pub upload_folder_id: Option<String>,
    /// Upload to the drive root instead.
    pub upload_my_drive: bool,
    /// The compression algorithm for the payload.
    pub compression: CompressionFlag,
    /// Verbosity, from repeated flags.
    pub verbose: u8,
}

/// The pipeline service for one run.
pub struct RustfoilService {
    pub input: Input,
}

/// Equality of optional string lists by contents.
pub open spec fn opt_strs_eq(a: Option<Vec<String>>, b: Option<Vec<String>>) -> bool {
    match (a, b) {
        (Option::Some(x), Option::Some(y)) => x@ == y@,
        (Option::None, Option::None) => true,
        _ => false,
    }
}

fn clone_opt_string(v: &Option<String>) -> (r: Option<String>)
    ensures
        r == *v,
{
    match v {
        Option::Some(s) => Option::Some(s.clone()),
        Option::None => Option::None,
    }
}

fn clone_vec_string(xs: &Vec<String>) -> (r: Vec<String>)
    ensures
        r@ == xs@,
{
    let mut out: Vec<String> = Vec::new();
    let mut i: usize = 0;
    while i < xs.len()
        invariant
            0 <= i <= xs@.len(),
            out@ == xs@.take(i as int),
        decreases xs@.len() - i,
    {
        out.push(xs[i].clone());
        proof {
            assert(out@ =~= xs@.take(i as int + 1));
        }
        i = i + 1;
    }
    proof {
        assert(xs@.take(xs@.len() as int) =~= xs@);
    }
    out
}

fn clone_opt_vec_string(v: &Option<Vec<String>>) -> (r: Option<Vec<String>>)
    ensures
        opt_strs_eq(r, *v),
{
    match v {
        Option::Some(xs) => Option::Some(clone_vec_string(xs)),
        Option::None => Option::None,
    }
}

/// The configured minimum version, if set, is decimal number text, so
/// the serialized manifest stays valid JSON.
pub open spec fn version_config_ok(v: Option<String>) -> bool {
    match v {
        Option::Some(s) => version_text_ok(encode_utf8(s@)),
        Option::None => true,
    }
}

/// The size text of `f` parses as a 64-bit size.
pub open spec fn size_ok(f: ParsedFileInfo) -> bool {
    parses_as_u64(encode_utf8(f.size@))
}

/// The locator built for `f`: scheme, remote id, separator, encoded name.
pub open spec fn locator_of(f: ParsedFileInfo) -> Seq<char> {
    "gdrive:"@ + f.id@ + "#"@ + f.name_encoded@
}

/// `e` is the manifest entry for `f`.
pub open spec fn entry_matches(e: FileEntry, f: ParsedFileInfo) -> bool {
    &&& e.url@ == locator_of(f)
    &&& e.size == dec_value(encode_utf8(f.size@))
}

impl RustfoilService {
    pub fn new(input: Input) -> (r: RustfoilService)
        ensures
            r.input == input,
    {
        RustfoilService { input }
    }

    /// Checks the configuration before any other activity. The caller
    /// reports whether the credentials file exists; a missing one is the
    /// configuration error, and the only one.
    pub fn validate_input(&self, credentials_present: bool) -> (r: Result<(), RustfoilError>)
        ensures
            r is Err <==> !credentials_present,
            r matches Err(e) ==> e matches RustfoilError::CredentialsMissing,
    {
        if !credentials_present {
            return Err(RustfoilError::CredentialsMissing);
        }
        Ok(())
    }

    /// Builds the manifest from the filtered files and the configured
    /// metadata. A configured minimum version that is not decimal number
    /// text is a fatal configuration error, checked first. Each file then
    /// yields one entry with its locator and its parsed size; a size that
    /// is not decimal text fitting 64 bits is fatal and names the
    /// offending file. Every configured metadata field is copied through
    /// verbatim; nothing else is set.
    pub fn generate_index(&self, files: Vec<ParsedFileInfo>) -> (r: Result<
        Box<Index>,
        RustfoilError,
    >)
        ensures
            r is Ok <==> (version_config_ok(self.input.min_version) && (forall|i: int|
                0 <= i < files@.len() ==> size_ok(#[trigger] files@[i]))),
            (r matches Err(e) && e is InvalidVersion) <==> !version_config_ok(
                self.input.min_version,
            ),
            r matches Ok(idx) ==> ((*idx).files matches Some(es) && es@.len() == files@.len()
                && (forall|i: int|
                0 <= i < files@.len() ==> entry_matches(#[trigger] es@[i], files@[i])) && (*idx).directories is None
                && (*idx).success == self.input.success && (*idx).referrer == self.input.referrer
                && (*idx).google_api_key == self.input.google_api_key && opt_strs_eq(
                (*idx).one_fichier_keys,
                self.input.one_fichier_keys,
            ) && opt_strs_eq((*idx).headers, self.input.headers) && (*idx).version
                == self.input.min_version && opt_strs_eq(
                (*idx).theme_blacklist,
                self.input.theme_blacklist,
            ) && opt_strs_eq((*idx).theme_whitelist, self.input.theme_whitelist) && (
            *idx).theme_error == self.input.theme_error),
            r matches Err(e) ==> (e is InvalidVersion || (e
                matches RustfoilError::InvalidSize { file_id } && exists|i: int|
                0 <= i < files@.len() && !size_ok(#[trigger] files@[i]) && file_id@ == files@[i].id@
                    && (forall|j: int| 0 <= j < i ==> size_ok(#[trigger] files@[j])))),
    {
        let version_ok = match &self.input.min_version {
            Option::Some(v) => check_version_text(v.as_str().as_bytes()),
            Option::None => true,
        };
        if !version_ok {
            return Err(RustfoilError::InvalidVersion);
        }
        let mut entries: Vec<FileEntry> = Vec::new();
        let mut i: usize = 0;
        while i < files.len()
            invariant
                version_config_ok(self.input.min_version),
                0 <= i <= files@.len(),
                entries@.len() == i,
                forall|q: int| 0 <= q < i ==> size_ok(#[trigger] files@[q]),
                forall|q: int|
                    0 <= q < i ==> entry_matches(#[trigger] entries@[q], files@[q]),
            decreases files@.len() - i,
        {
            let f = &files[i];
            let size = match parse_u64(f.size.as_str().as_bytes()) {
                Some(v) => v,
                None => {
                    return Err(RustfoilError::InvalidSize { file_id: f.id.clone() });
                },
            };
            let mut url = String::from_str("gdrive:");
            url.append(f.id.as_str());
            url.append("#");
            url.append(f.name_encoded.as_str());
            proof {
                assert(url@ == locator_of(files@[i as int]));
            }
            entries.push(FileEntry::new(url, size));
            i = i + 1;
        }
        let idx = Index {
            files: Some(entries),
            directories: None,
            success: clone_opt_string(&self.input.success),
            referrer: clone_opt_string(&self.input.referrer),
            google_api_key: clone_opt_string(&self.input.google_api_key),
            one_fichier_keys: clone_opt_vec_string(&self.input.one_fichier_keys),
            headers: clone_opt_vec_string(&self.input.headers),
            version: clone_opt_string(&self.input.min_version),
            theme_blacklist: clone_opt_vec_string(&self.input.theme_blacklist),
            theme_whitelist: clone_opt_vec_string(&self.input.theme_whitelist),
            theme_error: clone_opt_string(&self.input.theme_error),
        };
        Ok(Box::new(idx))
    }

    /// The share decision for one file: a file already shared needs no
    /// call; any other yields its identifier for the client to share.
    pub fn share_file(&self, file_id: String, is_shared: bool) -> (r: Option<String>)
        ensures
            is_shared ==> r is None,
            !is_shared ==> (r matches Some(id) && id == file_id),
    {
        if !is_shared {
            Some(file_id)
        } else {
            None
        }
    }

    /// The identifiers that the share pass must grant access to: those of
    /// the files not already shared, in order.
    pub fn share_candidates(&self, files: &Vec<ParsedFileInfo>) -> (r: Vec<String>)
        ensures
            r@ == files@.filter(|f: ParsedFileInfo| !f.shared).map_values(
                |f: ParsedFileInfo| f.id,
            ),
    {
        let ghost p = |f: ParsedFileInfo| !f.shared;
        let mut out: Vec<String> = Vec::new();
        let mut i: usize = 0;
        proof {
            reveal(Seq::filter);
        }
        while i < files.len()
            invariant
                0 <= i <= files@.len(),
                p == (|f: ParsedFileInfo| !f.shared),
                out@ == files@.take(i as int).filter(p).map_values(|f: ParsedFileInfo| f.id),
            decreases files@.len() - i,
        {
            if !files[i].shared {
                out.push(files[i].id.clone());
            }
            proof {
                crate::filter::lemma_filter_take_step(files@, p, i as int);
                let kept = files@.take(i as int).filter(p);
                if p(files@[i as int]) {
                    assert(kept.push(files@[i as int]).map_values(|f: ParsedFileInfo| f.id)
                        =~= kept.map_values(|f: ParsedFileInfo| f.id).push(
                        files@[i as int].id,
                    ));
                }
            }
            i = i + 1;
        }
        proof {
            assert(files@.take(files@.len() as int) =~= files@);
        }
        out
    }

    /// Serializes the manifest and builds the container bytes: the
    /// computing half of writing the output. The caller hands in the
    /// public-key text exactly when a key is configured, and writes the
    /// returned bytes to the output path itself. A key that does not
    /// parse, a modulus too small for the key transport, or a
    /// compression failure is fatal before any bytes exist; with
    /// pass-through compression the build succeeds exactly when the
    /// key, if any, is usable.
    pub fn build_output(&self, index: &Index, public_key_pem: Option<&str>) -> (r: Result<
        Vec<u8>,
        RustfoilError,
    >)
        requires
            public_key_pem is Some <==> self.input.public_key is Some,
        ensures
            r matches Ok(v) ==> container_ok(
                v@,
                json_of(*index),
                self.input.compression,
                pem_view(public_key_pem),
            ),
            (public_key_pem is None && self.input.compression == CompressionFlag::Off) ==> r is Ok,
            public_key_pem matches Some(pem) ==> ((!rsa_pem_ok(pem@) || rsa_modulus_len(pem@) < 43)
                ==> r is Err),
            public_key_pem matches Some(pem) ==> (self.input.compression == CompressionFlag::Off
                ==> (r is Ok <==> (rsa_pem_ok(pem@) && rsa_modulus_len(pem@) >= 43))),
            r matches Err(e) ==> ((e is CompressionFailed || e is KeyParse || e is KeyWrap) && (e
                is CompressionFailed ==> self.input.compression != CompressionFlag::Off) && (e
                is KeyParse ==> (public_key_pem matches Some(pem) && !rsa_pem_ok(pem@))) && (e
                is KeyWrap ==> (public_key_pem matches Some(pem) && rsa_pem_ok(pem@)
                && rsa_modulus_len(pem@) < 43))),
    {
        let json = serialize_index(index);
        convert_to_tinfoil_format(json.as_slice(), self.input.compression, public_key_pem)
    }
}

} // verus!
