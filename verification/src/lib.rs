use vstd::prelude::*;
use vstd::string::StringSliceAdditionalSpecFns;

pub mod v2;

verus! {

/// Configuration for one run of the cipher: mode, stream locations, and the
/// safety switches that the caller decides on before any byte is touched.
pub struct Args {
    /// Whether debug information should be shown.
    pub debug: bool,
    /// Which version of encryption to use.
    pub version: String,
    /// The file to be encrypted/decrypted.
    pub source_file: String,
    /// The keyfile to be used.
    pub key_file: String,
    /// Encrypted/decrypted output file.
    pub out_file: String,
    /// Whether to decrypt (true) or encrypt (false).
    pub decrypt: bool,
    /// Skip the check for pre-existing key/out files, overwriting them.
    pub ignore_existing_files: bool,
}

impl Args {
    /// The pre-flight overwrite guard: an encrypt run must be refused when the
    /// key file or the out file already exists and the override is not set,
    /// so that an existing one-time pad or ciphertext is never destroyed.
    pub fn refuses_existing_files(&self, key_file_exists: bool, out_file_exists: bool) -> (r: bool)
        ensures
            r == (!self.ignore_existing_files && !self.decrypt && (key_file_exists
                || out_file_exists)),
    {
        !self.ignore_existing_files && !self.decrypt && (key_file_exists || out_file_exists)
    }
}

/// The encryption versions this library understands.
#[derive(Debug, Clone, Copy, PartialEq, Eq, Structural)]
pub enum Version {
    V2,
}

/// A selector names the v2 cipher when, ignoring ASCII case, its UTF-8 bytes
/// are exactly "v2".
pub open spec fn is_v2_selector(bytes: Seq<u8>) -> bool {
    bytes.len() == 2 && (bytes[0] == 118u8 || bytes[0] == 86u8) && bytes[1] == 50u8
}

/// Maps the version selector from the command line to the cipher version to
/// run, ignoring ASCII case; every other selector is unsupported and the
/// caller must refuse it before any stream is touched.
pub fn select_version(version: &str) -> (r: Option<Version>)
    ensures
        r is Some <==> is_v2_selector(version.spec_bytes()),
        r is Some ==> r->0 == Version::V2,
{
    let bytes = version.as_bytes();
    if bytes.len() == 2 {
        let b0 = *vstd::slice::slice_index_get(bytes, 0);
        let b1 = *vstd::slice::slice_index_get(bytes, 1);
        if (b0 == 118 || b0 == 86) && b1 == 50 {
            Some(Version::V2)
        } else {
            None
        }
    } else {
        None
    }
}

pub fn clap_version_help() -> (r: &'static str)
    ensures
        r@ == "Which version of encryption to use"@,
{
    "Which version of encryption to use"
}

pub fn clap_ignore_file_check_help() -> (r: &'static str)
    ensures
        r@ == "If set, skip check for existing key/out file"@,
{
    "If set, skip check for existing key/out file"
}

} // verus!
