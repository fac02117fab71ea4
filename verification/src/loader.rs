//! Turning the bytes of a shader file into shader source text.

use vstd::prelude::*;
use vstd::string::StringExecFns;
use vstd::string::StringSliceAdditionalSpecFns;
use vstd::utf8::{decode_utf8, encode_utf8_decode_utf8, valid_utf8};

verus! {

/// Why an asset could not be loaded.
#[derive(Clone, Copy, Debug, PartialEq, Eq, Structural)]
pub enum AssetError {
    /// The file does not hold what its kind of asset requires.
    InvalidFormat,
}

/// The source text of a vertex shader, and the name of the file it came from.
#[derive(Debug, PartialEq)]
pub struct ShaderVs {
    pub filename: String,
    pub code: String,
}

/// The source text of a fragment shader, and the name of the file it came from.
#[derive(Debug, PartialEq)]
pub struct ShaderFs {
    pub filename: String,
    pub code: String,
}

impl ShaderVs {
    /// A vertex shader with the given file name and source text.
    pub fn new(filename: &str, code: &str) -> (r: ShaderVs)
        ensures
            r.filename@ == filename@,
            r.code@ == code@,
    {
        ShaderVs { filename: String::from_str(filename), code: String::from_str(code) }
    }
}

impl ShaderFs {
    /// A fragment shader with the given file name and source text.
    pub fn new(filename: &str, code: &str) -> (r: ShaderFs)
        ensures
            r.filename@ == filename@,
            r.code@ == code@,
    {
        ShaderFs { filename: String::from_str(filename), code: String::from_str(code) }
    }
}

/// The error of `core::str::from_utf8`; nothing is read from it.
#[verifier::external_type_specification]
#[verifier::external_body]
pub struct ExUtf8Error(core::str::Utf8Error);

/// `core::str::from_utf8` succeeds exactly on well-formed UTF-8, and the text it
/// then yields is encoded by the very bytes it was given.
pub assume_specification[ core::str::from_utf8 ](v: &[u8]) -> (r: Result<
    &str,
    core::str::Utf8Error,
>)
    ensures
        match r {
            Ok(text) => valid_utf8(v@) && text.spec_bytes() == v@,
            Err(_) => !valid_utf8(v@),
        },
;

/// The text that the bytes of a shader file hold, if they are well-formed UTF-8.
pub fn shader_text(buf: &[u8]) -> (r: Result<&str, AssetError>)
    ensures
        match r {
            Ok(text) => valid_utf8(buf@) && text@ == decode_utf8(buf@),
            Err(e) => !valid_utf8(buf@) && e == AssetError::InvalidFormat,
        },
{
    match core::str::from_utf8(buf) {
        Ok(text) => {
            proof {
                encode_utf8_decode_utf8(text@);
            }
            Ok(text)
        },
        Err(_) => Err(AssetError::InvalidFormat),
    }
}

/// Loads vertex shaders.
pub struct ShaderVSLoader {}

/// Loads fragment shaders.
pub struct ShaderFSLoader {}

impl ShaderVSLoader {
    /// Makes a vertex shader of the bytes `buf` read from the file `filename`. The
    /// bytes must be well-formed UTF-8; anything else is an invalid format.
    pub fn load(filename: &str, buf: &[u8]) -> (r: Result<ShaderVs, AssetError>)
        ensures
            match r {
                Ok(shader) => valid_utf8(buf@) && shader.filename@ == filename@ && shader.code@
                    == decode_utf8(buf@),
                Err(e) => !valid_utf8(buf@) && e == AssetError::InvalidFormat,
            },
    {
        match shader_text(buf) {
            Ok(text) => Ok(ShaderVs::new(filename, text)),
            Err(e) => Err(e),
        }
    }
}

impl ShaderFSLoader {
    /// Makes a fragment shader of the bytes `buf` read from the file `filename`.
    /// The bytes must be well-formed UTF-8; anything else is an invalid format.
    pub fn load(filename: &str, buf: &[u8]) -> (r: Result<ShaderFs, AssetError>)
        ensures
            match r {
                Ok(shader) => valid_utf8(buf@) && shader.filename@ == filename@ && shader.code@
                    == decode_utf8(buf@),
                Err(e) => !valid_utf8(buf@) && e == AssetError::InvalidFormat,
            },
    {
        match shader_text(buf) {
            Ok(text) => Ok(ShaderFs::new(filename, text)),
            Err(e) => Err(e),
        }
    }
}

} // verus!
