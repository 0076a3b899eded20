//! The checks that stand between a path and the pipeline: the path, its
//! extension, the loader's verdict, and suspicious characters.
use vstd::prelude::*;
use vstd::string::StringExecFns;
use crate::text::{chars_of, is_blank, all_ws, contains_seq};
use crate::file_loader::{
    VeltrixError, path_extension, is_vlx_extension, eq_ignore_ascii_case, plain_name, name_extension,
    vlx_extension,
};

verus! {

/// Why a file was refused. The messages do not reveal paths.
#[derive(Debug, Clone, Copy, PartialEq, Eq)]
pub enum VeltrixValidationError {
    MissingPath,
    InvalidExtension,
    FileNotFound,
    EmptyFile,
    InvalidUTF8,
    FileTooLarge,
    SuspiciousContent,
}

/// The text of a validation error.
pub open spec fn validation_error_text(e: VeltrixValidationError) -> Seq<char> {
    match e {
        VeltrixValidationError::MissingPath => "File path is missing or empty"@,
        VeltrixValidationError::InvalidExtension => "Invalid file extension: expected .vlx"@,
        VeltrixValidationError::FileNotFound => "File not found"@,
        VeltrixValidationError::EmptyFile => "File is empty or contains only whitespace"@,
        VeltrixValidationError::InvalidUTF8 => "File contains invalid UTF-8"@,
        VeltrixValidationError::FileTooLarge => "File exceeds maximum allowed size"@,
        VeltrixValidationError::SuspiciousContent => "File contains suspicious or non-printable content"@,
    }
}

/// The validation error that a loading error becomes.
pub open spec fn from_loader_spec(e: VeltrixError) -> VeltrixValidationError {
    match e {
        VeltrixError::FileNotFound => VeltrixValidationError::FileNotFound,
        VeltrixError::InvalidExtension => VeltrixValidationError::InvalidExtension,
        VeltrixError::InvalidUTF8 => VeltrixValidationError::InvalidUTF8,
        VeltrixError::EmptyFile => VeltrixValidationError::EmptyFile,
        VeltrixError::FileTooLarge => VeltrixValidationError::FileTooLarge,
    }
}

impl VeltrixValidationError {
    /// The text of this error.
    pub fn to_display_string(&self) -> (r: String)
        ensures
            r@ == validation_error_text(*self),
    {
        match self {
            VeltrixValidationError::MissingPath => String::from_str("File path is missing or empty"),
            VeltrixValidationError::InvalidExtension => String::from_str(
                "Invalid file extension: expected .vlx",
            ),
            VeltrixValidationError::FileNotFound => String::from_str("File not found"),
            VeltrixValidationError::EmptyFile => String::from_str(
                "File is empty or contains only whitespace",
            ),
            VeltrixValidationError::InvalidUTF8 => String::from_str("File contains invalid UTF-8"),
            VeltrixValidationError::FileTooLarge => String::from_str("File exceeds maximum allowed size"),
            VeltrixValidationError::SuspiciousContent => String::from_str(
                "File contains suspicious or non-printable content",
            ),
        }
    }

    /// The validation error that a loading error becomes.
    pub fn from_loader(e: VeltrixError) -> (r: Self)
        ensures
            r == from_loader_spec(e),
    {
        match e {
            VeltrixError::FileNotFound => VeltrixValidationError::FileNotFound,
            VeltrixError::InvalidExtension => VeltrixValidationError::InvalidExtension,
            VeltrixError::InvalidUTF8 => VeltrixValidationError::InvalidUTF8,
            VeltrixError::EmptyFile => VeltrixValidationError::EmptyFile,
            VeltrixError::FileTooLarge => VeltrixValidationError::FileTooLarge,
        }
    }
}

impl From<VeltrixError> for VeltrixValidationError {
    fn from(e: VeltrixError) -> (r: Self) {
        Self::from_loader(e)
    }
}

impl vstd::std_specs::convert::FromSpecImpl<VeltrixError> for VeltrixValidationError {
    open spec fn obeys_from_spec() -> bool {
        true
    }

    open spec fn from_spec(v: VeltrixError) -> VeltrixValidationError {
        from_loader_spec(v)
    }
}

/// A character that could upset the lexer: NUL, a C0 control other than
/// tab, line feed and carriage return, DEL, or a C1 control.
pub open spec fn suspicious(c: char) -> bool {
    let n = c as u32;
    c == '\0' || (n < 0x20 && c != '\t' && c != '\n' && c != '\r') || c == '\x7F' || (0x80 <= n
        && n <= 0x9F)
}

/// Whether the content holds a suspicious character.
pub open spec fn has_suspicious(s: Seq<char>) -> bool {
    exists|i: int| 0 <= i < s.len() && suspicious(#[trigger] s[i])
}

/// Whether the content holds a suspicious character.
pub fn has_suspicious_content(content: &str) -> (r: bool)
    ensures
        r == has_suspicious(content@),
{
    let cs = chars_of(content);
    let mut i: usize = 0;
    while i < cs.len()
        invariant
            cs@ == content@,
            i <= cs@.len(),
            forall|j: int| 0 <= j < i ==> !suspicious(#[trigger] content@[j]),
        decreases cs@.len() - i,
    {
        let c = cs[i];
        let n = c as u32;
        if c == '\0' || (n < 0x20 && c != '\t' && c != '\n' && c != '\r') || c == '\x7F' || (0x80 <= n
            && n <= 0x9F) {
            assert(suspicious(content@[i as int]));
            return true;
        }
        i = i + 1;
    }
    false
}

/// Steps one and two: a path that is not blank, with the extension `vlx` in
/// any case; nothing is read before they pass.
pub fn validate_path(path: &str) -> (r: Result<(), VeltrixValidationError>)
    ensures
        all_ws(path@) ==> r == Err::<(), VeltrixValidationError>(VeltrixValidationError::MissingPath),
        !all_ws(path@) && r is Ok ==> exists|e: Seq<char>|
            contains_seq(path@, "."@ + e) && eq_ignore_ascii_case(e, "vlx"@),
        !all_ws(path@) && r is Err ==> r == Err::<(), VeltrixValidationError>(
            VeltrixValidationError::InvalidExtension,
        ),
        !all_ws(path@) && !path@.contains('.') ==> r is Err,
        !all_ws(path@) && plain_name(path@) ==> (r is Ok <==> vlx_extension(name_extension(path@))),
{
    if is_blank(path) {
        return Err(VeltrixValidationError::MissingPath);
    }
    let ext = path_extension(path);
    if !is_vlx_extension(&ext) {
        return Err(VeltrixValidationError::InvalidExtension);
    }
    Ok(())
}

/// Steps three and four: the loader's verdict, then the check for
/// suspicious characters.
pub fn validate_loaded(loaded: Result<String, VeltrixError>) -> (r: Result<String, VeltrixValidationError>)
    ensures
        match loaded {
            Err(e) => r == Err::<String, VeltrixValidationError>(from_loader_spec(e)),
            Ok(c) => if has_suspicious(c@) {
                r == Err::<String, VeltrixValidationError>(VeltrixValidationError::SuspiciousContent)
            } else {
                r matches Ok(x) && x@ == c@
            },
        },
{
    match loaded {
        Err(e) => Err(VeltrixValidationError::from_loader(e)),
        Ok(content) => {
            if has_suspicious_content(content.as_str()) {
                return Err(VeltrixValidationError::SuspiciousContent);
            }
            Ok(content)
        },
    }
}

} // verus!
