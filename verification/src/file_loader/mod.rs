//! The checks that loading a `.vlx` source file makes; reading the file is
//! left to the caller.
use vstd::prelude::*;
use vstd::string::StringExecFns;
use crate::text::{is_blank, all_ws, contains_seq};

verus! {

/// The largest file accepted, in bytes (1 MiB).
pub const MAX_FILE_SIZE: u64 = 1_048_576;

/// Why a file was not loaded. The messages do not reveal paths.
#[derive(Debug, Clone, Copy, PartialEq, Eq)]
pub enum VeltrixError {
    FileNotFound,
    InvalidExtension,
    InvalidUTF8,
    EmptyFile,
    FileTooLarge,
}

/// The text of a loading error.
pub open spec fn loader_error_text(e: VeltrixError) -> Seq<char> {
    match e {
        VeltrixError::FileNotFound => "File not found"@,
        VeltrixError::InvalidExtension => "Invalid file extension: expected .vlx"@,
        VeltrixError::InvalidUTF8 => "File contains invalid UTF-8"@,
        VeltrixError::EmptyFile => "File is empty"@,
        VeltrixError::FileTooLarge => "File exceeds maximum allowed size"@,
    }
}

impl VeltrixError {
    /// The text of this error.
    pub fn to_display_string(&self) -> (r: String)
        ensures
            r@ == loader_error_text(*self),
    {
        match self {
            VeltrixError::FileNotFound => String::from_str("File not found"),
            VeltrixError::InvalidExtension => String::from_str("Invalid file extension: expected .vlx"),
            VeltrixError::InvalidUTF8 => String::from_str("File contains invalid UTF-8"),
            VeltrixError::EmptyFile => String::from_str("File is empty"),
            VeltrixError::FileTooLarge => String::from_str("File exceeds maximum allowed size"),
        }
    }
}

/// A path that is one plain file name: not empty, not `.` or `..`, and
/// holding no separator (`/`, `\\`) and no drive colon.
pub open spec fn plain_name(p: Seq<char>) -> bool {
    &&& p.len() > 0
    &&& p != "."@
    &&& p != ".."@
    &&& forall|i: int| 0 <= i < p.len() ==> #[trigger] p[i] != '/' && p[i] != '\\' && p[i] != ':'
}

/// Index of the last dot of `p`, or -1 when it holds none.
pub open spec fn last_dot(p: Seq<char>) -> int
    decreases p.len(),
{
    if p.len() == 0 {
        -1
    } else if p.last() == '.' {
        p.len() - 1
    } else {
        last_dot(p.drop_last())
    }
}

/// The extension of a plain file name: what follows its last dot, when that
/// dot is not the first character.
pub open spec fn name_extension(p: Seq<char>) -> Option<Seq<char>> {
    if last_dot(p) > 0 {
        Some(p.subrange(last_dot(p) + 1, p.len() as int))
    } else {
        None
    }
}

/// The extension of the last component of a path (`Path::extension`, as
/// text): what follows the final dot of the file name, and nothing when the
/// path holds no dot or the name's only dot is its first character. For a
/// path that is one plain file name this is stated exactly; for other paths
/// how they split into components depends on the platform, and trailing
/// separators are skipped, so which dot it is is not stated: only that the
/// path holds a dot followed by the extension, and that the extension holds
/// no dot.
#[verifier::external_body]
pub(crate) fn path_extension(path: &str) -> (r: Option<String>)
    ensures
        r matches Some(e) ==> contains_seq(path@, "."@ + e@) && !e@.contains('.'),
        !path@.contains('.') ==> r is None,
        plain_name(path@) ==> match r {
            Some(e) => name_extension(path@) == Some(e@),
            None => name_extension(path@) is None,
        },
{
    std::path::Path::new(path).extension().and_then(|e| e.to_str()).map(|e| e.to_string())
}

/// ASCII lower case of one character.
pub open spec fn ascii_lower(c: char) -> char {
    if 'A' <= c <= 'Z' {
        ((c as u32) + 32) as char
    } else {
        c
    }
}

/// ASCII case-insensitive equality (`str::eq_ignore_ascii_case`).
pub open spec fn eq_ignore_ascii_case(a: Seq<char>, b: Seq<char>) -> bool {
    a.len() == b.len() && forall|i: int| 0 <= i < a.len() ==> ascii_lower(#[trigger] a[i]) == ascii_lower(b[i])
}

fn lower_char(c: char) -> (r: char)
    ensures
        r == ascii_lower(c),
{
    if 'A' <= c && c <= 'Z' {
        let b: u8 = (c as u8) + 32u8;
        b as char
    } else {
        c
    }
}

/// Whether two strings are equal up to ASCII case.
pub fn ascii_case_eq(a: &str, b: &str) -> (r: bool)
    ensures
        r == eq_ignore_ascii_case(a@, b@),
{
    let x = crate::text::chars_of(a);
    let y = crate::text::chars_of(b);
    if x.len() != y.len() {
        return false;
    }
    let mut i: usize = 0;
    while i < x.len()
        invariant
            x@ == a@,
            y@ == b@,
            x@.len() == y@.len(),
            i <= x@.len(),
            forall|j: int| 0 <= j < i ==> ascii_lower(#[trigger] a@[j]) == ascii_lower(b@[j]),
        decreases x@.len() - i,
    {
        if lower_char(x[i]) != lower_char(y[i]) {
            return false;
        }
        i = i + 1;
    }
    true
}

/// Whether an extension is `vlx` in any case.
pub open spec fn vlx_extension(ext: Option<Seq<char>>) -> bool {
    ext matches Some(e) && eq_ignore_ascii_case(e, "vlx"@)
}

/// Whether an extension, as `path_extension` gives it, is `vlx` in any case.
pub fn is_vlx_extension(ext: &Option<String>) -> (r: bool)
    ensures
        r == vlx_extension(match ext {
            Some(e) => Some(e@),
            None => None,
        }),
{
    match ext {
        Some(e) => ascii_case_eq(e.as_str(), "vlx"),
        None => false,
    }
}

/// The loader.
pub struct FileLoader;

impl FileLoader {
    /// The extension must be `vlx`, in any case, before any reading.
    pub fn check_extension(path: &str) -> (r: Result<(), VeltrixError>)
        ensures
            r is Ok ==> exists|e: Seq<char>| contains_seq(path@, "."@ + e) && eq_ignore_ascii_case(e, "vlx"@),
            r is Err ==> r == Err::<(), VeltrixError>(VeltrixError::InvalidExtension),
            !path@.contains('.') ==> r is Err,
            plain_name(path@) ==> (r is Ok <==> vlx_extension(name_extension(path@))),
    {
        let ext = path_extension(path);
        if is_vlx_extension(&ext) {
            Ok(())
        } else {
            Err(VeltrixError::InvalidExtension)
        }
    }

    /// The size must be neither zero nor above `MAX_FILE_SIZE`.
    pub fn check_size(len: u64) -> (r: Result<(), VeltrixError>)
        ensures
            len == 0 ==> r == Err::<(), VeltrixError>(VeltrixError::EmptyFile),
            len > MAX_FILE_SIZE ==> r == Err::<(), VeltrixError>(VeltrixError::FileTooLarge),
            0 < len <= MAX_FILE_SIZE ==> r is Ok,
    {
        if len == 0 {
            return Err(VeltrixError::EmptyFile);
        }
        if len > MAX_FILE_SIZE {
            return Err(VeltrixError::FileTooLarge);
        }
        Ok(())
    }

    /// The text must hold more than white space.
    pub fn check_text(content: String) -> (r: Result<String, VeltrixError>)
        ensures
            all_ws(content@) ==> r == Err::<String, VeltrixError>(VeltrixError::EmptyFile),
            !all_ws(content@) ==> (r matches Ok(c) && c@ == content@),
    {
        if is_blank(content.as_str()) {
            return Err(VeltrixError::EmptyFile);
        }
        Ok(content)
    }
}

} // verus!
