//! Error values of the safe API: a stable category, the operation that
//! failed, a human-readable detail, and optional native status codes.
use vstd::prelude::*;
use vstd::string::StringSliceAdditionalSpecFns;
use crate::text::{
    decimal, escaped, push_decimal, push_escaped, push_signed_decimal, push_str, signed_decimal,
};

verus! {

/// An unmodified error code from `matGetErrno` (not an OS errno).
#[derive(Debug, Copy, Clone, PartialEq, Eq, Structural)]
pub struct MatError(pub i32);

/// Failures distinguished without guessing undocumented native error numbers.
#[derive(Debug, Copy, Clone, PartialEq, Eq, Structural)]
#[non_exhaustive]
pub enum ErrorKind {
    /// An argument violates the Rust API contract.
    InvalidInput,
    /// An array has the wrong MATLAB class or storage layout.
    Type,
    /// An index, dimension, or allocation size is out of bounds.
    Bounds,
    /// MATLAB could not allocate memory.
    Allocation,
    /// A trapped MATLAB callback failed.
    Callback,
    /// A workspace lookup or update failed.
    Workspace,
    /// The runtime cannot perform the operation while a borrow is active.
    Busy,
    /// A MAT-file mode does not support the requested operation.
    InvalidMode,
    /// Opening or creating a MAT-file failed.
    Open,
    /// Reading a MAT-file failed.
    Read,
    /// Writing a MAT-file failed.
    Write,
    /// Closing a MAT-file failed.
    Close,
    /// Sequential MAT-file reading ended unexpectedly.
    UnexpectedEnd,
    /// A native operation failed without a more specific category.
    Native,
}

/// A validated MATLAB exception identifier (see [`valid_identifier`]).
#[derive(Debug)]
pub struct ErrorId {
    text: String,
}

impl View for ErrorId {
    type V = Seq<char>;

    closed spec fn view(&self) -> Seq<char> {
        self.text@
    }
}

impl ErrorId {
    /// Validate an identifier such as `store:MissingRecordFile`.
    pub fn new(identifier: &str) -> (r: Option<ErrorId>)
        ensures
            r is Some <==> valid_identifier(identifier.spec_bytes()),
            r matches Some(id) ==> id@ == identifier@,
    {
        if identifier_is_valid(identifier.as_bytes()) {
            Some(ErrorId { text: identifier.to_owned() })
        } else {
            None
        }
    }

    /// Borrow the identifier text.
    pub fn as_str(&self) -> (r: &str)
        ensures
            r@ == self@,
    {
        self.text.as_str()
    }
}

/// An error that preserves the native operation and MATLAB error status.
#[derive(Debug)]
pub struct Error {
    /// Optional MATLAB exception identifier overriding the category default.
    pub identifier: Option<ErrorId>,
    /// Stable high-level error category.
    pub kind: ErrorKind,
    /// Operation that detected the failure.
    pub operation: &'static str,
    /// Human-readable failure detail.
    pub detail: String,
    /// Optional status returned by the native function.
    pub status: Option<i32>,
    /// Optional unmodified `matGetErrno` value.
    pub mat_error: Option<MatError>,
}

/// Result type used by the safe API.
pub type Result<T> = core::result::Result<T, Error>;

/// ASCII letter.
pub open spec fn is_id_alpha(b: u8) -> bool {
    (65 <= b <= 90) || (97 <= b <= 122)
}

/// ASCII letter, digit or underscore.
pub open spec fn is_id_tail(b: u8) -> bool {
    is_id_alpha(b) || (48 <= b <= 57) || b == 95
}

/// A field of an identifier starts at position 0 and after every `:`.
pub open spec fn starts_field(b: Seq<u8>, i: int) -> bool {
    i == 0 || b[i - 1] == 58
}

/// A MATLAB exception identifier: at most 255 bytes, at least two fields
/// separated by `:`, every field a nonempty ASCII word that starts with a
/// letter and continues with letters, digits or underscores.
pub open spec fn valid_identifier(b: Seq<u8>) -> bool {
    &&& b.len() <= 255
    &&& exists|i: int| 0 <= i < b.len() && b[i] == 58
    &&& forall|i: int| 0 <= i < b.len() ==> (b[i] == 58 || is_id_tail(#[trigger] b[i]))
    &&& forall|i: int| 0 <= i <= b.len() && #[trigger] starts_field(b, i) ==> (i < b.len()
        && is_id_alpha(b[i]))
}

/// The identifier MATLAB reports for an error of a given category.
pub open spec fn default_id(kind: ErrorKind) -> Seq<char> {
    match kind {
        ErrorKind::InvalidInput => "matlas:input:invalid"@,
        ErrorKind::Type => "matlas:array:type"@,
        ErrorKind::Bounds => "matlas:array:bounds"@,
        ErrorKind::Allocation => "matlas:allocation"@,
        ErrorKind::Callback => "matlas:callback"@,
        ErrorKind::Workspace => "matlas:workspace"@,
        ErrorKind::Busy => "matlas:runtime:busy"@,
        ErrorKind::InvalidMode => "matlas:file:mode"@,
        ErrorKind::Open => "matlas:file:open"@,
        ErrorKind::Read => "matlas:file:read"@,
        ErrorKind::UnexpectedEnd => "matlas:file:read"@,
        ErrorKind::Write => "matlas:file:write"@,
        ErrorKind::Close => "matlas:file:close"@,
        ErrorKind::Native => "matlas:native"@,
    }
}

/// The message text of an error: `operation: detail`, then ` (status N)`
/// and ` (MAT error C)` for the native codes that are present.
pub open spec fn message_text(
    operation: Seq<char>,
    detail: Seq<char>,
    status: Option<i32>,
    mat_error: Option<MatError>,
) -> Seq<char> {
    let base = operation + ": "@ + detail;
    let with_status = match status {
        Some(s) => base + " (status "@ + signed_decimal(s as int) + ")"@,
        None => base,
    };
    match mat_error {
        Some(code) => with_status + " (MAT error "@ + signed_decimal(code.0 as int) + ")"@,
        None => with_status,
    }
}

/// Detail of a bounds error.
pub open spec fn bounds_detail(index: nat, length: nat) -> Seq<char> {
    "index "@ + decimal(index) + " is outside length "@ + decimal(length)
}

/// Detail of a count mismatch: `expected E things, got G`.
pub open spec fn count_detail(expected: nat, noun: Seq<char>, got: nat) -> Seq<char> {
    "expected "@ + decimal(expected) + " "@ + noun + ", got "@ + decimal(got)
}

/// A name or path as debug output shows a C string: in double quotes, with
/// each byte escaped.
pub open spec fn quoted(bytes: Seq<u8>) -> Seq<char> {
    "\""@ + escaped(bytes) + "\""@
}

/// Detail of a type error; `actual` is the bytes of the array's class name.
pub open spec fn type_detail(expected: Seq<char>, actual: Seq<u8>) -> Seq<char> {
    "expected "@ + expected + ", got "@ + quoted(actual)
}

/// Quote a name or path for an error detail as debug output shows a C
/// string.
pub fn quote(bytes: &[u8]) -> (r: String)
    ensures
        r@ == quoted(bytes@),
{
    let mut out = String::new();
    push_str(&mut out, "\"");
    push_escaped(&mut out, bytes);
    push_str(&mut out, "\"");
    out
}

impl Error {
    /// The custom identifier, if one was set.
    pub open spec fn custom_id(&self) -> Option<Seq<char>> {
        match self.identifier {
            Some(s) => Some(s@),
            None => None,
        }
    }

    /// An error the library builds itself: no custom identifier, no native
    /// status and no MAT error code.
    pub open spec fn is_plain(&self) -> bool {
        &&& self.custom_id() is None
        &&& self.status is None
        &&& self.mat_error is None
    }

    /// The identifier reported to MATLAB.
    pub open spec fn id_spec(&self) -> Seq<char> {
        match self.custom_id() {
            Some(s) => s,
            None => default_id(self.kind),
        }
    }

    /// Construct an error without a native status code.
    pub fn new(kind: ErrorKind, operation: &'static str, detail: &str) -> (e: Error)
        ensures
            e.kind == kind,
            e.operation == operation,
            e.detail@ == detail@,
            e.status is None,
            e.mat_error is None,
            e.custom_id() is None,
    {
        Error {
            identifier: None,
            kind,
            operation,
            detail: detail.to_owned(),
            status: None,
            mat_error: None,
        }
    }

    /// Construct an error that carries a native status and `matGetErrno` code.
    pub fn native(kind: ErrorKind, operation: &'static str, detail: &str, status: i32, code: i32) -> (e:
        Error)
        ensures
            e.kind == kind,
            e.operation == operation,
            e.detail@ == detail@,
            e.status == Some(status),
            e.mat_error == Some(MatError(code)),
            e.custom_id() is None,
    {
        Error {
            identifier: None,
            kind,
            operation,
            detail: detail.to_owned(),
            status: Some(status),
            mat_error: Some(MatError(code)),
        }
    }

    /// An allocation failure reported as a null pointer.
    pub fn allocation(operation: &'static str) -> (e: Error)
        ensures
            e.kind == ErrorKind::Allocation,
            e.operation == operation,
            e.detail@ == "MATLAB returned a null allocation"@,
            e.status is None,
            e.mat_error is None,
            e.custom_id() is None,
    {
        Error::new(ErrorKind::Allocation, operation, "MATLAB returned a null allocation")
    }

    /// A native operation that failed with a status code.
    pub fn native_status(operation: &'static str, status: i32) -> (e: Error)
        ensures
            e.kind == ErrorKind::Native,
            e.operation == operation,
            e.detail@ == "native operation failed"@,
            e.status == Some(status),
            e.mat_error is None,
            e.custom_id() is None,
    {
        let mut error = Error::new(ErrorKind::Native, operation, "native operation failed");
        error.status = Some(status);
        error
    }

    /// An index outside a length.
    pub fn bounds(operation: &'static str, index: usize, length: usize) -> (e: Error)
        ensures
            e.kind == ErrorKind::Bounds,
            e.operation == operation,
            e.detail@ == bounds_detail(index as nat, length as nat),
            e.status is None,
            e.mat_error is None,
            e.custom_id() is None,
    {
        let mut detail = String::new();
        push_str(&mut detail, "index ");
        push_decimal(&mut detail, index as u64);
        push_str(&mut detail, " is outside length ");
        push_decimal(&mut detail, length as u64);
        let e = Error::new(ErrorKind::Bounds, operation, detail.as_str());
        e
    }

    /// A count that differs from the one required.
    pub fn count_mismatch(
        kind: ErrorKind,
        operation: &'static str,
        expected: usize,
        noun: &str,
        got: usize,
    ) -> (e: Error)
        ensures
            e.kind == kind,
            e.operation == operation,
            e.detail@ == count_detail(expected as nat, noun@, got as nat),
            e.status is None,
            e.mat_error is None,
            e.custom_id() is None,
    {
        let mut detail = String::new();
        push_str(&mut detail, "expected ");
        push_decimal(&mut detail, expected as u64);
        push_str(&mut detail, " ");
        push_str(&mut detail, noun);
        push_str(&mut detail, ", got ");
        push_decimal(&mut detail, got as u64);
        Error::new(kind, operation, detail.as_str())
    }

    /// An array of the wrong class or layout; `actual` is its class name.
    pub fn type_mismatch(operation: &'static str, expected: &str, actual: &[u8]) -> (e: Error)
        ensures
            e.kind == ErrorKind::Type,
            e.operation == operation,
            e.detail@ == type_detail(expected@, actual@),
            e.status is None,
            e.mat_error is None,
            e.custom_id() is None,
    {
        let mut detail = String::new();
        push_str(&mut detail, "expected ");
        push_str(&mut detail, expected);
        push_str(&mut detail, ", got ");
        let quoted_name = quote(actual);
        push_str(&mut detail, quoted_name.as_str());
        Error::new(ErrorKind::Type, operation, detail.as_str())
    }

    /// Set a MATLAB exception identifier such as `store:MissingRecordFile`.
    ///
    /// # Errors
    ///
    /// Returns an input error if the identifier is invalid or exceeds the
    /// native MEX entrypoint's 255-byte identifier buffer.
    pub fn with_id(self, identifier: &str) -> (r: Result<Error>)
        ensures
            r is Ok <==> valid_identifier(identifier.spec_bytes()),
            r matches Ok(e) ==> {
                &&& e.custom_id() == Some(identifier@)
                &&& e.kind == self.kind
                &&& e.operation == self.operation
                &&& e.detail == self.detail
                &&& e.status == self.status
                &&& e.mat_error == self.mat_error
            },
            r matches Err(e) ==> {
                &&& e.kind == ErrorKind::InvalidInput
                &&& e.operation == "error identifier"
                &&& e.detail@ == "expected colon-separated ASCII identifiers of at most 255 bytes"@
                &&& e.status is None
                &&& e.mat_error is None
                &&& e.custom_id() is None
            },
    {
        match ErrorId::new(identifier) {
            Some(id) => {
                let mut this = self;
                this.identifier = Some(id);
                Ok(this)
            },
            None => Err(
                Error::new(
                    ErrorKind::InvalidInput,
                    "error identifier",
                    "expected colon-separated ASCII identifiers of at most 255 bytes",
                ),
            ),
        }
    }

    /// Return the custom identifier, or the default for this category.
    pub fn id(&self) -> (r: &str)
        ensures
            r@ == self.id_spec(),
    {
        match &self.identifier {
            Some(id) => id.as_str(),
            None => match self.kind {
                ErrorKind::InvalidInput => "matlas:input:invalid",
                ErrorKind::Type => "matlas:array:type",
                ErrorKind::Bounds => "matlas:array:bounds",
                ErrorKind::Allocation => "matlas:allocation",
                ErrorKind::Callback => "matlas:callback",
                ErrorKind::Workspace => "matlas:workspace",
                ErrorKind::Busy => "matlas:runtime:busy",
                ErrorKind::InvalidMode => "matlas:file:mode",
                ErrorKind::Open => "matlas:file:open",
                ErrorKind::Read => "matlas:file:read",
                ErrorKind::UnexpectedEnd => "matlas:file:read",
                ErrorKind::Write => "matlas:file:write",
                ErrorKind::Close => "matlas:file:close",
                ErrorKind::Native => "matlas:native",
            },
        }
    }

    /// The human-readable message: `operation: detail`, followed by the
    /// native status and `matGetErrno` code when they are present.
    pub fn to_text(&self) -> (r: String)
        ensures
            r@ == message_text(self.operation@, self.detail@, self.status, self.mat_error),
    {
        let mut text = String::new();
        push_str(&mut text, self.operation);
        push_str(&mut text, ": ");
        push_str(&mut text, self.detail.as_str());
        match self.status {
            Some(status) => {
                push_str(&mut text, " (status ");
                push_signed_decimal(&mut text, status as i64);
                push_str(&mut text, ")");
            },
            None => {},
        }
        match self.mat_error {
            Some(code) => {
                push_str(&mut text, " (MAT error ");
                push_signed_decimal(&mut text, code.0 as i64);
                push_str(&mut text, ")");
            },
            None => {},
        }
        text
    }
}

/// An error given a custom identifier reports that identifier, whatever
/// its category; without one it reports its category's default.
pub proof fn law_reported_identifier(e: Error)
    ensures
        e.custom_id() matches Some(id) ==> e.id_spec() == id,
        e.custom_id() is None ==> e.id_spec() == default_id(e.kind),
{
}

/// Check an identifier byte by byte against [`valid_identifier`].
fn identifier_is_valid(b: &[u8]) -> (ok: bool)
    ensures
        ok == valid_identifier(b@),
{
    let len = b.len();
    if len > 255 {
        return false;
    }
    let mut at_start = true;
    let mut colon = false;
    let mut i: usize = 0;
    while i < len
        invariant
            len == b@.len(),
            len <= 255,
            i <= len,
            at_start == starts_field(b@, i as int),
            colon == exists|j: int| 0 <= j < i && b@[j] == 58,
            forall|j: int| 0 <= j < i ==> (b@[j] == 58 || is_id_tail(#[trigger] b@[j])),
            forall|j: int|
                0 <= j < i && #[trigger] starts_field(b@, j) ==> is_id_alpha(b@[j]),
        decreases len - i,
    {
        let c = b[i];
        if at_start {
            if !((65 <= c && c <= 90) || (97 <= c && c <= 122)) {
                assert(starts_field(b@, i as int));
                return false;
            }
            at_start = false;
        } else if c == 58 {
            colon = true;
            at_start = true;
        } else if !((65 <= c && c <= 90) || (97 <= c && c <= 122) || (48 <= c && c <= 57) || c
            == 95) {
            assert(!is_id_tail(b@[i as int]));
            return false;
        }
        if c == 58 {
            at_start = true;
        }
        proof {
            assert(at_start == starts_field(b@, i + 1));
            if c == 58 {
                assert(b@[i as int] == 58);
            }
        }
        i = i + 1;
    }
    if at_start {
        assert(starts_field(b@, len as int));
        return false;
    }
    if !colon {
        return false;
    }
    true
}

} // verus!
