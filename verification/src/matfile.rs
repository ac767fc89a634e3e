//! MAT-file rules: access modes, variable names, native status mapping,
//! header metadata, and the bookkeeping of sequential readers.
use vstd::prelude::*;
use crate::array::{class_id, Class};
use crate::error::{quote, quoted, Error, ErrorKind, MatError, Result};
use crate::mex::{check_no_nul, has_nul};

verus! {

/// All creation formats accepted by `matOpen`.
#[derive(Debug, Copy, Clone, PartialEq, Eq, Structural)]
pub enum MatVersion {
    /// MATLAB's default output format.
    Default,
    /// Level-4 MAT-file format.
    V4,
    /// Version-6 MAT-file format.
    V6,
    /// Version-7 compressed MAT-file format.
    V7,
    /// Version-7.3 HDF5 MAT-file format.
    V73,
}

/// Access mode for a MAT-file.
#[derive(Debug, Copy, Clone, PartialEq, Eq, Structural)]
pub enum OpenMode {
    /// Open an existing file for reading.
    Read,
    /// Open an existing file for reading and writing.
    Update,
    /// Create or replace a file in the selected format.
    Write(MatVersion),
}

/// The mode string `matOpen` takes for each access mode.
pub open spec fn mode_text(mode: OpenMode) -> Seq<char> {
    match mode {
        OpenMode::Read => "r"@,
        OpenMode::Update => "u"@,
        OpenMode::Write(MatVersion::Default) => "w"@,
        OpenMode::Write(MatVersion::V4) => "w4"@,
        OpenMode::Write(MatVersion::V6) => "w6"@,
        OpenMode::Write(MatVersion::V7) => "w7"@,
        OpenMode::Write(MatVersion::V73) => "w7.3"@,
    }
}

impl OpenMode {
    /// The mode string `matOpen` takes.
    pub fn as_text(self) -> (r: &'static str)
        ensures
            r@ == mode_text(self),
    {
        match self {
            OpenMode::Read => "r",
            OpenMode::Update => "u",
            OpenMode::Write(MatVersion::Default) => "w",
            OpenMode::Write(MatVersion::V4) => "w4",
            OpenMode::Write(MatVersion::V6) => "w6",
            OpenMode::Write(MatVersion::V7) => "w7",
            OpenMode::Write(MatVersion::V73) => "w7.3",
        }
    }

    /// The mode of [`create`](OpenMode::create): a version-7 file.
    pub fn create() -> (r: OpenMode)
        ensures
            r == OpenMode::Write(MatVersion::V7),
    {
        OpenMode::Write(MatVersion::V7)
    }

    /// Reading needs a file opened for reading or update.
    ///
    /// # Errors
    ///
    /// Returns an invalid-mode error for a write-only file.
    pub fn require_read(self) -> (r: Result<()>)
        ensures
            r matches Err(e) ==> e.is_plain(),
            r is Ok <==> !(self is Write),
            r matches Err(e) ==> e.kind == ErrorKind::InvalidMode && e.operation == "read MAT-file"
                && e.detail@ == "file is write-only"@,
    {
        match self {
            OpenMode::Write(_) => Err(
                Error::new(ErrorKind::InvalidMode, "read MAT-file", "file is write-only"),
            ),
            _ => Ok(()),
        }
    }

    /// Writing needs a file opened for update or writing.
    ///
    /// # Errors
    ///
    /// Returns an invalid-mode error for a read-only file.
    pub fn require_write(self) -> (r: Result<()>)
        ensures
            r matches Err(e) ==> e.is_plain(),
            r is Ok <==> self != OpenMode::Read,
            r matches Err(e) ==> e.kind == ErrorKind::InvalidMode && e.operation
                == "write MAT-file" && e.detail@ == "file is read-only"@,
    {
        match self {
            OpenMode::Read => Err(
                Error::new(ErrorKind::InvalidMode, "write MAT-file", "file is read-only"),
            ),
            _ => Ok(()),
        }
    }
}

/// A file opened in a mode can be read exactly when it cannot be refused
/// for reading, and written exactly when it is not read-only; an update-mode
/// file can do both and a fresh file is write-only.
pub proof fn law_modes(mode: OpenMode)
    ensures
        (mode is Write) != (mode == OpenMode::Read || mode == OpenMode::Update),
        mode == OpenMode::Update ==> !(mode is Write) && mode != OpenMode::Read,
{
}

/// Variable names must not be empty.
///
/// # Errors
///
/// Returns an input error for an empty name.
pub fn validate_name(name: &[u8]) -> (r: Result<()>)
    ensures
        r matches Err(e) ==> e.is_plain(),
        r is Ok <==> name@.len() > 0,
        r matches Err(e) ==> e.kind == ErrorKind::InvalidInput && e.operation == "variable name"
            && e.detail@ == "empty name"@,
{
    if name.len() == 0 {
        Err(Error::new(ErrorKind::InvalidInput, "variable name", "empty name"))
    } else {
        Ok(())
    }
}

/// A path must be Unicode (`None` stands for a path that is not) and free
/// of NUL to be passed to `matOpen`.
///
/// # Errors
///
/// Returns an input error naming the problem.
pub fn check_path(path: Option<&str>) -> (r: Result<()>)
    ensures
        r matches Err(e) ==> e.is_plain(),
        r is Ok <==> (path matches Some(p) && !has_nul(p)),
        r matches Err(e) ==> e.kind == ErrorKind::InvalidInput && e.operation == "path",
        r matches Err(e) ==> path is None ==> e.detail@ == "path is not valid Unicode"@,
        r matches Err(e) ==> path is Some ==> e.detail@ == "path contains NUL"@,
{
    match path {
        None => Err(Error::new(ErrorKind::InvalidInput, "path", "path is not valid Unicode")),
        Some(text) => check_no_nul(text, "path", "path contains NUL"),
    }
}

/// The result of `matOpen`: a missing handle is an open error naming the path.
pub fn check_open(opened: bool, path: &[u8]) -> (r: Result<()>)
    ensures
        r matches Err(e) ==> e.is_plain(),
        r is Ok <==> opened,
        r matches Err(e) ==> e.kind == ErrorKind::Open && e.operation == "open MAT-file"
            && e.detail@ == quoted(path@),
{
    if opened {
        Ok(())
    } else {
        let detail = quote(path);
        Err(Error::new(ErrorKind::Open, "open MAT-file", detail.as_str()))
    }
}

/// The result of `matPutVariable` or `matPutVariableAsGlobal`.
pub fn check_put(status: i32, code: i32, global: bool, name: &[u8]) -> (r: Result<()>)
    ensures
        r matches Err(e) ==> e.custom_id() is None,
        r is Ok <==> status == 0,
        r matches Err(e) ==> e.kind == ErrorKind::Write && e.status == Some(status) && e.mat_error
            == Some(MatError(code)) && e.detail@ == quoted(name@) && e.operation == (if global {
            "put global MAT variable"
        } else {
            "put MAT variable"
        }),
{
    if status == 0 {
        return Ok(());
    }
    let detail = quote(name);
    let operation = if global {
        "put global MAT variable"
    } else {
        "put MAT variable"
    };
    Err(Error::native(ErrorKind::Write, operation, detail.as_str(), status, code))
}

/// The result of `matGetVariable` (or of `matGetVariableInfo` for `info`):
/// a missing array is a read error naming the variable.
pub fn check_get(found: bool, code: i32, info: bool, name: &[u8]) -> (r: Result<()>)
    ensures
        r matches Err(e) ==> e.custom_id() is None,
        r is Ok <==> found,
        r matches Err(e) ==> e.kind == ErrorKind::Read && e.status == Some(-1i32) && e.mat_error
            == Some(MatError(code)) && e.detail@ == quoted(name@) && e.operation == (if info {
            "get MAT header"
        } else {
            "get MAT variable"
        }),
{
    if found {
        return Ok(());
    }
    let detail = quote(name);
    let operation = if info {
        "get MAT header"
    } else {
        "get MAT variable"
    };
    Err(Error::native(ErrorKind::Read, operation, detail.as_str(), -1, code))
}

/// The result of `matDeleteVariable`.
pub fn check_delete(status: i32, code: i32, name: &[u8]) -> (r: Result<()>)
    ensures
        r matches Err(e) ==> e.custom_id() is None,
        r is Ok <==> status == 0,
        r matches Err(e) ==> e.kind == ErrorKind::Write && e.operation == "delete MAT variable"
            && e.status == Some(status) && e.mat_error == Some(MatError(code)) && e.detail@
            == quoted(name@),
{
    if status == 0 {
        return Ok(());
    }
    let detail = quote(name);
    Err(Error::native(ErrorKind::Write, "delete MAT variable", detail.as_str(), status, code))
}

/// The result of `matGetDir`: a negative count, or a positive count without
/// a name list, is malformed.
pub fn check_directory(count: i32, names_missing: bool, code: i32) -> (r: Result<usize>)
    ensures
        r matches Err(e) ==> e.custom_id() is None,
        r is Ok <==> count >= 0 && !(count > 0 && names_missing),
        r matches Ok(n) ==> n == count,
        r matches Err(e) ==> e.kind == ErrorKind::Read && e.operation == "MAT directory"
            && e.detail@ == "invalid directory"@ && e.status == Some(count) && e.mat_error == Some(
            MatError(code),
        ),
{
    if count < 0 || (count > 0 && names_missing) {
        return Err(Error::native(ErrorKind::Read, "MAT directory", "invalid directory", count, code));
    }
    Ok(count as usize)
}

/// One entry of the name list `matGetDir` returned: a missing name is a
/// native error.
pub fn check_directory_entry(present: bool) -> (r: Result<()>)
    ensures
        r matches Err(e) ==> e.is_plain(),
        r is Ok <==> present,
        r matches Err(e) ==> e.kind == ErrorKind::Native && e.operation == "MAT directory"
            && e.detail@ == "null name"@,
{
    if present {
        Ok(())
    } else {
        Err(Error::new(ErrorKind::Native, "MAT directory", "null name"))
    }
}

/// The result of an explicit `matClose`: a nonzero status is a close
/// error that keeps the status.
pub fn check_close(status: i32) -> (r: Result<()>)
    ensures
        r matches Err(e) ==> e.custom_id() is None && e.mat_error is None,
        r is Ok <==> status == 0,
        r matches Err(e) ==> e.kind == ErrorKind::Close && e.operation == "close MAT-file"
            && e.status == Some(status) && e.mat_error is None && e.detail@
            == "native operation failed"@,
{
    if status == 0 {
        Ok(())
    } else {
        let mut error = Error::new(ErrorKind::Close, "close MAT-file", "native operation failed");
        error.status = Some(status);
        Err(error)
    }
}

/// A stream position reported by the C library; negative means failure.
pub fn check_position(position: i64) -> (r: Result<u64>)
    ensures
        r matches Err(e) ==> e.is_plain(),
        r is Ok <==> position >= 0,
        r matches Ok(p) ==> p == position,
        r matches Err(e) ==> e.kind == ErrorKind::Native && e.operation == "stream position"
            && e.detail@ == "native stream returned a negative position"@,
{
    if position < 0 {
        return Err(
            Error::new(
                ErrorKind::Native,
                "stream position",
                "native stream returned a negative position",
            ),
        );
    }
    Ok(position as u64)
}

/// Metadata of a MAT-file variable read without its data. It holds plain
/// values only, so it cannot be mistaken for an array with readable data.
pub struct ArrayInfo {
    dimensions: Vec<usize>,
    numel: usize,
    class_id: i32,
    class_name: String,
    complex: bool,
    sparse: bool,
    global: bool,
}

impl ArrayInfo {
    /// Dimension vector.
    pub closed spec fn spec_dimensions(&self) -> Seq<usize> {
        self.dimensions@
    }

    /// Element count.
    pub closed spec fn spec_numel(&self) -> usize {
        self.numel
    }

    /// Native class identifier.
    pub closed spec fn spec_class_id(&self) -> i32 {
        self.class_id
    }

    /// Class name.
    pub closed spec fn spec_class_name(&self) -> Seq<char> {
        self.class_name@
    }

    /// Complex storage.
    pub closed spec fn spec_complex(&self) -> bool {
        self.complex
    }

    /// Sparse storage.
    pub closed spec fn spec_sparse(&self) -> bool {
        self.sparse
    }

    /// Global flag.
    pub closed spec fn spec_global(&self) -> bool {
        self.global
    }

    /// Record the metadata of a variable header.
    pub fn new(
        dimensions: Vec<usize>,
        numel: usize,
        class_id: i32,
        class_name: String,
        complex: bool,
        sparse: bool,
        global: bool,
    ) -> (r: ArrayInfo)
        ensures
            r.spec_dimensions() == dimensions@,
            r.spec_numel() == numel,
            r.spec_class_id() == class_id,
            r.spec_class_name() == class_name@,
            r.spec_complex() == complex,
            r.spec_sparse() == sparse,
            r.spec_global() == global,
    {
        ArrayInfo { dimensions, numel, class_id, class_name, complex, sparse, global }
    }

    /// Borrow the variable dimensions.
    pub fn dimensions(&self) -> (r: &[usize])
        ensures
            r@ == self.spec_dimensions(),
    {
        self.dimensions.as_slice()
    }

    /// Return the variable element count.
    pub fn numel(&self) -> (r: usize)
        ensures
            r == self.spec_numel(),
    {
        self.numel
    }

    /// Return the variable class when it is known to this crate.
    pub fn class(&self) -> (r: Option<Class>)
        ensures
            r is Some <==> 0 <= self.spec_class_id() <= 18,
            r matches Some(c) ==> class_id(c) == self.spec_class_id(),
    {
        Class::from_raw(self.class_id)
    }

    /// Return the native class identifier, including ones unknown to this
    /// crate.
    pub fn class_id(&self) -> (r: i32)
        ensures
            r == self.spec_class_id(),
    {
        self.class_id
    }

    /// Return the variable class name.
    pub fn class_name(&self) -> (r: &str)
        ensures
            r@ == self.spec_class_name(),
    {
        self.class_name.as_str()
    }

    /// Test whether the variable uses sparse storage.
    pub fn is_sparse(&self) -> (r: bool)
        ensures
            r == self.spec_sparse(),
    {
        self.sparse
    }

    /// Test whether the variable uses complex storage.
    pub fn is_complex(&self) -> (r: bool)
        ensures
            r == self.spec_complex(),
    {
        self.complex
    }

    /// Test whether the variable is marked global.
    pub fn is_global(&self) -> (r: bool)
        ensures
            r == self.spec_global(),
    {
        self.global
    }
}

/// Progress of a sequential reader over a MAT-file: the number of variables
/// the directory listed that are still to be read, and whether reading has
/// stopped.
pub struct Cursor {
    remaining: usize,
    done: bool,
}

impl Cursor {
    /// Variables still to be read.
    pub closed spec fn spec_remaining(&self) -> nat {
        self.remaining as nat
    }

    /// Whether reading has stopped.
    pub closed spec fn spec_done(&self) -> bool {
        self.done
    }

    /// A reader over a file whose directory lists `count` variables.
    pub fn new(count: usize) -> (r: Cursor)
        ensures
            r.spec_remaining() == count,
            !r.spec_done(),
    {
        Cursor { remaining: count, done: false }
    }

    /// Decide whether another variable should be read. Once every listed
    /// variable was read, or reading failed, the reader is finished for good.
    pub fn advance(&mut self) -> (read: bool)
        ensures
            (final(self).spec_remaining(), final(self).spec_done(), read) == advance_spec(
                old(self).spec_remaining(),
                old(self).spec_done(),
            ),
    {
        if self.done || self.remaining == 0 {
            self.done = true;
            return false;
        }
        true
    }

    /// A variable was read: one fewer remains.
    pub fn record_read(&mut self)
        requires
            old(self).spec_remaining() > 0,
        ensures
            final(self).spec_remaining() == old(self).spec_remaining() - 1,
            final(self).spec_done() == old(self).spec_done(),
    {
        self.remaining = self.remaining - 1;
    }

    /// The native reader returned nothing before every listed variable was
    /// read: reading stops with an unexpected-end error.
    pub fn fail_missing(&mut self, code: i32, info: bool) -> (e: Error)
        ensures
            e.custom_id() is None,
            final(self).spec_done(),
            final(self).spec_remaining() == old(self).spec_remaining(),
            e.kind == ErrorKind::UnexpectedEnd,
            e.operation == (if info {
                "next MAT header"
            } else {
                "next MAT variable"
            }),
            e.detail@ == "native reader ended early"@,
            e.status == Some(-1i32),
            e.mat_error == Some(MatError(code)),
    {
        self.done = true;
        let operation = if info {
            "next MAT header"
        } else {
            "next MAT variable"
        };
        Error::native(ErrorKind::UnexpectedEnd, operation, "native reader ended early", -1, code)
    }

    /// The native reader returned a variable without a name: reading stops.
    pub fn fail_unnamed(&mut self, info: bool) -> (e: Error)
        ensures
            e.is_plain(),
            final(self).spec_done(),
            final(self).spec_remaining() == old(self).spec_remaining(),
            e.kind == ErrorKind::Native,
            e.operation == (if info {
                "next MAT header"
            } else {
                "next MAT variable"
            }),
            e.detail@ == "null variable name"@,
    {
        self.done = true;
        let operation = if info {
            "next MAT header"
        } else {
            "next MAT variable"
        };
        Error::new(ErrorKind::Native, operation, "null variable name")
    }
}

/// One decision of a sequential reader: the variables still to be read,
/// whether it is finished afterwards, and whether it reads.
pub open spec fn advance_spec(remaining: nat, done: bool) -> (nat, bool, bool) {
    let read = !done && remaining > 0;
    (remaining, !read, read)
}

/// A finished reader stays finished: once it declines to read, every later
/// decision declines too, so a sequential reader yields nothing after its
/// end or after an error.
pub proof fn law_cursor_fused(remaining: nat, done: bool)
    requires
        !advance_spec(remaining, done).2,
    ensures
        !advance_spec(advance_spec(remaining, done).0, advance_spec(remaining, done).1).2,
        advance_spec(remaining, done).1,
{
}

/// A sequential reader driven to its end: it starts with `remaining`
/// variables to read, asks [`Cursor::advance`] before each native read, and
/// `outcomes[k]` tells whether the k-th native read gave a named variable
/// ([`Cursor::record_read`]) or failed ([`Cursor::fail_missing`] or
/// [`Cursor::fail_unnamed`]). The result is the number of variables yielded
/// and the reader's remaining count and finished flag afterwards.
pub open spec fn drive(remaining: nat, done: bool, outcomes: Seq<bool>) -> (nat, nat, bool)
    decreases outcomes.len(),
{
    let step = advance_spec(remaining, done);
    if !step.2 || outcomes.len() == 0 {
        (0, step.0, step.1)
    } else if outcomes[0] {
        let rest = drive((remaining - 1) as nat, step.1, outcomes.drop_first());
        (rest.0 + 1, rest.1, rest.2)
    } else {
        (0, remaining, true)
    }
}

proof fn lemma_drive(remaining: nat, done: bool, outcomes: Seq<bool>)
    ensures
        drive(remaining, done, outcomes).0 <= remaining,
        drive(remaining, done, outcomes).0 + drive(remaining, done, outcomes).1 <= remaining,
        !done && outcomes.len() >= remaining && (forall|k: int|
            0 <= k < outcomes.len() ==> #[trigger] outcomes[k]) ==> {
            &&& drive(remaining, done, outcomes).0 == remaining
            &&& drive(remaining, done, outcomes).1 == 0
        },
    decreases outcomes.len(),
{
    let step = advance_spec(remaining, done);
    if step.2 && outcomes.len() > 0 && outcomes[0] {
        lemma_drive((remaining - 1) as nat, step.1, outcomes.drop_first());
        if !done && outcomes.len() >= remaining && (forall|k: int|
            0 <= k < outcomes.len() ==> #[trigger] outcomes[k]) {
            assert forall|k: int| 0 <= k < outcomes.drop_first().len() implies #[trigger] outcomes.drop_first()[k] by {
                assert(outcomes.drop_first()[k] == outcomes[k + 1]);
            }
        }
    }
}

/// A sequential reader over a file whose directory lists `count` variables
/// yields at most `count` of them, whatever the native reads give; when
/// every read gives a named variable it yields exactly `count` and then
/// declines to read, and over an empty file it declines at once.
pub proof fn law_reader_count(count: nat, outcomes: Seq<bool>)
    ensures
        drive(count, false, outcomes).0 <= count,
        outcomes.len() >= count && (forall|k: int| 0 <= k < outcomes.len() ==> #[trigger] outcomes[k])
            ==> {
            let end = drive(count, false, outcomes);
            &&& end.0 == count
            &&& !advance_spec(end.1, end.2).2
        },
        count == 0 ==> !advance_spec(count, false).2 && drive(count, false, outcomes).0 == 0,
{
    lemma_drive(count, false, outcomes);
}

} // verus!
