//! The invocation context, MEX arguments, workspaces and MATLAB callbacks.
use vstd::prelude::*;
use core::marker::PhantomData;
use std::rc::Rc;
use vstd::string::StringSliceAdditionalSpecFns;
use crate::error::{count_detail, Error, ErrorKind, Result};

verus! {

/// A proof of the current MATLAB invocation and thread. The lifetime brand
/// is invariant and the value is neither `Send` nor `Sync`.
pub struct Matlab<'mex> {
    _brand: PhantomData<&'mex mut &'mex ()>,
    _thread: PhantomData<Rc<()>>,
}

impl<'mex> Matlab<'mex> {
    /// Create the context of an invocation. The entrypoint creates exactly
    /// one per MEX call.
    pub fn new() -> (r: Matlab<'mex>) {
        Matlab { _brand: PhantomData, _thread: PhantomData }
    }

    /// Open a scope for borrowing multiple variables from one MATLAB
    /// workspace. The scope holds the context exclusively until it is
    /// consumed by a callback or dropped.
    pub fn workspace_scope(&mut self, space: Workspace) -> (r: WorkspaceScope<'_, 'mex>)
        ensures
            r.space() == space,
    {
        WorkspaceScope { space, _context: self }
    }
}

/// MATLAB's three workspace namespaces.
#[derive(Debug, Copy, Clone, PartialEq, Eq, Structural)]
pub enum Workspace {
    /// Calling function's workspace.
    Caller,
    /// Global workspace.
    Global,
    /// Base workspace.
    Base,
}

/// The name MATLAB uses for a workspace.
pub open spec fn workspace_name(space: Workspace) -> Seq<char> {
    match space {
        Workspace::Caller => "caller"@,
        Workspace::Global => "global"@,
        Workspace::Base => "base"@,
    }
}

impl Workspace {
    /// The name MATLAB uses for this workspace.
    pub fn name(self) -> (r: &'static str)
        ensures
            r@ == workspace_name(self),
    {
        match self {
            Workspace::Caller => "caller",
            Workspace::Global => "global",
            Workspace::Base => "base",
        }
    }
}

/// An exclusive workspace access period.
pub struct WorkspaceScope<'a, 'mex> {
    space: Workspace,
    _context: &'a mut Matlab<'mex>,
}

impl<'a, 'mex> WorkspaceScope<'a, 'mex> {
    /// The workspace this scope borrows from.
    pub closed spec fn space(&self) -> Workspace {
        self.space
    }

    /// The workspace this scope borrows from.
    pub fn workspace(&self) -> (r: Workspace)
        ensures
            r == self.space(),
    {
        self.space
    }
}

/// Calls std's `TryFrom<&[A]>` for `[A; M]` (with `A: Copy`). Trusted: it
/// gives an array of the slice's elements exactly when the slice has `M`
/// elements, as its documentation says.
#[verifier::external_body]
fn array_from_slice<A: Copy, const M: usize>(values: &[A]) -> (r: Option<[A; M]>)
    ensures
        r is Some <==> values@.len() == M,
        r matches Some(a) ==> a@ == values@,
{
    <[A; M]>::try_from(values).ok()
}

/// Calls std's `TryFrom<Vec<A>>` for `[A; M]`. Trusted: it gives an array
/// of the vector's elements exactly when the vector has `M` elements, as its
/// documentation says.
#[verifier::external_body]
fn array_from_vec<A, const M: usize>(values: Vec<A>) -> (r: Option<[A; M]>)
    ensures
        r is Some <==> values@.len() == M,
        r matches Some(a) ==> a@ == values@,
{
    <[A; M]>::try_from(values).ok()
}

/// Read-only MEX input arguments owned by MATLAB.
///
/// A fixed `N` is checked before the handler runs; `usize::MAX` is reserved
/// for handlers with a variable input count.
pub struct Inputs<A, const N: usize> {
    values: Vec<A>,
}

impl<A, const N: usize> View for Inputs<A, N> {
    type V = Seq<A>;

    closed spec fn view(&self) -> Seq<A> {
        self.values@
    }
}

impl<A, const N: usize> Inputs<A, N> {
    #[verifier::type_invariant]
    spec fn counted(self) -> bool {
        N == usize::MAX || self.values@.len() == N
    }
}

impl<A: Copy, const N: usize> Inputs<A, N> {
    /// Wrap the input arguments of one invocation. A fixed `N` must match.
    pub fn new(values: Vec<A>) -> (r: Inputs<A, N>)
        requires
            N == usize::MAX || values@.len() == N,
        ensures
            r@ == values@,
    {
        Inputs { values }
    }

    /// Return the number of input arguments.
    pub fn len(&self) -> (r: usize)
        ensures
            r == self@.len(),
    {
        self.values.len()
    }

    /// Test whether there are no input arguments.
    pub fn is_empty(&self) -> (r: bool)
        ensures
            r == (self@.len() == 0),
    {
        self.values.len() == 0
    }

    /// Borrow an input argument by index.
    pub fn get(&self, index: usize) -> (r: Option<A>)
        ensures
            r == (if index < self@.len() {
                Some(self@[index as int])
            } else {
                None
            }),
    {
        if index < self.values.len() {
            Some(self.values[index])
        } else {
            None
        }
    }

    /// Every input argument, in order.
    pub fn iter(&self) -> (r: Vec<A>)
        ensures
            r@ == self@,
    {
        let mut out: Vec<A> = Vec::new();
        let mut i: usize = 0;
        while i < self.values.len()
            invariant
                i <= self.values@.len(),
                out@ == self.values@.take(i as int),
            decreases self.values@.len() - i,
        {
            out.push(self.values[i]);
            assert(self.values@.take(i + 1) =~= self.values@.take(i as int).push(
                self.values@[i as int],
            ));
            i = i + 1;
        }
        assert(self.values@.take(self.values@.len() as int) =~= self.values@);
        out
    }

    /// Require exactly `M` input arguments and return them in order.
    ///
    /// # Errors
    ///
    /// Returns an input error if the argument count differs from `M`.
    pub fn require<const M: usize>(&self) -> (r: Result<[A; M]>)
        ensures
            r matches Err(e) ==> e.is_plain(),
            r is Ok <==> self@.len() == M,
            r matches Ok(a) ==> a@ == self@,
            r matches Err(e) ==> e.kind == ErrorKind::InvalidInput && e.operation == "MEX inputs"
                && e.detail@ == count_detail(M as nat, "inputs"@, self@.len()),
    {
        match array_from_slice::<A, M>(self.values.as_slice()) {
            Some(a) => Ok(a),
            None => Err(
                Error::count_mismatch(
                    ErrorKind::InvalidInput,
                    "MEX inputs",
                    M,
                    "inputs",
                    self.values.len(),
                ),
            ),
        }
    }

    /// Consume fixed-arity inputs as an array for destructuring.
    pub fn into_array(self) -> (r: [A; N])
        requires
            N != usize::MAX,
        ensures
            r@ == self@,
    {
        proof {
            use_type_invariant(&self);
        }
        match array_from_slice::<A, N>(self.values.as_slice()) {
            Some(a) => a,
            None => {
                assert(false);
                array_from_slice::<A, N>(self.values.as_slice()).unwrap()
            },
        }
    }
}

/// MEX output slots that accept ownership of Rust-created arrays.
///
/// A fixed `N` is checked before the handler runs; `usize::MAX` is reserved
/// for handlers with a variable output count.
pub struct Outputs<O, const N: usize> {
    values: Vec<Option<O>>,
}

impl<O, const N: usize> View for Outputs<O, N> {
    type V = Seq<Option<O>>;

    closed spec fn view(&self) -> Seq<Option<O>> {
        self.values@
    }
}

impl<O, const N: usize> Outputs<O, N> {
    /// Create `count` empty output slots. A fixed `N` must match.
    pub fn new(count: usize) -> (r: Outputs<O, N>)
        requires
            N == usize::MAX || count == N,
        ensures
            r@ == Seq::new(count as nat, |i: int| None::<O>),
    {
        let mut values: Vec<Option<O>> = Vec::new();
        let mut i: usize = 0;
        while i < count
            invariant
                i <= count,
                values@ == Seq::new(i as nat, |j: int| None::<O>),
            decreases count - i,
        {
            values.push(None);
            assert(values@ =~= Seq::new((i + 1) as nat, |j: int| None::<O>));
            i = i + 1;
        }
        Outputs { values }
    }

    /// Return the number of requested output slots.
    pub fn len(&self) -> (r: usize)
        ensures
            r == self@.len(),
    {
        self.values.len()
    }

    /// Test whether MATLAB requested no outputs.
    pub fn is_empty(&self) -> (r: bool)
        ensures
            r == (self@.len() == 0),
    {
        self.values.len() == 0
    }

    /// Require exactly `count` requested output slots.
    ///
    /// # Errors
    ///
    /// Returns an input error if MATLAB requested a different count.
    pub fn require_len(&self, count: usize) -> (r: Result<()>)
        ensures
            r matches Err(e) ==> e.is_plain(),
            r is Ok <==> self@.len() == count,
            r matches Err(e) ==> e.kind == ErrorKind::InvalidInput && e.operation == "MEX outputs"
                && e.detail@ == count_detail(count as nat, "outputs"@, self@.len()),
    {
        if self.values.len() != count {
            return Err(
                Error::count_mismatch(
                    ErrorKind::InvalidInput,
                    "MEX outputs",
                    count,
                    "outputs",
                    self.values.len(),
                ),
            );
        }
        Ok(())
    }

    /// Transfer an owned array into an output slot.
    ///
    /// # Errors
    ///
    /// Returns an error if the index is out of bounds or the slot is already
    /// set; the slots are then unchanged.
    pub fn set(&mut self, index: usize, value: O) -> (r: Result<()>)
        ensures
            r matches Err(e) ==> e.is_plain(),
            r is Ok <==> index < old(self)@.len() && old(self)@[index as int] is None,
            r is Ok ==> final(self)@ == old(self)@.update(index as int, Some(value)),
            r is Err ==> final(self)@ == old(self)@,
            r matches Err(e) ==> index >= old(self)@.len() ==> e.kind == ErrorKind::Bounds
                && e.operation == "set output" && e.detail@ == crate::error::bounds_detail(
                index as nat,
                old(self)@.len(),
            ),
            r matches Err(e) ==> index < old(self)@.len() ==> e.kind == ErrorKind::InvalidInput
                && e.operation == "set output" && e.detail@ == "output slot already set"@,
    {
        let len = self.values.len();
        if index >= len {
            return Err(Error::bounds("set output", index, len));
        }
        if self.values[index].is_some() {
            return Err(Error::new(ErrorKind::InvalidInput, "set output", "output slot already set"));
        }
        self.values.set(index, Some(value));
        Ok(())
    }

    /// Take back an output array that was previously set, leaving the slot
    /// empty.
    ///
    /// # Errors
    ///
    /// Returns an error if the index is out of bounds.
    pub fn take(&mut self, index: usize) -> (r: Result<Option<O>>)
        ensures
            r matches Err(e) ==> e.is_plain(),
            r is Ok <==> index < old(self)@.len(),
            r matches Ok(v) ==> v == old(self)@[index as int] && final(self)@ == old(self)@.update(
                index as int,
                None,
            ),
            r is Err ==> final(self)@ == old(self)@,
            r matches Err(e) ==> e.kind == ErrorKind::Bounds && e.operation == "take output"
                && e.detail@ == crate::error::bounds_detail(index as nat, old(self)@.len()),
    {
        let len = self.values.len();
        if index >= len {
            return Err(Error::bounds("take output", index, len));
        }
        let previous = self.values.remove(index);
        self.values.insert(index, None);
        assert(self.values@ =~= old(self)@.update(index as int, None));
        Ok(previous)
    }
}

/// Setting an empty output slot and then taking it back returns the value
/// and leaves the slots as they were.
pub proof fn law_output_round_trip<O>(slots: Seq<Option<O>>, index: int, value: O)
    requires
        0 <= index < slots.len(),
        slots[index] is None,
    ensures
        slots.update(index, Some(value))[index] == Some(value),
        slots.update(index, Some(value)).update(index, None) == slots,
{
    assert(slots.update(index, Some(value)).update(index, None) =~= slots);
}

/// MATLAB callbacks accept at most this many inputs and outputs.
pub const MAX_CALL_ARGUMENTS: usize = 50;

/// Check the argument counts of a MATLAB callback.
pub fn check_call_counts(inputs: usize, outputs: usize) -> (r: Result<()>)
    ensures
        r matches Err(e) ==> e.is_plain(),
        r is Ok <==> inputs <= MAX_CALL_ARGUMENTS && outputs <= MAX_CALL_ARGUMENTS,
        r matches Err(e) ==> e.kind == ErrorKind::InvalidInput && e.operation == "call MATLAB"
            && e.detail@ == "MATLAB callbacks support at most 50 inputs and 50 outputs"@,
{
    if outputs > MAX_CALL_ARGUMENTS || inputs > MAX_CALL_ARGUMENTS {
        return Err(
            Error::new(
                ErrorKind::InvalidInput,
                "call MATLAB",
                "MATLAB callbacks support at most 50 inputs and 50 outputs",
            ),
        );
    }
    Ok(())
}

/// The values present among the callback outputs, in order.
pub open spec fn present<O>(s: Seq<Option<O>>) -> Seq<O>
    decreases s.len(),
{
    if s.len() == 0 {
        seq![]
    } else {
        let rest = present(s.drop_first());
        match s[0] {
            Some(v) => seq![v] + rest,
            None => rest,
        }
    }
}

proof fn lemma_present_push<O>(s: Seq<Option<O>>, o: Option<O>)
    ensures
        present(s.push(o)) == match o {
            Some(v) => present(s).push(v),
            None => present(s),
        },
    decreases s.len(),
{
    if s.len() == 0 {
        assert(s.push(o).drop_first() =~= Seq::<Option<O>>::empty());
        assert(present(Seq::<Option<O>>::empty()) =~= Seq::<O>::empty());
    } else {
        assert(s.push(o).drop_first() =~= s.drop_first().push(o));
        lemma_present_push(s.drop_first(), o);
        match s[0] {
            Some(v) => {
                match o {
                    Some(w) => {
                        assert(seq![v] + present(s.drop_first()).push(w) =~= (seq![v] + present(
                            s.drop_first(),
                        )).push(w));
                    },
                    None => {},
                }
            },
            None => {},
        }
    }
}

/// Take the outputs of a MATLAB callback: all of them, in order, when every
/// slot was filled. Otherwise the filled ones are dropped, which releases
/// them, and a callback error reports the null output.
pub fn collect_outputs<O>(outputs: Vec<Option<O>>) -> (r: Result<Vec<O>>)
    ensures
        r matches Err(e) ==> e.is_plain(),
        r is Ok <==> forall|i: int| 0 <= i < outputs@.len() ==> (#[trigger] outputs@[i]) is Some,
        r matches Ok(v) ==> v@ == present(outputs@) && v@.len() == outputs@.len(),
        r matches Err(e) ==> e.kind == ErrorKind::Callback && e.operation == "call MATLAB"
            && e.detail@ == "MATLAB returned a null output"@,
{
    let ghost original = outputs@;
    let total = outputs.len();
    let mut outputs = outputs;
    let mut found: Vec<O> = Vec::new();
    let mut complete = true;
    let mut k: usize = 0;
    while outputs.len() > 0
        invariant
            k + outputs@.len() == original.len(),
            original.len() == total,
            outputs@ == original.skip(k as int),
            found@ == present(original.take(k as int)),
            complete == forall|i: int| 0 <= i < k ==> (#[trigger] original[i]) is Some,
            complete ==> found@.len() == k,
        decreases outputs@.len(),
    {
        let item = outputs.remove(0);
        proof {
            assert(original.take(k + 1) =~= original.take(k as int).push(item));
            lemma_present_push(original.take(k as int), item);
        }
        match item {
            Some(v) => {
                found.push(v);
            },
            None => {
                complete = false;
            },
        }
        assert(outputs@ =~= original.skip(k + 1));
        k = k + 1;
    }
    assert(original.take(k as int) =~= original);
    if complete {
        Ok(found)
    } else {
        Err(Error::new(ErrorKind::Callback, "call MATLAB", "MATLAB returned a null output"))
    }
}

/// Convert the outputs of a callback into an array of exactly `M` values.
///
/// # Errors
///
/// Returns a native error when the count differs.
pub fn outputs_into_array<O, const M: usize>(outputs: Vec<O>) -> (r: Result<[O; M]>)
    ensures
        r matches Err(e) ==> e.is_plain(),
        r is Ok <==> outputs@.len() == M,
        r matches Ok(a) ==> a@ == outputs@,
        r matches Err(e) ==> e.kind == ErrorKind::Native && e.operation == "call MATLAB"
            && e.detail@ == "unexpected output count"@,
{
    match array_from_vec::<O, M>(outputs) {
        Some(a) => Ok(a),
        None => Err(Error::new(ErrorKind::Native, "call MATLAB", "unexpected output count")),
    }
}

/// The detail of a trapped MATLAB exception: `identifier: message` when both
/// are known and the identifier is nonempty, the message alone when only it
/// is known, and the fallback otherwise.
pub open spec fn callback_detail(
    identifier: Option<Seq<char>>,
    message: Option<Seq<char>>,
    fallback: Seq<char>,
) -> Seq<char> {
    match message {
        Some(m) => match identifier {
            Some(id) => if id.len() > 0 {
                id + ": "@ + m
            } else {
                m
            },
            None => m,
        },
        None => fallback,
    }
}

/// Build the error for a trapped MATLAB exception from its `identifier` and
/// `message` properties, where they could be read.
pub fn callback_error(
    operation: &'static str,
    identifier: Option<String>,
    message: Option<String>,
    fallback: String,
) -> (e: Error)
    ensures
        e.custom_id() is None,
        e.kind == ErrorKind::Callback,
        e.operation == operation,
        e.detail@ == callback_detail(
            match identifier {
                Some(s) => Some(s@),
                None => None,
            },
            match message {
                Some(s) => Some(s@),
                None => None,
            },
            fallback@,
        ),
        e.status is None,
        e.mat_error is None,
{
    let detail = match message {
        Some(m) => match identifier {
            Some(id) => {
                if id.as_str().is_empty() {
                    m
                } else {
                    let mut text = id;
                    text.append(": ");
                    text.append(m.as_str());
                    text
                }
            },
            None => m,
        },
        None => fallback,
    };
    proof {
        reveal_strlit(": ");
    }
    Error::new(ErrorKind::Callback, operation, detail.as_str())
}

/// The fallback detail of a failed callback to `name`: the quoted name
/// followed by ` failed without exception details`.
pub fn call_fallback(name: &[u8]) -> (r: String)
    ensures
        r@ == crate::error::quoted(name@) + " failed without exception details"@,
{
    let mut text = crate::error::quote(name);
    text.append(" failed without exception details");
    text
}

/// Text passed to MATLAB's C interface cannot contain NUL.
pub open spec fn has_nul(text: &str) -> bool {
    exists|i: int| 0 <= i < text.spec_bytes().len() && text.spec_bytes()[i] == 0
}

/// Reject text that contains NUL before it is converted to a C string.
pub fn check_no_nul(text: &str, operation: &'static str, detail: &'static str) -> (r: Result<()>)
    ensures
        r matches Err(e) ==> e.is_plain(),
        r is Ok <==> !has_nul(text),
        r matches Err(e) ==> e.kind == ErrorKind::InvalidInput && e.operation == operation
            && e.detail@ == detail@,
{
    let bytes = text.as_bytes();
    let mut i: usize = 0;
    while i < bytes.len()
        invariant
            bytes@ == text.spec_bytes(),
            i <= bytes@.len(),
            forall|j: int| 0 <= j < i ==> bytes@[j] != 0,
        decreases bytes@.len() - i,
    {
        if bytes[i] == 0 {
            return Err(Error::new(ErrorKind::InvalidInput, operation, detail));
        }
        i = i + 1;
    }
    Ok(())
}

/// A native status of zero means success.
pub fn check_status(operation: &'static str, status: i32) -> (r: Result<()>)
    ensures
        r matches Err(e) ==> e.custom_id() is None && e.mat_error is None,
        r is Ok <==> status == 0,
        r matches Err(e) ==> e.kind == ErrorKind::Native && e.operation == operation && e.status
            == Some(status) && e.detail@ == "native operation failed"@,
{
    if status == 0 {
        Ok(())
    } else {
        Err(Error::native_status(operation, status))
    }
}

/// MATLAB's print routine reports failure with a negative status.
pub fn check_print_status(status: i32) -> (r: Result<()>)
    ensures
        r matches Err(e) ==> e.custom_id() is None && e.mat_error is None,
        r is Ok <==> status >= 0,
        r matches Err(e) ==> e.kind == ErrorKind::Native && e.operation == "printf" && e.status
            == Some(status) && e.detail@ == "native operation failed"@,
{
    if status >= 0 {
        Ok(())
    } else {
        Err(Error::native_status("printf", status))
    }
}

/// A native lookup that returned nothing: an error of `kind` naming the
/// quoted name or path.
pub fn check_found(found: bool, kind: ErrorKind, operation: &'static str, name: &[u8]) -> (r: Result<()>)
    ensures
        r matches Err(e) ==> e.is_plain(),
        r is Ok <==> found,
        r matches Err(e) ==> e.kind == kind && e.operation == operation && e.detail@
            == crate::error::quoted(name@),
{
    if found {
        Ok(())
    } else {
        let detail = crate::error::quote(name);
        Err(Error::new(kind, operation, detail.as_str()))
    }
}

/// The result of `mxGetFieldNumber`: negative means no such field.
pub fn field_number_from(raw: i32) -> (r: Option<usize>)
    ensures
        r is Some <==> raw >= 0,
        r matches Some(n) ==> n == raw,
{
    if raw >= 0 {
        Some(raw as usize)
    } else {
        None
    }
}

/// The result of `mxAddField`: negative means failure.
pub fn added_field(raw: i32, name: &[u8]) -> (r: Result<usize>)
    ensures
        r matches Err(e) ==> e.is_plain(),
        r is Ok <==> raw >= 0,
        r matches Ok(n) ==> n == raw,
        r matches Err(e) ==> e.kind == ErrorKind::Native && e.operation == "add field"
            && e.detail@ == crate::error::quoted(name@),
{
    if raw < 0 {
        let detail = crate::error::quote(name);
        return Err(Error::new(ErrorKind::Native, "add field", detail.as_str()));
    }
    Ok(raw as usize)
}

/// An unknown field name for a lookup (`replace` selects the error of a
/// replacement).
pub fn unknown_field(name: &[u8], replace: bool) -> (e: Error)
    ensures
        e.is_plain(),
        e.kind == ErrorKind::InvalidInput,
        replace ==> e.operation == "replace field" && e.detail@ == "unknown field"@,
        !replace ==> e.operation == "field" && e.detail@ == "unknown field "@
            + crate::error::quoted(name@),
{
    if replace {
        Error::new(ErrorKind::InvalidInput, "replace field", "unknown field")
    } else {
        let mut detail = String::new();
        detail.append("unknown field ");
        let quoted = crate::error::quote(name);
        detail.append(quoted.as_str());
        Error::new(ErrorKind::InvalidInput, "field", detail.as_str())
    }
}

/// The result of MATLAB's conversion of character data to a C string: a
/// missing string is a native error of `operation`.
pub fn check_converted_text(present: bool, operation: &'static str) -> (r: Result<()>)
    ensures
        r matches Err(e) ==> e.is_plain(),
        r is Ok <==> present,
        r matches Err(e) ==> e.kind == ErrorKind::Native && e.operation == operation
            && e.detail@ == "MATLAB returned a null string"@,
{
    if present {
        Ok(())
    } else {
        Err(Error::new(ErrorKind::Native, operation, "MATLAB returned a null string"))
    }
}

/// `mxMakeArrayReal` and `mxMakeArrayComplex` report success as nonzero.
pub fn check_conversion(operation: &'static str, succeeded: i32) -> (r: Result<()>)
    ensures
        r matches Err(e) ==> e.custom_id() is None && e.mat_error is None,
        r is Ok <==> succeeded != 0,
        r matches Err(e) ==> e.kind == ErrorKind::Native && e.operation == operation && e.status
            == Some(0i32) && e.detail@ == "native operation failed"@,
{
    if succeeded == 0 {
        return Err(Error::native_status(operation, 0));
    }
    Ok(())
}

/// Bytes requested from `mxCalloc` for a buffer of `len` bytes: at least one.
pub fn allocation_size(len: usize) -> (r: usize)
    ensures
        r == (if len == 0 {
            1
        } else {
            len
        }),
{
    if len == 0 {
        1
    } else {
        len
    }
}

/// Check the element index of a property read from a borrowed array.
pub fn check_property_index(index: usize, numel: usize) -> (r: Result<()>)
    ensures
        r matches Err(e) ==> e.is_plain(),
        r is Ok <==> index < numel,
        r matches Err(e) ==> e.kind == ErrorKind::Bounds && e.operation == "get property"
            && e.detail@ == crate::error::bounds_detail(index as nat, numel as nat),
{
    if index >= numel {
        return Err(Error::bounds("get property", index, numel));
    }
    Ok(())
}

} // verus!
