//! Decisions of the MEX entrypoint: which argument lists reach a handler,
//! and how an error is reported back through MATLAB's fixed-size buffers.
use vstd::prelude::*;
use vstd::string::StringSliceAdditionalSpecFns;
use vstd::utf8::is_char_boundary;
use crate::error::{count_detail, message_text, Error, ErrorKind, Result};

verus! {

/// The largest character boundary of `t` at or below `k`.
pub open spec fn boundary_at_most(t: Seq<u8>, k: int) -> int
    decreases k,
{
    if k <= 0 {
        0
    } else if is_char_boundary(t, k) {
        k
    } else {
        boundary_at_most(t, k - 1)
    }
}

/// NUL cannot appear inside a C string: it is reported as `?`.
pub open spec fn nul_free(b: u8) -> u8 {
    if b == 0 {
        63
    } else {
        b
    }
}

/// Where the terminator goes when `t` is copied into a buffer of `len`
/// bytes: the last character boundary that leaves room for it.
pub open spec fn copy_end(len: nat, t: Seq<u8>) -> int {
    let cap = if t.len() < len - 1 {
        t.len() as int
    } else {
        len - 1
    };
    boundary_at_most(t, cap)
}

/// The buffer after copying text into it as a NUL-terminated C string: the
/// longest prefix of whole characters that leaves room for the terminator,
/// with NUL bytes replaced, then the terminator; later bytes are untouched.
/// An empty buffer is left alone.
pub open spec fn copied_text(buffer: Seq<u8>, t: Seq<u8>) -> Seq<u8> {
    if buffer.len() == 0 {
        buffer
    } else {
        let end = copy_end(buffer.len(), t);
        Seq::new(
            buffer.len(),
            |i: int|
                if i < end {
                    nul_free(t[i])
                } else if i == end {
                    0
                } else {
                    buffer[i]
                },
        )
    }
}

proof fn lemma_boundary_at_most(t: Seq<u8>, k: int)
    requires
        0 <= k,
    ensures
        0 <= boundary_at_most(t, k) <= k,
    decreases k,
{
    if k > 0 && !is_char_boundary(t, k) {
        lemma_boundary_at_most(t, k - 1);
    }
}

proof fn lemma_boundary_is_boundary(t: Seq<u8>, k: int)
    requires
        vstd::utf8::valid_utf8(t),
    ensures
        is_char_boundary(t, boundary_at_most(t, k)),
    decreases k,
{
    if k <= 0 {
        vstd::utf8::is_char_boundary_start_end_of_seq(t);
    } else if !is_char_boundary(t, k) {
        lemma_boundary_is_boundary(t, k - 1);
    }
}

/// Copying text into a nonempty buffer never splits a UTF-8 character: the
/// terminator stands at a character boundary of the text, within the text
/// and the buffer, and every byte before it is the text's byte with NUL
/// replaced.
pub proof fn law_copy_keeps_whole_characters(buffer: Seq<u8>, text: Seq<char>)
    requires
        buffer.len() > 0,
    ensures
        ({
            let t = vstd::utf8::encode_utf8(text);
            let end = copy_end(buffer.len(), t);
            &&& is_char_boundary(t, end)
            &&& 0 <= end <= t.len()
            &&& end < buffer.len()
            &&& copied_text(buffer, t)[end] == 0
            &&& forall|i: int| 0 <= i < end ==> #[trigger] copied_text(buffer, t)[i] == nul_free(t[i])
        }),
{
    let t = vstd::utf8::encode_utf8(text);
    vstd::utf8::encode_utf8_valid_utf8(text);
    let cap = if t.len() < buffer.len() - 1 {
        t.len() as int
    } else {
        buffer.len() - 1
    };
    lemma_boundary_at_most(t, cap);
    lemma_boundary_is_boundary(t, cap);
}

/// Copy text into a fixed-size C buffer without splitting a UTF-8 character.
pub fn copy_text(buffer: &mut [u8], text: &str)
    ensures
        final(buffer)@ == copied_text(old(buffer)@, text.spec_bytes()),
{
    let len = buffer.len();
    if len == 0 {
        return;
    }
    let bytes = text.as_bytes();
    let cap = if bytes.len() < len - 1 {
        bytes.len()
    } else {
        len - 1
    };
    proof {
        vstd::utf8::encode_utf8_valid_utf8(text@);
        vstd::utf8::is_char_boundary_start_end_of_seq(text.spec_bytes());
    }
    let mut end = cap;
    while !text.is_char_boundary(end)
        invariant
            end <= cap,
            boundary_at_most(text.spec_bytes(), cap as int) == boundary_at_most(
                text.spec_bytes(),
                end as int,
            ),
            is_char_boundary(text.spec_bytes(), 0),
        decreases end,
    {
        end = end - 1;
    }
    proof {
        lemma_boundary_at_most(text.spec_bytes(), cap as int);
        if end > 0 {
            assert(boundary_at_most(text.spec_bytes(), end as int) == end);
        }
    }
    let ghost start = buffer@;
    let mut i: usize = 0;
    while i < end
        invariant
            buffer@.len() == len,
            bytes@ == text.spec_bytes(),
            end <= cap < len,
            cap <= bytes@.len(),
            i <= end,
            forall|k: int| 0 <= k < i ==> buffer@[k] == nul_free(bytes@[k]),
            forall|k: int| i <= k < len ==> buffer@[k] == start[k],
        decreases end - i,
    {
        let b = bytes[i];
        buffer[i] = if b == 0 {
            63
        } else {
            b
        };
        i = i + 1;
    }
    buffer[end] = 0;
    proof {
        assert(buffer@ =~= copied_text(start, text.spec_bytes()));
    }
}

/// Report an error through MATLAB's identifier and message buffers and
/// return the entrypoint's failure status.
pub fn report_error(id: &mut [u8], message: &mut [u8], error: &Error) -> (status: i32)
    ensures
        status == 1,
        final(id)@ == copied_text(old(id)@, vstd::utf8::encode_utf8(error.id_spec())),
        final(message)@ == copied_text(
            old(message)@,
            vstd::utf8::encode_utf8(
                message_text(error.operation@, error.detail@, error.status, error.mat_error),
            ),
        ),
{
    copy_text(id, error.id());
    let text = error.to_text();
    copy_text(message, text.as_str());
    1
}

/// Check MATLAB's argument counts and pointers before anything is read
/// through them, and return the output and input counts.
///
/// # Errors
///
/// Returns an input error for a negative count or a missing argument list.
pub fn check_native_counts(nlhs: i32, nrhs: i32, outputs_missing: bool, inputs_missing: bool) -> (r:
    Result<(usize, usize)>)
    ensures
        r matches Err(e) ==> e.is_plain(),
        r is Ok <==> nlhs >= 0 && nrhs >= 0 && !(nlhs > 0 && outputs_missing) && !(nrhs > 0
            && inputs_missing),
        r matches Ok(counts) ==> counts.0 == nlhs && counts.1 == nrhs,
        r matches Err(e) ==> e.kind == ErrorKind::InvalidInput && e.operation == "MEX entrypoint"
            && e.detail@ == "invalid MATLAB counts or pointers"@,
{
    if nlhs < 0 || nrhs < 0 || (nlhs > 0 && outputs_missing) || (nrhs > 0 && inputs_missing) {
        return Err(
            Error::new(
                ErrorKind::InvalidInput,
                "MEX entrypoint",
                "invalid MATLAB counts or pointers",
            ),
        );
    }
    Ok((nlhs as usize, nrhs as usize))
}

/// Check the argument counts against a handler's fixed arity; `usize::MAX`
/// stands for a variable count.
///
/// # Errors
///
/// Returns an input error naming the first count that differs.
pub fn check_arity(outputs: usize, inputs: usize, fixed_outputs: usize, fixed_inputs: usize) -> (r:
    Result<()>)
    ensures
        r matches Err(e) ==> e.is_plain(),
        r is Ok <==> (fixed_inputs == usize::MAX || inputs == fixed_inputs) && (fixed_outputs
            == usize::MAX || outputs == fixed_outputs),
        r matches Err(e) ==> e.kind == ErrorKind::InvalidInput,
        r matches Err(e) ==> fixed_inputs != usize::MAX && inputs != fixed_inputs ==> e.operation
            == "MEX inputs" && e.detail@ == count_detail(fixed_inputs as nat, "inputs"@, inputs as nat),
        r matches Err(e) ==> (fixed_inputs == usize::MAX || inputs == fixed_inputs) ==> e.operation
            == "MEX outputs" && e.detail@ == count_detail(
            fixed_outputs as nat,
            "outputs"@,
            outputs as nat,
        ),
{
    if fixed_inputs != usize::MAX && inputs != fixed_inputs {
        return Err(
            Error::count_mismatch(ErrorKind::InvalidInput, "MEX inputs", fixed_inputs, "inputs", inputs),
        );
    }
    if fixed_outputs != usize::MAX && outputs != fixed_outputs {
        return Err(
            Error::count_mismatch(
                ErrorKind::InvalidInput,
                "MEX outputs",
                fixed_outputs,
                "outputs",
                outputs,
            ),
        );
    }
    Ok(())
}

/// Every input argument MATLAB passes must be present.
///
/// # Errors
///
/// Returns an input error for a missing input array.
pub fn check_input(present: bool) -> (r: Result<()>)
    ensures
        r matches Err(e) ==> e.is_plain(),
        r is Ok <==> present,
        r matches Err(e) ==> e.kind == ErrorKind::InvalidInput && e.operation == "MEX input"
            && e.detail@ == "null input array"@,
{
    if present {
        Ok(())
    } else {
        Err(Error::new(ErrorKind::InvalidInput, "MEX input", "null input array"))
    }
}

} // verus!
