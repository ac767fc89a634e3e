//! UTF-16 text, the storage format of MATLAB character arrays.
use vstd::prelude::*;
use vstd::string::StrSliceExecFns;
use crate::error::{Error, ErrorKind, Result};
use crate::text::push_char;

verus! {

/// UTF-16 code units of one character: one unit below U+10000, otherwise a
/// surrogate pair.
pub open spec fn char_units(c: char) -> Seq<u16> {
    let v = c as u32;
    if v < 0x10000 {
        seq![v as u16]
    } else {
        let w = (v - 0x10000) as u32;
        seq![(0xD800 + w / 0x400) as u16, (0xDC00 + w % 0x400) as u16]
    }
}

/// UTF-16 encoding of a character sequence.
pub open spec fn utf16_encode(s: Seq<char>) -> Seq<u16>
    decreases s.len(),
{
    if s.len() == 0 {
        seq![]
    } else {
        char_units(s[0]) + utf16_encode(s.drop_first())
    }
}

/// A code unit that is not a surrogate stands for itself.
pub open spec fn is_plain_unit(u: u16) -> bool {
    u < 0xD800 || u > 0xDFFF
}

/// A leading (high) surrogate.
pub open spec fn is_high_surrogate(u: u16) -> bool {
    0xD800 <= u <= 0xDBFF
}

/// A trailing (low) surrogate.
pub open spec fn is_low_surrogate(u: u16) -> bool {
    0xDC00 <= u <= 0xDFFF
}

/// UTF-16 decoding: `None` when a surrogate is not part of a high/low pair.
pub open spec fn utf16_decode(u: Seq<u16>) -> Option<Seq<char>>
    decreases u.len(),
{
    if u.len() == 0 {
        Some(seq![])
    } else if is_plain_unit(u[0]) {
        match utf16_decode(u.drop_first()) {
            Some(rest) => Some(seq![(u[0] as u32) as char] + rest),
            None => None,
        }
    } else if u.len() >= 2 && is_high_surrogate(u[0]) && is_low_surrogate(u[1]) {
        match utf16_decode(u.subrange(2, u.len() as int)) {
            Some(rest) => Some(
                seq![(0x10000 + (u[0] - 0xD800) * 0x400 + (u[1] - 0xDC00)) as char] + rest,
            ),
            None => None,
        }
    } else {
        None
    }
}

proof fn lemma_encode_append(a: Seq<char>, b: Seq<char>)
    ensures
        utf16_encode(a + b) == utf16_encode(a) + utf16_encode(b),
    decreases a.len(),
{
    if a.len() == 0 {
        assert(a + b =~= b);
    } else {
        assert((a + b).drop_first() =~= a.drop_first() + b);
        lemma_encode_append(a.drop_first(), b);
        assert(utf16_encode(a + b) == char_units(a[0]) + utf16_encode(a.drop_first() + b));
    }
}

proof fn lemma_encode_single(c: char)
    ensures
        utf16_encode(seq![c]) == char_units(c),
{
    assert(seq![c].drop_first() =~= Seq::<char>::empty());
    assert(utf16_encode(Seq::<char>::empty()) =~= Seq::<u16>::empty());
    assert(char_units(c) + Seq::<u16>::empty() =~= char_units(c));
}

proof fn lemma_decode_char(c: char, rest: Seq<u16>)
    ensures
        utf16_decode(char_units(c) + rest) == match utf16_decode(rest) {
            Some(r) => Some(seq![c] + r),
            None => None,
        },
{
    let v = c as u32;
    let u = char_units(c) + rest;
    if v < 0x10000 {
        assert(v < 0xD800 || v > 0xDFFF);
        assert(u[0] == v as u16);
        assert(u.drop_first() =~= rest);
        assert(((v as u16) as u32) as char == c);
    } else {
        let w = (v - 0x10000) as u32;
        assert(w < 0x100000);
        let hi = (0xD800 + w / 0x400) as u16;
        let lo = (0xDC00 + w % 0x400) as u16;
        assert(u[0] == hi);
        assert(u[1] == lo);
        assert(u.subrange(2, u.len() as int) =~= rest);
        assert(0x10000 + (hi - 0xD800) * 0x400 + (lo - 0xDC00) == v) by (nonlinear_arith)
            requires
                w == v - 0x10000,
                hi == 0xD800 + w / 0x400,
                lo == 0xDC00 + w % 0x400,
                w < 0x100000,
        ;
    }
}

/// Decoding the UTF-16 encoding of any text gives the text back.
pub proof fn law_utf16_round_trip(s: Seq<char>)
    ensures
        utf16_decode(utf16_encode(s)) == Some(s),
    decreases s.len(),
{
    if s.len() == 0 {
    } else {
        law_utf16_round_trip(s.drop_first());
        lemma_decode_char(s[0], utf16_encode(s.drop_first()));
        assert(seq![s[0]] + s.drop_first() =~= s);
    }
}

/// Encode text as UTF-16 code units.
pub fn encode_utf16(text: &str) -> (r: Vec<u16>)
    ensures
        r@ == utf16_encode(text@),
{
    let mut out: Vec<u16> = Vec::new();
    for c in it: text.chars()
        invariant
            it.seq() == text@,
            out@ == utf16_encode(text@.take(it.index() as int)),
    {
        let v = c as u32;
        if v < 0x10000 {
            out.push(v as u16);
        } else {
            let w = v - 0x10000;
            out.push((0xD800 + w / 0x400) as u16);
            out.push((0xDC00 + w % 0x400) as u16);
        }
        proof {
            let i = it.index() as int;
            assert(text@.take(i + 1) =~= text@.take(i) + seq![c]);
            lemma_encode_append(text@.take(i), seq![c]);
            lemma_encode_single(c);
        }
    }
    assert(text@.take(text@.len() as int) =~= text@);
    out
}

/// Calls std's `char::from_u32`. Trusted: it gives the character whose
/// scalar value is `v` exactly when `v` is a Unicode scalar value (below
/// U+D800, or from U+E000 to U+10FFFF), as its documentation says.
#[verifier::external_body]
fn char_from_u32(v: u32) -> (r: Option<char>)
    ensures
        r is Some <==> (v < 0xD800 || (0xE000 <= v && v <= 0x10FFFF)),
        r matches Some(c) ==> c == v as char,
{
    char::from_u32(v)
}

/// Decode MATLAB character data as UTF-16.
///
/// # Errors
///
/// Returns an input error when a surrogate is unpaired.
pub fn decode_utf16(units: &[u16]) -> (r: Result<String>)
    ensures
        r matches Err(e) ==> e.is_plain(),
        r is Ok <==> utf16_decode(units@) is Some,
        r matches Ok(s) ==> utf16_decode(units@) == Some(s@),
        r matches Err(e) ==> e.kind == ErrorKind::InvalidInput && e.operation == "decode UTF-16"
            && e.detail@ == "invalid utf-16: lone surrogate found"@,
{
    let mut out = String::new();
    let n = units.len();
    let mut i: usize = 0;
    proof {
        assert(units@.skip(0) =~= units@);
        match utf16_decode(units@) {
            Some(all) => {
                assert(out@ + all =~= all);
            },
            None => {},
        }
    }
    while i < n
        invariant
            n == units@.len(),
            i <= n,
            utf16_decode(units@) == (match utf16_decode(units@.skip(i as int)) {
                Some(rest) => Some(out@ + rest),
                None => None::<Seq<char>>,
            }),
        decreases n - i,
    {
        let ghost tail = units@.skip(i as int);
        let u = units[i];
        if u < 0xD800 || u > 0xDFFF {
            let c = match char_from_u32(u as u32) {
                Some(c) => c,
                None => {
                    return Err(
                        Error::new(
                            ErrorKind::InvalidInput,
                            "decode UTF-16",
                            "invalid utf-16: lone surrogate found",
                        ),
                    );
                },
            };
            proof {
                assert(tail[0] == u);
                assert(tail.drop_first() =~= units@.skip(i + 1));
                assert(c == (u as u32) as char);
                match utf16_decode(units@.skip(i + 1)) {
                    Some(rest) => {
                        assert(out@.push(c) + rest =~= out@ + (seq![c] + rest));
                    },
                    None => {},
                }
            }
            push_char(&mut out, c);
            i = i + 1;
        } else if i + 1 < n && u <= 0xDBFF && units[i + 1] >= 0xDC00 && units[i + 1] <= 0xDFFF {
            let lo = units[i + 1];
            let v: u32 = 0x10000 + ((u as u32) - 0xD800) * 0x400 + ((lo as u32) - 0xDC00);
            let c = match char_from_u32(v) {
                Some(c) => c,
                None => {
                    return Err(
                        Error::new(
                            ErrorKind::InvalidInput,
                            "decode UTF-16",
                            "invalid utf-16: lone surrogate found",
                        ),
                    );
                },
            };
            proof {
                assert(tail[0] == u);
                assert(tail[1] == lo);
                assert(tail.subrange(2, tail.len() as int) =~= units@.skip(i + 2));
                assert(c == v as char);
                match utf16_decode(units@.skip(i + 2)) {
                    Some(rest) => {
                        assert(out@.push(c) + rest =~= out@ + (seq![c] + rest));
                    },
                    None => {},
                }
            }
            push_char(&mut out, c);
            i = i + 2;
        } else {
            proof {
                assert(tail[0] == u);
                assert(utf16_decode(tail) is None);
            }
            return Err(
                Error::new(ErrorKind::InvalidInput, "decode UTF-16", "invalid utf-16: lone surrogate found"),
            );
        }
    }
    proof {
        assert(units@.skip(i as int) =~= Seq::<u16>::empty());
        assert(out@ + Seq::<char>::empty() =~= out@);
    }
    Ok(out)
}

} // verus!
