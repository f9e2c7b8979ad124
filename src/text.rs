//! Text that native records hand over: NUL-terminated fields, UTF-8, UTF-16.

use vstd::prelude::*;
use vstd::utf8::{decode_utf8, valid_utf8};

verus! {

/// What a fixed-size C string field holds: its elements up to the first NUL,
/// or all of them when it holds none.
pub open spec fn until_nul<T>(s: Seq<T>, nul: T) -> Seq<T>
    decreases s.len(),
{
    if s.len() == 0 || s[0] == nul {
        Seq::empty()
    } else {
        seq![s[0]] + until_nul(s.subrange(1, s.len() as int), nul)
    }
}

/// A field holds no more than its buffer.
pub proof fn lemma_until_nul_len<T>(s: Seq<T>, nul: T)
    ensures
        until_nul(s, nul).len() <= s.len(),
    decreases s.len(),
{
    if s.len() > 0 && s[0] != nul {
        lemma_until_nul_len(s.subrange(1, s.len() as int), nul);
    }
}

/// The characters that `b` encodes in UTF-8, if it is valid UTF-8.
pub open spec fn utf8_text(b: Seq<u8>) -> Option<Seq<char>> {
    if valid_utf8(b) {
        Some(decode_utf8(b))
    } else {
        None
    }
}

pub open spec fn is_high_surrogate(u: u16) -> bool {
    0xD800 <= u <= 0xDBFF
}

pub open spec fn is_low_surrogate(u: u16) -> bool {
    0xDC00 <= u <= 0xDFFF
}

/// The characters that `w` encodes in UTF-16, if it is valid UTF-16: a high
/// surrogate followed by a low one is the character above U+FFFF that the
/// pair encodes, any other surrogate makes it invalid, and every other unit
/// is the character of that value.
pub open spec fn utf16_text(w: Seq<u16>) -> Option<Seq<char>>
    decreases w.len(),
{
    if w.len() == 0 {
        Some(Seq::empty())
    } else if w.len() >= 2 && is_high_surrogate(w[0]) && is_low_surrogate(w[1]) {
        let c = (0x10000 + (w[0] - 0xD800) * 0x400 + (w[1] - 0xDC00)) as u32;
        match utf16_text(w.subrange(2, w.len() as int)) {
            Some(r) => Some(seq![c as char] + r),
            None => None,
        }
    } else if is_high_surrogate(w[0]) || is_low_surrogate(w[0]) {
        None
    } else {
        match utf16_text(w.subrange(1, w.len() as int)) {
            Some(r) => Some(seq![(w[0] as u32) as char] + r),
            None => None,
        }
    }
}

/// Relies on `std::str::from_utf8`: `Ok` exactly when the bytes are valid UTF-8
/// (no overlong form, no surrogate, nothing above U+10FFFF: vstd's `valid_utf8`),
/// holding the characters they encode.
#[verifier::external_body]
pub(crate) fn utf8_string(b: &[u8]) -> (r: Option<String>)
    ensures
        crate::opt_text(r) == utf8_text(b@),
{
    std::str::from_utf8(b).ok().map(String::from)
}

/// Relies on `String::from_utf16`: `Ok` exactly when the units are valid UTF-16
/// (no unpaired surrogate), holding the characters they encode.
#[verifier::external_body]
pub(crate) fn utf16_string(w: &[u16]) -> (r: Option<String>)
    ensures
        crate::opt_text(r) == utf16_text(w@),
{
    String::from_utf16(w).ok()
}

/// The bytes of a fixed-size C string field up to its first NUL.
pub fn c_bytes(buf: &[u8]) -> (r: Vec<u8>)
    ensures
        r@ == until_nul(buf@, 0u8),
{
    let mut out: Vec<u8> = Vec::new();
    let mut i: usize = 0;
    proof {
        assert(buf@.subrange(0, buf@.len() as int) =~= buf@);
        assert(Seq::<u8>::empty() + buf@ =~= buf@);
    }
    while i < buf.len() && buf[i] != 0
        invariant
            0 <= i <= buf.len(),
            until_nul(buf@, 0u8) == out@ + until_nul(buf@.subrange(i as int, buf@.len() as int), 0u8),
        decreases buf.len() - i,
    {
        proof {
            let rest = buf@.subrange(i as int, buf@.len() as int);
            assert(rest.subrange(1, rest.len() as int) =~= buf@.subrange(i + 1, buf@.len() as int));
            let t = until_nul(buf@.subrange(i + 1, buf@.len() as int), 0u8);
            assert(out@ + (seq![buf@[i as int]] + t) =~= out@.push(buf@[i as int]) + t);
        }
        out.push(buf[i]);
        i = i + 1;
    }
    proof {
        let rest = buf@.subrange(i as int, buf@.len() as int);
        assert(until_nul(rest, 0u8) =~= Seq::<u8>::empty());
        assert(out@ + Seq::<u8>::empty() =~= out@);
    }
    out
}

/// The units of a fixed-size wide C string field up to its first NUL.
pub fn wide_units(buf: &[u16]) -> (r: Vec<u16>)
    ensures
        r@ == until_nul(buf@, 0u16),
{
    let mut out: Vec<u16> = Vec::new();
    let mut i: usize = 0;
    proof {
        assert(buf@.subrange(0, buf@.len() as int) =~= buf@);
        assert(Seq::<u16>::empty() + buf@ =~= buf@);
    }
    while i < buf.len() && buf[i] != 0
        invariant
            0 <= i <= buf.len(),
            until_nul(buf@, 0u16) == out@ + until_nul(buf@.subrange(i as int, buf@.len() as int), 0u16),
        decreases buf.len() - i,
    {
        proof {
            let rest = buf@.subrange(i as int, buf@.len() as int);
            assert(rest.subrange(1, rest.len() as int) =~= buf@.subrange(i + 1, buf@.len() as int));
            let t = until_nul(buf@.subrange(i + 1, buf@.len() as int), 0u16);
            assert(out@ + (seq![buf@[i as int]] + t) =~= out@.push(buf@[i as int]) + t);
        }
        out.push(buf[i]);
        i = i + 1;
    }
    proof {
        let rest = buf@.subrange(i as int, buf@.len() as int);
        assert(until_nul(rest, 0u16) =~= Seq::<u16>::empty());
        assert(out@ + Seq::<u16>::empty() =~= out@);
    }
    out
}

} // verus!
