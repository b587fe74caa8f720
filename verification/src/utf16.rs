//! UTF-16, the encoding in which Windows hands text over and takes it back.

use vstd::prelude::*;

use crate::unicode::push_char;

verus! {

/// The UTF-16 code units of one character: the scalar value itself below
/// U+10000, otherwise a high and a low surrogate.
pub open spec fn utf16_units(c: char) -> Seq<u16> {
    let v = c as u32;
    if v < 0x10000 {
        seq![v as u16]
    } else {
        seq![(0xD800 + (v - 0x10000) / 0x400) as u16, (0xDC00 + (v - 0x10000) % 0x400) as u16]
    }
}

/// The UTF-16 encoding of a text.
pub open spec fn utf16_encode(s: Seq<char>) -> Seq<u16>
    decreases s.len(),
{
    if s.len() == 0 {
        Seq::empty()
    } else {
        utf16_units(s[0]) + utf16_encode(s.skip(1))
    }
}

pub(crate) proof fn lemma_skip_skip<A>(s: Seq<A>, i: int, k: int)
    requires
        0 <= i,
        0 <= k,
        i + k <= s.len(),
    ensures
        s.skip(i).skip(k) =~= s.skip(i + k),
{
}

/// A unit that opens a surrogate pair.
pub open spec fn is_high_surrogate(u: u16) -> bool {
    0xD800 <= u < 0xDC00
}

/// A unit that closes a surrogate pair.
pub open spec fn is_low_surrogate(u: u16) -> bool {
    0xDC00 <= u < 0xE000
}

/// The character that a surrogate pair stands for.
pub open spec fn pair_char(high: u16, low: u16) -> char {
    (0x10000 + (high - 0xD800) * 0x400 + (low - 0xDC00)) as char
}

/// The text that UTF-16 code units stand for, or `None` where a high
/// surrogate is not followed by a low one or a low surrogate stands alone.
pub open spec fn utf16_decode(s: Seq<u16>) -> Option<Seq<char>>
    decreases s.len(),
{
    if s.len() == 0 {
        Some(Seq::empty())
    } else if is_high_surrogate(s[0]) {
        if s.len() >= 2 && is_low_surrogate(s[1]) {
            match utf16_decode(s.skip(2)) {
                Some(rest) => Some(seq![pair_char(s[0], s[1])] + rest),
                None => None,
            }
        } else {
            None
        }
    } else if is_low_surrogate(s[0]) {
        None
    } else {
        match utf16_decode(s.skip(1)) {
            Some(rest) => Some(seq![s[0] as char] + rest),
            None => None,
        }
    }
}

/// The UTF-16 code units of `c`.
pub fn encode_char(c: char) -> (units: Vec<u16>)
    ensures
        units@ == utf16_units(c),
{
    let v = c as u32;
    if v < 0x10000 {
        let mut r: Vec<u16> = Vec::new();
        r.push(v as u16);
        assert(r@ =~= utf16_units(c));
        r
    } else {
        let w = v - 0x10000;
        assert(w < 0x100000);
        let high = (0xD800 + w / 0x400) as u16;
        let low = (0xDC00 + w % 0x400) as u16;
        let mut r: Vec<u16> = Vec::new();
        r.push(high);
        r.push(low);
        assert(r@ =~= utf16_units(c));
        r
    }
}

/// The UTF-16 encoding of the text `text`.
pub fn encode_utf16(text: &Vec<char>) -> (units: Vec<u16>)
    ensures
        units@ == utf16_encode(text@),
{
    let n = text.len();
    let mut out: Vec<u16> = Vec::new();
    let mut i: usize = 0;
    assert(text@.skip(0) =~= text@);
    while i < n
        invariant
            n == text@.len(),
            i <= n,
            utf16_encode(text@) == out@ + utf16_encode(text@.skip(i as int)),
        decreases n - i,
    {
        let ghost rest = text@.skip(i as int);
        let u = encode_char(text[i]);
        proof {
            lemma_skip_skip(text@, i as int, 1);
            assert(rest[0] == text@[i as int]);
        }
        let ghost before = out@;
        let m = u.len();
        let mut j: usize = 0;
        while j < m
            invariant
                m == u@.len(),
                j <= m,
                out@ == before + u@.take(j as int),
            decreases m - j,
        {
            out.push(u[j]);
            assert(u@.take(j + 1) =~= u@.take(j as int).push(u@[j as int]));
            j = j + 1;
        }
        assert(u@.take(m as int) =~= u@);
        i = i + 1;
        assert(utf16_encode(text@) =~= out@ + utf16_encode(text@.skip(i as int)));
    }
    assert(text@.skip(n as int) =~= Seq::<char>::empty());
    assert(out@ =~= out@ + utf16_encode(text@.skip(n as int)));
    out
}

/// std's `char::from_u32` gives the character whose scalar value is `i`, and
/// `None` for a surrogate or a value above U+10FFFF, as its documentation says.
pub assume_specification[ core::char::from_u32 ](i: u32) -> (r: Option<char>)
    ensures
        r == (if i <= 0x10FFFF && !(0xD800 <= i <= 0xDFFF) {
            Some(i as char)
        } else {
            None
        }),
;

/// `known` followed by the decoding of the rest, if the rest decodes.
pub open spec fn prepend_decoded(known: Seq<char>, rest: Option<Seq<char>>) -> Option<Seq<char>> {
    match rest {
        Some(r) => Some(known + r),
        None => None,
    }
}

/// Decodes UTF-16 code units into a text; `None` where a surrogate is unpaired.
pub fn decode_utf16(units: &[u16]) -> (r: Option<String>)
    ensures
        match r {
            Some(s) => utf16_decode(units@) == Some(s@),
            None => utf16_decode(units@) is None,
        },
{
    let n = units.len();
    let mut out = String::new();
    let mut i: usize = 0;
    assert(units@.skip(0) =~= units@);
    assert(out@ + Seq::<char>::empty() =~= out@);
    while i < n
        invariant
            n == units@.len(),
            i <= n,
            utf16_decode(units@) == prepend_decoded(out@, utf16_decode(units@.skip(i as int))),
        decreases n - i,
    {
        let ghost rest = units@.skip(i as int);
        let u = units[i];
        assert(rest[0] == u);
        if 0xD800 <= u && u < 0xDC00 {
            if i + 1 < n && 0xDC00 <= units[i + 1] && units[i + 1] < 0xE000 {
                let low = units[i + 1];
                assert(rest[1] == low);
                let v: u32 = 0x10000 + ((u - 0xD800) as u32) * 0x400 + ((low - 0xDC00) as u32);
                match core::char::from_u32(v) {
                    Some(c) => {
                        assert(c == pair_char(u, low));
                        let ghost before = out@;
                        push_char(&mut out, c);
                        proof {
                            lemma_skip_skip(units@, i as int, 2);
                            assert(out@ == before + seq![c]);
                            match utf16_decode(units@.skip(i + 2)) {
                                Some(r) => {
                                    assert(before + (seq![c] + r) =~= out@ + r);
                                },
                                None => {},
                            }
                        }
                        i = i + 2;
                    },
                    None => {
                        return None;
                    },
                }
            } else {
                return None;
            }
        } else if 0xDC00 <= u && u < 0xE000 {
            return None;
        } else {
            match core::char::from_u32(u as u32) {
                Some(c) => {
                    assert(c == (u as char));
                    let ghost before = out@;
                    push_char(&mut out, c);
                    proof {
                        lemma_skip_skip(units@, i as int, 1);
                        assert(out@ == before + seq![c]);
                        match utf16_decode(units@.skip(i + 1)) {
                            Some(r) => {
                                assert(before + (seq![c] + r) =~= out@ + r);
                            },
                            None => {},
                        }
                    }
                    i = i + 1;
                },
                None => {
                    return None;
                },
            }
        }
    }
    assert(units@.skip(n as int) =~= Seq::<u16>::empty());
    assert(out@ + Seq::<char>::empty() =~= out@);
    Some(out)
}

/// Decoding the UTF-16 encoding of any text gives the text back.
pub proof fn lemma_decode_encode(s: Seq<char>)
    ensures
        utf16_decode(utf16_encode(s)) == Some(s),
    decreases s.len(),
{
    if s.len() > 0 {
        let rest = s.skip(1);
        lemma_decode_encode(rest);
        let u = utf16_units(s[0]);
        let e = utf16_encode(s);
        assert(e == u + utf16_encode(rest));
        assert(e.skip(u.len() as int) =~= utf16_encode(rest));
        let v = s[0] as u32;
        vstd::utf8::char_is_scalar(s[0]);
        vstd::utf8::char_u32_cast(s[0], v);
        if v < 0x10000 {
            assert(!(0xD800 <= v < 0xE000));
            assert(u =~= seq![v as u16]);
            assert(u[0] == v as u16);
            assert((v as u16) == v);
            assert(e[0] == u[0]);
            assert(e[0] == v);
            assert(!is_high_surrogate(e[0]) && !is_low_surrogate(e[0]));
            assert((e[0] as char) == s[0]);
        } else {
            assert(e[0] == 0xD800 + (v - 0x10000) / 0x400);
            assert(e[1] == 0xDC00 + (v - 0x10000) % 0x400);
            assert(is_high_surrogate(e[0]) && is_low_surrogate(e[1]));
            assert(pair_char(e[0], e[1]) == s[0]);
        }
        assert(seq![s[0]] + rest =~= s);
    }
}

/// Whatever decodes encodes back to the same code units: the encoding is
/// the only UTF-16 form of a text.
pub proof fn lemma_encode_decode(u: Seq<u16>)
    requires
        utf16_decode(u) is Some,
    ensures
        utf16_encode(utf16_decode(u)->0) == u,
    decreases u.len(),
{
    if u.len() > 0 {
        let t = utf16_decode(u)->0;
        if is_high_surrogate(u[0]) {
            lemma_encode_decode(u.skip(2));
            let c = pair_char(u[0], u[1]);
            assert(t == seq![c] + utf16_decode(u.skip(2))->0);
            assert(t.skip(1) =~= utf16_decode(u.skip(2))->0);
            assert(utf16_units(c) =~= seq![u[0], u[1]]);
            assert(u =~= seq![u[0], u[1]] + u.skip(2));
        } else {
            lemma_encode_decode(u.skip(1));
            let c = u[0] as char;
            assert(t == seq![c] + utf16_decode(u.skip(1))->0);
            assert(t.skip(1) =~= utf16_decode(u.skip(1))->0);
            assert(utf16_units(c) =~= seq![u[0]]);
            assert(u =~= seq![u[0]] + u.skip(1));
        }
    }
}

} // verus!
