//! The decoder for the JSON wire format.
//!
//! The decoder accepts the JSON shape of each value, not one byte form:
//! insignificant whitespace anywhere between tokens, object members in any
//! order, unknown members (skipped as arbitrary JSON values), and the
//! standard string escapes, `\uXXXX` with either hex case and surrogate
//! pairs included. Each parsing step is defined by a total spec function
//! from the input bytes and a position to an optional value and next
//! position; the executable parsers are proved to return exactly what those
//! functions say, so success and failure are both pinned down for every
//! input.

use vstd::prelude::*;

use crate::model::ChatCompletionChoice;
use crate::model::ChatCompletionResponse;
use crate::model::ChatEntry;
use crate::model::ChatLog;
use crate::model::ChatRole;
use crate::model::ChoiceV;
use crate::model::CompletionUsage;
use crate::model::FinishReason;
use crate::model::MessageV;
use crate::model::ResponseV;
use crate::model::choice_views;
use crate::model::entry_views;
use crate::wire;

verus! {

/// Decoding failed: the bytes are not valid JSON of the expected shape — a
/// framing fault, a required member absent, a member of the wrong type, an
/// out-of-range number, or a token outside its closed set.
#[derive(Clone, Copy, PartialEq, Eq, Structural, Debug)]
pub struct DecodeError;

/// Whether a byte is a decimal digit character.
pub open spec fn is_digit(b: u8) -> bool {
    48 <= b && b <= 57
}

/// Whether a byte is insignificant JSON whitespace.
pub open spec fn is_ws(b: u8) -> bool {
    b == 32 || b == 9 || b == 10 || b == 13
}

/// The first position at or after `i` that does not hold whitespace.
pub open spec fn sp_skip_ws(s: Seq<u8>, i: int) -> int
    decreases s.len() - i,
{
    if 0 <= i && i < s.len() && is_ws(s[i]) {
        sp_skip_ws(s, i + 1)
    } else {
        i
    }
}

/// Skipping whitespace stays between the start and the end of the input.
pub proof fn lemma_skip_ws_bounds(s: Seq<u8>, i: int)
    requires
        0 <= i <= s.len(),
    ensures
        i <= sp_skip_ws(s, i) <= s.len(),
    decreases s.len() - i,
{
    if i < s.len() && is_ws(s[i]) {
        lemma_skip_ws_bounds(s, i + 1);
    }
}

/// Move past insignificant whitespace.
pub fn skip_ws(s: &[u8], i: usize) -> (j: usize)
    requires
        i <= s@.len(),
    ensures
        j as int == sp_skip_ws(s@, i as int),
        i <= j <= s@.len(),
    decreases s@.len() - i,
{
    if i < s.len() {
        let b = s[i];
        if b == 32 || b == 9 || b == 10 || b == 13 {
            return skip_ws(s, i + 1);
        }
    }
    i
}

/// The UTF-8 bytes of a code point.
pub open spec fn utf8_enc(cp: int) -> Seq<u8> {
    if cp < 0x80 {
        seq![cp as u8]
    } else if cp < 0x800 {
        seq![(192 + cp / 64) as u8, (128 + cp % 64) as u8]
    } else if cp < 0x10000 {
        seq![(224 + cp / 4096) as u8, (128 + (cp / 64) % 64) as u8, (128 + cp % 64) as u8]
    } else {
        seq![
            (240 + cp / 262144) as u8,
            (128 + (cp / 4096) % 64) as u8,
            (128 + (cp / 64) % 64) as u8,
            (128 + cp % 64) as u8,
        ]
    }
}

/// The UTF-8 bytes of a code point, as owned bytes.
fn utf8_bytes(cp: u32) -> (v: Vec<u8>)
    requires
        cp < 0x110000,
    ensures
        v@ == utf8_enc(cp as int),
{
    let mut v: Vec<u8> = Vec::new();
    if cp < 0x80 {
        v.push(cp as u8);
    } else if cp < 0x800 {
        v.push((192 + cp / 64) as u8);
        v.push((128 + cp % 64) as u8);
    } else if cp < 0x10000 {
        v.push((224 + cp / 4096) as u8);
        v.push((128 + (cp / 64) % 64) as u8);
        v.push((128 + cp % 64) as u8);
    } else {
        v.push((240 + cp / 262144) as u8);
        v.push((128 + (cp / 4096) % 64) as u8);
        v.push((128 + (cp / 64) % 64) as u8);
        v.push((128 + cp % 64) as u8);
    }
    proof {
        assert(v@ =~= utf8_enc(cp as int));
    }
    v
}

/// Four hex digits at position `i`: their value and the position after.
pub open spec fn sp_parse_hex4(s: Seq<u8>, i: int) -> Option<(int, int)> {
    if 0 <= i && i + 4 <= s.len() && wire::is_hex(s[i]) && wire::is_hex(s[i + 1]) && wire::is_hex(
        s[i + 2],
    ) && wire::is_hex(s[i + 3]) {
        Some(
            (wire::hex_val(s[i]) * 4096 + wire::hex_val(s[i + 1]) * 256 + wire::hex_val(s[i + 2])
                * 16 + wire::hex_val(s[i + 3]), i + 4),
        )
    } else {
        None
    }
}

/// The value of a hex digit character, if it is one.
fn hex_char_val(b: u8) -> (r: Option<u8>)
    ensures
        (r is Some) == wire::is_hex(b),
        r matches Some(v) ==> v as int == wire::hex_val(b) && v < 16,
{
    if 48 <= b && b <= 57 {
        Some(b - 48)
    } else if 97 <= b && b <= 102 {
        Some(b - 87)
    } else if 65 <= b && b <= 70 {
        Some(b - 55)
    } else {
        None
    }
}

/// Read four hex digits.
fn parse_hex4(s: &[u8], i: usize) -> (r: Option<(u32, usize)>)
    requires
        i <= s@.len(),
    ensures
        (r is Some) == (sp_parse_hex4(s@, i as int) is Some),
        r matches Some(p) ==> sp_parse_hex4(s@, i as int) == Some((p.0 as int, p.1 as int))
            && p.0 < 0x10000 && i < p.1 <= s@.len(),
{
    if s.len() - i < 4 {
        return None;
    }
    match (hex_char_val(s[i]), hex_char_val(s[i + 1]), hex_char_val(s[i + 2]), hex_char_val(
        s[i + 3],
    )) {
        (Some(h0), Some(h1), Some(h2), Some(h3)) => Some(
            (h0 as u32 * 4096 + h1 as u32 * 256 + h2 as u32 * 16 + h3 as u32, i + 4),
        ),
        _ => None,
    }
}

/// The body of a JSON string from position `i` up to its closing quote: the
/// bytes it spells (escapes decoded, `\uXXXX` as UTF-8) and the position
/// just after the quote.
pub open spec fn sp_parse_strbody(s: Seq<u8>, i: int) -> Option<(Seq<u8>, int)>
    decreases s.len() - i,
{
    if i < 0 || i >= s.len() {
        None
    } else if s[i] == 34 {
        Some((Seq::empty(), i + 1))
    } else if s[i] == 92 {
        if i + 1 < s.len() {
            let e = s[i + 1];
            if e == 34 || e == 92 || e == 47 {
                match sp_parse_strbody(s, i + 2) {
                    Some(r) => Some((seq![e] + r.0, r.1)),
                    None => None,
                }
            } else if e == 98 || e == 102 || e == 110 || e == 114 || e == 116 {
                let b: u8 = if e == 98 {
                    8
                } else if e == 102 {
                    12
                } else if e == 110 {
                    10
                } else if e == 114 {
                    13
                } else {
                    9
                };
                match sp_parse_strbody(s, i + 2) {
                    Some(r) => Some((seq![b] + r.0, r.1)),
                    None => None,
                }
            } else if e == 117 {
                match sp_parse_hex4(s, i + 2) {
                    None => None,
                    Some(h) => {
                        let cp = h.0;
                        if 0xD800 <= cp && cp < 0xDC00 {
                            if i + 7 < s.len() && s[i + 6] == 92 && s[i + 7] == 117 {
                                match sp_parse_hex4(s, i + 8) {
                                    None => None,
                                    Some(h2) => {
                                        let cp2 = h2.0;
                                        if 0xDC00 <= cp2 && cp2 < 0xE000 {
                                            let full = 0x10000 + (cp - 0xD800) * 0x400 + (cp2
                                                - 0xDC00);
                                            match sp_parse_strbody(s, i + 12) {
                                                Some(r) => Some((utf8_enc(full) + r.0, r.1)),
                                                None => None,
                                            }
                                        } else {
                                            None
                                        }
                                    },
                                }
                            } else {
                                None
                            }
                        } else if 0xDC00 <= cp && cp < 0xE000 {
                            None
                        } else {
                            match sp_parse_strbody(s, i + 6) {
                                Some(r) => Some((utf8_enc(cp) + r.0, r.1)),
                                None => None,
                            }
                        }
                    },
                }
            } else {
                None
            }
        } else {
            None
        }
    } else if s[i] < 32 {
        None
    } else {
        match sp_parse_strbody(s, i + 1) {
            Some(r) => Some((seq![s[i]] + r.0, r.1)),
            None => None,
        }
    }
}

/// A whole JSON string at position `i`: an opening quote, a body, a closing
/// quote.
pub open spec fn sp_parse_string(s: Seq<u8>, i: int) -> Option<(Seq<u8>, int)> {
    if 0 <= i && i < s.len() && s[i] == 34 {
        sp_parse_strbody(s, i + 1)
    } else {
        None
    }
}

/// Read a JSON string body up to its closing quote.
pub fn parse_strbody(s: &[u8], i: usize) -> (r: Option<(Vec<u8>, usize)>)
    requires
        i <= s@.len(),
    ensures
        (r is Some) == (sp_parse_strbody(s@, i as int) is Some),
        r matches Some(p) ==> sp_parse_strbody(s@, i as int) == Some((p.0@, p.1 as int)) && i
            < p.1 <= s@.len(),
    decreases s@.len() - i,
{
    if i >= s.len() {
        return None;
    }
    let b = s[i];
    if b == 34 {
        let v: Vec<u8> = Vec::new();
        proof {
            assert(v@ =~= Seq::<u8>::empty());
        }
        Some((v, i + 1))
    } else if b == 92 {
        if s.len() - i > 1 {
            let e = s[i + 1];
            if e == 34 || e == 92 || e == 47 {
                match parse_strbody(s, i + 2) {
                    Some((mut v, j)) => {
                        v.insert(0, e);
                        proof {
                            assert(v@ =~= seq![e] + v@.skip(1));
                        }
                        Some((v, j))
                    },
                    None => None,
                }
            } else if e == 98 || e == 102 || e == 110 || e == 114 || e == 116 {
                let c: u8 = if e == 98 {
                    8
                } else if e == 102 {
                    12
                } else if e == 110 {
                    10
                } else if e == 114 {
                    13
                } else {
                    9
                };
                match parse_strbody(s, i + 2) {
                    Some((mut v, j)) => {
                        v.insert(0, c);
                        proof {
                            assert(v@ =~= seq![c] + v@.skip(1));
                        }
                        Some((v, j))
                    },
                    None => None,
                }
            } else if e == 117 {
                match parse_hex4(s, i + 2) {
                    None => None,
                    Some((cp, _)) => {
                        if 0xD800 <= cp && cp < 0xDC00 {
                            if s.len() - i > 7 && s[i + 6] == 92 && s[i + 7] == 117 {
                                match parse_hex4(s, i + 8) {
                                    None => None,
                                    Some((cp2, _)) => {
                                        if 0xDC00 <= cp2 && cp2 < 0xE000 {
                                            let full: u32 = 0x10000 + (cp - 0xD800) * 0x400 + (cp2
                                                - 0xDC00);
                                            match parse_strbody(s, i + 12) {
                                                Some((rest, j)) => {
                                                    let mut v = utf8_bytes(full);
                                                    wire::append_bytes(&mut v, &rest);
                                                    Some((v, j))
                                                },
                                                None => None,
                                            }
                                        } else {
                                            None
                                        }
                                    },
                                }
                            } else {
                                None
                            }
                        } else if 0xDC00 <= cp && cp < 0xE000 {
                            None
                        } else {
                            match parse_strbody(s, i + 6) {
                                Some((rest, j)) => {
                                    let mut v = utf8_bytes(cp);
                                    wire::append_bytes(&mut v, &rest);
                                    Some((v, j))
                                },
                                None => None,
                            }
                        }
                    },
                }
            } else {
                None
            }
        } else {
            None
        }
    } else if b < 32 {
        None
    } else {
        match parse_strbody(s, i + 1) {
            Some((mut v, j)) => {
                v.insert(0, b);
                proof {
                    assert(v@ =~= seq![b] + v@.skip(1));
                }
                Some((v, j))
            },
            None => None,
        }
    }
}

/// Read a whole JSON string, quotes included.
pub fn parse_string(s: &[u8], i: usize) -> (r: Option<(Vec<u8>, usize)>)
    requires
        i <= s@.len(),
    ensures
        (r is Some) == (sp_parse_string(s@, i as int) is Some),
        r matches Some(p) ==> sp_parse_string(s@, i as int) == Some((p.0@, p.1 as int)) && i
            < p.1 <= s@.len(),
{
    if i < s.len() && s[i] == 34 {
        parse_strbody(s, i + 1)
    } else {
        None
    }
}

/// Digits left to right onto an accumulator; fails if the value would pass
/// the machine's word size.
pub open spec fn sp_parse_num_loop(s: Seq<u8>, i: int, acc: usize) -> Option<(usize, int)>
    decreases s.len() - i,
{
    if 0 <= i && i < s.len() && is_digit(s[i]) {
        if acc * 10 + (s[i] - 48) <= usize::MAX {
            sp_parse_num_loop(s, i + 1, (acc * 10 + (s[i] - 48)) as usize)
        } else {
            None
        }
    } else {
        Some((acc, i))
    }
}

/// A non-negative JSON integer at position `i`: at least one digit, no
/// leading zero, value within the machine's word size.
pub open spec fn sp_parse_num(s: Seq<u8>, i: int) -> Option<(usize, int)> {
    if 0 <= i && i < s.len() && is_digit(s[i]) {
        if s[i] == 48 && i + 1 < s.len() && is_digit(s[i + 1]) {
            None
        } else {
            sp_parse_num_loop(s, i, 0)
        }
    } else {
        None
    }
}

/// Read digits onto an accumulator.
pub fn parse_num_loop(s: &[u8], i: usize, acc: usize) -> (r: Option<(usize, usize)>)
    requires
        i <= s@.len(),
    ensures
        (r is Some) == (sp_parse_num_loop(s@, i as int, acc) is Some),
        r matches Some(p) ==> sp_parse_num_loop(s@, i as int, acc) == Some((p.0, p.1 as int))
            && i <= p.1 <= s@.len(),
    decreases s@.len() - i,
{
    if i < s.len() && 48 <= s[i] && s[i] <= 57 {
        let d = s[i] - 48;
        let next = acc as u128 * 10 + d as u128;
        if next <= usize::MAX as u128 {
            parse_num_loop(s, i + 1, next as usize)
        } else {
            None
        }
    } else {
        Some((acc, i))
    }
}

/// Read a non-negative JSON integer: at least one digit, no leading zero,
/// value within the machine's word size.
pub fn parse_num(s: &[u8], i: usize) -> (r: Option<(usize, usize)>)
    requires
        i <= s@.len(),
    ensures
        (r is Some) == (sp_parse_num(s@, i as int) is Some),
        r matches Some(p) ==> sp_parse_num(s@, i as int) == Some((p.0, p.1 as int)) && i <= p.1
            <= s@.len(),
{
    if i < s.len() && 48 <= s[i] && s[i] <= 57 {
        if s[i] == 48 && i + 1 < s.len() && 48 <= s[i + 1] && s[i + 1] <= 57 {
            None
        } else {
            parse_num_loop(s, i, 0)
        }
    } else {
        None
    }
}

/// A role at position `i`: a JSON string whose spelled bytes are one of the
/// three wire tokens. Any other string fails; so does anything that is not
/// a string.
pub open spec fn sp_parse_role(s: Seq<u8>, i: int) -> Option<(ChatRole, int)> {
    match sp_parse_string(s, i) {
        None => None,
        Some(t) => if t.0 == wire::lit_tok_system() {
            Some((ChatRole::System, t.1))
        } else if t.0 == wire::lit_tok_user() {
            Some((ChatRole::User, t.1))
        } else if t.0 == wire::lit_tok_assistant() {
            Some((ChatRole::Assistant, t.1))
        } else {
            None
        },
    }
}

/// A finish reason at position `i`: a JSON string whose spelled bytes are
/// one of the two wire tokens.
pub open spec fn sp_parse_finish(s: Seq<u8>, i: int) -> Option<(FinishReason, int)> {
    match sp_parse_string(s, i) {
        None => None,
        Some(t) => if t.0 == wire::lit_tok_stop() {
            Some((FinishReason::Stop, t.1))
        } else if t.0 == wire::lit_tok_length() {
            Some((FinishReason::Length, t.1))
        } else {
            None
        },
    }
}

/// Read a role token.
pub fn parse_role(s: &[u8], i: usize) -> (r: Option<(ChatRole, usize)>)
    requires
        i <= s@.len(),
    ensures
        (r is Some) == (sp_parse_role(s@, i as int) is Some),
        r matches Some(p) ==> sp_parse_role(s@, i as int) == Some((p.0, p.1 as int)) && i < p.1
            <= s@.len(),
{
    match parse_string(s, i) {
        None => None,
        Some((t, j)) => {
            let tok_s = wire::tok_system();
            if wire::bytes_eq(&t, &tok_s) {
                return Some((ChatRole::System, j));
            }
            let tok_u = wire::tok_user();
            if wire::bytes_eq(&t, &tok_u) {
                return Some((ChatRole::User, j));
            }
            let tok_a = wire::tok_assistant();
            if wire::bytes_eq(&t, &tok_a) {
                return Some((ChatRole::Assistant, j));
            }
            None
        },
    }
}

/// Read a finish-reason token.
pub fn parse_finish(s: &[u8], i: usize) -> (r: Option<(FinishReason, usize)>)
    requires
        i <= s@.len(),
    ensures
        (r is Some) == (sp_parse_finish(s@, i as int) is Some),
        r matches Some(p) ==> sp_parse_finish(s@, i as int) == Some((p.0, p.1 as int)) && i
            < p.1 <= s@.len(),
{
    match parse_string(s, i) {
        None => None,
        Some((t, j)) => {
            let tok_s = wire::tok_stop();
            if wire::bytes_eq(&t, &tok_s) {
                return Some((FinishReason::Stop, j));
            }
            let tok_l = wire::tok_length();
            if wire::bytes_eq(&t, &tok_l) {
                return Some((FinishReason::Length, j));
            }
            None
        },
    }
}

/// The end of the digit run beginning at `i`.
pub open spec fn sp_digits_end(s: Seq<u8>, i: int) -> int
    decreases s.len() - i,
{
    if 0 <= i && i < s.len() && is_digit(s[i]) {
        sp_digits_end(s, i + 1)
    } else {
        i
    }
}

/// Skipping digits stays between the start and the end of the input.
pub proof fn lemma_digits_end_bounds(s: Seq<u8>, i: int)
    requires
        0 <= i <= s.len(),
    ensures
        i <= sp_digits_end(s, i) <= s.len(),
    decreases s.len() - i,
{
    if i < s.len() && is_digit(s[i]) {
        lemma_digits_end_bounds(s, i + 1);
    }
}

/// Move past a digit run.
pub fn digits_end(s: &[u8], i: usize) -> (j: usize)
    requires
        i <= s@.len(),
    ensures
        j as int == sp_digits_end(s@, i as int),
        i <= j <= s@.len(),
    decreases s@.len() - i,
{
    if i < s.len() && 48 <= s[i] && s[i] <= 57 {
        digits_end(s, i + 1)
    } else {
        i
    }
}

/// Skip a JSON number (sign, integer part without leading zeros, optional
/// fraction and exponent); its value is not kept.
pub open spec fn sp_skip_number(s: Seq<u8>, i: int) -> Option<int> {
    if 0 <= i && i < s.len() {
        let j = if s[i] == 45 {
            i + 1
        } else {
            i
        };
        if j < s.len() && is_digit(s[j]) {
            let k = if s[j] == 48 {
                j + 1
            } else {
                sp_digits_end(s, j)
            };
            if 0 <= k && k <= s.len() {
                let m = if k < s.len() && s[k] == 46 && k + 1 < s.len() && is_digit(s[k + 1]) {
                    sp_digits_end(s, k + 1)
                } else if k < s.len() && s[k] == 46 {
                    -1
                } else {
                    k
                };
                if 0 <= m && m <= s.len() {
                    if m < s.len() && (s[m] == 101 || s[m] == 69) {
                        let p = if m + 1 < s.len() && (s[m + 1] == 43 || s[m + 1] == 45) {
                            m + 2
                        } else {
                            m + 1
                        };
                        if p < s.len() && is_digit(s[p]) {
                            Some(sp_digits_end(s, p))
                        } else {
                            None
                        }
                    } else {
                        Some(m)
                    }
                } else {
                    None
                }
            } else {
                None
            }
        } else {
            None
        }
    } else {
        None
    }
}

/// Skip a JSON number.
pub fn skip_number(s: &[u8], i: usize) -> (r: Option<usize>)
    requires
        i <= s@.len(),
    ensures
        match r {
            Some(j) => sp_skip_number(s@, i as int) == Some(j as int) && i < j <= s@.len(),
            None => sp_skip_number(s@, i as int) is None,
        },
{
    if i >= s.len() {
        return None;
    }
    let j = if s[i] == 45 {
        i + 1
    } else {
        i
    };
    if !(j < s.len() && 48 <= s[j] && s[j] <= 57) {
        return None;
    }
    proof {
        lemma_digits_end_bounds(s@, j as int);
    }
    let k = if s[j] == 48 {
        j + 1
    } else {
        digits_end(s, j)
    };
    proof {
        if s@[j as int] != 48 {
            lemma_digits_end_bounds(s@, j as int + 1);
        }
        assert(j < k);
    }
    let m = if k < s.len() && s[k] == 46 {
        if k + 1 < s.len() && 48 <= s[k + 1] && s[k + 1] <= 57 {
            digits_end(s, k + 1)
        } else {
            return None;
        }
    } else {
        k
    };
    proof {
        lemma_digits_end_bounds(s@, m as int);
    }
    if m < s.len() && (s[m] == 101 || s[m] == 69) {
        let p = if m + 1 < s.len() && (s[m + 1] == 43 || s[m + 1] == 45) {
            m + 2
        } else {
            m + 1
        };
        if p < s.len() && 48 <= s[p] && s[p] <= 57 {
            Some(digits_end(s, p))
        } else {
            None
        }
    } else {
        Some(m)
    }
}

/// Skip one JSON value of any kind; its content is not kept. Used to pass
/// over unknown object members.
pub open spec fn sp_skip_value(s: Seq<u8>, i: int) -> Option<int>
    decreases s.len() - i, 0int,
{
    if i < 0 || i >= s.len() {
        None
    } else if s[i] == 34 {
        match sp_parse_strbody(s, i + 1) {
            Some(r) => Some(r.1),
            None => None,
        }
    } else if s[i] == 123 {
        let j = sp_skip_ws(s, i + 1);
        if i + 1 <= j && j < s.len() && s[j] == 125 {
            Some(j + 1)
        } else {
            sp_skip_object_items(s, i + 1)
        }
    } else if s[i] == 91 {
        let j = sp_skip_ws(s, i + 1);
        if i + 1 <= j && j < s.len() && s[j] == 93 {
            Some(j + 1)
        } else {
            sp_skip_array_items(s, i + 1)
        }
    } else if s[i] == 116 {
        match wire::sp_expect(s, i, seq![116u8, 114u8, 117u8, 101u8]) {
            Some(j) => Some(j),
            None => None,
        }
    } else if s[i] == 102 {
        match wire::sp_expect(s, i, seq![102u8, 97u8, 108u8, 115u8, 101u8]) {
            Some(j) => Some(j),
            None => None,
        }
    } else if s[i] == 110 {
        match wire::sp_expect(s, i, seq![110u8, 117u8, 108u8, 108u8]) {
            Some(j) => Some(j),
            None => None,
        }
    } else if s[i] == 45 || is_digit(s[i]) {
        sp_skip_number(s, i)
    } else {
        None
    }
}

/// Skip the items of a JSON array from the first item on, up to and past
/// the closing bracket.
pub open spec fn sp_skip_array_items(s: Seq<u8>, i: int) -> Option<int>
    decreases s.len() - i, 1int,
{
    if 0 <= i && i <= s.len() {
        let j = sp_skip_ws(s, i);
        if i <= j && j <= s.len() {
            match sp_skip_value(s, j) {
                None => None,
                Some(k) => if j < k && k <= s.len() {
                    let w = sp_skip_ws(s, k);
                    if k <= w && w < s.len() {
                        if s[w] == 44 {
                            sp_skip_array_items(s, w + 1)
                        } else if s[w] == 93 {
                            Some(w + 1)
                        } else {
                            None
                        }
                    } else {
                        None
                    }
                } else {
                    None
                },
            }
        } else {
            None
        }
    } else {
        None
    }
}

/// Skip the members of a JSON object from the first member on, up to and
/// past the closing brace.
pub open spec fn sp_skip_object_items(s: Seq<u8>, i: int) -> Option<int>
    decreases s.len() - i, 1int,
{
    if 0 <= i && i <= s.len() {
        let j = sp_skip_ws(s, i);
        if i <= j && j < s.len() && s[j] == 34 {
            match sp_parse_strbody(s, j + 1) {
                None => None,
                Some(kq) => if j < kq.1 && kq.1 <= s.len() {
                    let m = sp_skip_ws(s, kq.1);
                    if kq.1 <= m && m < s.len() && s[m] == 58 {
                        let p = sp_skip_ws(s, m + 1);
                        if m < p && p <= s.len() {
                            match sp_skip_value(s, p) {
                                None => None,
                                Some(q) => if p < q && q <= s.len() {
                                    let w = sp_skip_ws(s, q);
                                    if q <= w && w < s.len() {
                                        if s[w] == 44 {
                                            sp_skip_object_items(s, w + 1)
                                        } else if s[w] == 125 {
                                            Some(w + 1)
                                        } else {
                                            None
                                        }
                                    } else {
                                        None
                                    }
                                } else {
                                    None
                                },
                            }
                        } else {
                            None
                        }
                    } else {
                        None
                    }
                } else {
                    None
                },
            }
        } else {
            None
        }
    } else {
        None
    }
}

/// Skip one JSON value.
pub fn skip_value(s: &[u8], i: usize) -> (r: Option<usize>)
    requires
        i <= s@.len(),
    ensures
        match r {
            Some(j) => sp_skip_value(s@, i as int) == Some(j as int) && i < j <= s@.len(),
            None => sp_skip_value(s@, i as int) is None,
        },
    decreases s@.len() - i, 0int,
{
    if i >= s.len() {
        return None;
    }
    let b = s[i];
    if b == 34 {
        match parse_strbody(s, i + 1) {
            Some((_, j)) => Some(j),
            None => None,
        }
    } else if b == 123 {
        let j = skip_ws(s, i + 1);
        if j < s.len() && s[j] == 125 {
            Some(j + 1)
        } else {
            skip_object_items(s, i + 1)
        }
    } else if b == 91 {
        let j = skip_ws(s, i + 1);
        if j < s.len() && s[j] == 93 {
            Some(j + 1)
        } else {
            skip_array_items(s, i + 1)
        }
    } else if b == 116 {
        let mut lit: Vec<u8> = Vec::new();
        lit.push(116);
        lit.push(114);
        lit.push(117);
        lit.push(101);
        proof {
            assert(lit@ =~= seq![116u8, 114u8, 117u8, 101u8]);
        }
        wire::expect(s, i, &lit)
    } else if b == 102 {
        let mut lit: Vec<u8> = Vec::new();
        lit.push(102);
        lit.push(97);
        lit.push(108);
        lit.push(115);
        lit.push(101);
        proof {
            assert(lit@ =~= seq![102u8, 97u8, 108u8, 115u8, 101u8]);
        }
        wire::expect(s, i, &lit)
    } else if b == 110 {
        let mut lit: Vec<u8> = Vec::new();
        lit.push(110);
        lit.push(117);
        lit.push(108);
        lit.push(108);
        proof {
            assert(lit@ =~= seq![110u8, 117u8, 108u8, 108u8]);
        }
        wire::expect(s, i, &lit)
    } else if b == 45 || (48 <= b && b <= 57) {
        skip_number(s, i)
    } else {
        None
    }
}

/// Skip the items of a JSON array.
pub fn skip_array_items(s: &[u8], i: usize) -> (r: Option<usize>)
    requires
        i <= s@.len(),
    ensures
        match r {
            Some(j) => sp_skip_array_items(s@, i as int) == Some(j as int) && i < j
                <= s@.len(),
            None => sp_skip_array_items(s@, i as int) is None,
        },
    decreases s@.len() - i, 1int,
{
    let j = skip_ws(s, i);
    match skip_value(s, j) {
        None => None,
        Some(k) => {
            let w = skip_ws(s, k);
            if w < s.len() {
                if s[w] == 44 {
                    skip_array_items(s, w + 1)
                } else if s[w] == 93 {
                    Some(w + 1)
                } else {
                    None
                }
            } else {
                None
            }
        },
    }
}

/// Skip the members of a JSON object.
pub fn skip_object_items(s: &[u8], i: usize) -> (r: Option<usize>)
    requires
        i <= s@.len(),
    ensures
        match r {
            Some(j) => sp_skip_object_items(s@, i as int) == Some(j as int) && i < j
                <= s@.len(),
            None => sp_skip_object_items(s@, i as int) is None,
        },
    decreases s@.len() - i, 1int,
{
    let j = skip_ws(s, i);
    if j < s.len() && s[j] == 34 {
        match parse_strbody(s, j + 1) {
            None => None,
            Some((_, k)) => {
                let m = skip_ws(s, k);
                if m < s.len() && s[m] == 58 {
                    let p = skip_ws(s, m + 1);
                    match skip_value(s, p) {
                        None => None,
                        Some(q) => {
                            let w = skip_ws(s, q);
                            if w < s.len() {
                                if s[w] == 44 {
                                    skip_object_items(s, w + 1)
                                } else if s[w] == 125 {
                                    Some(w + 1)
                                } else {
                                    None
                                }
                            } else {
                                None
                            }
                        },
                    }
                } else {
                    None
                }
            },
        }
    } else {
        None
    }
}

/// The mathematical value of an optional byte string.
pub open spec fn opt_bytes_view(o: Option<Vec<u8>>) -> Option<Seq<u8>> {
    match o {
        Some(v) => Some(v@),
        None => None,
    }
}

/// The members of a dialogue-turn object, in any order: `role` and
/// `content` each exactly once, unknown members skipped. `role_acc` and
/// `content_acc` carry what earlier members already bound.
pub open spec fn sp_entry_members(
    s: Seq<u8>,
    i: int,
    role_acc: Option<ChatRole>,
    content_acc: Option<Seq<u8>>,
) -> Option<(MessageV, int)>
    decreases s.len() - i,
{
    let j = sp_skip_ws(s, i);
    if i <= j && j < s.len() && s[j] == 34 {
        match sp_parse_strbody(s, j + 1) {
            None => None,
            Some(kq) => if j < kq.1 && kq.1 <= s.len() {
                let m = sp_skip_ws(s, kq.1);
                if kq.1 <= m && m < s.len() && s[m] == 58 {
                    let p = sp_skip_ws(s, m + 1);
                    if m < p && p <= s.len() {
                        let step: Option<(Option<ChatRole>, Option<Seq<u8>>, int)> = if kq.0
                            == wire::lit_key_role() {
                            if role_acc is Some {
                                None
                            } else {
                                match sp_parse_role(s, p) {
                                    Some(r) => Some((Some(r.0), content_acc, r.1)),
                                    None => None,
                                }
                            }
                        } else if kq.0 == wire::lit_key_content() {
                            if content_acc is Some {
                                None
                            } else {
                                match sp_parse_string(s, p) {
                                    Some(c) => Some((role_acc, Some(c.0), c.1)),
                                    None => None,
                                }
                            }
                        } else {
                            match sp_skip_value(s, p) {
                                Some(q) => Some((role_acc, content_acc, q)),
                                None => None,
                            }
                        };
                        match step {
                            None => None,
                            Some(st) => if p < st.2 && st.2 <= s.len() {
                                let w = sp_skip_ws(s, st.2);
                                if st.2 <= w && w < s.len() {
                                    if s[w] == 44 {
                                        sp_entry_members(s, w + 1, st.0, st.1)
                                    } else if s[w] == 125 {
                                        match (st.0, st.1) {
                                            (Some(r), Some(c)) => Some(
                                                (MessageV { role: r, content: c }, w + 1),
                                            ),
                                            _ => None,
                                        }
                                    } else {
                                        None
                                    }
                                } else {
                                    None
                                }
                            } else {
                                None
                            },
                        }
                    } else {
                        None
                    }
                } else {
                    None
                }
            } else {
                None
            },
        }
    } else {
        None
    }
}

/// A dialogue-turn object at position `i`.
pub open spec fn sp_parse_entry(s: Seq<u8>, i: int) -> Option<(MessageV, int)> {
    if 0 <= i && i < s.len() && s[i] == 123 {
        sp_entry_members(s, i + 1, None, None)
    } else {
        None
    }
}

/// Read the members of a dialogue-turn object.
pub fn entry_members(
    s: &[u8],
    i: usize,
    role_acc: Option<ChatRole>,
    content_acc: Option<Vec<u8>>,
) -> (r: Option<(ChatEntry, usize)>)
    requires
        i <= s@.len(),
    ensures
        (r is Some) == (sp_entry_members(s@, i as int, role_acc, opt_bytes_view(content_acc))
            is Some),
        r matches Some(p) ==> sp_entry_members(
            s@,
            i as int,
            role_acc,
            opt_bytes_view(content_acc),
        ) == Some((p.0@, p.1 as int)) && i < p.1 <= s@.len(),
    decreases s@.len() - i,
{
    let j = skip_ws(s, i);
    if !(j < s.len() && s[j] == 34) {
        return None;
    }
    match parse_strbody(s, j + 1) {
        None => None,
        Some((key, k)) => {
            let m = skip_ws(s, k);
            if !(m < s.len() && s[m] == 58) {
                return None;
            }
            let p = skip_ws(s, m + 1);
            let kr = wire::key_role();
            let kc = wire::key_content();
            let step: Option<(Option<ChatRole>, Option<Vec<u8>>, usize)> = if wire::bytes_eq(
                &key,
                &kr,
            ) {
                if role_acc.is_some() {
                    None
                } else {
                    match parse_role(s, p) {
                        Some((r2, q)) => Some((Some(r2), content_acc, q)),
                        None => None,
                    }
                }
            } else if wire::bytes_eq(&key, &kc) {
                if content_acc.is_some() {
                    None
                } else {
                    match parse_string(s, p) {
                        Some((c, q)) => Some((role_acc, Some(c), q)),
                        None => None,
                    }
                }
            } else {
                match skip_value(s, p) {
                    Some(q) => Some((role_acc, content_acc, q)),
                    None => None,
                }
            };
            match step {
                None => None,
                Some((role2, content2, q)) => {
                    let w = skip_ws(s, q);
                    if !(w < s.len()) {
                        return None;
                    }
                    if s[w] == 44 {
                        entry_members(s, w + 1, role2, content2)
                    } else if s[w] == 125 {
                        match (role2, content2) {
                            (Some(r2), Some(c2)) => Some(
                                (ChatEntry { role: r2, content: c2 }, w + 1),
                            ),
                            _ => None,
                        }
                    } else {
                        None
                    }
                },
            }
        },
    }
}

/// Read a dialogue-turn object.
pub fn parse_entry(s: &[u8], i: usize) -> (r: Option<(ChatEntry, usize)>)
    requires
        i <= s@.len(),
    ensures
        (r is Some) == (sp_parse_entry(s@, i as int) is Some),
        r matches Some(p) ==> sp_parse_entry(s@, i as int) == Some((p.0@, p.1 as int)) && i
            < p.1 <= s@.len(),
{
    if i < s.len() && s[i] == 123 {
        entry_members(s, i + 1, None, None)
    } else {
        None
    }
}

/// The members of a usage object, in any order: the three token counters
/// each exactly once, unknown members skipped.
pub open spec fn sp_usage_members(
    s: Seq<u8>,
    i: int,
    pt: Option<usize>,
    ct: Option<usize>,
    tt: Option<usize>,
) -> Option<(CompletionUsage, int)>
    decreases s.len() - i,
{
    let j = sp_skip_ws(s, i);
    if i <= j && j < s.len() && s[j] == 34 {
        match sp_parse_strbody(s, j + 1) {
            None => None,
            Some(kq) => if j < kq.1 && kq.1 <= s.len() {
                let m = sp_skip_ws(s, kq.1);
                if kq.1 <= m && m < s.len() && s[m] == 58 {
                    let p = sp_skip_ws(s, m + 1);
                    if m < p && p <= s.len() {
                        let step: Option<(Option<usize>, Option<usize>, Option<usize>, int)> =
                            if kq.0 == wire::lit_key_prompt() {
                            if pt is Some {
                                None
                            } else {
                                match sp_parse_num(s, p) {
                                    Some(n) => Some((Some(n.0), ct, tt, n.1)),
                                    None => None,
                                }
                            }
                        } else if kq.0 == wire::lit_key_completion() {
                            if ct is Some {
                                None
                            } else {
                                match sp_parse_num(s, p) {
                                    Some(n) => Some((pt, Some(n.0), tt, n.1)),
                                    None => None,
                                }
                            }
                        } else if kq.0 == wire::lit_key_total() {
                            if tt is Some {
                                None
                            } else {
                                match sp_parse_num(s, p) {
                                    Some(n) => Some((pt, ct, Some(n.0), n.1)),
                                    None => None,
                                }
                            }
                        } else {
                            match sp_skip_value(s, p) {
                                Some(q) => Some((pt, ct, tt, q)),
                                None => None,
                            }
                        };
                        match step {
                            None => None,
                            Some(st) => if p < st.3 && st.3 <= s.len() {
                                let w = sp_skip_ws(s, st.3);
                                if st.3 <= w && w < s.len() {
                                    if s[w] == 44 {
                                        sp_usage_members(s, w + 1, st.0, st.1, st.2)
                                    } else if s[w] == 125 {
                                        match (st.0, st.1, st.2) {
                                            (Some(a), Some(b), Some(c)) => Some(
                                                (CompletionUsage {
                                                    prompt_tokens: a,
                                                    completion_tokens: b,
                                                    total_tokens: c,
                                                }, w + 1),
                                            ),
                                            _ => None,
                                        }
                                    } else {
                                        None
                                    }
                                } else {
                                    None
                                }
                            } else {
                                None
                            },
                        }
                    } else {
                        None
                    }
                } else {
                    None
                }
            } else {
                None
            },
        }
    } else {
        None
    }
}

/// A usage object at position `i`.
pub open spec fn sp_parse_usage(s: Seq<u8>, i: int) -> Option<(CompletionUsage, int)> {
    if 0 <= i && i < s.len() && s[i] == 123 {
        sp_usage_members(s, i + 1, None, None, None)
    } else {
        None
    }
}

/// Read the members of a usage object.
pub fn usage_members(
    s: &[u8],
    i: usize,
    pt: Option<usize>,
    ct: Option<usize>,
    tt: Option<usize>,
) -> (r: Option<(CompletionUsage, usize)>)
    requires
        i <= s@.len(),
    ensures
        (r is Some) == (sp_usage_members(s@, i as int, pt, ct, tt) is Some),
        r matches Some(p) ==> sp_usage_members(s@, i as int, pt, ct, tt) == Some(
            (p.0, p.1 as int),
        ) && i < p.1 <= s@.len(),
    decreases s@.len() - i,
{
    let j = skip_ws(s, i);
    if !(j < s.len() && s[j] == 34) {
        return None;
    }
    match parse_strbody(s, j + 1) {
        None => None,
        Some((key, k)) => {
            let m = skip_ws(s, k);
            if !(m < s.len() && s[m] == 58) {
                return None;
            }
            let p = skip_ws(s, m + 1);
            let kp = wire::key_prompt();
            let kc = wire::key_completion();
            let kt = wire::key_total();
            let step: Option<(Option<usize>, Option<usize>, Option<usize>, usize)> =
                if wire::bytes_eq(&key, &kp) {
                if pt.is_some() {
                    None
                } else {
                    match parse_num(s, p) {
                        Some((n, q)) => Some((Some(n), ct, tt, q)),
                        None => None,
                    }
                }
            } else if wire::bytes_eq(&key, &kc) {
                if ct.is_some() {
                    None
                } else {
                    match parse_num(s, p) {
                        Some((n, q)) => Some((pt, Some(n), tt, q)),
                        None => None,
                    }
                }
            } else if wire::bytes_eq(&key, &kt) {
                if tt.is_some() {
                    None
                } else {
                    match parse_num(s, p) {
                        Some((n, q)) => Some((pt, ct, Some(n), q)),
                        None => None,
                    }
                }
            } else {
                match skip_value(s, p) {
                    Some(q) => Some((pt, ct, tt, q)),
                    None => None,
                }
            };
            match step {
                None => None,
                Some((pt2, ct2, tt2, q)) => {
                    let w = skip_ws(s, q);
                    if !(w < s.len()) {
                        return None;
                    }
                    if s[w] == 44 {
                        usage_members(s, w + 1, pt2, ct2, tt2)
                    } else if s[w] == 125 {
                        match (pt2, ct2, tt2) {
                            (Some(a), Some(b), Some(c)) => Some(
                                (CompletionUsage {
                                    prompt_tokens: a,
                                    completion_tokens: b,
                                    total_tokens: c,
                                }, w + 1),
                            ),
                            _ => None,
                        }
                    } else {
                        None
                    }
                },
            }
        },
    }
}

/// Read a usage object.
pub fn parse_usage(s: &[u8], i: usize) -> (r: Option<(CompletionUsage, usize)>)
    requires
        i <= s@.len(),
    ensures
        (r is Some) == (sp_parse_usage(s@, i as int) is Some),
        r matches Some(p) ==> sp_parse_usage(s@, i as int) == Some((p.0, p.1 as int)) && i
            < p.1 <= s@.len(),
{
    if i < s.len() && s[i] == 123 {
        usage_members(s, i + 1, None, None, None)
    } else {
        None
    }
}

/// The members of a choice object, in any order: `index`, `message` and
/// `finish_reason` each exactly once, unknown members skipped.
pub open spec fn sp_choice_members(
    s: Seq<u8>,
    i: int,
    ix: Option<usize>,
    msg: Option<MessageV>,
    fin: Option<FinishReason>,
) -> Option<(ChoiceV, int)>
    decreases s.len() - i,
{
    let j = sp_skip_ws(s, i);
    if i <= j && j < s.len() && s[j] == 34 {
        match sp_parse_strbody(s, j + 1) {
            None => None,
            Some(kq) => if j < kq.1 && kq.1 <= s.len() {
                let m = sp_skip_ws(s, kq.1);
                if kq.1 <= m && m < s.len() && s[m] == 58 {
                    let p = sp_skip_ws(s, m + 1);
                    if m < p && p <= s.len() {
                        let step: Option<
                            (Option<usize>, Option<MessageV>, Option<FinishReason>, int),
                        > = if kq.0 == wire::lit_key_index() {
                            if ix is Some {
                                None
                            } else {
                                match sp_parse_num(s, p) {
                                    Some(n) => Some((Some(n.0), msg, fin, n.1)),
                                    None => None,
                                }
                            }
                        } else if kq.0 == wire::lit_key_message() {
                            if msg is Some {
                                None
                            } else {
                                match sp_parse_entry(s, p) {
                                    Some(e) => Some((ix, Some(e.0), fin, e.1)),
                                    None => None,
                                }
                            }
                        } else if kq.0 == wire::lit_key_finish() {
                            if fin is Some {
                                None
                            } else {
                                match sp_parse_finish(s, p) {
                                    Some(f) => Some((ix, msg, Some(f.0), f.1)),
                                    None => None,
                                }
                            }
                        } else {
                            match sp_skip_value(s, p) {
                                Some(q) => Some((ix, msg, fin, q)),
                                None => None,
                            }
                        };
                        match step {
                            None => None,
                            Some(st) => if p < st.3 && st.3 <= s.len() {
                                let w = sp_skip_ws(s, st.3);
                                if st.3 <= w && w < s.len() {
                                    if s[w] == 44 {
                                        sp_choice_members(s, w + 1, st.0, st.1, st.2)
                                    } else if s[w] == 125 {
                                        match (st.0, st.1, st.2) {
                                            (Some(a), Some(b), Some(c)) => Some(
                                                (ChoiceV {
                                                    index: a,
                                                    message: b,
                                                    finish_reason: c,
                                                }, w + 1),
                                            ),
                                            _ => None,
                                        }
                                    } else {
                                        None
                                    }
                                } else {
                                    None
                                }
                            } else {
                                None
                            },
                        }
                    } else {
                        None
                    }
                } else {
                    None
                }
            } else {
                None
            },
        }
    } else {
        None
    }
}

/// A choice object at position `i`.
pub open spec fn sp_parse_choice(s: Seq<u8>, i: int) -> Option<(ChoiceV, int)> {
    if 0 <= i && i < s.len() && s[i] == 123 {
        sp_choice_members(s, i + 1, None, None, None)
    } else {
        None
    }
}

/// Read the members of a choice object.
#[verifier::rlimit(100)]
pub fn choice_members(
    s: &[u8],
    i: usize,
    ix: Option<usize>,
    msg: Option<ChatEntry>,
    fin: Option<FinishReason>,
) -> (r: Option<(ChatCompletionChoice, usize)>)
    requires
        i <= s@.len(),
    ensures
        (r is Some) == (sp_choice_members(
            s@,
            i as int,
            ix,
            match msg {
                Some(e) => Some(e@),
                None => None,
            },
            fin,
        ) is Some),
        r matches Some(p) ==> sp_choice_members(
            s@,
            i as int,
            ix,
            match msg {
                Some(e) => Some(e@),
                None => None,
            },
            fin,
        ) == Some((p.0@, p.1 as int)) && i < p.1 <= s@.len(),
    decreases s@.len() - i,
{
    let j = skip_ws(s, i);
    if !(j < s.len() && s[j] == 34) {
        return None;
    }
    match parse_strbody(s, j + 1) {
        None => None,
        Some((key, k)) => {
            let m = skip_ws(s, k);
            if !(m < s.len() && s[m] == 58) {
                return None;
            }
            let p = skip_ws(s, m + 1);
            let ki = wire::key_index();
            let km = wire::key_message();
            let kf = wire::key_finish();
            let step: Option<(Option<usize>, Option<ChatEntry>, Option<FinishReason>, usize)> =
                if wire::bytes_eq(&key, &ki) {
                if ix.is_some() {
                    None
                } else {
                    match parse_num(s, p) {
                        Some((n, q)) => Some((Some(n), msg, fin, q)),
                        None => None,
                    }
                }
            } else if wire::bytes_eq(&key, &km) {
                if msg.is_some() {
                    None
                } else {
                    match parse_entry(s, p) {
                        Some((e, q)) => Some((ix, Some(e), fin, q)),
                        None => None,
                    }
                }
            } else if wire::bytes_eq(&key, &kf) {
                if fin.is_some() {
                    None
                } else {
                    match parse_finish(s, p) {
                        Some((f, q)) => Some((ix, msg, Some(f), q)),
                        None => None,
                    }
                }
            } else {
                match skip_value(s, p) {
                    Some(q) => Some((ix, msg, fin, q)),
                    None => None,
                }
            };
            match step {
                None => None,
                Some((ix2, msg2, fin2, q)) => {
                    let w = skip_ws(s, q);
                    if !(w < s.len()) {
                        return None;
                    }
                    if s[w] == 44 {
                        choice_members(s, w + 1, ix2, msg2, fin2)
                    } else if s[w] == 125 {
                        match (ix2, msg2, fin2) {
                            (Some(a), Some(b), Some(c)) => Some(
                                (ChatCompletionChoice {
                                    index: a,
                                    message: b,
                                    finish_reason: c,
                                }, w + 1),
                            ),
                            _ => None,
                        }
                    } else {
                        None
                    }
                },
            }
        },
    }
}

/// Read a choice object.
pub fn parse_choice(s: &[u8], i: usize) -> (r: Option<(ChatCompletionChoice, usize)>)
    requires
        i <= s@.len(),
    ensures
        (r is Some) == (sp_parse_choice(s@, i as int) is Some),
        r matches Some(p) ==> sp_parse_choice(s@, i as int) == Some((p.0@, p.1 as int)) && i
            < p.1 <= s@.len(),
{
    if i < s.len() && s[i] == 123 {
        choice_members(s, i + 1, None, None, None)
    } else {
        None
    }
}

/// Prepending an element commutes with taking views.
proof fn lemma_entry_views_cons(e: ChatEntry, v: Seq<ChatEntry>)
    ensures
        entry_views(seq![e] + v) == seq![e@] + entry_views(v),
{
    assert(entry_views(seq![e] + v) =~= seq![e@] + entry_views(v));
}

/// Prepending an element commutes with taking views.
proof fn lemma_choice_views_cons(c: ChatCompletionChoice, v: Seq<ChatCompletionChoice>)
    ensures
        choice_views(seq![c] + v) == seq![c@] + choice_views(v),
{
    assert(choice_views(seq![c] + v) =~= seq![c@] + choice_views(v));
}

/// The items of a conversation array from its first element on, commas
/// between them, up to and past the closing bracket.
pub open spec fn sp_entries_items(s: Seq<u8>, i: int) -> Option<(Seq<MessageV>, int)>
    decreases s.len() - i,
{
    if 0 <= i && i <= s.len() {
        let j = sp_skip_ws(s, i);
        if i <= j && j <= s.len() {
            match sp_parse_entry(s, j) {
                None => None,
                Some(e) => if j < e.1 && e.1 <= s.len() {
                    let w = sp_skip_ws(s, e.1);
                    if e.1 <= w && w < s.len() {
                        if s[w] == 44 {
                            match sp_entries_items(s, w + 1) {
                                Some(r) => Some((seq![e.0] + r.0, r.1)),
                                None => None,
                            }
                        } else if s[w] == 93 {
                            Some((seq![e.0], w + 1))
                        } else {
                            None
                        }
                    } else {
                        None
                    }
                } else {
                    None
                },
            }
        } else {
            None
        }
    } else {
        None
    }
}

/// A conversation array at position `i`.
pub open spec fn sp_parse_log(s: Seq<u8>, i: int) -> Option<(Seq<MessageV>, int)> {
    if 0 <= i && i < s.len() && s[i] == 91 {
        let j = sp_skip_ws(s, i + 1);
        if i + 1 <= j && j < s.len() && s[j] == 93 {
            Some((Seq::empty(), j + 1))
        } else {
            sp_entries_items(s, i + 1)
        }
    } else {
        None
    }
}

/// A conversation decoded from a complete byte string: one array, with
/// nothing but whitespace before or after it.
pub open spec fn sp_decode_log(s: Seq<u8>) -> Option<Seq<MessageV>> {
    let i = sp_skip_ws(s, 0);
    if 0 <= i && i <= s.len() {
        match sp_parse_log(s, i) {
            None => None,
            Some(p) => if 0 <= p.1 && p.1 <= s.len() && sp_skip_ws(s, p.1) == s.len() {
                Some(p.0)
            } else {
                None
            },
        }
    } else {
        None
    }
}

/// Read the items of a conversation array.
pub fn entries_items(s: &[u8], i: usize) -> (r: Option<(Vec<ChatEntry>, usize)>)
    requires
        i <= s@.len(),
    ensures
        (r is Some) == (sp_entries_items(s@, i as int) is Some),
        r matches Some(p) ==> sp_entries_items(s@, i as int) == Some(
            (entry_views(p.0@), p.1 as int),
        ) && i < p.1 <= s@.len(),
    decreases s@.len() - i,
{
    let j = skip_ws(s, i);
    match parse_entry(s, j) {
        None => None,
        Some((e, k)) => {
            let w = skip_ws(s, k);
            if !(w < s.len()) {
                return None;
            }
            if s[w] == 44 {
                match entries_items(s, w + 1) {
                    Some((mut v, q)) => {
                        let ghost oldv = v@;
                        v.insert(0, e);
                        proof {
                            assert(v@ =~= seq![e] + oldv);
                            lemma_entry_views_cons(e, oldv);
                        }
                        Some((v, q))
                    },
                    None => None,
                }
            } else if s[w] == 93 {
                let mut v: Vec<ChatEntry> = Vec::new();
                let ghost ev = e@;
                v.push(e);
                proof {
                    assert(v@.map_values(|en: ChatEntry| en@) =~= seq![ev]);
                }
                Some((v, w + 1))
            } else {
                None
            }
        },
    }
}

/// Read a conversation array.
pub fn parse_log(s: &[u8], i: usize) -> (r: Option<(Vec<ChatEntry>, usize)>)
    requires
        i <= s@.len(),
    ensures
        (r is Some) == (sp_parse_log(s@, i as int) is Some),
        r matches Some(p) ==> sp_parse_log(s@, i as int) == Some(
            (entry_views(p.0@), p.1 as int),
        ) && i < p.1 <= s@.len(),
{
    if !(i < s.len() && s[i] == 91) {
        return None;
    }
    let j = skip_ws(s, i + 1);
    if j < s.len() && s[j] == 93 {
        let v: Vec<ChatEntry> = Vec::new();
        proof {
            assert(entry_views(v@) =~= Seq::<MessageV>::empty());
        }
        Some((v, j + 1))
    } else {
        entries_items(s, i + 1)
    }
}

impl ChatLog {
    /// Decode a conversation from JSON bytes. Succeeds exactly on the byte
    /// strings that [`sp_decode_log`] accepts, and then returns exactly the
    /// conversation they spell, in their order.
    pub fn from_json(s: &[u8]) -> (r: Result<ChatLog, DecodeError>)
        ensures
            match r {
                Ok(log) => sp_decode_log(s@) == Some(log@),
                Err(_) => sp_decode_log(s@) is None,
            },
    {
        let i = skip_ws(s, 0);
        match parse_log(s, i) {
            None => Err(DecodeError),
            Some((v, j)) => {
                let w = skip_ws(s, j);
                if w == s.len() {
                    Ok(ChatLog(v))
                } else {
                    Err(DecodeError)
                }
            },
        }
    }
}

/// The items of a choices array from its first element on.
pub open spec fn sp_choices_items(s: Seq<u8>, i: int) -> Option<(Seq<ChoiceV>, int)>
    decreases s.len() - i,
{
    if 0 <= i && i <= s.len() {
        let j = sp_skip_ws(s, i);
        if i <= j && j <= s.len() {
            match sp_parse_choice(s, j) {
                None => None,
                Some(c) => if j < c.1 && c.1 <= s.len() {
                    let w = sp_skip_ws(s, c.1);
                    if c.1 <= w && w < s.len() {
                        if s[w] == 44 {
                            match sp_choices_items(s, w + 1) {
                                Some(r) => Some((seq![c.0] + r.0, r.1)),
                                None => None,
                            }
                        } else if s[w] == 93 {
                            Some((seq![c.0], w + 1))
                        } else {
                            None
                        }
                    } else {
                        None
                    }
                } else {
                    None
                },
            }
        } else {
            None
        }
    } else {
        None
    }
}

/// A choices array at position `i`, opening bracket included.
pub open spec fn sp_parse_choices(s: Seq<u8>, i: int) -> Option<(Seq<ChoiceV>, int)> {
    if 0 <= i && i < s.len() && s[i] == 91 {
        let j = sp_skip_ws(s, i + 1);
        if i + 1 <= j && j < s.len() && s[j] == 93 {
            Some((Seq::empty(), j + 1))
        } else {
            sp_choices_items(s, i + 1)
        }
    } else {
        None
    }
}

/// Read the items of a choices array.
pub fn choices_items(s: &[u8], i: usize) -> (r: Option<(Vec<ChatCompletionChoice>, usize)>)
    requires
        i <= s@.len(),
    ensures
        (r is Some) == (sp_choices_items(s@, i as int) is Some),
        r matches Some(p) ==> sp_choices_items(s@, i as int) == Some(
            (choice_views(p.0@), p.1 as int),
        ) && i < p.1 <= s@.len(),
    decreases s@.len() - i,
{
    let j = skip_ws(s, i);
    match parse_choice(s, j) {
        None => None,
        Some((c, k)) => {
            let w = skip_ws(s, k);
            if !(w < s.len()) {
                return None;
            }
            if s[w] == 44 {
                match choices_items(s, w + 1) {
                    Some((mut v, q)) => {
                        let ghost oldv = v@;
                        v.insert(0, c);
                        proof {
                            assert(v@ =~= seq![c] + oldv);
                            lemma_choice_views_cons(c, oldv);
                        }
                        Some((v, q))
                    },
                    None => None,
                }
            } else if s[w] == 93 {
                let mut v: Vec<ChatCompletionChoice> = Vec::new();
                let ghost cv = c@;
                v.push(c);
                proof {
                    assert(v@.map_values(|x: ChatCompletionChoice| x@) =~= seq![cv]);
                }
                Some((v, w + 1))
            } else {
                None
            }
        },
    }
}

/// Read a choices array.
pub fn parse_choices(s: &[u8], i: usize) -> (r: Option<(Vec<ChatCompletionChoice>, usize)>)
    requires
        i <= s@.len(),
    ensures
        (r is Some) == (sp_parse_choices(s@, i as int) is Some),
        r matches Some(p) ==> sp_parse_choices(s@, i as int) == Some(
            (choice_views(p.0@), p.1 as int),
        ) && i < p.1 <= s@.len(),
{
    if !(i < s.len() && s[i] == 91) {
        return None;
    }
    let j = skip_ws(s, i + 1);
    if j < s.len() && s[j] == 93 {
        let v: Vec<ChatCompletionChoice> = Vec::new();
        proof {
            assert(choice_views(v@) =~= Seq::<ChoiceV>::empty());
        }
        Some((v, j + 1))
    } else {
        choices_items(s, i + 1)
    }
}

/// The members of a completion-reply object, in any order: `id`, `object`,
/// `created`, `choices` and `usage` each exactly once, unknown members
/// skipped.
pub open spec fn sp_resp_members(
    s: Seq<u8>,
    i: int,
    id: Option<Seq<u8>>,
    ob: Option<Seq<u8>>,
    cr: Option<usize>,
    ch: Option<Seq<ChoiceV>>,
    us: Option<CompletionUsage>,
) -> Option<(ResponseV, int)>
    decreases s.len() - i,
{
    let j = sp_skip_ws(s, i);
    if i <= j && j < s.len() && s[j] == 34 {
        match sp_parse_strbody(s, j + 1) {
            None => None,
            Some(kq) => if j < kq.1 && kq.1 <= s.len() {
                let m = sp_skip_ws(s, kq.1);
                if kq.1 <= m && m < s.len() && s[m] == 58 {
                    let p = sp_skip_ws(s, m + 1);
                    if m < p && p <= s.len() {
                        let step: Option<
                            (
                                Option<Seq<u8>>,
                                Option<Seq<u8>>,
                                Option<usize>,
                                Option<Seq<ChoiceV>>,
                                Option<CompletionUsage>,
                                int,
                            ),
                        > = if kq.0 == wire::lit_key_id() {
                            if id is Some {
                                None
                            } else {
                                match sp_parse_string(s, p) {
                                    Some(v) => Some((Some(v.0), ob, cr, ch, us, v.1)),
                                    None => None,
                                }
                            }
                        } else if kq.0 == wire::lit_key_object() {
                            if ob is Some {
                                None
                            } else {
                                match sp_parse_string(s, p) {
                                    Some(v) => Some((id, Some(v.0), cr, ch, us, v.1)),
                                    None => None,
                                }
                            }
                        } else if kq.0 == wire::lit_key_created() {
                            if cr is Some {
                                None
                            } else {
                                match sp_parse_num(s, p) {
                                    Some(v) => Some((id, ob, Some(v.0), ch, us, v.1)),
                                    None => None,
                                }
                            }
                        } else if kq.0 == wire::lit_key_choices() {
                            if ch is Some {
                                None
                            } else {
                                match sp_parse_choices(s, p) {
                                    Some(v) => Some((id, ob, cr, Some(v.0), us, v.1)),
                                    None => None,
                                }
                            }
                        } else if kq.0 == wire::lit_key_usage() {
                            if us is Some {
                                None
                            } else {
                                match sp_parse_usage(s, p) {
                                    Some(v) => Some((id, ob, cr, ch, Some(v.0), v.1)),
                                    None => None,
                                }
                            }
                        } else {
                            match sp_skip_value(s, p) {
                                Some(q) => Some((id, ob, cr, ch, us, q)),
                                None => None,
                            }
                        };
                        match step {
                            None => None,
                            Some(st) => if p < st.5 && st.5 <= s.len() {
                                let w = sp_skip_ws(s, st.5);
                                if st.5 <= w && w < s.len() {
                                    if s[w] == 44 {
                                        sp_resp_members(s, w + 1, st.0, st.1, st.2, st.3, st.4)
                                    } else if s[w] == 125 {
                                        match (st.0, st.1, st.2, st.3, st.4) {
                                            (Some(a), Some(b), Some(c), Some(d), Some(e)) => Some(
                                                (ResponseV {
                                                    id: a,
                                                    object: b,
                                                    created: c,
                                                    choices: d,
                                                    usage: e,
                                                }, w + 1),
                                            ),
                                            _ => None,
                                        }
                                    } else {
                                        None
                                    }
                                } else {
                                    None
                                }
                            } else {
                                None
                            },
                        }
                    } else {
                        None
                    }
                } else {
                    None
                }
            } else {
                None
            },
        }
    } else {
        None
    }
}

/// A completion-reply object at position `i`.
pub open spec fn sp_parse_response(s: Seq<u8>, i: int) -> Option<(ResponseV, int)> {
    if 0 <= i && i < s.len() && s[i] == 123 {
        sp_resp_members(s, i + 1, None, None, None, None, None)
    } else {
        None
    }
}

/// A completion reply decoded from a complete byte string: one object, with
/// nothing but whitespace before or after it.
pub open spec fn sp_decode_response(s: Seq<u8>) -> Option<ResponseV> {
    let i = sp_skip_ws(s, 0);
    if 0 <= i && i <= s.len() {
        match sp_parse_response(s, i) {
            None => None,
            Some(p) => if 0 <= p.1 && p.1 <= s.len() && sp_skip_ws(s, p.1) == s.len() {
                Some(p.0)
            } else {
                None
            },
        }
    } else {
        None
    }
}

/// Read the members of a completion-reply object.
#[verifier::rlimit(100)]
pub fn resp_members(
    s: &[u8],
    i: usize,
    id: Option<Vec<u8>>,
    ob: Option<Vec<u8>>,
    cr: Option<usize>,
    ch: Option<Vec<ChatCompletionChoice>>,
    us: Option<CompletionUsage>,
) -> (r: Option<(ChatCompletionResponse, usize)>)
    requires
        i <= s@.len(),
    ensures
        (r is Some) == (sp_resp_members(
            s@,
            i as int,
            opt_bytes_view(id),
            opt_bytes_view(ob),
            cr,
            match ch {
                Some(v) => Some(choice_views(v@)),
                None => None,
            },
            us,
        ) is Some),
        r matches Some(p) ==> sp_resp_members(
            s@,
            i as int,
            opt_bytes_view(id),
            opt_bytes_view(ob),
            cr,
            match ch {
                Some(v) => Some(choice_views(v@)),
                None => None,
            },
            us,
        ) == Some((p.0@, p.1 as int)) && i < p.1 <= s@.len(),
    decreases s@.len() - i,
{
    let j = skip_ws(s, i);
    if !(j < s.len() && s[j] == 34) {
        return None;
    }
    match parse_strbody(s, j + 1) {
        None => None,
        Some((key, k)) => {
            let m = skip_ws(s, k);
            if !(m < s.len() && s[m] == 58) {
                return None;
            }
            let p = skip_ws(s, m + 1);
            let k_id = wire::key_id();
            let k_ob = wire::key_object();
            let k_cr = wire::key_created();
            let k_ch = wire::key_choices();
            let k_us = wire::key_usage();
            let step: Option<
                (
                    Option<Vec<u8>>,
                    Option<Vec<u8>>,
                    Option<usize>,
                    Option<Vec<ChatCompletionChoice>>,
                    Option<CompletionUsage>,
                    usize,
                ),
            > = if wire::bytes_eq(&key, &k_id) {
                if id.is_some() {
                    None
                } else {
                    match parse_string(s, p) {
                        Some((v, q)) => Some((Some(v), ob, cr, ch, us, q)),
                        None => None,
                    }
                }
            } else if wire::bytes_eq(&key, &k_ob) {
                if ob.is_some() {
                    None
                } else {
                    match parse_string(s, p) {
                        Some((v, q)) => Some((id, Some(v), cr, ch, us, q)),
                        None => None,
                    }
                }
            } else if wire::bytes_eq(&key, &k_cr) {
                if cr.is_some() {
                    None
                } else {
                    match parse_num(s, p) {
                        Some((v, q)) => Some((id, ob, Some(v), ch, us, q)),
                        None => None,
                    }
                }
            } else if wire::bytes_eq(&key, &k_ch) {
                if ch.is_some() {
                    None
                } else {
                    match parse_choices(s, p) {
                        Some((v, q)) => Some((id, ob, cr, Some(v), us, q)),
                        None => None,
                    }
                }
            } else if wire::bytes_eq(&key, &k_us) {
                if us.is_some() {
                    None
                } else {
                    match parse_usage(s, p) {
                        Some((v, q)) => Some((id, ob, cr, ch, Some(v), q)),
                        None => None,
                    }
                }
            } else {
                match skip_value(s, p) {
                    Some(q) => Some((id, ob, cr, ch, us, q)),
                    None => None,
                }
            };
            match step {
                None => None,
                Some((id2, ob2, cr2, ch2, us2, q)) => {
                    let w = skip_ws(s, q);
                    if !(w < s.len()) {
                        return None;
                    }
                    if s[w] == 44 {
                        resp_members(s, w + 1, id2, ob2, cr2, ch2, us2)
                    } else if s[w] == 125 {
                        match (id2, ob2, cr2, ch2, us2) {
                            (Some(a), Some(b), Some(c), Some(d), Some(e)) => Some(
                                (ChatCompletionResponse {
                                    id: a,
                                    object: b,
                                    created: c,
                                    choices: d,
                                    usage: e,
                                }, w + 1),
                            ),
                            _ => None,
                        }
                    } else {
                        None
                    }
                },
            }
        },
    }
}

/// Read a completion-reply object.
pub fn parse_response(s: &[u8], i: usize) -> (r: Option<(ChatCompletionResponse, usize)>)
    requires
        i <= s@.len(),
    ensures
        (r is Some) == (sp_parse_response(s@, i as int) is Some),
        r matches Some(p) ==> sp_parse_response(s@, i as int) == Some((p.0@, p.1 as int)) && i
            < p.1 <= s@.len(),
{
    if i < s.len() && s[i] == 123 {
        resp_members(s, i + 1, None, None, None, None, None)
    } else {
        None
    }
}

impl ChatCompletionResponse {
    /// Decode a completion reply from wire bytes. Succeeds exactly on the
    /// byte strings that [`sp_decode_response`] accepts: valid JSON of the
    /// reply shape, every required member present once with the right type,
    /// and the role and finish-reason tokens inside their closed sets.
    pub fn from_json(s: &[u8]) -> (r: Result<ChatCompletionResponse, DecodeError>)
        ensures
            match r {
                Ok(resp) => sp_decode_response(s@) == Some(resp@),
                Err(_) => sp_decode_response(s@) is None,
            },
    {
        let i = skip_ws(s, 0);
        match parse_response(s, i) {
            None => Err(DecodeError),
            Some((resp, j)) => {
                let w = skip_ws(s, j);
                if w == s.len() {
                    Ok(resp)
                } else {
                    Err(DecodeError)
                }
            },
        }
    }
}

} // verus!
