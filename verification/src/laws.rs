//! The laws that tie the encoder and the decoder together.
//!
//! The central one: a conversation's canonical encoding always decodes, and
//! decodes to exactly the conversation it came from. Beside it stand the
//! closed-enumeration laws: the token parsers succeed only on strings that
//! spell the exact wire tokens of their closed sets, and reject every other
//! token.

use vstd::prelude::*;

use crate::decode::sp_decode_log;
use crate::decode::sp_entries_items;
use crate::decode::sp_entry_members;
use crate::decode::sp_parse_entry;
use crate::decode::sp_parse_finish;
use crate::decode::sp_parse_hex4;
use crate::decode::sp_parse_role;
use crate::decode::sp_parse_strbody;
use crate::decode::sp_parse_string;
use crate::decode::sp_skip_ws;
use crate::decode::utf8_enc;
use crate::encode::enc_entries;
use crate::encode::enc_entries_rest;
use crate::encode::enc_entry;
use crate::encode::enc_log;
use crate::encode::enc_role_quoted;
use crate::encode::enc_string;
use crate::encode::finish_token;
use crate::encode::role_token;
use crate::model::ChatRole;
use crate::model::MessageV;
use crate::wire;

verus! {

/// A part of a byte string known over a window is known over its
/// sub-window.
proof fn lemma_sub_at(s: Seq<u8>, i: int, whole: Seq<u8>, off: int, part: Seq<u8>)
    requires
        0 <= i,
        i + whole.len() <= s.len(),
        s.subrange(i, i + whole.len()) == whole,
        0 <= off,
        off + part.len() <= whole.len(),
        whole.subrange(off, off + part.len()) == part,
    ensures
        s.subrange(i + off, i + off + part.len()) == part,
{
    assert forall|m: int| 0 <= m < part.len() implies s.subrange(
        i + off,
        i + off + part.len(),
    )[m] == part[m] by {
        assert(s.subrange(i, i + whole.len())[off + m] == s[i + off + m]);
        assert(whole.subrange(off, off + part.len())[m] == whole[off + m]);
    }
    assert(s.subrange(i + off, i + off + part.len()) =~= part);
}

/// A byte of a window equals the matching byte of the whole string.
proof fn lemma_byte_at(s: Seq<u8>, i: int, whole: Seq<u8>, off: int)
    requires
        0 <= i,
        i + whole.len() <= s.len(),
        s.subrange(i, i + whole.len()) == whole,
        0 <= off < whole.len(),
    ensures
        s[i + off] == whole[off],
{
    assert(s.subrange(i, i + whole.len())[off] == s[i + off]);
}

/// A byte string of printable bytes without quote or backslash escapes to
/// itself.
proof fn lemma_esc_plain(x: Seq<u8>)
    requires
        forall|k: int| 0 <= k < x.len() ==> 32 <= x[k] && x[k] != 34 && x[k] != 92,
    ensures
        wire::esc(x) == x,
    decreases x.len(),
{
    if x.len() == 0 {
        assert(wire::esc(x) =~= x);
    } else {
        assert(32 <= x[0] && x[0] != 34 && x[0] != 92);
        assert(wire::esc_byte(x[0]) == seq![x[0]]);
        assert forall|k: int| 0 <= k < x.skip(1).len() implies 32 <= x.skip(1)[k] && x.skip(
            1,
        )[k] != 34 && x.skip(1)[k] != 92 by {
            assert(x.skip(1)[k] == x[k + 1]);
        }
        lemma_esc_plain(x.skip(1));
        assert(wire::esc(x) =~= x);
    }
}

/// The member names and wire tokens of the format are plain printable
/// bytes: they escape to themselves.
proof fn lemma_literals_plain()
    ensures
        wire::esc(wire::lit_key_role()) == wire::lit_key_role(),
        wire::esc(wire::lit_key_content()) == wire::lit_key_content(),
        wire::esc(wire::lit_tok_system()) == wire::lit_tok_system(),
        wire::esc(wire::lit_tok_user()) == wire::lit_tok_user(),
        wire::esc(wire::lit_tok_assistant()) == wire::lit_tok_assistant(),
{
    assert forall|k: int| 0 <= k < wire::lit_key_role().len() implies 32 <= wire::lit_key_role()[k]
        && wire::lit_key_role()[k] != 34 && wire::lit_key_role()[k] != 92 by {}
    lemma_esc_plain(wire::lit_key_role());
    assert forall|k: int|
        0 <= k < wire::lit_key_content().len() implies 32 <= wire::lit_key_content()[k]
        && wire::lit_key_content()[k] != 34 && wire::lit_key_content()[k] != 92 by {}
    lemma_esc_plain(wire::lit_key_content());
    assert forall|k: int|
        0 <= k < wire::lit_tok_system().len() implies 32 <= wire::lit_tok_system()[k]
        && wire::lit_tok_system()[k] != 34 && wire::lit_tok_system()[k] != 92 by {}
    lemma_esc_plain(wire::lit_tok_system());
    assert forall|k: int| 0 <= k < wire::lit_tok_user().len() implies 32 <= wire::lit_tok_user()[k]
        && wire::lit_tok_user()[k] != 34 && wire::lit_tok_user()[k] != 92 by {}
    lemma_esc_plain(wire::lit_tok_user());
    assert forall|k: int|
        0 <= k < wire::lit_tok_assistant().len() implies 32 <= wire::lit_tok_assistant()[k]
        && wire::lit_tok_assistant()[k] != 34 && wire::lit_tok_assistant()[k] != 92 by {}
    lemma_esc_plain(wire::lit_tok_assistant());
}

/// Skipping whitespace at a non-whitespace byte stands still.
proof fn lemma_ws_noop(s: Seq<u8>, i: int)
    requires
        0 <= i < s.len(),
        !crate::decode::is_ws(s[i]),
    ensures
        sp_skip_ws(s, i) == i,
{
}

/// The string-body parser inverts escaping: where the escaped bytes of `c`
/// stand at `i` with a closing quote after them, it reads back exactly `c`.
proof fn lemma_strbody_rt(s: Seq<u8>, i: int, c: Seq<u8>)
    requires
        0 <= i,
        i + wire::esc(c).len() + 1 <= s.len(),
        s.subrange(i, i + wire::esc(c).len()) == wire::esc(c),
        s[i + wire::esc(c).len()] == 34,
    ensures
        sp_parse_strbody(s, i) == Some((c, i + wire::esc(c).len() + 1)),
    decreases c.len(),
{
    if c.len() == 0 {
        assert(wire::esc(c) =~= Seq::<u8>::empty());
        assert(s[i] == 34);
        assert(c =~= Seq::<u8>::empty());
    } else {
        let b = c[0];
        let ctail = c.skip(1);
        let e0 = wire::esc_byte(b);
        assert(wire::esc(c) == e0 + wire::esc(ctail));
        let el = e0.len() as int;
        let tl = wire::esc(ctail).len() as int;
        assert(e0.subrange(0, el) =~= e0);
        assert((e0 + wire::esc(ctail)).subrange(0, el) =~= e0);
        lemma_sub_at(s, i, wire::esc(c), 0, e0);
        assert((e0 + wire::esc(ctail)).subrange(el, el + tl) =~= wire::esc(ctail));
        lemma_sub_at(s, i, wire::esc(c), el, wire::esc(ctail));
        assert forall|k: int| 0 <= k < el implies s[i + k] == e0[k] by {
            lemma_byte_at(s, i, wire::esc(c), k);
        }
        lemma_strbody_rt(s, i + el, ctail);
        assert(seq![b] + ctail =~= c);
        if b == 34 || b == 92 {
            assert(e0 == seq![92u8, b]);
            assert(s[i] == 92 && s[i + 1] == b);
            assert(sp_parse_strbody(s, i) == Some((seq![b] + ctail, i + el + tl + 1)));
        } else if b < 32 {
            assert(e0 == seq![
                92u8,
                117u8,
                48u8,
                48u8,
                wire::hex_digit(b as int / 16),
                wire::hex_digit(b as int % 16),
            ]);
            let hi = b as int / 16;
            let lo = b as int % 16;
            assert(0 <= hi < 16 && 0 <= lo < 16);
            assert(wire::is_hex(wire::hex_digit(hi)));
            assert(wire::is_hex(wire::hex_digit(lo)));
            assert(wire::hex_val(wire::hex_digit(hi)) == hi);
            assert(wire::hex_val(wire::hex_digit(lo)) == lo);
            assert(s[i] == 92 && s[i + 1] == 117 && s[i + 2] == 48 && s[i + 3] == 48);
            assert(s[i + 4] == wire::hex_digit(hi) && s[i + 5] == wire::hex_digit(lo));
            assert(wire::is_hex(48u8) && wire::hex_val(48u8) == 0);
            assert(hi * 16 + lo == b) by {
                assert(b as int == 16 * (b as int / 16) + b as int % 16) by {
                    vstd::arithmetic::div_mod::lemma_fundamental_div_mod(b as int, 16);
                }
            }
            assert(sp_parse_hex4(s, i + 2) == Some((b as int, i + 6)));
            assert(b < 0x80);
            assert(utf8_enc(b as int) == seq![b]);
            assert(utf8_enc(b as int) + ctail =~= c);
            assert(sp_parse_strbody(s, i) == Some((c, i + el + tl + 1)));
        } else {
            assert(e0 == seq![b]);
            assert(s[i] == b);
            assert(sp_parse_strbody(s, i) == Some((seq![b] + ctail, i + el + tl + 1)));
        }
    }
}

/// The string parser inverts string encoding: where `enc_string(c)` stands
/// at `i`, it reads back exactly `c`.
proof fn lemma_string_rt(s: Seq<u8>, i: int, c: Seq<u8>)
    requires
        0 <= i,
        i + enc_string(c).len() <= s.len(),
        s.subrange(i, i + enc_string(c).len()) == enc_string(c),
    ensures
        sp_parse_string(s, i) == Some((c, i + enc_string(c).len())),
{
    let w = enc_string(c);
    let el = wire::esc(c).len() as int;
    lemma_byte_at(s, i, w, 0);
    assert(w[0] == 34);
    assert(w.subrange(1, 1 + el) =~= wire::esc(c));
    lemma_sub_at(s, i, w, 1, wire::esc(c));
    lemma_byte_at(s, i, w, 1 + el);
    assert(w[1 + el] == 34);
    lemma_strbody_rt(s, i + 1, c);
}

/// The role parser inverts role encoding: where the quoted token of `r`
/// stands at `i`, it reads back exactly `r`.
proof fn lemma_role_rt(s: Seq<u8>, i: int, r: ChatRole)
    requires
        0 <= i,
        i + enc_role_quoted(r).len() <= s.len(),
        s.subrange(i, i + enc_role_quoted(r).len()) == enc_role_quoted(r),
    ensures
        sp_parse_role(s, i) == Some((r, i + enc_role_quoted(r).len())),
{
    lemma_literals_plain();
    let tok = role_token(r);
    assert(enc_role_quoted(r) =~= enc_string(tok));
    lemma_string_rt(s, i, tok);
    assert(wire::lit_tok_system().len() == 6 && wire::lit_tok_user().len() == 4
        && wire::lit_tok_assistant().len() == 9);
}

/// One content member and the closing brace: where `"content":` and an
/// encoded string stand at `i2` with `}` after them, the member loop
/// completes the entry.
proof fn lemma_entry_second(s: Seq<u8>, i2: int, r: ChatRole, c: Seq<u8>, q: int)
    requires
        0 <= i2,
        i2 + 10 <= s.len(),
        s[i2] == 34,
        s.subrange(i2 + 1, i2 + 8) == wire::lit_key_content(),
        s[i2 + 8] == 34,
        s[i2 + 9] == 58,
        sp_parse_string(s, i2 + 10) == Some((c, q)),
        i2 + 10 < q,
        q < s.len(),
        s[q] == 125,
    ensures
        sp_entry_members(s, i2, Some(r), None) == Some(
            (MessageV { role: r, content: c }, q + 1),
        ),
{
    lemma_literals_plain();
    lemma_ws_noop(s, i2);
    assert(sp_parse_strbody(s, i2 + 1) == Some((wire::lit_key_content(), i2 + 9))) by {
        lemma_strbody_rt(s, i2 + 1, wire::lit_key_content());
    }
    lemma_ws_noop(s, i2 + 9);
    assert(s[i2 + 10] == 34);
    lemma_ws_noop(s, i2 + 10);
    assert(wire::lit_key_content() != wire::lit_key_role()) by {
        assert(wire::lit_key_content().len() != wire::lit_key_role().len());
    }
    lemma_ws_noop(s, q);
}

/// The entry parser inverts entry encoding: where `enc_entry(m)` stands at
/// `i`, it reads back exactly `m`.
#[verifier::rlimit(100)]
proof fn lemma_entry_rt(s: Seq<u8>, i: int, m: MessageV)
    requires
        0 <= i,
        i + enc_entry(m).len() <= s.len(),
        s.subrange(i, i + enc_entry(m).len()) == enc_entry(m),
    ensures
        sp_parse_entry(s, i) == Some((m, i + enc_entry(m).len())),
{
    lemma_literals_plain();
    let w = enc_entry(m);
    let rl = enc_role_quoted(m.role).len() as int;
    let cl = wire::esc(m.content).len() as int;
    let o_s = 8 + rl + 11;
    let o_b = o_s + 2 + cl;
    assert(w.len() == o_b + 1);
    assert forall|k: int| 0 <= k < 8 implies s[i + k] == w[k] by {
        lemma_byte_at(s, i, w, k);
    }
    assert(w[0] == 123 && w[1] == 34 && w[6] == 34 && w[7] == 58);
    assert(sp_parse_strbody(s, i + 2) == Some((wire::lit_key_role(), i + 7))) by {
        assert(w.subrange(2, 6) =~= wire::lit_key_role());
        lemma_sub_at(s, i, w, 2, wire::lit_key_role());
        lemma_strbody_rt(s, i + 2, wire::lit_key_role());
    }
    assert(sp_parse_role(s, i + 8) == Some((m.role, i + 8 + rl))) by {
        assert(w.subrange(8, 8 + rl) =~= enc_role_quoted(m.role));
        lemma_sub_at(s, i, w, 8, enc_role_quoted(m.role));
        lemma_role_rt(s, i + 8, m.role);
    }
    assert(s[i + 8] == 34) by {
        assert(w[8] == 34);
        lemma_byte_at(s, i, w, 8);
    }
    lemma_byte_at(s, i, w, 8 + rl);
    lemma_byte_at(s, i, w, 8 + rl + 1);
    lemma_byte_at(s, i, w, 8 + rl + 9);
    lemma_byte_at(s, i, w, 8 + rl + 10);
    assert(w[8 + rl] == 44 && w[8 + rl + 1] == 34 && w[8 + rl + 9] == 34 && w[8 + rl + 10]
        == 58);
    assert(sp_parse_string(s, i + o_s) == Some((m.content, i + o_b))) by {
        assert(w.subrange(o_s, o_s + 2 + cl) =~= enc_string(m.content));
        lemma_sub_at(s, i, w, o_s, enc_string(m.content));
        lemma_string_rt(s, i + o_s, m.content);
    }
    assert(s[i + o_b] == 125) by {
        lemma_byte_at(s, i, w, o_b);
        assert(w[o_b] == 125);
    }
    assert(sp_entry_members(s, i + 8 + rl + 1, Some(m.role), None) == Some(
        (MessageV { role: m.role, content: m.content }, i + o_b + 1),
    )) by {
        assert(s.subrange(i + 8 + rl + 2, i + 8 + rl + 9) == wire::lit_key_content()) by {
            assert(w.subrange(8 + rl + 2, 8 + rl + 9) =~= wire::lit_key_content());
            lemma_sub_at(s, i, w, 8 + rl + 2, wire::lit_key_content());
        }
        lemma_entry_second(s, i + 8 + rl + 1, m.role, m.content, i + o_b);
    }
    assert(sp_entry_members(s, i + 1, None, None) == Some(
        (MessageV { role: m.role, content: m.content }, i + o_b + 1),
    )) by {
        lemma_ws_noop(s, i + 1);
        lemma_ws_noop(s, i + 7);
        lemma_ws_noop(s, i + 8);
        lemma_ws_noop(s, i + 8 + rl);
    }
    assert(m == MessageV { role: m.role, content: m.content });
}

/// The list parser inverts the encoding of a non-empty conversation: where
/// its encoded elements stand at `i` with the closing bracket after them,
/// it reads back exactly those messages.
#[verifier::rlimit(100)]
proof fn lemma_entries_items_rt(s: Seq<u8>, i: int, ms: Seq<MessageV>)
    requires
        ms.len() > 0,
        0 <= i,
        i + enc_entries(ms).len() + 1 <= s.len(),
        s.subrange(i, i + enc_entries(ms).len()) == enc_entries(ms),
        s[i + enc_entries(ms).len()] == 93,
    ensures
        sp_entries_items(s, i) == Some((ms, i + enc_entries(ms).len() + 1)),
    decreases ms.len(),
{
    let w = enc_entries(ms);
    let e0 = enc_entry(ms[0]);
    let el = e0.len() as int;
    let rest = enc_entries_rest(ms.skip(1));
    let rst = ms.skip(1);
    assert(w == e0 + rest);
    assert(s[i] == 123) by {
        assert(e0[0] == 123);
        assert(w[0] == 123);
        lemma_byte_at(s, i, w, 0);
    }
    lemma_ws_noop(s, i);
    assert(sp_parse_entry(s, i) == Some((ms[0], i + el))) by {
        assert(w.subrange(0, el) =~= e0);
        lemma_sub_at(s, i, w, 0, e0);
        lemma_entry_rt(s, i, ms[0]);
    }
    if rst.len() == 0 {
        assert(rest =~= Seq::<u8>::empty());
        assert(w.len() == el);
        assert(s[i + el] == 93);
        lemma_ws_noop(s, i + el);
        assert(seq![ms[0]] =~= ms);
    } else {
        assert(rest == seq![44u8] + enc_entries(rst)) by {
            assert(enc_entries(rst) == enc_entry(rst[0]) + enc_entries_rest(rst.skip(1)));
            assert(rest =~= seq![44u8] + enc_entries(rst));
        }
        assert(s[i + el] == 44) by {
            assert(w[el] == 44);
            lemma_byte_at(s, i, w, el);
        }
        lemma_ws_noop(s, i + el);
        assert(sp_entries_items(s, i + el + 1) == Some((rst, i + w.len() + 1))) by {
            assert(w.subrange(el + 1, el + 1 + enc_entries(rst).len()) =~= enc_entries(rst));
            lemma_sub_at(s, i, w, el + 1, enc_entries(rst));
            lemma_entries_items_rt(s, i + el + 1, rst);
        }
        assert(seq![ms[0]] + rst =~= ms);
    }
}

/// Round trip of the conversation encoding: the canonical encoding of any
/// conversation — any messages, any roles, any content bytes, in any order —
/// decodes, and decodes to exactly that conversation: same order, same
/// roles, same content.
#[verifier::rlimit(100)]
pub proof fn conversation_round_trip(ms: Seq<MessageV>)
    ensures
        sp_decode_log(enc_log(ms)) == Some(ms),
{
    let s = enc_log(ms);
    let ee = enc_entries(ms);
    let el = ee.len() as int;
    assert(s == seq![91u8] + ee + seq![93u8]);
    assert(s.len() == el + 2);
    assert(s[0] == 91);
    lemma_ws_noop(s, 0);
    assert(s.subrange(0, el + 2) =~= s);
    if ms.len() == 0 {
        assert(ee =~= Seq::<u8>::empty());
        assert(s[1] == 93);
        lemma_ws_noop(s, 1);
        assert(sp_skip_ws(s, 2) == 2);
        assert(ms =~= Seq::<MessageV>::empty());
    } else {
        assert(s.subrange(1, 1 + el) =~= ee);
        assert(s[1 + el] == 93);
        assert(s[1] == 123) by {
            assert(enc_entry(ms[0])[0] == 123);
            assert(ee[0] == 123);
        }
        lemma_ws_noop(s, 1);
        lemma_entries_items_rt(s, 1, ms);
        assert(sp_skip_ws(s, el + 2) == el + 2);
    }
}

/// The conversation encoding is injective: two conversations with the same
/// canonical bytes are the same conversation.
pub proof fn conversation_encoding_injective(a: Seq<MessageV>, b: Seq<MessageV>)
    ensures
        enc_log(a) == enc_log(b) ==> a == b,
{
    if enc_log(a) == enc_log(b) {
        conversation_round_trip(a);
        conversation_round_trip(b);
    }
}

/// Closed enumeration of roles: the role parser succeeds only where a JSON
/// string stands whose spelled bytes are exactly the wire token of one of
/// the three roles, and returns that role.
pub proof fn role_decode_exact(s: Seq<u8>, i: int)
    ensures
        sp_parse_role(s, i) matches Some(p) ==> (match sp_parse_string(s, i) {
            Some(t) => t.0 == role_token(p.0) && t.1 == p.1,
            None => false,
        }),
{
}

/// Closed enumeration of roles, rejection form: a JSON string that spells
/// anything other than the three fixed role tokens never parses as a role —
/// it fails, it is not defaulted.
pub proof fn role_unknown_token_rejected(s: Seq<u8>, i: int, t: Seq<u8>)
    requires
        match sp_parse_string(s, i) {
            Some(p) => p.0 == t,
            None => false,
        },
        t != wire::lit_tok_system(),
        t != wire::lit_tok_user(),
        t != wire::lit_tok_assistant(),
    ensures
        sp_parse_role(s, i) is None,
{
}

/// Closed enumeration of finish reasons: the finish-reason parser succeeds
/// only where a JSON string stands whose spelled bytes are exactly the wire
/// token of one of the two reasons, and returns that reason.
pub proof fn finish_decode_exact(s: Seq<u8>, i: int)
    ensures
        sp_parse_finish(s, i) matches Some(p) ==> (match sp_parse_string(s, i) {
            Some(t) => t.0 == finish_token(p.0) && t.1 == p.1,
            None => false,
        }),
{
}

/// Closed enumeration of finish reasons, rejection form: a JSON string that
/// spells anything other than the two fixed finish-reason tokens never
/// parses as a finish reason.
pub proof fn finish_unknown_token_rejected(s: Seq<u8>, i: int, t: Seq<u8>)
    requires
        match sp_parse_string(s, i) {
            Some(p) => p.0 == t,
            None => false,
        },
        t != wire::lit_tok_stop(),
        t != wire::lit_tok_length(),
    ensures
        sp_parse_finish(s, i) is None,
{
}

} // verus!
