//! Byte-level building blocks of the wire format: the fixed framing
//! literals, string escaping, and literal matching.

use vstd::prelude::*;

verus! {

/// The framing bytes of `{"role":`.
pub open spec fn lit_entry_hdr() -> Seq<u8> {
    seq![123u8, 34u8, 114u8, 111u8, 108u8, 101u8, 34u8, 58u8]
}

/// The bytes of [`lit_entry_hdr`], as owned bytes.
pub fn entry_hdr() -> (r: Vec<u8>)
    ensures
        r@ == lit_entry_hdr(),
{
    let mut v: Vec<u8> = Vec::new();
    v.push(123);
    v.push(34);
    v.push(114);
    v.push(111);
    v.push(108);
    v.push(101);
    v.push(34);
    v.push(58);
    proof {
        assert(v@ =~= lit_entry_hdr());
    }
    v
}

/// The framing bytes of `,"content":`.
pub open spec fn lit_content_mid() -> Seq<u8> {
    seq![44u8, 34u8, 99u8, 111u8, 110u8, 116u8, 101u8, 110u8, 116u8, 34u8, 58u8]
}

/// The bytes of [`lit_content_mid`], as owned bytes.
pub fn content_mid() -> (r: Vec<u8>)
    ensures
        r@ == lit_content_mid(),
{
    let mut v: Vec<u8> = Vec::new();
    v.push(44);
    v.push(34);
    v.push(99);
    v.push(111);
    v.push(110);
    v.push(116);
    v.push(101);
    v.push(110);
    v.push(116);
    v.push(34);
    v.push(58);
    proof {
        assert(v@ =~= lit_content_mid());
    }
    v
}

/// The framing bytes of `{"model":`.
pub open spec fn lit_request_hdr() -> Seq<u8> {
    seq![123u8, 34u8, 109u8, 111u8, 100u8, 101u8, 108u8, 34u8, 58u8]
}

/// The bytes of [`lit_request_hdr`], as owned bytes.
pub fn request_hdr() -> (r: Vec<u8>)
    ensures
        r@ == lit_request_hdr(),
{
    let mut v: Vec<u8> = Vec::new();
    v.push(123);
    v.push(34);
    v.push(109);
    v.push(111);
    v.push(100);
    v.push(101);
    v.push(108);
    v.push(34);
    v.push(58);
    proof {
        assert(v@ =~= lit_request_hdr());
    }
    v
}

/// The framing bytes of `,"messages":`.
pub open spec fn lit_messages_mid() -> Seq<u8> {
    seq![44u8, 34u8, 109u8, 101u8, 115u8, 115u8, 97u8, 103u8, 101u8, 115u8, 34u8, 58u8]
}

/// The bytes of [`lit_messages_mid`], as owned bytes.
pub fn messages_mid() -> (r: Vec<u8>)
    ensures
        r@ == lit_messages_mid(),
{
    let mut v: Vec<u8> = Vec::new();
    v.push(44);
    v.push(34);
    v.push(109);
    v.push(101);
    v.push(115);
    v.push(115);
    v.push(97);
    v.push(103);
    v.push(101);
    v.push(115);
    v.push(34);
    v.push(58);
    proof {
        assert(v@ =~= lit_messages_mid());
    }
    v
}

/// The bytes of the wire token `system`.
pub open spec fn lit_tok_system() -> Seq<u8> {
    seq![115u8, 121u8, 115u8, 116u8, 101u8, 109u8]
}

/// The bytes of [`lit_tok_system`], as owned bytes.
pub fn tok_system() -> (r: Vec<u8>)
    ensures
        r@ == lit_tok_system(),
{
    let mut v: Vec<u8> = Vec::new();
    v.push(115);
    v.push(121);
    v.push(115);
    v.push(116);
    v.push(101);
    v.push(109);
    proof {
        assert(v@ =~= lit_tok_system());
    }
    v
}

/// The bytes of the wire token `user`.
pub open spec fn lit_tok_user() -> Seq<u8> {
    seq![117u8, 115u8, 101u8, 114u8]
}

/// The bytes of [`lit_tok_user`], as owned bytes.
pub fn tok_user() -> (r: Vec<u8>)
    ensures
        r@ == lit_tok_user(),
{
    let mut v: Vec<u8> = Vec::new();
    v.push(117);
    v.push(115);
    v.push(101);
    v.push(114);
    proof {
        assert(v@ =~= lit_tok_user());
    }
    v
}

/// The bytes of the wire token `assistant`.
pub open spec fn lit_tok_assistant() -> Seq<u8> {
    seq![97u8, 115u8, 115u8, 105u8, 115u8, 116u8, 97u8, 110u8, 116u8]
}

/// The bytes of [`lit_tok_assistant`], as owned bytes.
pub fn tok_assistant() -> (r: Vec<u8>)
    ensures
        r@ == lit_tok_assistant(),
{
    let mut v: Vec<u8> = Vec::new();
    v.push(97);
    v.push(115);
    v.push(115);
    v.push(105);
    v.push(115);
    v.push(116);
    v.push(97);
    v.push(110);
    v.push(116);
    proof {
        assert(v@ =~= lit_tok_assistant());
    }
    v
}

/// The bytes of the wire token `stop`.
pub open spec fn lit_tok_stop() -> Seq<u8> {
    seq![115u8, 116u8, 111u8, 112u8]
}

/// The bytes of [`lit_tok_stop`], as owned bytes.
pub fn tok_stop() -> (r: Vec<u8>)
    ensures
        r@ == lit_tok_stop(),
{
    let mut v: Vec<u8> = Vec::new();
    v.push(115);
    v.push(116);
    v.push(111);
    v.push(112);
    proof {
        assert(v@ =~= lit_tok_stop());
    }
    v
}

/// The bytes of the wire token `length`.
pub open spec fn lit_tok_length() -> Seq<u8> {
    seq![108u8, 101u8, 110u8, 103u8, 116u8, 104u8]
}

/// The bytes of [`lit_tok_length`], as owned bytes.
pub fn tok_length() -> (r: Vec<u8>)
    ensures
        r@ == lit_tok_length(),
{
    let mut v: Vec<u8> = Vec::new();
    v.push(108);
    v.push(101);
    v.push(110);
    v.push(103);
    v.push(116);
    v.push(104);
    proof {
        assert(v@ =~= lit_tok_length());
    }
    v
}

/// The lowercase hex digit character for a value below sixteen.
pub open spec fn hex_digit(n: int) -> u8 {
    if n < 10 {
        (48 + n) as u8
    } else {
        (87 + n) as u8
    }
}

/// Whether a byte is a hex digit character, either case.
pub open spec fn is_hex(b: u8) -> bool {
    (48 <= b && b <= 57) || (97 <= b && b <= 102) || (65 <= b && b <= 70)
}

/// The value of a hex digit character, either case.
pub open spec fn hex_val(b: u8) -> int {
    if b <= 57 {
        b - 48
    } else if b >= 97 {
        b - 87
    } else {
        b - 55
    }
}

/// How one content byte appears inside a JSON string: `"` and `\` carry a
/// backslash escape, control bytes become `\u00XX`, all else passes through.
pub open spec fn esc_byte(b: u8) -> Seq<u8> {
    if b == 34 {
        seq![92u8, 34u8]
    } else if b == 92 {
        seq![92u8, 92u8]
    } else if b < 32 {
        seq![92u8, 117u8, 48u8, 48u8, hex_digit(b as int / 16), hex_digit(b as int % 16)]
    } else {
        seq![b]
    }
}

/// A whole byte string escaped for the body of a JSON string.
pub open spec fn esc(s: Seq<u8>) -> Seq<u8>
    decreases s.len(),
{
    if s.len() == 0 {
        Seq::empty()
    } else {
        esc_byte(s[0]) + esc(s.skip(1))
    }
}

/// Escaping distributes over concatenation.
pub proof fn lemma_esc_append(a: Seq<u8>, b: Seq<u8>)
    ensures
        esc(a + b) == esc(a) + esc(b),
    decreases a.len(),
{
    if a.len() == 0 {
        assert(a + b =~= b);
        assert(esc(a) + esc(b) =~= esc(b));
    } else {
        assert((a + b).skip(1) =~= a.skip(1) + b);
        lemma_esc_append(a.skip(1), b);
        assert((a + b).len() != 0);
        assert((a + b)[0] == a[0]);
        assert(esc(a + b) == esc_byte(a[0]) + (esc(a.skip(1)) + esc(b)));
        assert(esc_byte(a[0]) + (esc(a.skip(1)) + esc(b)) =~= (esc_byte(a[0]) + esc(a.skip(1))) + esc(b));
    }
}

/// Escaping a single byte is [`esc_byte`].
pub proof fn lemma_esc_single(b: u8)
    ensures
        esc(seq![b]) == esc_byte(b),
{
    assert(seq![b].len() == 1);
    assert(seq![b][0] == b);
    assert(seq![b].skip(1) =~= Seq::<u8>::empty());
    assert(esc(Seq::<u8>::empty()) =~= Seq::<u8>::empty());
    assert(esc(seq![b]) == esc_byte(b) + esc(seq![b].skip(1)));
    assert(esc_byte(b) + Seq::<u8>::empty() =~= esc_byte(b));
}

/// Append one content byte to `out` in escaped form.
pub fn push_esc_byte(out: &mut Vec<u8>, b: u8)
    ensures
        final(out)@ == old(out)@ + esc_byte(b),
{
    if b == 34 {
        out.push(92);
        out.push(34);
    } else if b == 92 {
        out.push(92);
        out.push(92);
    } else if b < 32 {
        out.push(92);
        out.push(117);
        out.push(48);
        out.push(48);
        let hi = b / 16;
        let lo = b % 16;
        out.push(if hi < 10 { 48 + hi } else { 87 + hi });
        out.push(if lo < 10 { 48 + lo } else { 87 + lo });
    } else {
        out.push(b);
    }
    proof {
        assert(out@ =~= old(out)@ + esc_byte(b));
    }
}

/// Append a whole byte string to `out` in escaped form.
pub fn push_escaped(out: &mut Vec<u8>, s: &Vec<u8>)
    ensures
        final(out)@ == old(out)@ + esc(s@),
{
    let n = s.len();
    let mut k: usize = 0;
    while k < n
        invariant
            k <= n,
            n == s@.len(),
            out@ == old(out)@ + esc(s@.take(k as int)),
        decreases n - k,
    {
        proof {
            assert(s@.take(k as int + 1) =~= s@.take(k as int) + seq![s@[k as int]]);
            lemma_esc_append(s@.take(k as int), seq![s@[k as int]]);
            lemma_esc_single(s@[k as int]);
        }
        push_esc_byte(out, s[k]);
        proof {
            assert(out@ =~= old(out)@ + esc(s@.take(k as int + 1)));
        }
        k += 1;
    }
    proof {
        assert(s@.take(n as int) =~= s@);
    }
}

/// Append the bytes of `bytes` to `out`.
pub fn append_bytes(out: &mut Vec<u8>, bytes: &Vec<u8>)
    ensures
        final(out)@ == old(out)@ + bytes@,
{
    let n = bytes.len();
    let mut k: usize = 0;
    while k < n
        invariant
            k <= n,
            n == bytes@.len(),
            out@ == old(out)@ + bytes@.take(k as int),
        decreases n - k,
    {
        out.push(bytes[k]);
        proof {
            assert(out@ =~= old(out)@ + bytes@.take(k as int + 1));
        }
        k += 1;
    }
    proof {
        assert(bytes@.take(n as int) =~= bytes@);
    }
}

/// Whether the bytes of `lit` stand in `s` at position `i`; on success, the
/// position just after them.
pub open spec fn sp_expect(s: Seq<u8>, i: int, lit: Seq<u8>) -> Option<int> {
    if 0 <= i && i + lit.len() <= s.len() && s.subrange(i, i + lit.len()) == lit {
        Some(i + lit.len())
    } else {
        None
    }
}

/// Match the bytes of `lit` in `s` at position `i`.
pub fn expect(s: &[u8], i: usize, lit: &Vec<u8>) -> (r: Option<usize>)
    requires
        i <= s@.len(),
    ensures
        (r is Some) == (sp_expect(s@, i as int, lit@) is Some),
        r matches Some(j) ==> sp_expect(s@, i as int, lit@) == Some(j as int) && i <= j <= s@.len(),
{
    let sn = s.len();
    if sn - i < lit.len() {
        return None;
    }
    let n = lit.len();
    let mut k: usize = 0;
    while k < n
        invariant
            k <= n,
            i + n <= sn,
            sn == s@.len(),
            n == lit@.len(),
            forall|m: int| 0 <= m < k ==> s@[i as int + m] == lit@[m],
        decreases n - k,
    {
        if s[i + k] != lit[k] {
            proof {
                let sub = s@.subrange(i as int, i as int + lit@.len());
                assert(sub[k as int] == s@[i as int + k as int]);
            }
            return None;
        }
        k += 1;
    }
    proof {
        assert(s@.subrange(i as int, i as int + lit@.len()) =~= lit@);
    }
    Some(i + n)
}

/// The bytes of the member name `role`.
pub open spec fn lit_key_role() -> Seq<u8> {
    seq![114u8, 111u8, 108u8, 101u8]
}

/// The bytes of [`lit_key_role`], as owned bytes.
pub fn key_role() -> (r: Vec<u8>)
    ensures
        r@ == lit_key_role(),
{
    let mut v: Vec<u8> = Vec::new();
    v.push(114);
    v.push(111);
    v.push(108);
    v.push(101);
    proof {
        assert(v@ =~= lit_key_role());
    }
    v
}

/// The bytes of the member name `content`.
pub open spec fn lit_key_content() -> Seq<u8> {
    seq![99u8, 111u8, 110u8, 116u8, 101u8, 110u8, 116u8]
}

/// The bytes of [`lit_key_content`], as owned bytes.
pub fn key_content() -> (r: Vec<u8>)
    ensures
        r@ == lit_key_content(),
{
    let mut v: Vec<u8> = Vec::new();
    v.push(99);
    v.push(111);
    v.push(110);
    v.push(116);
    v.push(101);
    v.push(110);
    v.push(116);
    proof {
        assert(v@ =~= lit_key_content());
    }
    v
}

/// The bytes of the member name `id`.
pub open spec fn lit_key_id() -> Seq<u8> {
    seq![105u8, 100u8]
}

/// The bytes of [`lit_key_id`], as owned bytes.
pub fn key_id() -> (r: Vec<u8>)
    ensures
        r@ == lit_key_id(),
{
    let mut v: Vec<u8> = Vec::new();
    v.push(105);
    v.push(100);
    proof {
        assert(v@ =~= lit_key_id());
    }
    v
}

/// The bytes of the member name `object`.
pub open spec fn lit_key_object() -> Seq<u8> {
    seq![111u8, 98u8, 106u8, 101u8, 99u8, 116u8]
}

/// The bytes of [`lit_key_object`], as owned bytes.
pub fn key_object() -> (r: Vec<u8>)
    ensures
        r@ == lit_key_object(),
{
    let mut v: Vec<u8> = Vec::new();
    v.push(111);
    v.push(98);
    v.push(106);
    v.push(101);
    v.push(99);
    v.push(116);
    proof {
        assert(v@ =~= lit_key_object());
    }
    v
}

/// The bytes of the member name `created`.
pub open spec fn lit_key_created() -> Seq<u8> {
    seq![99u8, 114u8, 101u8, 97u8, 116u8, 101u8, 100u8]
}

/// The bytes of [`lit_key_created`], as owned bytes.
pub fn key_created() -> (r: Vec<u8>)
    ensures
        r@ == lit_key_created(),
{
    let mut v: Vec<u8> = Vec::new();
    v.push(99);
    v.push(114);
    v.push(101);
    v.push(97);
    v.push(116);
    v.push(101);
    v.push(100);
    proof {
        assert(v@ =~= lit_key_created());
    }
    v
}

/// The bytes of the member name `choices`.
pub open spec fn lit_key_choices() -> Seq<u8> {
    seq![99u8, 104u8, 111u8, 105u8, 99u8, 101u8, 115u8]
}

/// The bytes of [`lit_key_choices`], as owned bytes.
pub fn key_choices() -> (r: Vec<u8>)
    ensures
        r@ == lit_key_choices(),
{
    let mut v: Vec<u8> = Vec::new();
    v.push(99);
    v.push(104);
    v.push(111);
    v.push(105);
    v.push(99);
    v.push(101);
    v.push(115);
    proof {
        assert(v@ =~= lit_key_choices());
    }
    v
}

/// The bytes of the member name `usage`.
pub open spec fn lit_key_usage() -> Seq<u8> {
    seq![117u8, 115u8, 97u8, 103u8, 101u8]
}

/// The bytes of [`lit_key_usage`], as owned bytes.
pub fn key_usage() -> (r: Vec<u8>)
    ensures
        r@ == lit_key_usage(),
{
    let mut v: Vec<u8> = Vec::new();
    v.push(117);
    v.push(115);
    v.push(97);
    v.push(103);
    v.push(101);
    proof {
        assert(v@ =~= lit_key_usage());
    }
    v
}

/// The bytes of the member name `index`.
pub open spec fn lit_key_index() -> Seq<u8> {
    seq![105u8, 110u8, 100u8, 101u8, 120u8]
}

/// The bytes of [`lit_key_index`], as owned bytes.
pub fn key_index() -> (r: Vec<u8>)
    ensures
        r@ == lit_key_index(),
{
    let mut v: Vec<u8> = Vec::new();
    v.push(105);
    v.push(110);
    v.push(100);
    v.push(101);
    v.push(120);
    proof {
        assert(v@ =~= lit_key_index());
    }
    v
}

/// The bytes of the member name `message`.
pub open spec fn lit_key_message() -> Seq<u8> {
    seq![109u8, 101u8, 115u8, 115u8, 97u8, 103u8, 101u8]
}

/// The bytes of [`lit_key_message`], as owned bytes.
pub fn key_message() -> (r: Vec<u8>)
    ensures
        r@ == lit_key_message(),
{
    let mut v: Vec<u8> = Vec::new();
    v.push(109);
    v.push(101);
    v.push(115);
    v.push(115);
    v.push(97);
    v.push(103);
    v.push(101);
    proof {
        assert(v@ =~= lit_key_message());
    }
    v
}

/// The bytes of the member name `finish_reason`.
pub open spec fn lit_key_finish() -> Seq<u8> {
    seq![102u8, 105u8, 110u8, 105u8, 115u8, 104u8, 95u8, 114u8, 101u8, 97u8, 115u8, 111u8, 110u8]
}

/// The bytes of [`lit_key_finish`], as owned bytes.
pub fn key_finish() -> (r: Vec<u8>)
    ensures
        r@ == lit_key_finish(),
{
    let mut v: Vec<u8> = Vec::new();
    v.push(102);
    v.push(105);
    v.push(110);
    v.push(105);
    v.push(115);
    v.push(104);
    v.push(95);
    v.push(114);
    v.push(101);
    v.push(97);
    v.push(115);
    v.push(111);
    v.push(110);
    proof {
        assert(v@ =~= lit_key_finish());
    }
    v
}

/// The bytes of the member name `prompt_tokens`.
pub open spec fn lit_key_prompt() -> Seq<u8> {
    seq![112u8, 114u8, 111u8, 109u8, 112u8, 116u8, 95u8, 116u8, 111u8, 107u8, 101u8, 110u8, 115u8]
}

/// The bytes of [`lit_key_prompt`], as owned bytes.
pub fn key_prompt() -> (r: Vec<u8>)
    ensures
        r@ == lit_key_prompt(),
{
    let mut v: Vec<u8> = Vec::new();
    v.push(112);
    v.push(114);
    v.push(111);
    v.push(109);
    v.push(112);
    v.push(116);
    v.push(95);
    v.push(116);
    v.push(111);
    v.push(107);
    v.push(101);
    v.push(110);
    v.push(115);
    proof {
        assert(v@ =~= lit_key_prompt());
    }
    v
}

/// The bytes of the member name `completion_tokens`.
pub open spec fn lit_key_completion() -> Seq<u8> {
    seq![99u8, 111u8, 109u8, 112u8, 108u8, 101u8, 116u8, 105u8, 111u8, 110u8, 95u8, 116u8, 111u8, 107u8, 101u8, 110u8, 115u8]
}

/// The bytes of [`lit_key_completion`], as owned bytes.
pub fn key_completion() -> (r: Vec<u8>)
    ensures
        r@ == lit_key_completion(),
{
    let mut v: Vec<u8> = Vec::new();
    v.push(99);
    v.push(111);
    v.push(109);
    v.push(112);
    v.push(108);
    v.push(101);
    v.push(116);
    v.push(105);
    v.push(111);
    v.push(110);
    v.push(95);
    v.push(116);
    v.push(111);
    v.push(107);
    v.push(101);
    v.push(110);
    v.push(115);
    proof {
        assert(v@ =~= lit_key_completion());
    }
    v
}

/// The bytes of the member name `total_tokens`.
pub open spec fn lit_key_total() -> Seq<u8> {
    seq![116u8, 111u8, 116u8, 97u8, 108u8, 95u8, 116u8, 111u8, 107u8, 101u8, 110u8, 115u8]
}

/// The bytes of [`lit_key_total`], as owned bytes.
pub fn key_total() -> (r: Vec<u8>)
    ensures
        r@ == lit_key_total(),
{
    let mut v: Vec<u8> = Vec::new();
    v.push(116);
    v.push(111);
    v.push(116);
    v.push(97);
    v.push(108);
    v.push(95);
    v.push(116);
    v.push(111);
    v.push(107);
    v.push(101);
    v.push(110);
    v.push(115);
    proof {
        assert(v@ =~= lit_key_total());
    }
    v
}

/// Whether two byte strings hold the same bytes.
pub fn bytes_eq(a: &Vec<u8>, b: &Vec<u8>) -> (r: bool)
    ensures
        r == (a@ == b@),
{
    if a.len() != b.len() {
        return false;
    }
    let n = a.len();
    let mut k: usize = 0;
    while k < n
        invariant
            k <= n,
            n == a@.len(),
            n == b@.len(),
            forall|m: int| 0 <= m < k ==> a@[m] == b@[m],
        decreases n - k,
    {
        if a[k] != b[k] {
            return false;
        }
        k += 1;
    }
    proof {
        assert(a@ =~= b@);
    }
    true
}

} // verus!
