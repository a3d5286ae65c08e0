//! The request-parameter codec: `KEY=VALUE` pairs joined by commas.
//!
//! The wire form is UTF-8 text such as
//! `PID=<base58>,MAX_VALUE=<decimal>,GLOBAL=<base58>,MINT=<base58>,`.
//! Unknown keys are ignored; a segment without `=` is skipped; decoding
//! fails when the text is not UTF-8, a recognized value does not parse,
//! a mandatory identity is left at the zero value, or `MAX_VALUE` is zero.

use vstd::prelude::*;
use vstd::utf8::{
    codepoint_width_1, decode_first_codepoint, is_leading_byte_width_1, length_of_first_scalar,
    pop_first_scalar, valid_first_scalar, valid_utf8,
};
use crate::errors::Error;
use crate::identity::{
    base58_decode, base58_of, identity_from_base58, identity_to_base58, is_base58_byte, Identity,
};
use crate::utf8::utf8_validate;

verus! {

/// ASCII comma, the segment separator.
pub const COMMA: u8 = 0x2c;

/// ASCII equals sign, the key/value separator.
pub const EQUALS: u8 = 0x3d;

/// The parameters a randomness request carries across the trust boundary.
#[derive(Debug)]
pub struct ContainerParams {
    pub program_id: Identity,
    pub max_value: u8,
    pub global: Identity,
    pub mint: Identity,
}

/// The mathematical content of `ContainerParams`: each identity as its
/// 32-byte sequence.
pub ghost struct ParamsModel {
    pub program_id: Seq<u8>,
    pub max_value: u8,
    pub global: Seq<u8>,
    pub mint: Seq<u8>,
}

impl View for ContainerParams {
    type V = ParamsModel;

    open spec fn view(&self) -> ParamsModel {
        ParamsModel {
            program_id: self.program_id.bytes@,
            max_value: self.max_value,
            global: self.global.bytes@,
            mint: self.mint.bytes@,
        }
    }
}

/// The ASCII bytes of the key `PID`.
pub open spec fn key_pid() -> Seq<u8> {
    seq![0x50u8, 0x49u8, 0x44u8]
}

/// The ASCII bytes of the key `MAX_VALUE`.
pub open spec fn key_max_value() -> Seq<u8> {
    seq![0x4du8, 0x41u8, 0x58u8, 0x5fu8, 0x56u8, 0x41u8, 0x4cu8, 0x55u8, 0x45u8]
}

/// The ASCII bytes of the key `GLOBAL`.
pub open spec fn key_global() -> Seq<u8> {
    seq![0x47u8, 0x4cu8, 0x4fu8, 0x42u8, 0x41u8, 0x4cu8]
}

/// The ASCII bytes of the key `MINT`.
pub open spec fn key_mint() -> Seq<u8> {
    seq![0x4du8, 0x49u8, 0x4eu8, 0x54u8]
}

/// The 32 zero bytes of the unset identity.
pub open spec fn zero_id_bytes() -> Seq<u8> {
    Seq::new(32, |i: int| 0u8)
}

/// ASCII decimal digit.
pub open spec fn is_digit(c: u8) -> bool {
    0x30 <= c <= 0x39
}

/// Folds decimal digits into a value, failing on a non-digit or once the
/// value would exceed 255.
pub open spec fn parse_digits(v: Seq<u8>, acc: int) -> Option<int>
    decreases v.len(),
{
    if v.len() == 0 {
        Some(acc)
    } else if !is_digit(v[0]) {
        None
    } else {
        let a2 = acc * 10 + (v[0] - 0x30);
        if a2 > 255 {
            None
        } else {
            parse_digits(v.skip(1), a2)
        }
    }
}

/// The `u8` denoted by a non-empty string of decimal digits, if any.
pub open spec fn spec_parse_u8(v: Seq<u8>) -> Option<u8> {
    if v.len() == 0 {
        None
    } else {
        match parse_digits(v, 0) {
            Some(n) => Some(n as u8),
            None => None,
        }
    }
}

/// The decimal digits of `n` without the leading zero case.
pub open spec fn dec_digits(n: int) -> Seq<u8>
    decreases n,
{
    if n <= 0 {
        Seq::<u8>::empty()
    } else {
        dec_digits(n / 10).push((0x30 + n % 10) as u8)
    }
}

/// The canonical decimal rendering of a `u8`.
pub open spec fn dec_of(n: u8) -> Seq<u8> {
    if n == 0 {
        seq![0x30u8]
    } else {
        dec_digits(n as int)
    }
}

/// The fields gathered while scanning the payload, before the final
/// validity checks; unset identities stay at the zero value and the
/// maximum defaults to 255.
pub ghost struct Acc {
    pub program_id: Seq<u8>,
    pub max_value: u8,
    pub global: Seq<u8>,
    pub mint: Seq<u8>,
}

/// The scan state before any segment is read.
pub open spec fn init_acc() -> Acc {
    Acc {
        program_id: zero_id_bytes(),
        max_value: 255,
        global: zero_id_bytes(),
        mint: zero_id_bytes(),
    }
}

/// Applies one completed `key`/`value` segment to the scan state.  A
/// segment without `=` (`val` is `None`) is skipped; an unknown key is
/// ignored; a recognized value that does not parse fails the decode.
pub open spec fn apply_segment(key: Seq<u8>, val: Option<Seq<u8>>, acc: Acc) -> Option<Acc> {
    match val {
        None => Some(acc),
        Some(v) => {
            if key == key_pid() {
                match base58_decode(v) {
                    Some(b) => Some(Acc { program_id: b, ..acc }),
                    None => None,
                }
            } else if key == key_max_value() {
                match spec_parse_u8(v) {
                    Some(n) => Some(Acc { max_value: n, ..acc }),
                    None => None,
                }
            } else if key == key_global() {
                match base58_decode(v) {
                    Some(b) => Some(Acc { global: b, ..acc }),
                    None => None,
                }
            } else if key == key_mint() {
                match base58_decode(v) {
                    Some(b) => Some(Acc { mint: b, ..acc }),
                    None => None,
                }
            } else {
                Some(acc)
            }
        },
    }
}

/// Scans the payload byte by byte: `key` holds the bytes read before the
/// first `=` of the current segment, `val` the bytes after it, and each
/// comma completes a segment.
pub open spec fn run(s: Seq<u8>, key: Seq<u8>, val: Option<Seq<u8>>, acc: Acc) -> Option<Acc>
    decreases s.len(),
{
    if s.len() == 0 {
        apply_segment(key, val, acc)
    } else if s[0] == COMMA {
        match apply_segment(key, val, acc) {
            Some(a2) => run(s.skip(1), Seq::<u8>::empty(), None, a2),
            None => None,
        }
    } else if s[0] == EQUALS && val is None {
        run(s.skip(1), key, Some(Seq::<u8>::empty()), acc)
    } else {
        match val {
            Some(vv) => run(s.skip(1), key, Some(vv.push(s[0])), acc),
            None => run(s.skip(1), key.push(s[0]), None, acc),
        }
    }
}

/// The final validity checks: every mandatory identity must have been set
/// to a non-zero value and the maximum must not be zero.
pub open spec fn finalize(acc: Acc) -> Option<ParamsModel> {
    if acc.program_id == zero_id_bytes() || acc.global == zero_id_bytes() || acc.mint
        == zero_id_bytes() || acc.max_value == 0 {
        None
    } else {
        Some(
            ParamsModel {
                program_id: acc.program_id,
                max_value: acc.max_value,
                global: acc.global,
                mint: acc.mint,
            },
        )
    }
}

/// What decoding a payload yields: `None` exactly when the bytes are not
/// valid UTF-8, a recognized value fails to parse, a mandatory identity is
/// missing (zero), or the maximum is zero.
pub open spec fn spec_decode(v: Seq<u8>) -> Option<ParamsModel> {
    if !valid_utf8(v) {
        None
    } else {
        match run(v, Seq::<u8>::empty(), None, init_acc()) {
            Some(acc) => finalize(acc),
            None => None,
        }
    }
}

/// Parameters that pass the mandatory-field checks.
pub open spec fn valid_params(m: ParamsModel) -> bool {
    &&& m.program_id.len() == 32
    &&& m.global.len() == 32
    &&& m.mint.len() == 32
    &&& m.program_id != zero_id_bytes()
    &&& m.global != zero_id_bytes()
    &&& m.mint != zero_id_bytes()
    &&& m.max_value != 0
}

/// One `KEY=VALUE,` unit of the wire text.
pub open spec fn segment(key: Seq<u8>, val: Seq<u8>) -> Seq<u8> {
    key + seq![EQUALS] + val + seq![COMMA]
}

/// The canonical wire text for the given parameters.
pub open spec fn spec_encoded(m: ParamsModel) -> Seq<u8> {
    segment(key_pid(), base58_of(m.program_id)) + segment(key_max_value(), dec_of(m.max_value))
        + segment(key_global(), base58_of(m.global)) + segment(key_mint(), base58_of(m.mint))
}

/// Decoding rejects any payload that is not valid UTF-8.
pub proof fn lemma_decode_rejects_non_utf8(v: Seq<u8>)
    requires
        !valid_utf8(v),
    ensures
        spec_decode(v) is None,
{
}

/// Bytes that are plain ASCII.
pub open spec fn all_ascii(s: Seq<u8>) -> bool {
    forall|i: int| 0 <= i < s.len() ==> s[i] <= 0x7f
}

/// Bytes free of the two separators, so that they pass through the scanner
/// unchanged.
pub open spec fn separator_free(s: Seq<u8>) -> bool {
    forall|i: int| 0 <= i < s.len() ==> s[i] != COMMA && s[i] != EQUALS
}

/// A sequence of plain ASCII bytes is valid UTF-8.
pub proof fn lemma_ascii_valid_utf8(s: Seq<u8>)
    requires
        all_ascii(s),
    ensures
        valid_utf8(s),
    decreases s.len(),
{
    if s.len() != 0 {
        let b0 = s[0];
        assert(is_leading_byte_width_1(b0));
        assert(valid_first_scalar(s)) by {
            assert(decode_first_codepoint(s) == codepoint_width_1(b0));
            assert((b0 & 0x7f) <= 0x7f) by (bit_vector);
        };
        assert(length_of_first_scalar(s) == 1);
        assert(pop_first_scalar(s) =~= s.skip(1));
        lemma_ascii_valid_utf8(s.skip(1));
    }
}

/// Every byte of a decimal rendering is a digit.
pub proof fn lemma_dec_digits_are_digits(n: int)
    requires
        n >= 0,
    ensures
        forall|i: int| 0 <= i < dec_digits(n).len() ==> is_digit(#[trigger] dec_digits(n)[i]),
    decreases n,
{
    if n > 0 {
        lemma_dec_digits_are_digits(n / 10);
        assert forall|i: int| 0 <= i < dec_digits(n).len() implies is_digit(
            #[trigger] dec_digits(n)[i],
        ) by {
            if i < dec_digits(n).len() - 1 {
                assert(dec_digits(n)[i] == dec_digits(n / 10)[i]);
            } else {
                assert(dec_digits(n)[i] == (0x30 + n % 10) as u8);
            }
        }
    }
}

/// The decimal rendering of a `u8` parses back to the same value.
pub proof fn lemma_parse_dec_of(n: u8)
    ensures
        spec_parse_u8(dec_of(n)) == Some(n),
{
    reveal_with_fuel(dec_digits, 4);
    reveal_with_fuel(parse_digits, 5);
    if n == 0 {
        assert(dec_of(n) == seq![0x30u8]);
        assert(parse_digits(seq![0x30u8], 0) == parse_digits(seq![0x30u8].skip(1), 0));
        assert(seq![0x30u8].skip(1) =~= Seq::<u8>::empty());
    } else if n < 10 {
        let s = dec_of(n);
        assert(s =~= seq![(0x30 + n as int % 10) as u8]);
        assert(s.skip(1) =~= Seq::<u8>::empty());
        assert(parse_digits(s, 0) == Some(n as int));
    } else if n < 100 {
        let d0: u8 = (0x30 + n / 10) as u8;
        let d1: u8 = (0x30 + n % 10) as u8;
        let s = dec_of(n);
        assert(s =~= seq![d0, d1]);
        assert(s.skip(1) =~= seq![d1]);
        assert(seq![d1].skip(1) =~= Seq::<u8>::empty());
        assert(parse_digits(s, 0) == Some(n as int));
    } else {
        let d0: u8 = (0x30 + n / 100) as u8;
        let d1: u8 = (0x30 + (n / 10) % 10) as u8;
        let d2: u8 = (0x30 + n % 10) as u8;
        let s = dec_of(n);
        assert(dec_digits(n as int / 100) =~= seq![d0]);
        assert(dec_digits(n as int / 10) =~= seq![d0, d1]);
        assert(s =~= seq![d0, d1, d2]);
        assert(s.skip(1) =~= seq![d1, d2]);
        assert(seq![d1, d2].skip(1) =~= seq![d2]);
        assert(seq![d2].skip(1) =~= Seq::<u8>::empty());
        assert((n / 10) * 10 + n % 10 == n as int);
        assert((n / 100) * 10 + (n / 10) % 10 == n as int / 10);
        assert(parse_digits(s, 0) == Some(n as int));
    }
}

/// Separator-free bytes scanned while a value is open are appended to that
/// value one by one.
proof fn lemma_run_val_bytes(content: Seq<u8>, rest: Seq<u8>, key: Seq<u8>, val: Seq<u8>, acc: Acc)
    requires
        separator_free(content),
    ensures
        run(content + rest, key, Some(val), acc) == run(rest, key, Some(val + content), acc),
    decreases content.len(),
{
    if content.len() == 0 {
        assert(content + rest =~= rest);
        assert(val + content =~= val);
    } else {
        let c = content[0];
        assert((content + rest)[0] == c);
        assert((content + rest).skip(1) =~= content.skip(1) + rest);
        lemma_run_val_bytes(content.skip(1), rest, key, val.push(c), acc);
        assert(val.push(c) + content.skip(1) =~= val + content);
    }
}

/// Separator-free bytes scanned while no value is open are appended to the
/// key one by one.
proof fn lemma_run_key_bytes(content: Seq<u8>, rest: Seq<u8>, key: Seq<u8>, acc: Acc)
    requires
        separator_free(content),
    ensures
        run(content + rest, key, None, acc) == run(rest, key + content, None, acc),
    decreases content.len(),
{
    if content.len() == 0 {
        assert(content + rest =~= rest);
        assert(key + content =~= key);
    } else {
        let c = content[0];
        assert((content + rest)[0] == c);
        assert((content + rest).skip(1) =~= content.skip(1) + rest);
        lemma_run_key_bytes(content.skip(1), rest, key.push(c), acc);
        assert(key.push(c) + content.skip(1) =~= key + content);
    }
}

/// Scanning one whole `KEY=VALUE,` segment applies it to the state and
/// continues with the rest of the payload.
proof fn lemma_run_segment(keyb: Seq<u8>, valb: Seq<u8>, rest: Seq<u8>, acc: Acc)
    requires
        separator_free(keyb),
        separator_free(valb),
    ensures
        run(segment(keyb, valb) + rest, Seq::<u8>::empty(), None, acc) == (match apply_segment(
            keyb,
            Some(valb),
            acc,
        ) {
            Some(a2) => run(rest, Seq::<u8>::empty(), None, a2),
            None => None,
        }),
{
    let tail_eq = seq![EQUALS] + (valb + (seq![COMMA] + rest));
    assert(segment(keyb, valb) + rest =~= keyb + tail_eq);
    lemma_run_key_bytes(keyb, tail_eq, Seq::<u8>::empty(), acc);
    assert(Seq::<u8>::empty() + keyb =~= keyb);
    assert(tail_eq[0] == EQUALS);
    let tail_val = valb + (seq![COMMA] + rest);
    assert(tail_eq.skip(1) =~= tail_val);
    assert(run(tail_eq, keyb, None, acc) == run(tail_val, keyb, Some(Seq::<u8>::empty()), acc));
    lemma_run_val_bytes(valb, seq![COMMA] + rest, keyb, Seq::<u8>::empty(), acc);
    assert(Seq::<u8>::empty() + valb =~= valb);
    let tail_comma = seq![COMMA] + rest;
    assert(tail_comma[0] == COMMA);
    assert(tail_comma.skip(1) =~= rest);
    assert(run(tail_comma, keyb, Some(valb), acc) == (match apply_segment(keyb, Some(valb), acc) {
        Some(a2) => run(rest, Seq::<u8>::empty(), None, a2),
        None => None,
    }));
}

/// Appends all bytes of a slice to a vector.
fn push_all(out: &mut Vec<u8>, bytes: &[u8])
    ensures
        final(out)@ == old(out)@ + bytes@,
{
    proof {
        assert(out@ + bytes@.subrange(0, 0) =~= out@);
    }
    let n = bytes.len();
    let mut i: usize = 0;
    while i < n
        invariant
            0 <= i <= n,
            n == bytes@.len(),
            out@ == old(out)@ + bytes@.subrange(0, i as int),
        decreases n - i,
    {
        out.push(bytes[i]);
        proof {
            assert(old(out)@ + bytes@.subrange(0, i + 1) =~= (old(out)@ + bytes@.subrange(
                0,
                i as int,
            )).push(bytes@[i as int]));
        }
        i += 1;
    }
    proof {
        assert(bytes@.subrange(0, n as int) =~= bytes@);
    }
}

/// Appends the canonical decimal rendering of `n`.
fn push_dec(out: &mut Vec<u8>, n: u8)
    ensures
        final(out)@ == old(out)@ + dec_of(n),
{
    proof {
        reveal_with_fuel(dec_digits, 4);
    }
    if n == 0 {
        out.push(0x30);
        proof {
            assert(old(out)@ + dec_of(0) =~= old(out)@.push(0x30u8));
        }
    } else if n < 10 {
        out.push(0x30 + n);
        proof {
            assert(dec_of(n) =~= seq![(0x30 + n) as u8]);
            assert(old(out)@ + dec_of(n) =~= old(out)@.push((0x30 + n) as u8));
        }
    } else if n < 100 {
        let d0: u8 = 0x30 + n / 10;
        let d1: u8 = 0x30 + n % 10;
        out.push(d0);
        out.push(d1);
        proof {
            assert(dec_of(n) =~= seq![d0, d1]);
            assert(old(out)@ + dec_of(n) =~= old(out)@.push(d0).push(d1));
        }
    } else {
        let d0: u8 = 0x30 + n / 100;
        let d1: u8 = 0x30 + (n / 10) % 10;
        let d2: u8 = 0x30 + n % 10;
        out.push(d0);
        out.push(d1);
        out.push(d2);
        proof {
            assert(dec_digits(n as int / 100) =~= seq![d0]);
            assert(dec_digits(n as int / 10) =~= seq![d0, d1]);
            assert(dec_of(n) =~= seq![d0, d1, d2]);
            assert(old(out)@ + dec_of(n) =~= old(out)@.push(d0).push(d1).push(d2));
        }
    }
}

/// ASCII bytes stay ASCII under concatenation.
proof fn lemma_all_ascii_concat(a: Seq<u8>, b: Seq<u8>)
    requires
        all_ascii(a),
        all_ascii(b),
    ensures
        all_ascii(a + b),
{
    assert forall|i: int| 0 <= i < (a + b).len() implies (a + b)[i] <= 0x7f by {
        if i < a.len() {
            assert((a + b)[i] == a[i]);
        } else {
            assert((a + b)[i] == b[i - a.len()]);
        }
    }
}

/// Base58 text is ASCII and free of the two separators.
proof fn lemma_base58_clean(s: Seq<u8>)
    requires
        forall|i: int| 0 <= i < s.len() ==> is_base58_byte(#[trigger] s[i]),
    ensures
        all_ascii(s),
        separator_free(s),
{
}

/// Decimal renderings are ASCII and free of the two separators.
proof fn lemma_dec_clean(n: u8)
    ensures
        all_ascii(dec_of(n)),
        separator_free(dec_of(n)),
{
    lemma_dec_digits_are_digits(n as int);
}

/// A `u8` renders as one to three digits.
pub proof fn lemma_dec_of_len(n: u8)
    ensures
        1 <= dec_of(n).len() <= 3,
{
    reveal_with_fuel(dec_digits, 4);
    if n == 0 {
    } else if n < 10 {
        assert(dec_digits(n as int).len() == 1);
    } else if n < 100 {
        assert(dec_digits(n as int / 10).len() == 1);
        assert(dec_digits(n as int).len() == 2);
    } else {
        assert(dec_digits(n as int / 100).len() == 1);
        assert(dec_digits(n as int / 10).len() == 2);
        assert(dec_digits(n as int).len() == 3);
    }
}

/// Encodes parameters into the canonical wire text.
///
/// This is the codec's round trip: decoding the returned text yields back
/// exactly the given parameters whenever they pass the mandatory-field
/// checks, and fails whenever they do not.
#[verifier::rlimit(100)]
pub fn encode(p: &ContainerParams) -> (r: Vec<u8>)
    ensures
        r@ == spec_encoded(p@),
        r@.len() <= 256,
        spec_decode(r@) == (if valid_params(p@) {
            Some(p@)
        } else {
            None::<ParamsModel>
        }),
{
    let b_pid = identity_to_base58(&p.program_id);
    let b_global = identity_to_base58(&p.global);
    let b_mint = identity_to_base58(&p.mint);

    let mut out: Vec<u8> = Vec::new();
    out.push(0x50);
    out.push(0x49);
    out.push(0x44);
    out.push(EQUALS);
    push_all(&mut out, b_pid.as_slice());
    out.push(COMMA);
    let ghost seg1 = segment(key_pid(), base58_of(p.program_id.bytes@));
    proof {
        assert(out@ =~= seg1);
    }

    out.push(0x4d);
    out.push(0x41);
    out.push(0x58);
    out.push(0x5f);
    out.push(0x56);
    out.push(0x41);
    out.push(0x4c);
    out.push(0x55);
    out.push(0x45);
    out.push(EQUALS);
    push_dec(&mut out, p.max_value);
    out.push(COMMA);
    let ghost seg2 = segment(key_max_value(), dec_of(p.max_value));
    proof {
        assert(out@ =~= seg1 + seg2);
    }

    out.push(0x47);
    out.push(0x4c);
    out.push(0x4f);
    out.push(0x42);
    out.push(0x41);
    out.push(0x4c);
    out.push(EQUALS);
    push_all(&mut out, b_global.as_slice());
    out.push(COMMA);
    let ghost seg3 = segment(key_global(), base58_of(p.global.bytes@));
    proof {
        assert(out@ =~= (seg1 + seg2) + seg3);
    }

    out.push(0x4d);
    out.push(0x49);
    out.push(0x4e);
    out.push(0x54);
    out.push(EQUALS);
    push_all(&mut out, b_mint.as_slice());
    out.push(COMMA);
    let ghost seg4 = segment(key_mint(), base58_of(p.mint.bytes@));
    proof {
        assert(out@ =~= ((seg1 + seg2) + seg3) + seg4);
        assert(out@ == spec_encoded(p@));
    }

    proof {
        let pid = p.program_id.bytes@;
        let glob = p.global.bytes@;
        let mint = p.mint.bytes@;

        lemma_base58_clean(base58_of(pid));
        lemma_base58_clean(base58_of(glob));
        lemma_base58_clean(base58_of(mint));
        lemma_dec_clean(p.max_value);
        lemma_dec_of_len(p.max_value);
        assert(out@.len() <= 256);

        // The whole text is ASCII, hence valid UTF-8.
        lemma_all_ascii_concat(key_pid() + seq![EQUALS], base58_of(pid));
        lemma_all_ascii_concat((key_pid() + seq![EQUALS]) + base58_of(pid), seq![COMMA]);
        assert(all_ascii(seg1));
        lemma_all_ascii_concat(key_max_value() + seq![EQUALS], dec_of(p.max_value));
        lemma_all_ascii_concat(
            (key_max_value() + seq![EQUALS]) + dec_of(p.max_value),
            seq![COMMA],
        );
        assert(all_ascii(seg2));
        lemma_all_ascii_concat(key_global() + seq![EQUALS], base58_of(glob));
        lemma_all_ascii_concat((key_global() + seq![EQUALS]) + base58_of(glob), seq![COMMA]);
        assert(all_ascii(seg3));
        lemma_all_ascii_concat(key_mint() + seq![EQUALS], base58_of(mint));
        lemma_all_ascii_concat((key_mint() + seq![EQUALS]) + base58_of(mint), seq![COMMA]);
        assert(all_ascii(seg4));
        lemma_all_ascii_concat(seg1, seg2);
        lemma_all_ascii_concat(seg1 + seg2, seg3);
        lemma_all_ascii_concat((seg1 + seg2) + seg3, seg4);
        lemma_ascii_valid_utf8(out@);

        // Scan the four segments one after the other.
        let e = Seq::<u8>::empty();
        let acc0 = init_acc();
        let acc1 = Acc { program_id: pid, ..acc0 };
        let acc2 = Acc { max_value: p.max_value, ..acc1 };
        let acc3 = Acc { global: glob, ..acc2 };
        let acc4 = Acc { mint: mint, ..acc3 };

        assert(out@ =~= seg1 + (seg2 + (seg3 + seg4)));
        lemma_run_segment(key_pid(), base58_of(pid), seg2 + (seg3 + seg4), acc0);
        assert(apply_segment(key_pid(), Some(base58_of(pid)), acc0) == Some(acc1));
        assert(run(out@, e, None, acc0) == run(seg2 + (seg3 + seg4), e, None, acc1));

        lemma_run_segment(key_max_value(), dec_of(p.max_value), seg3 + seg4, acc1);
        lemma_parse_dec_of(p.max_value);
        assert(apply_segment(key_max_value(), Some(dec_of(p.max_value)), acc1) == Some(acc2));
        assert(run(seg2 + (seg3 + seg4), e, None, acc1) == run(seg3 + seg4, e, None, acc2));

        lemma_run_segment(key_global(), base58_of(glob), seg4, acc2);
        assert(apply_segment(key_global(), Some(base58_of(glob)), acc2) == Some(acc3));
        assert(run(seg3 + seg4, e, None, acc2) == run(seg4, e, None, acc3));

        assert(seg4 =~= segment(key_mint(), base58_of(mint)) + e);
        lemma_run_segment(key_mint(), base58_of(mint), e, acc3);
        assert(apply_segment(key_mint(), Some(base58_of(mint)), acc3) == Some(acc4));
        assert(run(seg4, e, None, acc3) == run(e, e, None, acc4));
        assert(run(e, e, None, acc4) == Some(acc4));

        // The gathered fields are exactly the encoded ones, so the final
        // checks agree with `valid_params`.
        assert(pid.len() == 32);
        assert(glob.len() == 32);
        assert(mint.len() == 32);
        if valid_params(p@) {
            assert(finalize(acc4) == Some(p@));
        } else {
            assert(finalize(acc4) is None);
        }
    }
    out
}

/// Byte-for-byte equality of two slices.
fn bytes_eq(a: &[u8], b: &[u8]) -> (r: bool)
    ensures
        r == (a@ == b@),
{
    if a.len() != b.len() {
        return false;
    }
    let n = a.len();
    let mut i: usize = 0;
    while i < n
        invariant
            0 <= i <= n,
            n == a@.len(),
            n == b@.len(),
            forall|j: int| 0 <= j < i ==> a@[j] == b@[j],
        decreases n - i,
    {
        if a[i] != b[i] {
            return false;
        }
        i += 1;
    }
    proof {
        assert(a@ =~= b@);
    }
    true
}

/// Parses a non-empty string of decimal digits as a `u8`.
fn parse_u8_bytes(s: &[u8]) -> (r: Option<u8>)
    ensures
        r == spec_parse_u8(s@),
{
    let n = s.len();
    if n == 0 {
        return None;
    }
    proof {
        assert(s@.skip(0) =~= s@);
    }
    let mut acc: u16 = 0;
    let mut i: usize = 0;
    while i < n
        invariant
            0 <= i <= n,
            n == s@.len(),
            acc <= 255,
            parse_digits(s@, 0) == parse_digits(s@.skip(i as int), acc as int),
        decreases n - i,
    {
        let ghost suf = s@.skip(i as int);
        proof {
            assert(suf[0] == s@[i as int]);
            assert(suf.skip(1) =~= s@.skip(i as int + 1));
        }
        let c = s[i];
        if c < 0x30 || 0x39 < c {
            return None;
        }
        let a2: u16 = acc * 10 + (c - 0x30) as u16;
        if a2 > 255 {
            return None;
        }
        acc = a2;
        i += 1;
    }
    proof {
        assert(s@.skip(n as int) =~= Seq::<u8>::empty());
    }
    Some(acc as u8)
}

/// Applies one completed segment to the gathered fields, mirroring
/// `apply_segment`.  Returns false exactly when a recognized value fails
/// to parse.
fn apply_exec(
    key: &[u8],
    val: &[u8],
    program_id: &mut Identity,
    max_value: &mut u8,
    global: &mut Identity,
    mint: &mut Identity,
) -> (ok: bool)
    ensures
        (match apply_segment(
            key@,
            Some(val@),
            (Acc {
                program_id: old(program_id).bytes@,
                max_value: *old(max_value),
                global: old(global).bytes@,
                mint: old(mint).bytes@,
            }),
        ) {
            Some(a2) => ok && a2 == (Acc {
                program_id: final(program_id).bytes@,
                max_value: *final(max_value),
                global: final(global).bytes@,
                mint: final(mint).bytes@,
            }),
            None => !ok,
        }),
{
    let kpid: [u8; 3] = [0x50, 0x49, 0x44];
    let kmax: [u8; 9] = [0x4d, 0x41, 0x58, 0x5f, 0x56, 0x41, 0x4c, 0x55, 0x45];
    let kglobal: [u8; 6] = [0x47, 0x4c, 0x4f, 0x42, 0x41, 0x4c];
    let kmint: [u8; 4] = [0x4d, 0x49, 0x4e, 0x54];
    proof {
        assert(kpid@ =~= key_pid());
        assert(kmax@ =~= key_max_value());
        assert(kglobal@ =~= key_global());
        assert(kmint@ =~= key_mint());
    }
    if bytes_eq(key, kpid.as_slice()) {
        match identity_from_base58(val) {
            Some(id) => {
                *program_id = id;
                true
            },
            None => false,
        }
    } else if bytes_eq(key, kmax.as_slice()) {
        match parse_u8_bytes(val) {
            Some(m) => {
                *max_value = m;
                true
            },
            None => false,
        }
    } else if bytes_eq(key, kglobal.as_slice()) {
        match identity_from_base58(val) {
            Some(id) => {
                *global = id;
                true
            },
            None => false,
        }
    } else if bytes_eq(key, kmint.as_slice()) {
        match identity_from_base58(val) {
            Some(id) => {
                *mint = id;
                true
            },
            None => false,
        }
    } else {
        true
    }
}

impl ContainerParams {
    /// Decodes a request payload, against the `spec_decode` model: the
    /// parameters come back exactly when the model yields them, and every
    /// failure is `ArgParseFail`.
    #[verifier::rlimit(100)]
    pub fn decode(container_params: &Vec<u8>) -> (r: Result<ContainerParams, Error>)
        ensures
            (match r {
                Ok(p) => spec_decode(container_params@) == Some(p@),
                Err(e) => spec_decode(container_params@) is None && e == Error::ArgParseFail,
            }),
    {
        let v = container_params.as_slice();
        let n = v.len();
        if !utf8_validate(v) {
            return Err(Error::ArgParseFail);
        }
        let mut program_id = Identity::zero();
        let mut max_value: u8 = 255;
        let mut global = Identity::zero();
        let mut mint = Identity::zero();

        let mut seg_start: usize = 0;
        let mut eq_pos: usize = 0;
        let mut has_eq: bool = false;
        let mut i: usize = 0;

        proof {
            assert(v@.skip(0) =~= v@);
            assert(v@.subrange(0, 0) =~= Seq::<u8>::empty());
            assert(program_id.bytes@ =~= zero_id_bytes());
            assert(global.bytes@ =~= zero_id_bytes());
            assert(mint.bytes@ =~= zero_id_bytes());
        }
        while i < n
            invariant
                0 <= seg_start <= i <= n,
                n == v@.len(),
                v@ == container_params@,
                valid_utf8(v@),
                has_eq ==> seg_start <= eq_pos < i,
                run(v@, Seq::<u8>::empty(), None, init_acc()) == run(
                    v@.skip(i as int),
                    if has_eq {
                        v@.subrange(seg_start as int, eq_pos as int)
                    } else {
                        v@.subrange(seg_start as int, i as int)
                    },
                    if has_eq {
                        Some(v@.subrange(eq_pos as int + 1, i as int))
                    } else {
                        None::<Seq<u8>>
                    },
                    (Acc {
                        program_id: program_id.bytes@,
                        max_value: max_value,
                        global: global.bytes@,
                        mint: mint.bytes@,
                    }),
                ),
            decreases n - i,
        {
            let ghost suffix = v@.skip(i as int);
            proof {
                assert(suffix[0] == v@[i as int]);
                assert(suffix.skip(1) =~= v@.skip(i as int + 1));
            }
            let c = v[i];
            if c == COMMA {
                if has_eq {
                    let ghost acc_before = Acc {
                        program_id: program_id.bytes@,
                        max_value: max_value,
                        global: global.bytes@,
                        mint: mint.bytes@,
                    };
                    let ghost cur_key = v@.subrange(seg_start as int, eq_pos as int);
                    let ghost cur_val = v@.subrange(eq_pos as int + 1, i as int);
                    let key = &v[seg_start..eq_pos];
                    let val = &v[eq_pos + 1..i];
                    let ok = apply_exec(
                        key,
                        val,
                        &mut program_id,
                        &mut max_value,
                        &mut global,
                        &mut mint,
                    );
                    if !ok {
                        proof {
                            assert(apply_segment(cur_key, Some(cur_val), acc_before) is None);
                            assert(run(suffix, cur_key, Some(cur_val), acc_before) is None);
                        }
                        return Err(Error::ArgParseFail);
                    }
                    proof {
                        assert(run(suffix, cur_key, Some(cur_val), acc_before) == run(
                            suffix.skip(1),
                            Seq::<u8>::empty(),
                            None,
                            (Acc {
                                program_id: program_id.bytes@,
                                max_value: max_value,
                                global: global.bytes@,
                                mint: mint.bytes@,
                            }),
                        ));
                    }
                }
                proof {
                    assert(v@.subrange(i as int + 1, i as int + 1) =~= Seq::<u8>::empty());
                }
                seg_start = i + 1;
                has_eq = false;
            } else if c == EQUALS && !has_eq {
                eq_pos = i;
                has_eq = true;
                proof {
                    assert(v@.subrange(i as int + 1, i as int + 1) =~= Seq::<u8>::empty());
                }
            } else {
                proof {
                    if has_eq {
                        assert(v@.subrange(eq_pos as int + 1, i as int + 1) =~= v@.subrange(
                            eq_pos as int + 1,
                            i as int,
                        ).push(v@[i as int]));
                    } else {
                        assert(v@.subrange(seg_start as int, i as int + 1) =~= v@.subrange(
                            seg_start as int,
                            i as int,
                        ).push(v@[i as int]));
                    }
                }
            }
            i += 1;
        }
        proof {
            assert(v@.skip(n as int) =~= Seq::<u8>::empty());
        }
        if has_eq {
            let ghost acc_before = Acc {
                program_id: program_id.bytes@,
                max_value: max_value,
                global: global.bytes@,
                mint: mint.bytes@,
            };
            let ghost cur_key = v@.subrange(seg_start as int, eq_pos as int);
            let ghost cur_val = v@.subrange(eq_pos as int + 1, n as int);
            let key = &v[seg_start..eq_pos];
            let val = &v[eq_pos + 1..n];
            let ok = apply_exec(key, val, &mut program_id, &mut max_value, &mut global, &mut mint);
            if !ok {
                proof {
                    assert(apply_segment(cur_key, Some(cur_val), acc_before) is None);
                    assert(run(Seq::<u8>::empty(), cur_key, Some(cur_val), acc_before) is None);
                }
                return Err(Error::ArgParseFail);
            }
        }
        let ghost acc_final = Acc {
            program_id: program_id.bytes@,
            max_value: max_value,
            global: global.bytes@,
            mint: mint.bytes@,
        };
        proof {
            assert(run(v@, Seq::<u8>::empty(), None, init_acc()) == Some(acc_final));
        }
        if program_id.is_zero() || global.is_zero() || mint.is_zero() || max_value == 0 {
            proof {
                if program_id.spec_is_zero() {
                    assert(program_id.bytes@ =~= zero_id_bytes());
                }
                if global.spec_is_zero() {
                    assert(global.bytes@ =~= zero_id_bytes());
                }
                if mint.spec_is_zero() {
                    assert(mint.bytes@ =~= zero_id_bytes());
                }
                assert(finalize(acc_final) is None);
            }
            return Err(Error::ArgParseFail);
        }
        proof {
            if acc_final.program_id == zero_id_bytes() {
                assert(program_id.spec_is_zero());
            }
            if acc_final.global == zero_id_bytes() {
                assert(global.spec_is_zero());
            }
            if acc_final.mint == zero_id_bytes() {
                assert(mint.spec_is_zero());
            }
        }
        Ok(ContainerParams { program_id, max_value, global, mint })
    }
}

} // verus!
