use vstd::prelude::*;

verus! {

/// The `=` padding byte of the standard base64 alphabet.
pub open spec fn pad_byte() -> u8 {
    61
}

/// The symbol that stands for a six-bit value in the standard base64 alphabet
/// (`A`..`Z`, `a`..`z`, `0`..`9`, `+`, `/`).
pub open spec fn sym_of(v: u8) -> u8
    recommends
        v < 64,
{
    if v < 26 {
        (65 + v) as u8
    } else if v < 52 {
        (97 + (v - 26)) as u8
    } else if v < 62 {
        (48 + (v - 52)) as u8
    } else if v == 62 {
        43
    } else {
        47
    }
}

/// The six-bit value of an alphabet symbol, `None` for any other byte.
pub open spec fn val_of(s: u8) -> Option<u8> {
    if 65 <= s <= 90 {
        Some((s - 65) as u8)
    } else if 97 <= s <= 122 {
        Some((26 + (s - 97)) as u8)
    } else if 48 <= s <= 57 {
        Some((52 + (s - 48)) as u8)
    } else if s == 43 {
        Some(62)
    } else if s == 47 {
        Some(63)
    } else {
        None
    }
}

/// Standard (RFC 4648) base64 with padding: three bytes become four symbols,
/// a final group of one or two bytes is padded with `=` to a full group.
pub open spec fn spec_b64_encode(b: Seq<u8>) -> Seq<u8>
    decreases b.len(),
{
    if b.len() == 0 {
        Seq::empty()
    } else if b.len() == 1 {
        seq![
            sym_of((b[0] / 4) as u8),
            sym_of(((b[0] % 4) * 16) as u8),
            pad_byte(),
            pad_byte(),
        ]
    } else if b.len() == 2 {
        seq![
            sym_of((b[0] / 4) as u8),
            sym_of(((b[0] % 4) * 16 + b[1] / 16) as u8),
            sym_of(((b[1] % 16) * 4) as u8),
            pad_byte(),
        ]
    } else {
        seq![
            sym_of((b[0] / 4) as u8),
            sym_of(((b[0] % 4) * 16 + b[1] / 16) as u8),
            sym_of(((b[1] % 16) * 4 + b[2] / 64) as u8),
            sym_of((b[2] % 64) as u8),
        ] + spec_b64_encode(b.skip(3))
    }
}

/// Decoding of the final four-symbol group, including the padded forms.
/// Rejects non-canonical input: bits that padding should have zeroed must be
/// zero, exactly as the strict decoder of the base64 crate demands.
pub open spec fn spec_b64_decode_tail(s: Seq<u8>) -> Option<Seq<u8>>
    recommends
        s.len() == 4,
{
    if s[3] == pad_byte() {
        if s[2] == pad_byte() {
            match (val_of(s[0]), val_of(s[1])) {
                (Some(v0), Some(v1)) => if v1 % 16 == 0 {
                    Some(seq![(v0 * 4 + v1 / 16) as u8])
                } else {
                    None
                },
                _ => None,
            }
        } else {
            match (val_of(s[0]), val_of(s[1]), val_of(s[2])) {
                (Some(v0), Some(v1), Some(v2)) => if v2 % 4 == 0 {
                    Some(seq![(v0 * 4 + v1 / 16) as u8, ((v1 % 16) * 16 + v2 / 4) as u8])
                } else {
                    None
                },
                _ => None,
            }
        }
    } else {
        match (val_of(s[0]), val_of(s[1]), val_of(s[2]), val_of(s[3])) {
            (Some(v0), Some(v1), Some(v2), Some(v3)) => Some(
                seq![
                    (v0 * 4 + v1 / 16) as u8,
                    ((v1 % 16) * 16 + v2 / 4) as u8,
                    ((v2 % 4) * 64 + v3) as u8,
                ],
            ),
            _ => None,
        }
    }
}

/// Strict base64 decoding: succeeds exactly on the canonical padded encoding
/// of some byte sequence, and then returns that sequence.
pub open spec fn spec_b64_decode(s: Seq<u8>) -> Option<Seq<u8>>
    decreases s.len(),
{
    if s.len() == 0 {
        Some(Seq::empty())
    } else if s.len() < 4 {
        None
    } else if s.len() == 4 {
        spec_b64_decode_tail(s)
    } else {
        match (val_of(s[0]), val_of(s[1]), val_of(s[2]), val_of(s[3])) {
            (Some(v0), Some(v1), Some(v2), Some(v3)) => match spec_b64_decode(s.skip(4)) {
                Some(rest) => Some(
                    seq![
                        (v0 * 4 + v1 / 16) as u8,
                        ((v1 % 16) * 16 + v2 / 4) as u8,
                        ((v2 % 4) * 64 + v3) as u8,
                    ] + rest,
                ),
                None => None,
            },
            _ => None,
        }
    }
}

/// An alphabet symbol is never the padding byte, and decoding a symbol gives
/// back the six-bit value it was made from.
proof fn lemma_sym_val(v: u8)
    requires
        v < 64,
    ensures
        val_of(sym_of(v)) == Some(v),
        sym_of(v) != pad_byte(),
{
}

/// Encoding a group of three bytes and decoding the four symbols gives the
/// three bytes back.
proof fn lemma_group_round_trip(b0: u8, b1: u8, b2: u8)
    ensures
        ({
            let v0 = (b0 / 4) as u8;
            let v1 = ((b0 % 4) * 16 + b1 / 16) as u8;
            let v2 = ((b1 % 16) * 4 + b2 / 64) as u8;
            let v3 = (b2 % 64) as u8;
            &&& v0 < 64
            &&& v1 < 64
            &&& v2 < 64
            &&& v3 < 64
            &&& v0 * 4 + v1 / 16 == b0
            &&& (v1 % 16) * 16 + v2 / 4 == b1
            &&& (v2 % 4) * 64 + v3 == b2
        }),
{
}

/// Base64 round trip: decoding the encoding of any byte sequence gives the
/// sequence back unchanged.
pub proof fn lemma_b64_round_trip(b: Seq<u8>)
    ensures
        spec_b64_decode(spec_b64_encode(b)) == Some(b),
    decreases b.len(),
{
    let e = spec_b64_encode(b);
    if b.len() == 0 {
        assert(b =~= Seq::<u8>::empty());
    } else if b.len() == 1 {
        lemma_sym_val((b[0] / 4) as u8);
        lemma_sym_val(((b[0] % 4) * 16) as u8);
        assert(spec_b64_decode(e) == Some(seq![b[0]]));
        assert(seq![b[0]] =~= b);
    } else if b.len() == 2 {
        lemma_sym_val((b[0] / 4) as u8);
        lemma_sym_val(((b[0] % 4) * 16 + b[1] / 16) as u8);
        lemma_sym_val(((b[1] % 16) * 4) as u8);
        assert(spec_b64_decode(e) == Some(seq![b[0], b[1]]));
        assert(seq![b[0], b[1]] =~= b);
    } else {
        lemma_group_round_trip(b[0], b[1], b[2]);
        lemma_sym_val((b[0] / 4) as u8);
        lemma_sym_val(((b[0] % 4) * 16 + b[1] / 16) as u8);
        lemma_sym_val(((b[1] % 16) * 4 + b[2] / 64) as u8);
        lemma_sym_val((b[2] % 64) as u8);
        let rest = b.skip(3);
        lemma_b64_round_trip(rest);
        let erest = spec_b64_encode(rest);
        assert(e =~= seq![e[0], e[1], e[2], e[3]] + erest);
        if rest.len() == 0 {
            assert(erest =~= Seq::<u8>::empty());
            assert(e.len() == 4);
            assert(spec_b64_decode(e) == Some(seq![b[0], b[1], b[2]]));
            assert(seq![b[0], b[1], b[2]] =~= b);
        } else {
            lemma_encode_len(rest);
            assert(e.len() > 4);
            assert(e.skip(4) =~= erest);
            assert(spec_b64_decode(e.skip(4)) == Some(rest));
            assert(spec_b64_decode(e) == Some(seq![b[0], b[1], b[2]] + rest));
            assert(seq![b[0], b[1], b[2]] + rest =~= b);
        }
    }
}

/// The encoding of a non-empty sequence holds at least one full group.
proof fn lemma_encode_len(b: Seq<u8>)
    requires
        b.len() > 0,
    ensures
        spec_b64_encode(b).len() >= 4,
    decreases b.len(),
{
    if b.len() > 3 {
        lemma_encode_len(b.skip(3));
    }
}

/// Relies on the base64 crate: the `STANDARD` engine encodes with the
/// standard alphabet and `=` padding, per RFC 4648.
#[verifier::external_body]
pub(crate) fn b64_encode(b: &Vec<u8>) -> (r: Vec<u8>)
    ensures
        r@ == spec_b64_encode(b@),
{
    base64::Engine::encode(&base64::engine::general_purpose::STANDARD, b).into_bytes()
}

/// Relies on the base64 crate: the `STANDARD` engine decodes strictly, with
/// required canonical padding and no nonzero trailing bits, so it accepts
/// exactly the canonical encodings.
#[verifier::external_body]
pub(crate) fn b64_decode(s: &Vec<u8>) -> (r: Option<Vec<u8>>)
    ensures
        match r {
            Some(v) => spec_b64_decode(s@) == Some(v@),
            None => spec_b64_decode(s@) is None,
        },
{
    match base64::Engine::decode(&base64::engine::general_purpose::STANDARD, s) {
        Ok(v) => Some(v),
        Err(_) => None,
    }
}

} // verus!
