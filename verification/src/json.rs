//! The wire shape of the segmentation service's answer: a JSON object with
//! exactly the three string members `file_name`, `file_type` and `data`, in
//! any order. The grammar is given by spec functions; the parser is proved
//! to follow it exactly. String members take the usual single-character
//! escapes (`\"`, `\\`, `\/`, `\b`, `\f`, `\n`, `\r`, `\t`); any other use
//! of `\`, or an unescaped control byte, makes the document malformed.

use crate::bytes::bytes_eq;
use crate::bytes::copy_bytes;
use vstd::prelude::*;

verus! {

/// JSON insignificant whitespace: space, tab, line feed, carriage return.
pub open spec fn is_ws(c: u8) -> bool {
    c == 32 || c == 9 || c == 10 || c == 13
}

/// The first position at or after `i` that does not hold whitespace.
pub open spec fn spec_skip_ws(s: Seq<u8>, i: int) -> int
    decreases s.len() - i,
{
    if 0 <= i < s.len() && is_ws(s[i]) {
        spec_skip_ws(s, i + 1)
    } else {
        i
    }
}

/// The byte that a single-character escape `\c` stands for.
pub open spec fn spec_unescape(c: u8) -> Option<u8> {
    if c == 34 {
        Some(34u8)
    } else if c == 92 {
        Some(92u8)
    } else if c == 47 {
        Some(47u8)
    } else if c == 98 {
        Some(8u8)
    } else if c == 102 {
        Some(12u8)
    } else if c == 110 {
        Some(10u8)
    } else if c == 114 {
        Some(13u8)
    } else if c == 116 {
        Some(9u8)
    } else {
        None
    }
}

/// The body of a string literal, read from `i` (just after the opening
/// quote) to its closing quote: the unescaped content and the position
/// after the closing quote.
pub open spec fn spec_string_body(s: Seq<u8>, i: int) -> Option<(Seq<u8>, int)>
    decreases s.len() - i,
{
    if i < 0 || i >= s.len() {
        None
    } else if s[i] == 34 {
        Some((Seq::empty(), i + 1))
    } else if s[i] == 92 {
        if i + 1 < s.len() {
            match spec_unescape(s[i + 1]) {
                Some(c) => match spec_string_body(s, i + 2) {
                    Some(r) => Some((seq![c] + r.0, r.1)),
                    None => None,
                },
                None => None,
            }
        } else {
            None
        }
    } else if s[i] < 32 {
        None
    } else {
        match spec_string_body(s, i + 1) {
            Some(r) => Some((seq![s[i]] + r.0, r.1)),
            None => None,
        }
    }
}

/// A string literal starting at `i`: an opening quote, a body, a closing
/// quote.
pub open spec fn spec_string(s: Seq<u8>, i: int) -> Option<(Seq<u8>, int)> {
    if 0 <= i < s.len() && s[i] == 34 {
        spec_string_body(s, i + 1)
    } else {
        None
    }
}

/// One member of the object: a string key, a colon, a string value, with
/// whitespace allowed around each token. Yields key, value and the position
/// after the value.
pub open spec fn spec_member(s: Seq<u8>, i: int) -> Option<(Seq<u8>, Seq<u8>, int)> {
    let i0 = spec_skip_ws(s, i);
    match spec_string(s, i0) {
        Some(k) => {
            let i1 = spec_skip_ws(s, k.1);
            if 0 <= i1 < s.len() && s[i1] == 58 {
                match spec_string(s, spec_skip_ws(s, i1 + 1)) {
                    Some(v) => Some((k.0, v.0, v.1)),
                    None => None,
                }
            } else {
                None
            }
        },
        None => None,
    }
}

/// The whole document: an object of exactly three members separated by
/// commas, and nothing but whitespace after the closing brace. Yields the
/// three key/value pairs in source order.
pub open spec fn spec_three_members(s: Seq<u8>) -> Option<
    (Seq<u8>, Seq<u8>, Seq<u8>, Seq<u8>, Seq<u8>, Seq<u8>),
> {
    let i0 = spec_skip_ws(s, 0);
    if 0 <= i0 < s.len() && s[i0] == 123 {
        match spec_member(s, i0 + 1) {
            Some(m1) => {
                let j1 = spec_skip_ws(s, m1.2);
                if 0 <= j1 < s.len() && s[j1] == 44 {
                    match spec_member(s, j1 + 1) {
                        Some(m2) => {
                            let j2 = spec_skip_ws(s, m2.2);
                            if 0 <= j2 < s.len() && s[j2] == 44 {
                                match spec_member(s, j2 + 1) {
                                    Some(m3) => {
                                        let j3 = spec_skip_ws(s, m3.2);
                                        if 0 <= j3 < s.len() && s[j3] == 125
                                            && spec_skip_ws(s, j3 + 1) == s.len() {
                                            Some((m1.0, m1.1, m2.0, m2.1, m3.0, m3.1))
                                        } else {
                                            None
                                        }
                                    },
                                    None => None,
                                }
                            } else {
                                None
                            }
                        },
                        None => None,
                    }
                } else {
                    None
                }
            },
            None => None,
        }
    } else {
        None
    }
}

/// The key `file_name`.
pub open spec fn key_file_name() -> Seq<u8> {
    seq![102u8, 105u8, 108u8, 101u8, 95u8, 110u8, 97u8, 109u8, 101u8]
}

/// The key `file_type`.
pub open spec fn key_file_type() -> Seq<u8> {
    seq![102u8, 105u8, 108u8, 101u8, 95u8, 116u8, 121u8, 112u8, 101u8]
}

/// The key `data`.
pub open spec fn key_data() -> Seq<u8> {
    seq![100u8, 97u8, 116u8, 97u8]
}

/// The value under `key` among the three parsed members, first match wins.
pub open spec fn spec_value_of(
    m: (Seq<u8>, Seq<u8>, Seq<u8>, Seq<u8>, Seq<u8>, Seq<u8>),
    key: Seq<u8>,
) -> Option<Seq<u8>> {
    if m.0 == key {
        Some(m.1)
    } else if m.2 == key {
        Some(m.3)
    } else if m.4 == key {
        Some(m.5)
    } else {
        None
    }
}

/// A parsed answer: the document is well formed, its keys are distinct and
/// are exactly `file_name`, `file_type` and `data`; the result is their
/// three values, the payload still in its base64 text form.
pub open spec fn spec_parse_details(s: Seq<u8>) -> Option<(Seq<u8>, Seq<u8>, Seq<u8>)> {
    match spec_three_members(s) {
        Some(m) => if m.0 != m.2 && m.0 != m.4 && m.2 != m.4 {
            match (
                spec_value_of(m, key_file_name()),
                spec_value_of(m, key_file_type()),
                spec_value_of(m, key_data()),
            ) {
                (Some(n), Some(t), Some(d)) => Some((n, t, d)),
                _ => None,
            }
        } else {
            None
        },
        None => None,
    }
}

/// Position after skipping whitespace, as `spec_skip_ws` gives it.
fn skip_ws(s: &Vec<u8>, i: usize) -> (r: usize)
    requires
        i <= s@.len(),
    ensures
        r == spec_skip_ws(s@, i as int),
        i <= r <= s@.len(),
{
    let mut j: usize = i;
    while j < s.len() && (s[j] == 32 || s[j] == 9 || s[j] == 10 || s[j] == 13)
        invariant
            i <= j <= s@.len(),
            spec_skip_ws(s@, i as int) == spec_skip_ws(s@, j as int),
        decreases s@.len() - j,
    {
        j = j + 1;
    }
    j
}

/// The byte an escape stands for, as `spec_unescape` gives it.
fn unescape(c: u8) -> (r: Option<u8>)
    ensures
        r == spec_unescape(c),
{
    if c == 34 {
        Some(34)
    } else if c == 92 {
        Some(92)
    } else if c == 47 {
        Some(47)
    } else if c == 98 {
        Some(8)
    } else if c == 102 {
        Some(12)
    } else if c == 110 {
        Some(10)
    } else if c == 114 {
        Some(13)
    } else if c == 116 {
        Some(9)
    } else {
        None
    }
}

/// Reads a string body from `start` to its closing quote, as
/// `spec_string_body` gives it.
fn string_body(s: &Vec<u8>, start: usize) -> (r: Option<(Vec<u8>, usize)>)
    requires
        start <= s@.len(),
    ensures
        match r {
            Some(p) => {
                &&& spec_string_body(s@, start as int) matches Some(q)
                &&& q.0 == p.0@
                &&& q.1 == p.1 as int
                &&& p.1 <= s@.len()
            },
            None => spec_string_body(s@, start as int) is None,
        },
    decreases s@.len() - start,
{
    if start >= s.len() {
        return None;
    }
    let c = s[start];
    if c == 34 {
        let v: Vec<u8> = Vec::new();
        return Some((v, start + 1));
    }
    if c == 92 {
        if start + 1 >= s.len() {
            return None;
        }
        match unescape(s[start + 1]) {
            Some(e) => {
                match string_body(s, start + 2) {
                    Some(p) => {
                        let (rest, end) = p;
                        let mut v: Vec<u8> = Vec::new();
                        v.push(e);
                        let mut tail = rest;
                        v.append(&mut tail);
                        proof {
                            assert(v@ =~= seq![e] + spec_string_body(
                                s@,
                                start as int,
                            )->Some_0.0.skip(1));
                            assert(spec_string_body(s@, start as int)->Some_0.0 =~= seq![e]
                                + spec_string_body(s@, start + 2)->Some_0.0);
                            assert(v@ =~= spec_string_body(s@, start as int)->Some_0.0);
                        }
                        Some((v, end))
                    },
                    None => None,
                }
            },
            None => None,
        }
    } else if c < 32 {
        None
    } else {
        match string_body(s, start + 1) {
            Some(p) => {
                let (rest, end) = p;
                let mut v: Vec<u8> = Vec::new();
                v.push(c);
                let mut tail = rest;
                v.append(&mut tail);
                proof {
                    assert(v@ =~= seq![c] + spec_string_body(s@, start + 1)->Some_0.0);
                    assert(spec_string_body(s@, start as int)->Some_0.0 =~= seq![c]
                        + spec_string_body(s@, start + 1)->Some_0.0);
                }
                Some((v, end))
            },
            None => None,
        }
    }
}

/// Reads a quoted string starting at `i`, as `spec_string` gives it.
fn string_at(s: &Vec<u8>, i: usize) -> (r: Option<(Vec<u8>, usize)>)
    requires
        i <= s@.len(),
    ensures
        match r {
            Some(p) => {
                &&& spec_string(s@, i as int) matches Some(q)
                &&& q.0 == p.0@
                &&& q.1 == p.1 as int
                &&& p.1 <= s@.len()
            },
            None => spec_string(s@, i as int) is None,
        },
{
    if i < s.len() && s[i] == 34 {
        string_body(s, i + 1)
    } else {
        None
    }
}

/// Reads one `"key" : "value"` member, as `spec_member` gives it.
fn member_at(s: &Vec<u8>, i: usize) -> (r: Option<(Vec<u8>, Vec<u8>, usize)>)
    requires
        i <= s@.len(),
    ensures
        match r {
            Some(p) => {
                &&& spec_member(s@, i as int) matches Some(q)
                &&& q.0 == p.0@
                &&& q.1 == p.1@
                &&& q.2 == p.2 as int
                &&& p.2 <= s@.len()
            },
            None => spec_member(s@, i as int) is None,
        },
{
    let i0 = skip_ws(s, i);
    match string_at(s, i0) {
        Some(k) => {
            let (key, ka) = k;
            let i1 = skip_ws(s, ka);
            if i1 < s.len() && s[i1] == 58 {
                let i2 = skip_ws(s, i1 + 1);
                match string_at(s, i2) {
                    Some(v) => {
                        let (value, va) = v;
                        Some((key, value, va))
                    },
                    None => None,
                }
            } else {
                None
            }
        },
        None => None,
    }
}

/// The key `file_name` as bytes.
fn key_file_name_vec() -> (r: Vec<u8>)
    ensures
        r@ == key_file_name(),
{
    let a: [u8; 9] = [102, 105, 108, 101, 95, 110, 97, 109, 101];
    let mut v: Vec<u8> = Vec::new();
    v.extend_from_slice(a.as_slice());
    proof {
        assert(v@ =~= key_file_name());
    }
    v
}

/// The key `file_type` as bytes.
fn key_file_type_vec() -> (r: Vec<u8>)
    ensures
        r@ == key_file_type(),
{
    let a: [u8; 9] = [102, 105, 108, 101, 95, 116, 121, 112, 101];
    let mut v: Vec<u8> = Vec::new();
    v.extend_from_slice(a.as_slice());
    proof {
        assert(v@ =~= key_file_type());
    }
    v
}

/// The key `data` as bytes.
fn key_data_vec() -> (r: Vec<u8>)
    ensures
        r@ == key_data(),
{
    let a: [u8; 4] = [100, 97, 116, 97];
    let mut v: Vec<u8> = Vec::new();
    v.extend_from_slice(a.as_slice());
    proof {
        assert(v@ =~= key_data());
    }
    v
}

/// Parses the service's answer body, as `spec_parse_details` gives it:
/// `Some` exactly on a well-formed three-member object whose keys are
/// `file_name`, `file_type` and `data`, returning their values (the data
/// value still base64 text).
pub fn parse_details(s: &Vec<u8>) -> (r: Option<(Vec<u8>, Vec<u8>, Vec<u8>)>)
    ensures
        match r {
            Some(p) => {
                &&& spec_parse_details(s@) matches Some(q)
                &&& q.0 == p.0@
                &&& q.1 == p.1@
                &&& q.2 == p.2@
            },
            None => spec_parse_details(s@) is None,
        },
{
    let i0 = skip_ws(s, 0);
    if !(i0 < s.len() && s[i0] == 123) {
        return None;
    }
    let m1 = match member_at(s, i0 + 1) {
        Some(m) => m,
        None => { return None; },
    };
    let j1 = skip_ws(s, m1.2);
    if !(j1 < s.len() && s[j1] == 44) {
        return None;
    }
    let m2 = match member_at(s, j1 + 1) {
        Some(m) => m,
        None => { return None; },
    };
    let j2 = skip_ws(s, m2.2);
    if !(j2 < s.len() && s[j2] == 44) {
        return None;
    }
    let m3 = match member_at(s, j2 + 1) {
        Some(m) => m,
        None => { return None; },
    };
    let j3 = skip_ws(s, m3.2);
    if !(j3 < s.len() && s[j3] == 125) {
        return None;
    }
    if skip_ws(s, j3 + 1) != s.len() {
        return None;
    }
    let (k1, v1, _e1) = m1;
    let (k2, v2, _e2) = m2;
    let (k3, v3, _e3) = m3;
    if bytes_eq(&k1, &k2) || bytes_eq(&k1, &k3) || bytes_eq(&k2, &k3) {
        return None;
    }
    let kn = key_file_name_vec();
    let kt = key_file_type_vec();
    let kd = key_data_vec();
    let n = if bytes_eq(&k1, &kn) {
        copy_bytes(&v1)
    } else if bytes_eq(&k2, &kn) {
        copy_bytes(&v2)
    } else if bytes_eq(&k3, &kn) {
        copy_bytes(&v3)
    } else {
        return None;
    };
    let t = if bytes_eq(&k1, &kt) {
        copy_bytes(&v1)
    } else if bytes_eq(&k2, &kt) {
        copy_bytes(&v2)
    } else if bytes_eq(&k3, &kt) {
        copy_bytes(&v3)
    } else {
        return None;
    };
    let d = if bytes_eq(&k1, &kd) {
        copy_bytes(&v1)
    } else if bytes_eq(&k2, &kd) {
        copy_bytes(&v2)
    } else if bytes_eq(&k3, &kd) {
        copy_bytes(&v3)
    } else {
        return None;
    };
    Some((n, t, d))
}

} // verus!
