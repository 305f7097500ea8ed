//! The wire codec for the local control channel: little-endian,
//! length-prefixed binary encodings of strings, typed param values and
//! the `{device_name: {param_name: value}}` mapping shape, with decoders
//! proved to invert the encoders.

use vstd::bytes::lemma_auto_spec_u64_to_from_le_bytes;
use vstd::bytes::spec_u64_from_le_bytes;
use vstd::bytes::spec_u64_to_le_bytes;
use vstd::bytes::u64_from_le_bytes;
use vstd::bytes::u64_to_le_bytes;
use vstd::prelude::*;
use vstd::slice::slice_subrange;
use vstd::slice::slice_to_vec;
use vstd::utf8::decode_utf8;
use vstd::utf8::encode_utf8;
use vstd::utf8::encode_utf8_decode_utf8;
use vstd::utf8::valid_utf8;

use crate::param::ParamValue;
use crate::param::ParamValueView;

verus! {

/// Wire tag for a boolean param value.
pub const VALUE_TAG_BOOL: u8 = 0;

/// Wire tag for an integer param value.
pub const VALUE_TAG_INT: u8 = 1;

/// Wire tag for a text param value.
pub const VALUE_TAG_TEXT: u8 = 2;

// ---------------------------------------------------------------------
// u64 fields
// ---------------------------------------------------------------------

/// Encoding of a u64 field: 8 bytes little-endian.
pub open spec fn spec_enc_u64(x: u64) -> Seq<u8> {
    spec_u64_to_le_bytes(x)
}

/// Decoding of a u64 field at `pos`: the value and the position after it.
pub open spec fn spec_dec_u64(b: Seq<u8>, pos: int) -> Option<(u64, int)> {
    if 0 <= pos && pos + 8 <= b.len() {
        Some((spec_u64_from_le_bytes(b.subrange(pos, pos + 8)), pos + 8))
    } else {
        None
    }
}

/// Appends the encoding of a u64 field.
pub fn enc_u64(out: &mut Vec<u8>, x: u64)
    ensures
        final(out)@ == old(out)@ + spec_enc_u64(x),
{
    let mut b = u64_to_le_bytes(x);
    out.append(&mut b);
}

/// Reads a u64 field, exactly as `spec_dec_u64` does.
pub fn dec_u64(b: &[u8], pos: usize) -> (r: Option<(u64, usize)>)
    ensures
        r is Some <==> spec_dec_u64(b@, pos as int) is Some,
        r matches Some(v) ==> spec_dec_u64(b@, pos as int) == Some((v.0, v.1 as int)),
{
    if pos <= b.len() && b.len() - pos >= 8 {
        let x = u64_from_le_bytes(slice_subrange(b, pos, pos + 8));
        Some((x, pos + 8))
    } else {
        None
    }
}

/// Decoding inverts encoding for u64 fields found inside a larger buffer.
pub proof fn lemma_dec_enc_u64(b: Seq<u8>, pos: int, x: u64)
    requires
        0 <= pos,
        pos + 8 <= b.len(),
        b.subrange(pos, pos + 8) == spec_enc_u64(x),
    ensures
        spec_dec_u64(b, pos) == Some((x, pos + 8)),
{
    lemma_auto_spec_u64_to_from_le_bytes();
}

// ---------------------------------------------------------------------
// byte-string and character-string fields
// ---------------------------------------------------------------------

/// Encoding of a byte string: u64 length, then the bytes.
pub open spec fn spec_enc_bytes(v: Seq<u8>) -> Seq<u8> {
    spec_enc_u64(v.len() as u64) + v
}

/// Decoding of a byte string at `pos`.
pub open spec fn spec_dec_bytes(b: Seq<u8>, pos: int) -> Option<(Seq<u8>, int)> {
    match spec_dec_u64(b, pos) {
        Some((n, p)) => if p + n <= b.len() {
            Some((b.subrange(p, p + n), p + n))
        } else {
            None
        },
        None => None,
    }
}

/// Appends the encoding of a byte string.
pub fn enc_bytes(out: &mut Vec<u8>, v: &[u8])
    ensures
        final(out)@ == old(out)@ + spec_enc_bytes(v@),
{
    enc_u64(out, v.len() as u64);
    let mut tail = slice_to_vec(v);
    out.append(&mut tail);
    proof {
        assert(final(out)@ =~= old(out)@ + spec_enc_bytes(v@));
    }
}

/// Reads a byte string, exactly as `spec_dec_bytes` does.
pub fn dec_bytes(b: &[u8], pos: usize) -> (r: Option<(Vec<u8>, usize)>)
    ensures
        r is Some <==> spec_dec_bytes(b@, pos as int) is Some,
        r matches Some(v) ==> spec_dec_bytes(b@, pos as int) == Some((v.0@, v.1 as int)),
{
    match dec_u64(b, pos) {
        None => None,
        Some((n, p)) => {
            if n <= (b.len() - p) as u64 {
                let end = p + (n as usize);
                let v = slice_to_vec(slice_subrange(b, p, end));
                Some((v, end))
            } else {
                None
            }
        },
    }
}

/// A byte string short enough for its length to fit the wire format.
pub open spec fn wf_bytes(v: Seq<u8>) -> bool {
    v.len() <= u64::MAX
}

/// Decoding inverts encoding for byte strings inside a larger buffer.
pub proof fn lemma_dec_enc_bytes(b: Seq<u8>, pos: int, v: Seq<u8>)
    requires
        0 <= pos,
        wf_bytes(v),
        pos + spec_enc_bytes(v).len() <= b.len(),
        b.subrange(pos, pos + spec_enc_bytes(v).len() as int) == spec_enc_bytes(v),
    ensures
        spec_dec_bytes(b, pos) == Some((v, pos + spec_enc_bytes(v).len())),
{
    lemma_auto_spec_u64_to_from_le_bytes();
    let e = spec_enc_bytes(v);
    let n = v.len() as u64;
    assert(b.subrange(pos, pos + 8) =~= e.subrange(0, 8));
    assert(e.subrange(0, 8) =~= spec_enc_u64(n));
    lemma_dec_enc_u64(b, pos, n);
    assert(b.subrange(pos + 8, pos + 8 + v.len() as int) =~= e.subrange(8, e.len() as int));
    assert(e.subrange(8, e.len() as int) =~= v);
}

/// Encoding of a character string: its UTF-8 bytes, length-prefixed.
pub open spec fn spec_enc_str(s: Seq<char>) -> Seq<u8> {
    spec_enc_bytes(encode_utf8(s))
}

/// Decoding of a character string at `pos`: the byte string must be
/// valid UTF-8.
pub open spec fn spec_dec_str(b: Seq<u8>, pos: int) -> Option<(Seq<char>, int)> {
    match spec_dec_bytes(b, pos) {
        Some((v, p)) => if valid_utf8(v) {
            Some((decode_utf8(v), p))
        } else {
            None
        },
        None => None,
    }
}

/// Relies on `String::from_utf8`: it returns the string made of the
/// given bytes exactly when they are valid UTF-8, and fails otherwise.
#[verifier::external_body]
fn bytes_to_string(v: Vec<u8>) -> (r: Option<String>)
    ensures
        r is Some <==> valid_utf8(v@),
        r matches Some(s) ==> s@ == decode_utf8(v@),
{
    String::from_utf8(v).ok()
}

/// Appends the encoding of a character string.
pub fn enc_str(out: &mut Vec<u8>, s: &str)
    ensures
        final(out)@ == old(out)@ + spec_enc_str(s@),
{
    enc_bytes(out, s.as_bytes());
}

/// Reads a character string, exactly as `spec_dec_str` does.
pub fn dec_str(b: &[u8], pos: usize) -> (r: Option<(String, usize)>)
    ensures
        r is Some <==> spec_dec_str(b@, pos as int) is Some,
        r matches Some(v) ==> spec_dec_str(b@, pos as int) == Some((v.0@, v.1 as int)),
{
    match dec_bytes(b, pos) {
        None => None,
        Some((v, p)) => {
            match bytes_to_string(v) {
                None => None,
                Some(s) => Some((s, p)),
            }
        },
    }
}

/// A character string short enough for its UTF-8 length to fit the wire
/// format.
pub open spec fn wf_str(s: Seq<char>) -> bool {
    encode_utf8(s).len() <= u64::MAX
}

/// Decoding inverts encoding for character strings inside a larger
/// buffer.
pub proof fn lemma_dec_enc_str(b: Seq<u8>, pos: int, s: Seq<char>)
    requires
        0 <= pos,
        wf_str(s),
        pos + spec_enc_str(s).len() <= b.len(),
        b.subrange(pos, pos + spec_enc_str(s).len() as int) == spec_enc_str(s),
    ensures
        spec_dec_str(b, pos) == Some((s, pos + spec_enc_str(s).len())),
{
    broadcast use vstd::utf8::encode_utf8_valid_utf8;

    lemma_dec_enc_bytes(b, pos, encode_utf8(s));
    encode_utf8_decode_utf8(s);
}

// ---------------------------------------------------------------------
// typed param values
// ---------------------------------------------------------------------

/// Encoding of a typed param value: a tag byte, then the payload.
pub open spec fn spec_enc_value(v: ParamValueView) -> Seq<u8> {
    match v {
        ParamValueView::Bool(x) => seq![VALUE_TAG_BOOL, if x { 1u8 } else { 0u8 }],
        ParamValueView::Integer(i) => seq![VALUE_TAG_INT] + spec_enc_u64(i as u64),
        ParamValueView::Text(s) => seq![VALUE_TAG_TEXT] + spec_enc_str(s),
    }
}

/// Decoding of a typed param value at `pos`.
pub open spec fn spec_dec_value(b: Seq<u8>, pos: int) -> Option<(ParamValueView, int)> {
    if 0 <= pos && pos < b.len() {
        let tag = b[pos];
        if tag == VALUE_TAG_BOOL {
            if pos + 2 <= b.len() && (b[pos + 1] == 0 || b[pos + 1] == 1) {
                Some((ParamValueView::Bool(b[pos + 1] == 1), pos + 2))
            } else {
                None
            }
        } else if tag == VALUE_TAG_INT {
            match spec_dec_u64(b, pos + 1) {
                Some((x, p)) => Some((ParamValueView::Integer(x as i64), p)),
                None => None,
            }
        } else if tag == VALUE_TAG_TEXT {
            match spec_dec_str(b, pos + 1) {
                Some((s, p)) => Some((ParamValueView::Text(s), p)),
                None => None,
            }
        } else {
            None
        }
    } else {
        None
    }
}

/// Appends the encoding of a typed param value.
pub fn enc_value(out: &mut Vec<u8>, v: &ParamValue)
    ensures
        final(out)@ == old(out)@ + spec_enc_value(v@),
{
    match v {
        ParamValue::Bool(x) => {
            out.push(VALUE_TAG_BOOL);
            out.push(if *x { 1u8 } else { 0u8 });
            proof {
                assert(final(out)@ =~= old(out)@ + spec_enc_value(v@));
            }
        },
        ParamValue::Integer(i) => {
            out.push(VALUE_TAG_INT);
            enc_u64(out, *i as u64);
            proof {
                assert(final(out)@ =~= old(out)@ + spec_enc_value(v@));
            }
        },
        ParamValue::Text(s) => {
            out.push(VALUE_TAG_TEXT);
            enc_str(out, s.as_str());
            proof {
                assert(final(out)@ =~= old(out)@ + spec_enc_value(v@));
            }
        },
    }
}

/// Reads a typed param value, exactly as `spec_dec_value` does.
pub fn dec_value(b: &[u8], pos: usize) -> (r: Option<(ParamValue, usize)>)
    ensures
        r is Some <==> spec_dec_value(b@, pos as int) is Some,
        r matches Some(v) ==> spec_dec_value(b@, pos as int) == Some((v.0@, v.1 as int)),
{
    if pos >= b.len() {
        return None;
    }
    let tag = *vstd::slice::slice_index_get(b, pos);
    if tag == VALUE_TAG_BOOL {
        if b.len() - pos >= 2 {
            let x = *vstd::slice::slice_index_get(b, pos + 1);
            if x == 0 {
                Some((ParamValue::Bool(false), pos + 2))
            } else if x == 1 {
                Some((ParamValue::Bool(true), pos + 2))
            } else {
                None
            }
        } else {
            None
        }
    } else if tag == VALUE_TAG_INT {
        match dec_u64(b, pos + 1) {
            Some((x, p)) => Some((ParamValue::Integer(x as i64), p)),
            None => None,
        }
    } else if tag == VALUE_TAG_TEXT {
        match dec_str(b, pos + 1) {
            Some((s, p)) => Some((ParamValue::Text(s), p)),
            None => None,
        }
    } else {
        None
    }
}

/// A typed param value whose encoding fits the wire format.
pub open spec fn wf_value(v: ParamValueView) -> bool {
    match v {
        ParamValueView::Text(s) => wf_str(s),
        _ => true,
    }
}

/// Decoding inverts encoding for typed param values inside a larger
/// buffer.
pub proof fn lemma_dec_enc_value(b: Seq<u8>, pos: int, v: ParamValueView)
    requires
        0 <= pos,
        wf_value(v),
        pos + spec_enc_value(v).len() <= b.len(),
        b.subrange(pos, pos + spec_enc_value(v).len() as int) == spec_enc_value(v),
    ensures
        spec_dec_value(b, pos) == Some((v, pos + spec_enc_value(v).len())),
{
    let e = spec_enc_value(v);
    assert(b[pos] == e[0]);
    match v {
        ParamValueView::Bool(x) => {
            assert(b[pos + 1] == e[1]);
        },
        ParamValueView::Integer(i) => {
            lemma_auto_spec_u64_to_from_le_bytes();
            let x = i as u64;
            assert(b.subrange(pos + 1, pos + 9) =~= e.subrange(1, 9));
            assert(e.subrange(1, 9) =~= spec_enc_u64(x));
            lemma_dec_enc_u64(b, pos + 1, x);
            assert(((i as u64) as i64) == i) by (bit_vector);
        },
        ParamValueView::Text(s) => {
            assert(b.subrange(pos + 1, pos + 1 + spec_enc_str(s).len() as int) =~= e.subrange(
                1,
                e.len() as int,
            ));
            assert(e.subrange(1, e.len() as int) =~= spec_enc_str(s));
            lemma_dec_enc_str(b, pos + 1, s);
        },
    }
}


// ---------------------------------------------------------------------
// params map entries
// ---------------------------------------------------------------------

/// Encoding of one `(param_name, value)` entry.
pub open spec fn spec_enc_entry(e: (Seq<char>, ParamValueView)) -> Seq<u8> {
    spec_enc_str(e.0) + spec_enc_value(e.1)
}

/// Decoding of one `(param_name, value)` entry at `pos`.
pub open spec fn spec_dec_entry(b: Seq<u8>, pos: int) -> Option<((Seq<char>, ParamValueView), int)> {
    match spec_dec_str(b, pos) {
        Some((s, p1)) => match spec_dec_value(b, p1) {
            Some((v, p2)) => Some(((s, v), p2)),
            None => None,
        },
        None => None,
    }
}

/// Appends the encoding of one `(param_name, value)` entry.
pub fn enc_entry(out: &mut Vec<u8>, name: &String, value: &ParamValue)
    ensures
        final(out)@ == old(out)@ + spec_enc_entry((name@, value@)),
{
    enc_str(out, name.as_str());
    enc_value(out, value);
    proof {
        assert(final(out)@ =~= old(out)@ + spec_enc_entry((name@, value@)));
    }
}

/// Reads one `(param_name, value)` entry, exactly as `spec_dec_entry`
/// does.
pub fn dec_entry(b: &[u8], pos: usize) -> (r: Option<((String, ParamValue), usize)>)
    ensures
        r is Some <==> spec_dec_entry(b@, pos as int) is Some,
        r matches Some(v) ==> spec_dec_entry(b@, pos as int) == Some((((v.0).0@, (v.0).1@), v.1 as int)),
{
    match dec_str(b, pos) {
        None => None,
        Some((s, p1)) => match dec_value(b, p1) {
            None => None,
            Some((v, p2)) => Some(((s, v), p2)),
        },
    }
}

/// An entry whose encoding fits the wire format.
pub open spec fn wf_entry(e: (Seq<char>, ParamValueView)) -> bool {
    wf_str(e.0) && wf_value(e.1)
}

/// Decoding inverts encoding for entries inside a larger buffer.
pub proof fn lemma_dec_enc_entry(b: Seq<u8>, pos: int, e: (Seq<char>, ParamValueView))
    requires
        0 <= pos,
        wf_entry(e),
        pos + spec_enc_entry(e).len() <= b.len(),
        b.subrange(pos, pos + spec_enc_entry(e).len() as int) == spec_enc_entry(e),
    ensures
        spec_dec_entry(b, pos) == Some((e, pos + spec_enc_entry(e).len())),
{
    let enc = spec_enc_entry(e);
    let l0 = spec_enc_str(e.0).len() as int;
    assert(b.subrange(pos, pos + l0) =~= enc.subrange(0, l0));
    assert(enc.subrange(0, l0) =~= spec_enc_str(e.0));
    lemma_dec_enc_str(b, pos, e.0);
    assert(b.subrange(pos + l0, pos + enc.len() as int) =~= enc.subrange(l0, enc.len() as int));
    assert(enc.subrange(l0, enc.len() as int) =~= spec_enc_value(e.1));
    lemma_dec_enc_value(b, pos + l0, e.1);
}

/// Encoding of a list of entries, in order.
pub open spec fn spec_enc_entry_list(m: Seq<(Seq<char>, ParamValueView)>) -> Seq<u8>
    decreases m.len(),
{
    if m.len() == 0 {
        Seq::empty()
    } else {
        spec_enc_entry(m.first()) + spec_enc_entry_list(m.drop_first())
    }
}

/// Appending an entry to the list appends its encoding.
pub proof fn lemma_enc_entry_list_push(
    m: Seq<(Seq<char>, ParamValueView)>,
    e: (Seq<char>, ParamValueView),
)
    ensures
        spec_enc_entry_list(m.push(e)) == spec_enc_entry_list(m) + spec_enc_entry(e),
    decreases m.len(),
{
    if m.len() == 0 {
        assert(m.push(e).drop_first() =~= Seq::<(Seq<char>, ParamValueView)>::empty());
        assert(spec_enc_entry_list(Seq::<(Seq<char>, ParamValueView)>::empty())
            == Seq::<u8>::empty());
        assert(m =~= Seq::<(Seq<char>, ParamValueView)>::empty());
        assert(m.push(e).first() == e);
        assert(spec_enc_entry_list(m.push(e)) == spec_enc_entry(e) + spec_enc_entry_list(
            m.push(e).drop_first(),
        ));
        assert(spec_enc_entry_list(m.push(e)) =~= spec_enc_entry_list(m) + spec_enc_entry(e));
    } else {
        assert(m.push(e).first() == m.first());
        assert(m.push(e).drop_first() =~= m.drop_first().push(e));
        lemma_enc_entry_list_push(m.drop_first(), e);
        assert(spec_enc_entry_list(m.push(e)) == spec_enc_entry(m.first())
            + spec_enc_entry_list(m.drop_first().push(e)));
        assert(spec_enc_entry_list(m.push(e)) =~= spec_enc_entry_list(m) + spec_enc_entry(e));
    }
}

/// Decoding of exactly `count` entries starting at `pos`.
pub open spec fn spec_dec_entry_list(b: Seq<u8>, pos: int, count: nat) -> Option<(
    Seq<(Seq<char>, ParamValueView)>,
    int,
)>
    decreases count,
{
    if count == 0 {
        Some((Seq::empty(), pos))
    } else {
        match spec_dec_entry(b, pos) {
            Some((e, p1)) => match spec_dec_entry_list(b, p1, (count - 1) as nat) {
                Some((rest, p2)) => Some((seq![e] + rest, p2)),
                None => None,
            },
            None => None,
        }
    }
}

/// Reads exactly `count` entries, exactly as `spec_dec_entry_list` does.
pub fn dec_entry_list(b: &[u8], pos: usize, count: u64) -> (r: Option<(
    crate::device::ParamsMap,
    usize,
)>)
    ensures
        r is Some <==> spec_dec_entry_list(b@, pos as int, count as nat) is Some,
        r matches Some(v) ==> spec_dec_entry_list(b@, pos as int, count as nat) == Some((
            crate::device::params_map_view(v.0@),
            v.1 as int,
        )),
    decreases count,
{
    if count == 0 {
        let empty: crate::device::ParamsMap = Vec::new();
        proof {
            assert(crate::device::params_map_view(empty@) =~= Seq::<(
                Seq<char>,
                ParamValueView,
            )>::empty());
        }
        Some((empty, pos))
    } else {
        match dec_entry(b, pos) {
            None => None,
            Some((e, p1)) => {
                match dec_entry_list(b, p1, count - 1) {
                    None => None,
                    Some((mut v, p2)) => {
                        let ghost reste = crate::device::params_map_view(v@);
                        v.insert(0, e);
                        proof {
                            assert(crate::device::params_map_view(v@) =~= seq![(e.0@, e.1@)]
                                + reste);
                        }
                        Some((v, p2))
                    },
                }
            },
        }
    }
}

/// A list of entries whose encodings all fit the wire format.
pub open spec fn wf_entry_list(m: Seq<(Seq<char>, ParamValueView)>) -> bool {
    forall|i: int| 0 <= i < m.len() ==> wf_entry(#[trigger] m[i])
}

/// Decoding inverts encoding for entry lists inside a larger buffer.
pub proof fn lemma_dec_enc_entry_list(b: Seq<u8>, pos: int, m: Seq<(Seq<char>, ParamValueView)>)
    requires
        0 <= pos,
        wf_entry_list(m),
        pos + spec_enc_entry_list(m).len() <= b.len(),
        b.subrange(pos, pos + spec_enc_entry_list(m).len() as int) == spec_enc_entry_list(m),
    ensures
        spec_dec_entry_list(b, pos, m.len()) == Some((m, pos + spec_enc_entry_list(m).len())),
    decreases m.len(),
{
    if m.len() == 0 {
        assert(spec_dec_entry_list(b, pos, 0) =~= Some((m, pos)));
    } else {
        let enc = spec_enc_entry_list(m);
        let e0 = m.first();
        let l0 = spec_enc_entry(e0).len() as int;
        assert(b.subrange(pos, pos + l0) =~= enc.subrange(0, l0));
        assert(enc.subrange(0, l0) =~= spec_enc_entry(e0));
        lemma_dec_enc_entry(b, pos, e0);
        assert(b.subrange(pos + l0, pos + enc.len() as int) =~= enc.subrange(
            l0,
            enc.len() as int,
        ));
        assert(enc.subrange(l0, enc.len() as int) =~= spec_enc_entry_list(m.drop_first()));
        lemma_dec_enc_entry_list(b, pos + l0, m.drop_first());
        assert(seq![e0] + m.drop_first() =~= m);
    }
}

// ---------------------------------------------------------------------
// params maps
// ---------------------------------------------------------------------

/// Encoding of a `{param_name: value}` map: entry count, then entries.
pub open spec fn spec_enc_params(m: Seq<(Seq<char>, ParamValueView)>) -> Seq<u8> {
    spec_enc_u64(m.len() as u64) + spec_enc_entry_list(m)
}

/// Decoding of a `{param_name: value}` map at `pos`.
pub open spec fn spec_dec_params(b: Seq<u8>, pos: int) -> Option<(
    Seq<(Seq<char>, ParamValueView)>,
    int,
)> {
    match spec_dec_u64(b, pos) {
        Some((n, p)) => spec_dec_entry_list(b, p, n as nat),
        None => None,
    }
}

/// Appends the encoding of a `{param_name: value}` map.
pub fn enc_params(out: &mut Vec<u8>, m: &crate::device::ParamsMap)
    ensures
        final(out)@ == old(out)@ + spec_enc_params(crate::device::params_map_view(m@)),
{
    let ghost mv = crate::device::params_map_view(m@);
    enc_u64(out, m.len() as u64);
    let mut i: usize = 0;
    while i < m.len()
        invariant
            i <= m@.len(),
            mv == crate::device::params_map_view(m@),
            mv.len() == m@.len(),
            out@ == old(out)@ + spec_enc_u64(m@.len() as u64) + spec_enc_entry_list(
                mv.take(i as int),
            ),
        decreases m@.len() - i,
    {
        enc_entry(out, &m[i].0, &m[i].1);
        i = i + 1;
        proof {
            assert(mv.take(i as int).drop_last() =~= mv.take(i - 1));
            assert(mv.take(i as int) =~= mv.take(i - 1).push(mv[i - 1]));
            lemma_enc_entry_list_push(mv.take(i - 1), mv[i - 1]);
        }
    }
    proof {
        assert(mv.take(m@.len() as int) =~= mv);
    }
}

/// Reads a `{param_name: value}` map, exactly as `spec_dec_params` does.
pub fn dec_params(b: &[u8], pos: usize) -> (r: Option<(crate::device::ParamsMap, usize)>)
    ensures
        r is Some <==> spec_dec_params(b@, pos as int) is Some,
        r matches Some(v) ==> spec_dec_params(b@, pos as int) == Some((
            crate::device::params_map_view(v.0@),
            v.1 as int,
        )),
{
    match dec_u64(b, pos) {
        None => None,
        Some((n, p)) => dec_entry_list(b, p, n),
    }
}

/// A map whose encoding fits the wire format.
pub open spec fn wf_params(m: Seq<(Seq<char>, ParamValueView)>) -> bool {
    m.len() <= u64::MAX && wf_entry_list(m)
}

/// Decoding inverts encoding for params maps inside a larger buffer.
pub proof fn lemma_dec_enc_params(b: Seq<u8>, pos: int, m: Seq<(Seq<char>, ParamValueView)>)
    requires
        0 <= pos,
        wf_params(m),
        pos + spec_enc_params(m).len() <= b.len(),
        b.subrange(pos, pos + spec_enc_params(m).len() as int) == spec_enc_params(m),
    ensures
        spec_dec_params(b, pos) == Some((m, pos + spec_enc_params(m).len())),
{
    lemma_auto_spec_u64_to_from_le_bytes();
    let enc = spec_enc_params(m);
    let n = m.len() as u64;
    assert(b.subrange(pos, pos + 8) =~= enc.subrange(0, 8));
    assert(enc.subrange(0, 8) =~= spec_enc_u64(n));
    lemma_dec_enc_u64(b, pos, n);
    assert(b.subrange(pos + 8, pos + enc.len() as int) =~= enc.subrange(8, enc.len() as int));
    assert(enc.subrange(8, enc.len() as int) =~= spec_enc_entry_list(m));
    lemma_dec_enc_entry_list(b, pos + 8, m);
}


// ---------------------------------------------------------------------
// update payloads: {device_name: {param_name: value}}
// ---------------------------------------------------------------------

/// Encoding of one per-device update entry.
pub open spec fn spec_enc_update(u: crate::node::DeviceUpdateView) -> Seq<u8> {
    spec_enc_str(u.device) + spec_enc_params(u.params)
}

/// Decoding of one per-device update entry at `pos`.
pub open spec fn spec_dec_update(b: Seq<u8>, pos: int) -> Option<(
    crate::node::DeviceUpdateView,
    int,
)> {
    match spec_dec_str(b, pos) {
        Some((s, p1)) => match spec_dec_params(b, p1) {
            Some((m, p2)) => Some((crate::node::DeviceUpdateView { device: s, params: m }, p2)),
            None => None,
        },
        None => None,
    }
}

/// Appends the encoding of one per-device update entry.
pub fn enc_update(out: &mut Vec<u8>, u: &crate::node::DeviceUpdate)
    ensures
        final(out)@ == old(out)@ + spec_enc_update(u@),
{
    enc_str(out, u.device.as_str());
    enc_params(out, &u.params);
    proof {
        assert(final(out)@ =~= old(out)@ + spec_enc_update(u@));
    }
}

/// Reads one per-device update entry, exactly as `spec_dec_update` does.
pub fn dec_update(b: &[u8], pos: usize) -> (r: Option<(crate::node::DeviceUpdate, usize)>)
    ensures
        r is Some <==> spec_dec_update(b@, pos as int) is Some,
        r matches Some(v) ==> spec_dec_update(b@, pos as int) == Some((v.0@, v.1 as int)),
{
    match dec_str(b, pos) {
        None => None,
        Some((s, p1)) => match dec_params(b, p1) {
            None => None,
            Some((m, p2)) => Some((crate::node::DeviceUpdate { device: s, params: m }, p2)),
        },
    }
}

/// A per-device update entry whose encoding fits the wire format.
pub open spec fn wf_update(u: crate::node::DeviceUpdateView) -> bool {
    wf_str(u.device) && wf_params(u.params)
}

/// Decoding inverts encoding for update entries inside a larger buffer.
pub proof fn lemma_dec_enc_update(b: Seq<u8>, pos: int, u: crate::node::DeviceUpdateView)
    requires
        0 <= pos,
        wf_update(u),
        pos + spec_enc_update(u).len() <= b.len(),
        b.subrange(pos, pos + spec_enc_update(u).len() as int) == spec_enc_update(u),
    ensures
        spec_dec_update(b, pos) == Some((u, pos + spec_enc_update(u).len())),
{
    let enc = spec_enc_update(u);
    let l0 = spec_enc_str(u.device).len() as int;
    assert(b.subrange(pos, pos + l0) =~= enc.subrange(0, l0));
    assert(enc.subrange(0, l0) =~= spec_enc_str(u.device));
    lemma_dec_enc_str(b, pos, u.device);
    assert(b.subrange(pos + l0, pos + enc.len() as int) =~= enc.subrange(l0, enc.len() as int));
    assert(enc.subrange(l0, enc.len() as int) =~= spec_enc_params(u.params));
    lemma_dec_enc_params(b, pos + l0, u.params);
}

/// Encoding of a list of per-device update entries, in order.
pub open spec fn spec_enc_update_list(p: Seq<crate::node::DeviceUpdateView>) -> Seq<u8>
    decreases p.len(),
{
    if p.len() == 0 {
        Seq::empty()
    } else {
        spec_enc_update(p.first()) + spec_enc_update_list(p.drop_first())
    }
}

/// Appending an update entry to the list appends its encoding.
pub proof fn lemma_enc_update_list_push(
    p: Seq<crate::node::DeviceUpdateView>,
    u: crate::node::DeviceUpdateView,
)
    ensures
        spec_enc_update_list(p.push(u)) == spec_enc_update_list(p) + spec_enc_update(u),
    decreases p.len(),
{
    if p.len() == 0 {
        assert(p.push(u).drop_first() =~= Seq::<crate::node::DeviceUpdateView>::empty());
        assert(spec_enc_update_list(Seq::<crate::node::DeviceUpdateView>::empty())
            == Seq::<u8>::empty());
        assert(p.push(u).first() == u);
        assert(spec_enc_update_list(p.push(u)) == spec_enc_update(u) + spec_enc_update_list(
            p.push(u).drop_first(),
        ));
        assert(spec_enc_update_list(p.push(u)) =~= spec_enc_update_list(p) + spec_enc_update(u));
    } else {
        assert(p.push(u).first() == p.first());
        assert(p.push(u).drop_first() =~= p.drop_first().push(u));
        lemma_enc_update_list_push(p.drop_first(), u);
        assert(spec_enc_update_list(p.push(u)) == spec_enc_update(p.first())
            + spec_enc_update_list(p.drop_first().push(u)));
        assert(spec_enc_update_list(p.push(u)) =~= spec_enc_update_list(p) + spec_enc_update(u));
    }
}

/// Decoding of exactly `count` update entries starting at `pos`.
pub open spec fn spec_dec_update_list(b: Seq<u8>, pos: int, count: nat) -> Option<(
    Seq<crate::node::DeviceUpdateView>,
    int,
)>
    decreases count,
{
    if count == 0 {
        Some((Seq::empty(), pos))
    } else {
        match spec_dec_update(b, pos) {
            Some((u, p1)) => match spec_dec_update_list(b, p1, (count - 1) as nat) {
                Some((rest, p2)) => Some((seq![u] + rest, p2)),
                None => None,
            },
            None => None,
        }
    }
}

/// Reads exactly `count` update entries, exactly as
/// `spec_dec_update_list` does.
pub fn dec_update_list(b: &[u8], pos: usize, count: u64) -> (r: Option<(
    crate::node::UpdatePayload,
    usize,
)>)
    ensures
        r is Some <==> spec_dec_update_list(b@, pos as int, count as nat) is Some,
        r matches Some(v) ==> spec_dec_update_list(b@, pos as int, count as nat) == Some((
            crate::node::update_payload_view(v.0@),
            v.1 as int,
        )),
    decreases count,
{
    if count == 0 {
        let empty: crate::node::UpdatePayload = Vec::new();
        proof {
            assert(crate::node::update_payload_view(empty@) =~= Seq::<
                crate::node::DeviceUpdateView,
            >::empty());
        }
        Some((empty, pos))
    } else {
        match dec_update(b, pos) {
            None => None,
            Some((u, p1)) => {
                match dec_update_list(b, p1, count - 1) {
                    None => None,
                    Some((mut v, p2)) => {
                        let ghost reste = crate::node::update_payload_view(v@);
                        v.insert(0, u);
                        proof {
                            assert(crate::node::update_payload_view(v@) =~= seq![
                                v@[0]@,
                            ] + reste);
                        }
                        Some((v, p2))
                    },
                }
            },
        }
    }
}

/// A payload whose encoding fits the wire format.
pub open spec fn wf_payload(p: Seq<crate::node::DeviceUpdateView>) -> bool {
    p.len() <= u64::MAX && forall|i: int| 0 <= i < p.len() ==> wf_update(#[trigger] p[i])
}

/// Decoding inverts encoding for update lists inside a larger buffer.
pub proof fn lemma_dec_enc_update_list(b: Seq<u8>, pos: int, p: Seq<crate::node::DeviceUpdateView>)
    requires
        0 <= pos,
        forall|i: int| 0 <= i < p.len() ==> wf_update(#[trigger] p[i]),
        pos + spec_enc_update_list(p).len() <= b.len(),
        b.subrange(pos, pos + spec_enc_update_list(p).len() as int) == spec_enc_update_list(p),
    ensures
        spec_dec_update_list(b, pos, p.len()) == Some((p, pos + spec_enc_update_list(p).len())),
    decreases p.len(),
{
    if p.len() == 0 {
        assert(spec_dec_update_list(b, pos, 0) =~= Some((p, pos)));
    } else {
        let enc = spec_enc_update_list(p);
        let u0 = p.first();
        let l0 = spec_enc_update(u0).len() as int;
        assert(b.subrange(pos, pos + l0) =~= enc.subrange(0, l0));
        assert(enc.subrange(0, l0) =~= spec_enc_update(u0));
        lemma_dec_enc_update(b, pos, u0);
        assert(b.subrange(pos + l0, pos + enc.len() as int) =~= enc.subrange(
            l0,
            enc.len() as int,
        ));
        assert(enc.subrange(l0, enc.len() as int) =~= spec_enc_update_list(p.drop_first()));
        lemma_dec_enc_update_list(b, pos + l0, p.drop_first());
        assert(seq![u0] + p.drop_first() =~= p);
    }
}

/// Encoding of a whole `{device_name: {param_name: value}}` payload:
/// entry count, then the per-device entries.
pub open spec fn spec_encode_params_payload(p: Seq<crate::node::DeviceUpdateView>) -> Seq<u8> {
    spec_enc_u64(p.len() as u64) + spec_enc_update_list(p)
}

/// Decoding of a whole payload: the buffer must hold exactly one
/// payload, with nothing after it.
pub open spec fn spec_decode_params_payload(b: Seq<u8>) -> Option<
    Seq<crate::node::DeviceUpdateView>,
> {
    match spec_dec_u64(b, 0) {
        Some((n, p)) => match spec_dec_update_list(b, p, n as nat) {
            Some((v, end)) => if end == b.len() {
                Some(v)
            } else {
                None
            },
            None => None,
        },
        None => None,
    }
}

/// Encodes a whole payload.
pub fn encode_params_payload(p: &crate::node::UpdatePayload) -> (r: Vec<u8>)
    ensures
        r@ == spec_encode_params_payload(crate::node::update_payload_view(p@)),
{
    let ghost pv = crate::node::update_payload_view(p@);
    let mut out: Vec<u8> = Vec::new();
    enc_u64(&mut out, p.len() as u64);
    let mut i: usize = 0;
    while i < p.len()
        invariant
            i <= p@.len(),
            pv == crate::node::update_payload_view(p@),
            pv.len() == p@.len(),
            out@ == spec_enc_u64(p@.len() as u64) + spec_enc_update_list(pv.take(i as int)),
        decreases p@.len() - i,
    {
        enc_update(&mut out, &p[i]);
        i = i + 1;
        proof {
            assert(pv.take(i as int) =~= pv.take(i - 1).push(pv[i - 1]));
            lemma_enc_update_list_push(pv.take(i - 1), pv[i - 1]);
        }
    }
    proof {
        assert(pv.take(p@.len() as int) =~= pv);
    }
    out
}

/// Decodes a whole payload, exactly as `spec_decode_params_payload`
/// does: the inbound blob must hold exactly one well-formed payload.
pub fn decode_params_payload(b: &[u8]) -> (r: Option<crate::node::UpdatePayload>)
    ensures
        r is Some <==> spec_decode_params_payload(b@) is Some,
        r matches Some(v) ==> spec_decode_params_payload(b@) == Some(
            crate::node::update_payload_view(v@),
        ),
{
    match dec_u64(b, 0) {
        None => None,
        Some((n, p)) => {
            match dec_update_list(b, p, n) {
                None => None,
                Some((v, end)) => {
                    if end == b.len() {
                        Some(v)
                    } else {
                        None
                    }
                },
            }
        },
    }
}

/// Law: decoding inverts encoding for whole payloads. Any payload that
/// fits the wire format comes back from its own encoding unchanged.
pub proof fn lemma_params_payload_round_trip(p: Seq<crate::node::DeviceUpdateView>)
    requires
        wf_payload(p),
    ensures
        spec_decode_params_payload(spec_encode_params_payload(p)) == Some(p),
{
    lemma_auto_spec_u64_to_from_le_bytes();
    let b = spec_encode_params_payload(p);
    let n = p.len() as u64;
    assert(b.subrange(0, 8) =~= spec_enc_u64(n));
    lemma_dec_enc_u64(b, 0, n);
    assert(b.subrange(8, b.len() as int) =~= spec_enc_update_list(p));
    lemma_dec_enc_update_list(b, 8, p);
}

} // verus!
