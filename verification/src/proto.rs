//! The binary request/response messages of the local control protocol: a
//! tagged union of command and response payload kinds, with a verified
//! wire codec built on the field encoders of `codec`.

use vstd::bytes::lemma_auto_spec_u64_to_from_le_bytes;
use vstd::prelude::*;

use crate::codec::dec_bytes;
use crate::codec::dec_str;
use crate::codec::dec_u64;
use crate::codec::enc_bytes;
use crate::codec::enc_str;
use crate::codec::enc_u64;
use crate::codec::lemma_dec_enc_bytes;
use crate::codec::lemma_dec_enc_str;
use crate::codec::lemma_dec_enc_u64;
use crate::codec::spec_dec_bytes;
use crate::codec::spec_dec_str;
use crate::codec::spec_dec_u64;
use crate::codec::spec_enc_bytes;
use crate::codec::spec_enc_str;
use crate::codec::spec_enc_u64;
use crate::codec::wf_bytes;
use crate::codec::wf_str;

verus! {

/// Wire tag for the get-property-count command.
pub const MSG_TAG_CMD_GET_PROPERTY_COUNT: u8 = 0;

/// Wire tag for the get-property-values command.
pub const MSG_TAG_CMD_GET_PROPERTY_VALUES: u8 = 1;

/// Wire tag for the set-property-values command.
pub const MSG_TAG_CMD_SET_PROPERTY_VALUES: u8 = 2;

/// Wire tag for the get-property-count response.
pub const MSG_TAG_RESP_GET_PROPERTY_COUNT: u8 = 3;

/// Wire tag for the get-property-values response.
pub const MSG_TAG_RESP_GET_PROPERTY_VALUES: u8 = 4;

/// Wire tag for the set-property-values response.
pub const MSG_TAG_RESP_SET_PROPERTY_VALUES: u8 = 5;

/// Outcome of one protocol command or one entry of it.
#[derive(Clone, Copy, Debug, PartialEq, Eq, Structural)]
pub enum Status {
    Success,
    Fail,
    InvalidArgument,
}

/// The wire byte of a status.
pub open spec fn spec_status_code(s: Status) -> u8 {
    match s {
        Status::Success => 0,
        Status::Fail => 1,
        Status::InvalidArgument => 2,
    }
}

/// The status of a wire byte, if it is one.
pub open spec fn spec_status_of_code(c: u8) -> Option<Status> {
    if c == 0 {
        Some(Status::Success)
    } else if c == 1 {
        Some(Status::Fail)
    } else if c == 2 {
        Some(Status::InvalidArgument)
    } else {
        None
    }
}

/// Decoding of a status byte at `pos`.
pub open spec fn spec_dec_status(b: Seq<u8>, pos: int) -> Option<(Status, int)> {
    if 0 <= pos && pos < b.len() {
        match spec_status_of_code(b[pos]) {
            Some(s) => Some((s, pos + 1)),
            None => None,
        }
    } else {
        None
    }
}

/// Appends the wire byte of a status.
pub fn enc_status(out: &mut Vec<u8>, s: Status)
    ensures
        final(out)@ == old(out)@ + seq![spec_status_code(s)],
{
    match s {
        Status::Success => out.push(0),
        Status::Fail => out.push(1),
        Status::InvalidArgument => out.push(2),
    }
    proof {
        assert(final(out)@ =~= old(out)@ + seq![spec_status_code(s)]);
    }
}

/// Reads a status byte, exactly as `spec_dec_status` does.
pub fn dec_status(b: &[u8], pos: usize) -> (r: Option<(Status, usize)>)
    ensures
        r is Some <==> spec_dec_status(b@, pos as int) is Some,
        r matches Some(v) ==> spec_dec_status(b@, pos as int) == Some((v.0, v.1 as int)),
{
    if pos >= b.len() {
        return None;
    }
    let c = *vstd::slice::slice_index_get(b, pos);
    if c == 0 {
        Some((Status::Success, pos + 1))
    } else if c == 1 {
        Some((Status::Fail, pos + 1))
    } else if c == 2 {
        Some((Status::InvalidArgument, pos + 1))
    } else {
        None
    }
}

// ---------------------------------------------------------------------
// lists of u64 indices
// ---------------------------------------------------------------------

/// Encoding of a list of u64 fields, in order.
pub open spec fn spec_enc_u64_list(s: Seq<u64>) -> Seq<u8>
    decreases s.len(),
{
    if s.len() == 0 {
        Seq::empty()
    } else {
        spec_enc_u64(s.first()) + spec_enc_u64_list(s.drop_first())
    }
}

/// Appending a u64 to the list appends its encoding.
pub proof fn lemma_enc_u64_list_push(s: Seq<u64>, x: u64)
    ensures
        spec_enc_u64_list(s.push(x)) == spec_enc_u64_list(s) + spec_enc_u64(x),
    decreases s.len(),
{
    if s.len() == 0 {
        assert(s.push(x).drop_first() =~= Seq::<u64>::empty());
        assert(spec_enc_u64_list(Seq::<u64>::empty()) == Seq::<u8>::empty());
        assert(s.push(x).first() == x);
        assert(spec_enc_u64_list(s.push(x)) == spec_enc_u64(x) + spec_enc_u64_list(
            s.push(x).drop_first(),
        ));
        assert(spec_enc_u64_list(s.push(x)) =~= spec_enc_u64_list(s) + spec_enc_u64(x));
    } else {
        assert(s.push(x).first() == s.first());
        assert(s.push(x).drop_first() =~= s.drop_first().push(x));
        lemma_enc_u64_list_push(s.drop_first(), x);
        assert(spec_enc_u64_list(s.push(x)) == spec_enc_u64(s.first()) + spec_enc_u64_list(
            s.drop_first().push(x),
        ));
        assert(spec_enc_u64_list(s.push(x)) =~= spec_enc_u64_list(s) + spec_enc_u64(x));
    }
}

/// Decoding of exactly `count` u64 fields starting at `pos`.
pub open spec fn spec_dec_u64_list(b: Seq<u8>, pos: int, count: nat) -> Option<(Seq<u64>, int)>
    decreases count,
{
    if count == 0 {
        Some((Seq::empty(), pos))
    } else {
        match spec_dec_u64(b, pos) {
            Some((x, p1)) => match spec_dec_u64_list(b, p1, (count - 1) as nat) {
                Some((rest, p2)) => Some((seq![x] + rest, p2)),
                None => None,
            },
            None => None,
        }
    }
}

/// Reads exactly `count` u64 fields, exactly as `spec_dec_u64_list`
/// does.
pub fn dec_u64_list(b: &[u8], pos: usize, count: u64) -> (r: Option<(Vec<u64>, usize)>)
    ensures
        r is Some <==> spec_dec_u64_list(b@, pos as int, count as nat) is Some,
        r matches Some(v) ==> spec_dec_u64_list(b@, pos as int, count as nat) == Some((
            v.0@,
            v.1 as int,
        )),
    decreases count,
{
    if count == 0 {
        let empty: Vec<u64> = Vec::new();
        proof {
            assert(empty@ =~= Seq::<u64>::empty());
        }
        Some((empty, pos))
    } else {
        match dec_u64(b, pos) {
            None => None,
            Some((x, p1)) => {
                match dec_u64_list(b, p1, count - 1) {
                    None => None,
                    Some((mut v, p2)) => {
                        let ghost reste = v@;
                        v.insert(0, x);
                        proof {
                            assert(v@ =~= seq![x] + reste);
                        }
                        Some((v, p2))
                    },
                }
            },
        }
    }
}

/// Decoding inverts encoding for u64 lists inside a larger buffer.
pub proof fn lemma_dec_enc_u64_list(b: Seq<u8>, pos: int, s: Seq<u64>)
    requires
        0 <= pos,
        pos + spec_enc_u64_list(s).len() <= b.len(),
        b.subrange(pos, pos + spec_enc_u64_list(s).len() as int) == spec_enc_u64_list(s),
    ensures
        spec_dec_u64_list(b, pos, s.len()) == Some((s, pos + spec_enc_u64_list(s).len())),
    decreases s.len(),
{
    if s.len() == 0 {
        assert(spec_dec_u64_list(b, pos, 0) =~= Some((s, pos)));
    } else {
        lemma_auto_spec_u64_to_from_le_bytes();
        let enc = spec_enc_u64_list(s);
        let x0 = s.first();
        assert(b.subrange(pos, pos + 8) =~= enc.subrange(0, 8));
        assert(enc.subrange(0, 8) =~= spec_enc_u64(x0));
        lemma_dec_enc_u64(b, pos, x0);
        assert(b.subrange(pos + 8, pos + enc.len() as int) =~= enc.subrange(8, enc.len() as int));
        assert(enc.subrange(8, enc.len() as int) =~= spec_enc_u64_list(s.drop_first()));
        lemma_dec_enc_u64_list(b, pos + 8, s.drop_first());
        assert(seq![x0] + s.drop_first() =~= s);
    }
}

// ---------------------------------------------------------------------
// property writes: (name, value bytes)
// ---------------------------------------------------------------------

/// One `(name, value-bytes)` entry of a set-property-values command.
#[derive(Clone, Debug, PartialEq)]
pub struct PropertyWrite {
    pub name: String,
    pub value: Vec<u8>,
}

/// Mathematical image of a `PropertyWrite`.
pub struct PropertyWriteView {
    pub name: Seq<char>,
    pub value: Seq<u8>,
}

impl View for PropertyWrite {
    type V = PropertyWriteView;

    open spec fn view(&self) -> PropertyWriteView {
        PropertyWriteView { name: self.name@, value: self.value@ }
    }
}

/// Mathematical image of a list of property writes.
pub open spec fn write_list_view(s: Seq<PropertyWrite>) -> Seq<PropertyWriteView> {
    s.map_values(|w: PropertyWrite| w@)
}

/// Encoding of one property write.
pub open spec fn spec_enc_write(w: PropertyWriteView) -> Seq<u8> {
    spec_enc_str(w.name) + spec_enc_bytes(w.value)
}

/// Decoding of one property write at `pos`.
pub open spec fn spec_dec_write(b: Seq<u8>, pos: int) -> Option<(PropertyWriteView, int)> {
    match spec_dec_str(b, pos) {
        Some((s, p1)) => match spec_dec_bytes(b, p1) {
            Some((v, p2)) => Some((PropertyWriteView { name: s, value: v }, p2)),
            None => None,
        },
        None => None,
    }
}

/// Appends the encoding of one property write.
pub fn enc_write(out: &mut Vec<u8>, w: &PropertyWrite)
    ensures
        final(out)@ == old(out)@ + spec_enc_write(w@),
{
    enc_str(out, w.name.as_str());
    enc_bytes(out, w.value.as_slice());
    proof {
        assert(final(out)@ =~= old(out)@ + spec_enc_write(w@));
    }
}

/// Reads one property write, exactly as `spec_dec_write` does.
pub fn dec_write(b: &[u8], pos: usize) -> (r: Option<(PropertyWrite, usize)>)
    ensures
        r is Some <==> spec_dec_write(b@, pos as int) is Some,
        r matches Some(v) ==> spec_dec_write(b@, pos as int) == Some((v.0@, v.1 as int)),
{
    match dec_str(b, pos) {
        None => None,
        Some((s, p1)) => match dec_bytes(b, p1) {
            None => None,
            Some((v, p2)) => Some((PropertyWrite { name: s, value: v }, p2)),
        },
    }
}

/// A property write whose encoding fits the wire format.
pub open spec fn wf_write(w: PropertyWriteView) -> bool {
    wf_str(w.name) && wf_bytes(w.value)
}

/// Decoding inverts encoding for property writes inside a larger buffer.
pub proof fn lemma_dec_enc_write(b: Seq<u8>, pos: int, w: PropertyWriteView)
    requires
        0 <= pos,
        wf_write(w),
        pos + spec_enc_write(w).len() <= b.len(),
        b.subrange(pos, pos + spec_enc_write(w).len() as int) == spec_enc_write(w),
    ensures
        spec_dec_write(b, pos) == Some((w, pos + spec_enc_write(w).len())),
{
    let enc = spec_enc_write(w);
    let l0 = spec_enc_str(w.name).len() as int;
    assert(b.subrange(pos, pos + l0) =~= enc.subrange(0, l0));
    assert(enc.subrange(0, l0) =~= spec_enc_str(w.name));
    lemma_dec_enc_str(b, pos, w.name);
    assert(b.subrange(pos + l0, pos + enc.len() as int) =~= enc.subrange(l0, enc.len() as int));
    assert(enc.subrange(l0, enc.len() as int) =~= spec_enc_bytes(w.value));
    lemma_dec_enc_bytes(b, pos + l0, w.value);
}

/// Encoding of a list of property writes, in order.
pub open spec fn spec_enc_write_list(s: Seq<PropertyWriteView>) -> Seq<u8>
    decreases s.len(),
{
    if s.len() == 0 {
        Seq::empty()
    } else {
        spec_enc_write(s.first()) + spec_enc_write_list(s.drop_first())
    }
}

/// Appending a property write to the list appends its encoding.
pub proof fn lemma_enc_write_list_push(s: Seq<PropertyWriteView>, w: PropertyWriteView)
    ensures
        spec_enc_write_list(s.push(w)) == spec_enc_write_list(s) + spec_enc_write(w),
    decreases s.len(),
{
    if s.len() == 0 {
        assert(s.push(w).drop_first() =~= Seq::<PropertyWriteView>::empty());
        assert(spec_enc_write_list(Seq::<PropertyWriteView>::empty()) == Seq::<u8>::empty());
        assert(s.push(w).first() == w);
        assert(spec_enc_write_list(s.push(w)) == spec_enc_write(w) + spec_enc_write_list(
            s.push(w).drop_first(),
        ));
        assert(spec_enc_write_list(s.push(w)) =~= spec_enc_write_list(s) + spec_enc_write(w));
    } else {
        assert(s.push(w).first() == s.first());
        assert(s.push(w).drop_first() =~= s.drop_first().push(w));
        lemma_enc_write_list_push(s.drop_first(), w);
        assert(spec_enc_write_list(s.push(w)) == spec_enc_write(s.first()) + spec_enc_write_list(
            s.drop_first().push(w),
        ));
        assert(spec_enc_write_list(s.push(w)) =~= spec_enc_write_list(s) + spec_enc_write(w));
    }
}

/// Decoding of exactly `count` property writes starting at `pos`.
pub open spec fn spec_dec_write_list(b: Seq<u8>, pos: int, count: nat) -> Option<(
    Seq<PropertyWriteView>,
    int,
)>
    decreases count,
{
    if count == 0 {
        Some((Seq::empty(), pos))
    } else {
        match spec_dec_write(b, pos) {
            Some((w, p1)) => match spec_dec_write_list(b, p1, (count - 1) as nat) {
                Some((rest, p2)) => Some((seq![w] + rest, p2)),
                None => None,
            },
            None => None,
        }
    }
}

/// Reads exactly `count` property writes, exactly as
/// `spec_dec_write_list` does.
pub fn dec_write_list(b: &[u8], pos: usize, count: u64) -> (r: Option<(Vec<PropertyWrite>, usize)>)
    ensures
        r is Some <==> spec_dec_write_list(b@, pos as int, count as nat) is Some,
        r matches Some(v) ==> spec_dec_write_list(b@, pos as int, count as nat) == Some((
            write_list_view(v.0@),
            v.1 as int,
        )),
    decreases count,
{
    if count == 0 {
        let empty: Vec<PropertyWrite> = Vec::new();
        proof {
            assert(write_list_view(empty@) =~= Seq::<PropertyWriteView>::empty());
        }
        Some((empty, pos))
    } else {
        match dec_write(b, pos) {
            None => None,
            Some((w, p1)) => {
                match dec_write_list(b, p1, count - 1) {
                    None => None,
                    Some((mut v, p2)) => {
                        let ghost reste = write_list_view(v@);
                        v.insert(0, w);
                        proof {
                            assert(write_list_view(v@) =~= seq![v@[0]@] + reste);
                        }
                        Some((v, p2))
                    },
                }
            },
        }
    }
}

/// Decoding inverts encoding for write lists inside a larger buffer.
pub proof fn lemma_dec_enc_write_list(b: Seq<u8>, pos: int, s: Seq<PropertyWriteView>)
    requires
        0 <= pos,
        forall|i: int| 0 <= i < s.len() ==> wf_write(#[trigger] s[i]),
        pos + spec_enc_write_list(s).len() <= b.len(),
        b.subrange(pos, pos + spec_enc_write_list(s).len() as int) == spec_enc_write_list(s),
    ensures
        spec_dec_write_list(b, pos, s.len()) == Some((s, pos + spec_enc_write_list(s).len())),
    decreases s.len(),
{
    if s.len() == 0 {
        assert(spec_dec_write_list(b, pos, 0) =~= Some((s, pos)));
    } else {
        let enc = spec_enc_write_list(s);
        let w0 = s.first();
        let l0 = spec_enc_write(w0).len() as int;
        assert(b.subrange(pos, pos + l0) =~= enc.subrange(0, l0));
        assert(enc.subrange(0, l0) =~= spec_enc_write(w0));
        lemma_dec_enc_write(b, pos, w0);
        assert(b.subrange(pos + l0, pos + enc.len() as int) =~= enc.subrange(
            l0,
            enc.len() as int,
        ));
        assert(enc.subrange(l0, enc.len() as int) =~= spec_enc_write_list(s.drop_first()));
        lemma_dec_enc_write_list(b, pos + l0, s.drop_first());
        assert(seq![w0] + s.drop_first() =~= s);
    }
}

// ---------------------------------------------------------------------
// property infos: (name, type, flags, value bytes)
// ---------------------------------------------------------------------

/// One property descriptor plus its current value, as returned by the
/// get-property-values response.
#[derive(Clone, Debug, PartialEq)]
pub struct PropertyInfo {
    pub name: String,
    pub ptype: u64,
    pub flags: u64,
    pub value: Vec<u8>,
}

/// Mathematical image of a `PropertyInfo`.
pub struct PropertyInfoView {
    pub name: Seq<char>,
    pub ptype: u64,
    pub flags: u64,
    pub value: Seq<u8>,
}

impl View for PropertyInfo {
    type V = PropertyInfoView;

    open spec fn view(&self) -> PropertyInfoView {
        PropertyInfoView {
            name: self.name@,
            ptype: self.ptype,
            flags: self.flags,
            value: self.value@,
        }
    }
}

/// Mathematical image of a list of property infos.
pub open spec fn info_list_view(s: Seq<PropertyInfo>) -> Seq<PropertyInfoView> {
    s.map_values(|w: PropertyInfo| w@)
}

/// Encoding of one property info.
pub open spec fn spec_enc_info(w: PropertyInfoView) -> Seq<u8> {
    spec_enc_str(w.name) + spec_enc_u64(w.ptype) + spec_enc_u64(w.flags) + spec_enc_bytes(w.value)
}

/// Decoding of one property info at `pos`.
pub open spec fn spec_dec_info(b: Seq<u8>, pos: int) -> Option<(PropertyInfoView, int)> {
    match spec_dec_str(b, pos) {
        Some((s, p1)) => match spec_dec_u64(b, p1) {
            Some((t, p2)) => match spec_dec_u64(b, p2) {
                Some((f, p3)) => match spec_dec_bytes(b, p3) {
                    Some((v, p4)) => Some(
                        (PropertyInfoView { name: s, ptype: t, flags: f, value: v }, p4),
                    ),
                    None => None,
                },
                None => None,
            },
            None => None,
        },
        None => None,
    }
}

/// Appends the encoding of one property info.
pub fn enc_info(out: &mut Vec<u8>, w: &PropertyInfo)
    ensures
        final(out)@ == old(out)@ + spec_enc_info(w@),
{
    enc_str(out, w.name.as_str());
    enc_u64(out, w.ptype);
    enc_u64(out, w.flags);
    enc_bytes(out, w.value.as_slice());
    proof {
        assert(final(out)@ =~= old(out)@ + spec_enc_info(w@));
    }
}

/// Reads one property info, exactly as `spec_dec_info` does.
pub fn dec_info(b: &[u8], pos: usize) -> (r: Option<(PropertyInfo, usize)>)
    ensures
        r is Some <==> spec_dec_info(b@, pos as int) is Some,
        r matches Some(v) ==> spec_dec_info(b@, pos as int) == Some((v.0@, v.1 as int)),
{
    match dec_str(b, pos) {
        None => None,
        Some((s, p1)) => match dec_u64(b, p1) {
            None => None,
            Some((t, p2)) => match dec_u64(b, p2) {
                None => None,
                Some((f, p3)) => match dec_bytes(b, p3) {
                    None => None,
                    Some((v, p4)) => Some(
                        (PropertyInfo { name: s, ptype: t, flags: f, value: v }, p4),
                    ),
                },
            },
        },
    }
}

/// A property info whose encoding fits the wire format.
pub open spec fn wf_info(w: PropertyInfoView) -> bool {
    wf_str(w.name) && wf_bytes(w.value)
}

/// Decoding inverts encoding for property infos inside a larger buffer.
pub proof fn lemma_dec_enc_info(b: Seq<u8>, pos: int, w: PropertyInfoView)
    requires
        0 <= pos,
        wf_info(w),
        pos + spec_enc_info(w).len() <= b.len(),
        b.subrange(pos, pos + spec_enc_info(w).len() as int) == spec_enc_info(w),
    ensures
        spec_dec_info(b, pos) == Some((w, pos + spec_enc_info(w).len())),
{
    lemma_auto_spec_u64_to_from_le_bytes();
    let enc = spec_enc_info(w);
    let l0 = spec_enc_str(w.name).len() as int;
    assert(b.subrange(pos, pos + l0) =~= enc.subrange(0, l0));
    assert(enc.subrange(0, l0) =~= spec_enc_str(w.name));
    lemma_dec_enc_str(b, pos, w.name);
    assert(b.subrange(pos + l0, pos + l0 + 8) =~= enc.subrange(l0, l0 + 8));
    assert(enc.subrange(l0, l0 + 8) =~= spec_enc_u64(w.ptype));
    lemma_dec_enc_u64(b, pos + l0, w.ptype);
    assert(b.subrange(pos + l0 + 8, pos + l0 + 16) =~= enc.subrange(l0 + 8, l0 + 16));
    assert(enc.subrange(l0 + 8, l0 + 16) =~= spec_enc_u64(w.flags));
    lemma_dec_enc_u64(b, pos + l0 + 8, w.flags);
    assert(b.subrange(pos + l0 + 16, pos + enc.len() as int) =~= enc.subrange(
        l0 + 16,
        enc.len() as int,
    ));
    assert(enc.subrange(l0 + 16, enc.len() as int) =~= spec_enc_bytes(w.value));
    lemma_dec_enc_bytes(b, pos + l0 + 16, w.value);
}

/// Encoding of a list of property infos, in order.
pub open spec fn spec_enc_info_list(s: Seq<PropertyInfoView>) -> Seq<u8>
    decreases s.len(),
{
    if s.len() == 0 {
        Seq::empty()
    } else {
        spec_enc_info(s.first()) + spec_enc_info_list(s.drop_first())
    }
}

/// Appending a property info to the list appends its encoding.
pub proof fn lemma_enc_info_list_push(s: Seq<PropertyInfoView>, w: PropertyInfoView)
    ensures
        spec_enc_info_list(s.push(w)) == spec_enc_info_list(s) + spec_enc_info(w),
    decreases s.len(),
{
    if s.len() == 0 {
        assert(s.push(w).drop_first() =~= Seq::<PropertyInfoView>::empty());
        assert(spec_enc_info_list(Seq::<PropertyInfoView>::empty()) == Seq::<u8>::empty());
        assert(s.push(w).first() == w);
        assert(spec_enc_info_list(s.push(w)) == spec_enc_info(w) + spec_enc_info_list(
            s.push(w).drop_first(),
        ));
        assert(spec_enc_info_list(s.push(w)) =~= spec_enc_info_list(s) + spec_enc_info(w));
    } else {
        assert(s.push(w).first() == s.first());
        assert(s.push(w).drop_first() =~= s.drop_first().push(w));
        lemma_enc_info_list_push(s.drop_first(), w);
        assert(spec_enc_info_list(s.push(w)) == spec_enc_info(s.first()) + spec_enc_info_list(
            s.drop_first().push(w),
        ));
        assert(spec_enc_info_list(s.push(w)) =~= spec_enc_info_list(s) + spec_enc_info(w));
    }
}

/// Decoding of exactly `count` property infos starting at `pos`.
pub open spec fn spec_dec_info_list(b: Seq<u8>, pos: int, count: nat) -> Option<(
    Seq<PropertyInfoView>,
    int,
)>
    decreases count,
{
    if count == 0 {
        Some((Seq::empty(), pos))
    } else {
        match spec_dec_info(b, pos) {
            Some((w, p1)) => match spec_dec_info_list(b, p1, (count - 1) as nat) {
                Some((rest, p2)) => Some((seq![w] + rest, p2)),
                None => None,
            },
            None => None,
        }
    }
}

/// Reads exactly `count` property infos, exactly as
/// `spec_dec_info_list` does.
pub fn dec_info_list(b: &[u8], pos: usize, count: u64) -> (r: Option<(Vec<PropertyInfo>, usize)>)
    ensures
        r is Some <==> spec_dec_info_list(b@, pos as int, count as nat) is Some,
        r matches Some(v) ==> spec_dec_info_list(b@, pos as int, count as nat) == Some((
            info_list_view(v.0@),
            v.1 as int,
        )),
    decreases count,
{
    if count == 0 {
        let empty: Vec<PropertyInfo> = Vec::new();
        proof {
            assert(info_list_view(empty@) =~= Seq::<PropertyInfoView>::empty());
        }
        Some((empty, pos))
    } else {
        match dec_info(b, pos) {
            None => None,
            Some((w, p1)) => {
                match dec_info_list(b, p1, count - 1) {
                    None => None,
                    Some((mut v, p2)) => {
                        let ghost reste = info_list_view(v@);
                        v.insert(0, w);
                        proof {
                            assert(info_list_view(v@) =~= seq![v@[0]@] + reste);
                        }
                        Some((v, p2))
                    },
                }
            },
        }
    }
}

/// Decoding inverts encoding for info lists inside a larger buffer.
pub proof fn lemma_dec_enc_info_list(b: Seq<u8>, pos: int, s: Seq<PropertyInfoView>)
    requires
        0 <= pos,
        forall|i: int| 0 <= i < s.len() ==> wf_info(#[trigger] s[i]),
        pos + spec_enc_info_list(s).len() <= b.len(),
        b.subrange(pos, pos + spec_enc_info_list(s).len() as int) == spec_enc_info_list(s),
    ensures
        spec_dec_info_list(b, pos, s.len()) == Some((s, pos + spec_enc_info_list(s).len())),
    decreases s.len(),
{
    if s.len() == 0 {
        assert(spec_dec_info_list(b, pos, 0) =~= Some((s, pos)));
    } else {
        let enc = spec_enc_info_list(s);
        let w0 = s.first();
        let l0 = spec_enc_info(w0).len() as int;
        assert(b.subrange(pos, pos + l0) =~= enc.subrange(0, l0));
        assert(enc.subrange(0, l0) =~= spec_enc_info(w0));
        lemma_dec_enc_info(b, pos, w0);
        assert(b.subrange(pos + l0, pos + enc.len() as int) =~= enc.subrange(
            l0,
            enc.len() as int,
        ));
        assert(enc.subrange(l0, enc.len() as int) =~= spec_enc_info_list(s.drop_first()));
        lemma_dec_enc_info_list(b, pos + l0, s.drop_first());
        assert(seq![w0] + s.drop_first() =~= s);
    }
}


// ---------------------------------------------------------------------
// the message union
// ---------------------------------------------------------------------

/// One message of the local control protocol: a tagged union of the
/// three commands and their three responses.
#[derive(Clone, Debug, PartialEq)]
pub enum LocalCtrlMessage {
    /// Asks for the number of registered local properties.
    CmdGetPropertyCount,
    /// Asks for the named values of the properties at these indices.
    CmdGetPropertyValues { indices: Vec<u64> },
    /// Asks to write these `(name, value-bytes)` entries.
    CmdSetPropertyValues { props: Vec<PropertyWrite> },
    /// Answers a get-property-count command.
    RespGetPropertyCount { status: Status, count: u64 },
    /// Answers a get-property-values command.
    RespGetPropertyValues { status: Status, props: Vec<PropertyInfo> },
    /// Answers a set-property-values command, with one status per entry.
    RespSetPropertyValues { status: Status, statuses: Vec<Status> },
}

/// Mathematical image of a `LocalCtrlMessage`.
pub enum LocalCtrlMessageView {
    CmdGetPropertyCount,
    CmdGetPropertyValues { indices: Seq<u64> },
    CmdSetPropertyValues { props: Seq<PropertyWriteView> },
    RespGetPropertyCount { status: Status, count: u64 },
    RespGetPropertyValues { status: Status, props: Seq<PropertyInfoView> },
    RespSetPropertyValues { status: Status, statuses: Seq<Status> },
}

impl View for LocalCtrlMessage {
    type V = LocalCtrlMessageView;

    open spec fn view(&self) -> LocalCtrlMessageView {
        match self {
            LocalCtrlMessage::CmdGetPropertyCount => LocalCtrlMessageView::CmdGetPropertyCount,
            LocalCtrlMessage::CmdGetPropertyValues { indices } => (
            LocalCtrlMessageView::CmdGetPropertyValues { indices: indices@ }),
            LocalCtrlMessage::CmdSetPropertyValues { props } => (
            LocalCtrlMessageView::CmdSetPropertyValues { props: write_list_view(props@) }),
            LocalCtrlMessage::RespGetPropertyCount { status, count } => (
            LocalCtrlMessageView::RespGetPropertyCount { status: *status, count: *count }),
            LocalCtrlMessage::RespGetPropertyValues { status, props } => (
            LocalCtrlMessageView::RespGetPropertyValues {
                status: *status,
                props: info_list_view(props@),
            }),
            LocalCtrlMessage::RespSetPropertyValues { status, statuses } => (
            LocalCtrlMessageView::RespSetPropertyValues { status: *status, statuses: statuses@ }),
        }
    }
}

/// Encoding of a list of status bytes, in order.
pub open spec fn spec_enc_status_list(s: Seq<Status>) -> Seq<u8> {
    s.map_values(|x: Status| spec_status_code(x))
}

/// Decoding of exactly `count` status bytes starting at `pos`.
pub open spec fn spec_dec_status_list(b: Seq<u8>, pos: int, count: nat) -> Option<(
    Seq<Status>,
    int,
)>
    decreases count,
{
    if count == 0 {
        Some((Seq::empty(), pos))
    } else {
        match spec_dec_status(b, pos) {
            Some((x, p1)) => match spec_dec_status_list(b, p1, (count - 1) as nat) {
                Some((rest, p2)) => Some((seq![x] + rest, p2)),
                None => None,
            },
            None => None,
        }
    }
}

/// Appends the encoding of a list of status bytes.
pub fn enc_status_list(out: &mut Vec<u8>, s: &Vec<Status>)
    ensures
        final(out)@ == old(out)@ + spec_enc_status_list(s@),
{
    let mut i: usize = 0;
    while i < s.len()
        invariant
            i <= s@.len(),
            out@ == old(out)@ + spec_enc_status_list(s@).take(i as int),
        decreases s@.len() - i,
    {
        enc_status(out, s[i]);
        i = i + 1;
        proof {
            assert(out@ =~= old(out)@ + spec_enc_status_list(s@).take(i as int));
        }
    }
    proof {
        assert(spec_enc_status_list(s@).take(s@.len() as int) =~= spec_enc_status_list(s@));
    }
}

/// Reads exactly `count` status bytes, exactly as
/// `spec_dec_status_list` does.
pub fn dec_status_list(b: &[u8], pos: usize, count: u64) -> (r: Option<(Vec<Status>, usize)>)
    ensures
        r is Some <==> spec_dec_status_list(b@, pos as int, count as nat) is Some,
        r matches Some(v) ==> spec_dec_status_list(b@, pos as int, count as nat) == Some((
            v.0@,
            v.1 as int,
        )),
    decreases count,
{
    if count == 0 {
        let empty: Vec<Status> = Vec::new();
        proof {
            assert(empty@ =~= Seq::<Status>::empty());
        }
        Some((empty, pos))
    } else {
        match dec_status(b, pos) {
            None => None,
            Some((x, p1)) => {
                match dec_status_list(b, p1, count - 1) {
                    None => None,
                    Some((mut v, p2)) => {
                        let ghost reste = v@;
                        v.insert(0, x);
                        proof {
                            assert(v@ =~= seq![x] + reste);
                        }
                        Some((v, p2))
                    },
                }
            },
        }
    }
}

/// Decoding inverts encoding for status lists inside a larger buffer.
pub proof fn lemma_dec_enc_status_list(b: Seq<u8>, pos: int, s: Seq<Status>)
    requires
        0 <= pos,
        pos + s.len() <= b.len(),
        b.subrange(pos, pos + s.len() as int) == spec_enc_status_list(s),
    ensures
        spec_dec_status_list(b, pos, s.len()) == Some((s, pos + s.len())),
    decreases s.len(),
{
    if s.len() == 0 {
        assert(spec_dec_status_list(b, pos, 0) =~= Some((s, pos)));
    } else {
        assert(b[pos] == spec_enc_status_list(s)[0]);
        assert(spec_status_of_code(spec_status_code(s.first())) == Some(s.first()));
        assert forall|j: int| 0 <= j < s.len() - 1 implies b.subrange(
            pos + 1,
            pos + s.len() as int,
        )[j] == spec_enc_status_list(s.drop_first())[j] by {
            assert(b.subrange(pos, pos + s.len() as int)[j + 1] == spec_enc_status_list(s)[j + 1]);
        }
        assert(b.subrange(pos + 1, pos + s.len() as int) =~= spec_enc_status_list(
            s.drop_first(),
        ));
        lemma_dec_enc_status_list(b, pos + 1, s.drop_first());
        assert(seq![s.first()] + s.drop_first() =~= s);
    }
}

/// Encoding of one protocol message: its tag byte, then its payload
/// fields, with each list length-prefixed.
pub open spec fn spec_enc_message(m: LocalCtrlMessageView) -> Seq<u8> {
    match m {
        LocalCtrlMessageView::CmdGetPropertyCount => seq![MSG_TAG_CMD_GET_PROPERTY_COUNT],
        LocalCtrlMessageView::CmdGetPropertyValues { indices } => seq![
            MSG_TAG_CMD_GET_PROPERTY_VALUES,
        ] + spec_enc_u64(indices.len() as u64) + spec_enc_u64_list(indices),
        LocalCtrlMessageView::CmdSetPropertyValues { props } => seq![
            MSG_TAG_CMD_SET_PROPERTY_VALUES,
        ] + spec_enc_u64(props.len() as u64) + spec_enc_write_list(props),
        LocalCtrlMessageView::RespGetPropertyCount { status, count } => seq![
            MSG_TAG_RESP_GET_PROPERTY_COUNT,
            spec_status_code(status),
        ] + spec_enc_u64(count),
        LocalCtrlMessageView::RespGetPropertyValues { status, props } => seq![
            MSG_TAG_RESP_GET_PROPERTY_VALUES,
            spec_status_code(status),
        ] + spec_enc_u64(props.len() as u64) + spec_enc_info_list(props),
        LocalCtrlMessageView::RespSetPropertyValues { status, statuses } => seq![
            MSG_TAG_RESP_SET_PROPERTY_VALUES,
            spec_status_code(status),
        ] + spec_enc_u64(statuses.len() as u64) + spec_enc_status_list(statuses),
    }
}

/// Decoding of one protocol message at `pos`.
pub open spec fn spec_dec_message(b: Seq<u8>, pos: int) -> Option<(LocalCtrlMessageView, int)> {
    if 0 <= pos && pos < b.len() {
        let tag = b[pos];
        if tag == MSG_TAG_CMD_GET_PROPERTY_COUNT {
            Some((LocalCtrlMessageView::CmdGetPropertyCount, pos + 1))
        } else if tag == MSG_TAG_CMD_GET_PROPERTY_VALUES {
            match spec_dec_u64(b, pos + 1) {
                Some((n, p1)) => match spec_dec_u64_list(b, p1, n as nat) {
                    Some((indices, p2)) => Some(
                        (LocalCtrlMessageView::CmdGetPropertyValues { indices }, p2),
                    ),
                    None => None,
                },
                None => None,
            }
        } else if tag == MSG_TAG_CMD_SET_PROPERTY_VALUES {
            match spec_dec_u64(b, pos + 1) {
                Some((n, p1)) => match spec_dec_write_list(b, p1, n as nat) {
                    Some((props, p2)) => Some(
                        (LocalCtrlMessageView::CmdSetPropertyValues { props }, p2),
                    ),
                    None => None,
                },
                None => None,
            }
        } else if tag == MSG_TAG_RESP_GET_PROPERTY_COUNT {
            match spec_dec_status(b, pos + 1) {
                Some((status, p1)) => match spec_dec_u64(b, p1) {
                    Some((count, p2)) => Some(
                        (LocalCtrlMessageView::RespGetPropertyCount { status, count }, p2),
                    ),
                    None => None,
                },
                None => None,
            }
        } else if tag == MSG_TAG_RESP_GET_PROPERTY_VALUES {
            match spec_dec_status(b, pos + 1) {
                Some((status, p1)) => match spec_dec_u64(b, p1) {
                    Some((n, p2)) => match spec_dec_info_list(b, p2, n as nat) {
                        Some((props, p3)) => Some(
                            (LocalCtrlMessageView::RespGetPropertyValues { status, props }, p3),
                        ),
                        None => None,
                    },
                    None => None,
                },
                None => None,
            }
        } else if tag == MSG_TAG_RESP_SET_PROPERTY_VALUES {
            match spec_dec_status(b, pos + 1) {
                Some((status, p1)) => match spec_dec_u64(b, p1) {
                    Some((n, p2)) => match spec_dec_status_list(b, p2, n as nat) {
                        Some((statuses, p3)) => Some(
                            (LocalCtrlMessageView::RespSetPropertyValues { status, statuses }, p3),
                        ),
                        None => None,
                    },
                    None => None,
                },
                None => None,
            }
        } else {
            None
        }
    } else {
        None
    }
}

/// Decoding of a whole message blob: the blob must hold exactly one
/// message, with nothing after it.
pub open spec fn spec_decode_message(b: Seq<u8>) -> Option<LocalCtrlMessageView> {
    match spec_dec_message(b, 0) {
        Some((m, end)) => if end == b.len() {
            Some(m)
        } else {
            None
        },
        None => None,
    }
}

/// Encodes one protocol message.
pub fn encode_message(m: &LocalCtrlMessage) -> (r: Vec<u8>)
    ensures
        r@ == spec_enc_message(m@),
{
    let mut out: Vec<u8> = Vec::new();
    match m {
        LocalCtrlMessage::CmdGetPropertyCount => {
            out.push(MSG_TAG_CMD_GET_PROPERTY_COUNT);
            proof {
                assert(out@ =~= spec_enc_message(m@));
            }
        },
        LocalCtrlMessage::CmdGetPropertyValues { indices } => {
            out.push(MSG_TAG_CMD_GET_PROPERTY_VALUES);
            enc_u64(&mut out, indices.len() as u64);
            let ghost base = out@;
            let mut i: usize = 0;
            while i < indices.len()
                invariant
                    i <= indices@.len(),
                    base == seq![MSG_TAG_CMD_GET_PROPERTY_VALUES] + spec_enc_u64(
                        indices@.len() as u64,
                    ),
                    out@ == base + spec_enc_u64_list(indices@.take(i as int)),
                decreases indices@.len() - i,
            {
                enc_u64(&mut out, indices[i]);
                i = i + 1;
                proof {
                    assert(indices@.take(i as int) =~= indices@.take(i - 1).push(
                        indices@[i - 1],
                    ));
                    lemma_enc_u64_list_push(indices@.take(i - 1), indices@[i - 1]);
                }
            }
            proof {
                assert(indices@.take(indices@.len() as int) =~= indices@);
                assert(out@ =~= spec_enc_message(m@));
            }
        },
        LocalCtrlMessage::CmdSetPropertyValues { props } => {
            out.push(MSG_TAG_CMD_SET_PROPERTY_VALUES);
            enc_u64(&mut out, props.len() as u64);
            let ghost base = out@;
            let ghost wl = write_list_view(props@);
            let mut i: usize = 0;
            while i < props.len()
                invariant
                    i <= props@.len(),
                    wl == write_list_view(props@),
                    wl.len() == props@.len(),
                    base == seq![MSG_TAG_CMD_SET_PROPERTY_VALUES] + spec_enc_u64(
                        props@.len() as u64,
                    ),
                    out@ == base + spec_enc_write_list(wl.take(i as int)),
                decreases props@.len() - i,
            {
                enc_write(&mut out, &props[i]);
                i = i + 1;
                proof {
                    assert(wl.take(i as int) =~= wl.take(i - 1).push(wl[i - 1]));
                    lemma_enc_write_list_push(wl.take(i - 1), wl[i - 1]);
                }
            }
            proof {
                assert(wl.take(props@.len() as int) =~= wl);
                assert(out@ =~= spec_enc_message(m@));
            }
        },
        LocalCtrlMessage::RespGetPropertyCount { status, count } => {
            out.push(MSG_TAG_RESP_GET_PROPERTY_COUNT);
            enc_status(&mut out, *status);
            enc_u64(&mut out, *count);
            proof {
                assert(out@ =~= spec_enc_message(m@));
            }
        },
        LocalCtrlMessage::RespGetPropertyValues { status, props } => {
            out.push(MSG_TAG_RESP_GET_PROPERTY_VALUES);
            enc_status(&mut out, *status);
            enc_u64(&mut out, props.len() as u64);
            let ghost base = out@;
            let ghost il = info_list_view(props@);
            let mut i: usize = 0;
            while i < props.len()
                invariant
                    i <= props@.len(),
                    il == info_list_view(props@),
                    il.len() == props@.len(),
                    base == seq![MSG_TAG_RESP_GET_PROPERTY_VALUES, spec_status_code(*status)]
                        + spec_enc_u64(props@.len() as u64),
                    out@ == base + spec_enc_info_list(il.take(i as int)),
                decreases props@.len() - i,
            {
                enc_info(&mut out, &props[i]);
                i = i + 1;
                proof {
                    assert(il.take(i as int) =~= il.take(i - 1).push(il[i - 1]));
                    lemma_enc_info_list_push(il.take(i - 1), il[i - 1]);
                }
            }
            proof {
                assert(il.take(props@.len() as int) =~= il);
                assert(out@ =~= spec_enc_message(m@));
            }
        },
        LocalCtrlMessage::RespSetPropertyValues { status, statuses } => {
            out.push(MSG_TAG_RESP_SET_PROPERTY_VALUES);
            enc_status(&mut out, *status);
            enc_u64(&mut out, statuses.len() as u64);
            enc_status_list(&mut out, statuses);
            proof {
                assert(out@ =~= spec_enc_message(m@));
            }
        },
    }
    out
}

/// Decodes a whole message blob, exactly as `spec_decode_message` does.
pub fn decode_message(b: &[u8]) -> (r: Option<LocalCtrlMessage>)
    ensures
        r is Some <==> spec_decode_message(b@) is Some,
        r matches Some(m) ==> spec_decode_message(b@) == Some(m@),
{
    let end: usize;
    let msg: LocalCtrlMessage;
    if b.len() == 0 {
        return None;
    }
    let tag = *vstd::slice::slice_index_get(b, 0);
    if tag == MSG_TAG_CMD_GET_PROPERTY_COUNT {
        msg = LocalCtrlMessage::CmdGetPropertyCount;
        end = 1;
    } else if tag == MSG_TAG_CMD_GET_PROPERTY_VALUES {
        match dec_u64(b, 1) {
            None => {
                return None;
            },
            Some((n, p1)) => {
                match dec_u64_list(b, p1, n) {
                    None => {
                        return None;
                    },
                    Some((indices, p2)) => {
                        msg = LocalCtrlMessage::CmdGetPropertyValues { indices };
                        end = p2;
                    },
                }
            },
        }
    } else if tag == MSG_TAG_CMD_SET_PROPERTY_VALUES {
        match dec_u64(b, 1) {
            None => {
                return None;
            },
            Some((n, p1)) => {
                match dec_write_list(b, p1, n) {
                    None => {
                        return None;
                    },
                    Some((props, p2)) => {
                        msg = LocalCtrlMessage::CmdSetPropertyValues { props };
                        end = p2;
                    },
                }
            },
        }
    } else if tag == MSG_TAG_RESP_GET_PROPERTY_COUNT {
        match dec_status(b, 1) {
            None => {
                return None;
            },
            Some((status, p1)) => {
                match dec_u64(b, p1) {
                    None => {
                        return None;
                    },
                    Some((count, p2)) => {
                        msg = LocalCtrlMessage::RespGetPropertyCount { status, count };
                        end = p2;
                    },
                }
            },
        }
    } else if tag == MSG_TAG_RESP_GET_PROPERTY_VALUES {
        match dec_status(b, 1) {
            None => {
                return None;
            },
            Some((status, p1)) => {
                match dec_u64(b, p1) {
                    None => {
                        return None;
                    },
                    Some((n, p2)) => {
                        match dec_info_list(b, p2, n) {
                            None => {
                                return None;
                            },
                            Some((props, p3)) => {
                                msg = LocalCtrlMessage::RespGetPropertyValues { status, props };
                                end = p3;
                            },
                        }
                    },
                }
            },
        }
    } else if tag == MSG_TAG_RESP_SET_PROPERTY_VALUES {
        match dec_status(b, 1) {
            None => {
                return None;
            },
            Some((status, p1)) => {
                match dec_u64(b, p1) {
                    None => {
                        return None;
                    },
                    Some((n, p2)) => {
                        match dec_status_list(b, p2, n) {
                            None => {
                                return None;
                            },
                            Some((statuses, p3)) => {
                                msg = LocalCtrlMessage::RespSetPropertyValues { status, statuses };
                                end = p3;
                            },
                        }
                    },
                }
            },
        }
    } else {
        return None;
    }
    if end == b.len() {
        Some(msg)
    } else {
        None
    }
}

/// A message whose encoding fits the wire format.
pub open spec fn wf_message(m: LocalCtrlMessageView) -> bool {
    match m {
        LocalCtrlMessageView::CmdGetPropertyCount => true,
        LocalCtrlMessageView::CmdGetPropertyValues { indices } => indices.len() <= u64::MAX,
        LocalCtrlMessageView::CmdSetPropertyValues { props } => props.len() <= u64::MAX
            && forall|i: int| 0 <= i < props.len() ==> wf_write(#[trigger] props[i]),
        LocalCtrlMessageView::RespGetPropertyCount { .. } => true,
        LocalCtrlMessageView::RespGetPropertyValues { status, props } => props.len() <= u64::MAX
            && forall|i: int| 0 <= i < props.len() ==> wf_info(#[trigger] props[i]),
        LocalCtrlMessageView::RespSetPropertyValues { status, statuses } => statuses.len()
            <= u64::MAX,
    }
}

/// Law: decoding inverts encoding for whole protocol messages. Any
/// message that fits the wire format comes back from its own encoding
/// unchanged.
#[verifier::rlimit(100)]
pub proof fn lemma_message_round_trip(m: LocalCtrlMessageView)
    requires
        wf_message(m),
    ensures
        spec_decode_message(spec_enc_message(m)) == Some(m),
{
    lemma_auto_spec_u64_to_from_le_bytes();
    let b = spec_enc_message(m);
    match m {
        LocalCtrlMessageView::CmdGetPropertyCount => {
        },
        LocalCtrlMessageView::CmdGetPropertyValues { indices } => {
            let n = indices.len() as u64;
            assert(b.subrange(1, 9) =~= spec_enc_u64(n));
            lemma_dec_enc_u64(b, 1, n);
            assert(b.subrange(9, b.len() as int) =~= spec_enc_u64_list(indices));
            lemma_dec_enc_u64_list(b, 9, indices);
        },
        LocalCtrlMessageView::CmdSetPropertyValues { props } => {
            let n = props.len() as u64;
            assert(b.subrange(1, 9) =~= spec_enc_u64(n));
            lemma_dec_enc_u64(b, 1, n);
            assert(b.subrange(9, b.len() as int) =~= spec_enc_write_list(props));
            lemma_dec_enc_write_list(b, 9, props);
        },
        LocalCtrlMessageView::RespGetPropertyCount { status, count } => {
            assert(spec_status_of_code(spec_status_code(status)) == Some(status));
            assert(b.subrange(2, 10) =~= spec_enc_u64(count));
            lemma_dec_enc_u64(b, 2, count);
        },
        LocalCtrlMessageView::RespGetPropertyValues { status, props } => {
            let n = props.len() as u64;
            assert(spec_status_of_code(spec_status_code(status)) == Some(status));
            assert(b.subrange(2, 10) =~= spec_enc_u64(n));
            lemma_dec_enc_u64(b, 2, n);
            assert(b.subrange(10, b.len() as int) =~= spec_enc_info_list(props));
            lemma_dec_enc_info_list(b, 10, props);
        },
        LocalCtrlMessageView::RespSetPropertyValues { status, statuses } => {
            let n = statuses.len() as u64;
            assert(spec_status_of_code(spec_status_code(status)) == Some(status));
            assert(b.subrange(2, 10) =~= spec_enc_u64(n));
            lemma_dec_enc_u64(b, 2, n);
            assert(b.subrange(10, b.len() as int) =~= spec_enc_status_list(statuses));
            lemma_dec_enc_status_list(b, 10, statuses);
        },
    }
}

} // verus!
