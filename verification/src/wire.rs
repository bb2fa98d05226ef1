//! The wire encoding of the request/response protocol.
//!
//! Every value is encoded deterministically: integers as eight
//! little-endian bytes, booleans and enum tags as integers, strings as a
//! byte count followed by UTF-8 bytes, options as a presence flag followed
//! by the value, lists as a count followed by the elements.  The `enc_*`
//! spec functions define the format; the `dec_*` spec functions define
//! parsing; the `lemma_dec_*` proofs show that parsing an encoding at its
//! position yields exactly the encoded value, which is what the protocol's
//! round-trip guarantee rests on.  Executable encoders and parsers are
//! proved against these definitions.

use vstd::bytes::{
    lemma_auto_spec_u64_to_from_le_bytes, spec_u64_from_le_bytes, spec_u64_to_le_bytes,
    u64_from_le_bytes, u64_to_le_bytes,
};
use vstd::prelude::*;
use vstd::slice::{slice_subrange, slice_to_vec};
use vstd::utf8::{decode_utf8, encode_utf8, valid_utf8};

use crate::model::{Run, RunStatus, RunView, Worker, WorkerStatus, WorkerView};
use crate::protocol::{
    GetLogsRequest, GetLogsRequestView, LogTarget, Operation, OperationView, Payload, PayloadView,
    Request, RequestView, Response, ResponseView, StartWorkerRequest, StartWorkerRequestView,
};

verus! {

broadcast use vstd::utf8::encode_utf8_valid_utf8, vstd::utf8::encode_utf8_decode_utf8;

/// One more than the largest magnitude a non-negative `i32` can carry.
pub const I32_MAG_BOUND: u64 = 0x8000_0000;

// ---------------------------------------------------------------------
// The format: encoding spec functions.
// ---------------------------------------------------------------------

/// Eight little-endian bytes.
pub open spec fn enc_u64(x: u64) -> Seq<u8> {
    spec_u64_to_le_bytes(x)
}

/// A boolean as a `u64`: 0 or 1.
pub open spec fn enc_bool(b: bool) -> Seq<u8> {
    enc_u64(
        if b {
            1u64
        } else {
            0u64
        },
    )
}

/// A `u32` widened to a `u64`.
pub open spec fn enc_u32(x: u32) -> Seq<u8> {
    enc_u64(x as u64)
}

/// The magnitude of an `i32`.
pub open spec fn i32_mag(x: i32) -> u64 {
    if x >= 0 {
        x as u64
    } else {
        (-(x as int)) as u64
    }
}

/// An `i32` as a sign flag followed by its magnitude.
pub open spec fn enc_i32(x: i32) -> Seq<u8> {
    enc_bool(x < 0) + enc_u64(i32_mag(x))
}

/// Raw bytes, preceded by their count.
pub open spec fn enc_bytes(b: Seq<u8>) -> Seq<u8> {
    enc_u64(b.len() as u64) + b
}

/// A string as its UTF-8 bytes, preceded by their count.
pub open spec fn enc_str(s: Seq<char>) -> Seq<u8> {
    enc_bytes(encode_utf8(s))
}

/// An optional value: a presence flag, then the value when present.
pub open spec fn enc_opt_str(o: Option<Seq<char>>) -> Seq<u8> {
    enc_bool(o is Some) + match o {
        Some(s) => enc_str(s),
        None => Seq::empty(),
    }
}

pub open spec fn enc_opt_u64(o: Option<u64>) -> Seq<u8> {
    enc_bool(o is Some) + match o {
        Some(x) => enc_u64(x),
        None => Seq::empty(),
    }
}

pub open spec fn enc_opt_u32(o: Option<u32>) -> Seq<u8> {
    enc_bool(o is Some) + match o {
        Some(x) => enc_u32(x),
        None => Seq::empty(),
    }
}

pub open spec fn enc_opt_i32(o: Option<i32>) -> Seq<u8> {
    enc_bool(o is Some) + match o {
        Some(x) => enc_i32(x),
        None => Seq::empty(),
    }
}

/// The elements of a string list, one encoding after the other.
pub open spec fn enc_str_elems(ss: Seq<Seq<char>>) -> Seq<u8>
    decreases ss.len(),
{
    if ss.len() == 0 {
        Seq::empty()
    } else {
        enc_str(ss.first()) + enc_str_elems(ss.drop_first())
    }
}

/// A string list: a count, then the elements.
pub open spec fn enc_str_list(ss: Seq<Seq<char>>) -> Seq<u8> {
    enc_u64(ss.len() as u64) + enc_str_elems(ss)
}

// ---------------------------------------------------------------------
// Parsing spec functions.
// ---------------------------------------------------------------------

/// Parse eight little-endian bytes at `pos`.
pub open spec fn dec_u64(b: Seq<u8>, pos: int) -> Option<(u64, int)> {
    if 0 <= pos && pos + 8 <= b.len() {
        Some((spec_u64_from_le_bytes(b.subrange(pos, pos + 8)), pos + 8))
    } else {
        None
    }
}

pub open spec fn dec_bool(b: Seq<u8>, pos: int) -> Option<(bool, int)> {
    match dec_u64(b, pos) {
        Some((x, p)) => if x == 0 {
            Some((false, p))
        } else if x == 1 {
            Some((true, p))
        } else {
            None
        },
        None => None,
    }
}

pub open spec fn dec_u32(b: Seq<u8>, pos: int) -> Option<(u32, int)> {
    match dec_u64(b, pos) {
        Some((x, p)) => if x <= u32::MAX as u64 {
            Some((x as u32, p))
        } else {
            None
        },
        None => None,
    }
}

pub open spec fn dec_i32(b: Seq<u8>, pos: int) -> Option<(i32, int)> {
    match dec_bool(b, pos) {
        Some((neg, p1)) => match dec_u64(b, p1) {
            Some((m, p2)) => if neg {
                if 1 <= m <= I32_MAG_BOUND {
                    Some(((-(m as int)) as i32, p2))
                } else {
                    None
                }
            } else {
                if m < I32_MAG_BOUND {
                    Some((m as i32, p2))
                } else {
                    None
                }
            },
            None => None,
        },
        None => None,
    }
}

pub open spec fn dec_bytes(b: Seq<u8>, pos: int) -> Option<(Seq<u8>, int)> {
    match dec_u64(b, pos) {
        Some((n, p1)) => if p1 + n <= b.len() {
            Some((b.subrange(p1, p1 + n), p1 + n))
        } else {
            None
        },
        None => None,
    }
}

pub open spec fn dec_str(b: Seq<u8>, pos: int) -> Option<(Seq<char>, int)> {
    match dec_bytes(b, pos) {
        Some((raw, p)) => if valid_utf8(raw) {
            Some((decode_utf8(raw), p))
        } else {
            None
        },
        None => None,
    }
}

pub open spec fn dec_opt_str(b: Seq<u8>, pos: int) -> Option<(Option<Seq<char>>, int)> {
    match dec_bool(b, pos) {
        Some((present, p1)) => if present {
            match dec_str(b, p1) {
                Some((s, p2)) => Some((Some(s), p2)),
                None => None,
            }
        } else {
            Some((None, p1))
        },
        None => None,
    }
}

pub open spec fn dec_opt_u64(b: Seq<u8>, pos: int) -> Option<(Option<u64>, int)> {
    match dec_bool(b, pos) {
        Some((present, p1)) => if present {
            match dec_u64(b, p1) {
                Some((x, p2)) => Some((Some(x), p2)),
                None => None,
            }
        } else {
            Some((None, p1))
        },
        None => None,
    }
}

pub open spec fn dec_opt_u32(b: Seq<u8>, pos: int) -> Option<(Option<u32>, int)> {
    match dec_bool(b, pos) {
        Some((present, p1)) => if present {
            match dec_u32(b, p1) {
                Some((x, p2)) => Some((Some(x), p2)),
                None => None,
            }
        } else {
            Some((None, p1))
        },
        None => None,
    }
}

pub open spec fn dec_opt_i32(b: Seq<u8>, pos: int) -> Option<(Option<i32>, int)> {
    match dec_bool(b, pos) {
        Some((present, p1)) => if present {
            match dec_i32(b, p1) {
                Some((x, p2)) => Some((Some(x), p2)),
                None => None,
            }
        } else {
            Some((None, p1))
        },
        None => None,
    }
}

/// Parse `n` consecutive strings.
pub open spec fn dec_str_elems(b: Seq<u8>, pos: int, n: nat) -> Option<(Seq<Seq<char>>, int)>
    decreases n,
{
    if n == 0 {
        Some((Seq::empty(), pos))
    } else {
        match dec_str(b, pos) {
            Some((s, p1)) => match dec_str_elems(b, p1, (n - 1) as nat) {
                Some((rest, p2)) => Some((seq![s] + rest, p2)),
                None => None,
            },
            None => None,
        }
    }
}

pub open spec fn dec_str_list(b: Seq<u8>, pos: int) -> Option<(Seq<Seq<char>>, int)> {
    match dec_u64(b, pos) {
        Some((n, p1)) => dec_str_elems(b, p1, n as nat),
        None => None,
    }
}

// ---------------------------------------------------------------------
// Round-trip lemmas: parsing an encoding yields the encoded value.
// ---------------------------------------------------------------------


/// Splitting a known concatenation out of a byte sequence: when the bytes
/// at `pos` are `a + c`, the two halves sit at their respective positions.
pub proof fn lemma_parse_split(b: Seq<u8>, pos: int, a: Seq<u8>, c: Seq<u8>)
    requires
        0 <= pos,
        pos + a.len() + c.len() <= b.len(),
        b.subrange(pos, pos + a.len() + c.len()) == a + c,
    ensures
        b.subrange(pos, pos + a.len()) == a,
        b.subrange(pos + a.len(), pos + a.len() + c.len()) == c,
{
    let whole = b.subrange(pos, pos + a.len() + c.len());
    assert(b.subrange(pos, pos + a.len()) =~= a) by {
        assert forall|i: int| 0 <= i < a.len() implies b.subrange(pos, pos + a.len())[i] == a[i] by {
            assert(whole[i] == (a + c)[i]);
        }
    }
    assert(b.subrange(pos + a.len(), pos + a.len() + c.len()) =~= c) by {
        assert forall|i: int|
            0 <= i < c.len() implies b.subrange(pos + a.len(), pos + a.len() + c.len())[i]
            == c[i] by {
            assert(whole[a.len() + i] == (a + c)[a.len() + i]);
        }
    }
}

/// Adjacent subranges concatenate.
pub proof fn lemma_chain(b: Seq<u8>, p0: int, p1: int, p2: int)
    requires
        0 <= p0 <= p1 <= p2 <= b.len(),
    ensures
        b.subrange(p0, p2) == b.subrange(p0, p1) + b.subrange(p1, p2),
{
    assert(b.subrange(p0, p2) =~= b.subrange(p0, p1) + b.subrange(p1, p2));
}

pub proof fn lemma_dec_u64(b: Seq<u8>, pos: int, x: u64)
    requires
        0 <= pos,
        pos + 8 <= b.len(),
        b.subrange(pos, pos + 8) == enc_u64(x),
    ensures
        dec_u64(b, pos) == Some((x, pos + 8)),
{
    lemma_auto_spec_u64_to_from_le_bytes();
}

pub proof fn lemma_dec_bool(b: Seq<u8>, pos: int, v: bool)
    requires
        0 <= pos,
        pos + 8 <= b.len(),
        b.subrange(pos, pos + 8) == enc_bool(v),
    ensures
        dec_bool(b, pos) == Some((v, pos + 8)),
{
    if v {
        lemma_dec_u64(b, pos, 1);
    } else {
        lemma_dec_u64(b, pos, 0);
    }
}

pub proof fn lemma_dec_u32(b: Seq<u8>, pos: int, v: u32)
    requires
        0 <= pos,
        pos + 8 <= b.len(),
        b.subrange(pos, pos + 8) == enc_u32(v),
    ensures
        dec_u32(b, pos) == Some((v, pos + 8)),
{
    lemma_dec_u64(b, pos, v as u64);
}

pub proof fn lemma_dec_i32(b: Seq<u8>, pos: int, v: i32)
    requires
        0 <= pos,
        pos + 16 <= b.len(),
        b.subrange(pos, pos + 16) == enc_i32(v),
    ensures
        dec_i32(b, pos) == Some((v, pos + 16)),
{
    lemma_auto_spec_u64_to_from_le_bytes();
    lemma_parse_split(b, pos, enc_bool(v < 0), enc_u64(i32_mag(v)));
    lemma_dec_bool(b, pos, v < 0);
    lemma_dec_u64(b, pos + 8, i32_mag(v));
}

pub proof fn lemma_dec_bytes(b: Seq<u8>, pos: int, v: Seq<u8>)
    requires
        0 <= pos,
        v.len() <= u64::MAX,
        pos + 8 + v.len() <= b.len(),
        b.subrange(pos, pos + 8 + v.len()) == enc_bytes(v),
    ensures
        dec_bytes(b, pos) == Some((v, pos + 8 + v.len())),
{
    lemma_auto_spec_u64_to_from_le_bytes();
    lemma_parse_split(b, pos, enc_u64(v.len() as u64), v);
    lemma_dec_u64(b, pos, v.len() as u64);
}

pub proof fn lemma_dec_str(b: Seq<u8>, pos: int, s: Seq<char>)
    requires
        0 <= pos,
        encode_utf8(s).len() <= u64::MAX,
        pos + enc_str(s).len() <= b.len(),
        b.subrange(pos, pos + enc_str(s).len()) == enc_str(s),
    ensures
        dec_str(b, pos) == Some((s, pos + enc_str(s).len())),
        enc_str(s).len() == 8 + encode_utf8(s).len(),
{
    lemma_auto_spec_u64_to_from_le_bytes();
    lemma_dec_bytes(b, pos, encode_utf8(s));
}

pub proof fn lemma_dec_opt_str(b: Seq<u8>, pos: int, o: Option<Seq<char>>)
    requires
        0 <= pos,
        (o matches Some(s) ==> encode_utf8(s).len() <= u64::MAX),
        pos + enc_opt_str(o).len() <= b.len(),
        b.subrange(pos, pos + enc_opt_str(o).len()) == enc_opt_str(o),
    ensures
        dec_opt_str(b, pos) == Some((o, pos + enc_opt_str(o).len())),
{
    lemma_auto_spec_u64_to_from_le_bytes();
    match o {
        Some(s) => {
            lemma_parse_split(b, pos, enc_bool(true), enc_str(s));
            lemma_dec_bool(b, pos, true);
            lemma_dec_str(b, pos + 8, s);
        },
        None => {
            assert(b.subrange(pos, pos + 8) =~= enc_bool(false));
            lemma_dec_bool(b, pos, false);
        },
    }
}

pub proof fn lemma_dec_opt_u64(b: Seq<u8>, pos: int, o: Option<u64>)
    requires
        0 <= pos,
        pos + enc_opt_u64(o).len() <= b.len(),
        b.subrange(pos, pos + enc_opt_u64(o).len()) == enc_opt_u64(o),
    ensures
        dec_opt_u64(b, pos) == Some((o, pos + enc_opt_u64(o).len())),
{
    lemma_auto_spec_u64_to_from_le_bytes();
    match o {
        Some(x) => {
            lemma_parse_split(b, pos, enc_bool(true), enc_u64(x));
            lemma_dec_bool(b, pos, true);
            lemma_dec_u64(b, pos + 8, x);
        },
        None => {
            assert(b.subrange(pos, pos + 8) =~= enc_bool(false));
            lemma_dec_bool(b, pos, false);
        },
    }
}

pub proof fn lemma_dec_opt_u32(b: Seq<u8>, pos: int, o: Option<u32>)
    requires
        0 <= pos,
        pos + enc_opt_u32(o).len() <= b.len(),
        b.subrange(pos, pos + enc_opt_u32(o).len()) == enc_opt_u32(o),
    ensures
        dec_opt_u32(b, pos) == Some((o, pos + enc_opt_u32(o).len())),
{
    lemma_auto_spec_u64_to_from_le_bytes();
    match o {
        Some(x) => {
            lemma_parse_split(b, pos, enc_bool(true), enc_u32(x));
            lemma_dec_bool(b, pos, true);
            lemma_dec_u32(b, pos + 8, x);
        },
        None => {
            assert(b.subrange(pos, pos + 8) =~= enc_bool(false));
            lemma_dec_bool(b, pos, false);
        },
    }
}

pub proof fn lemma_dec_opt_i32(b: Seq<u8>, pos: int, o: Option<i32>)
    requires
        0 <= pos,
        pos + enc_opt_i32(o).len() <= b.len(),
        b.subrange(pos, pos + enc_opt_i32(o).len()) == enc_opt_i32(o),
    ensures
        dec_opt_i32(b, pos) == Some((o, pos + enc_opt_i32(o).len())),
{
    lemma_auto_spec_u64_to_from_le_bytes();
    match o {
        Some(x) => {
            lemma_parse_split(b, pos, enc_bool(true), enc_i32(x));
            lemma_dec_bool(b, pos, true);
            lemma_dec_i32(b, pos + 8, x);
        },
        None => {
            assert(b.subrange(pos, pos + 8) =~= enc_bool(false));
            lemma_dec_bool(b, pos, false);
        },
    }
}

/// Every string in a list has an encodable byte length.
pub open spec fn str_elems_encodable(ss: Seq<Seq<char>>) -> bool {
    forall|i: int| 0 <= i < ss.len() ==> encode_utf8(#[trigger] ss[i]).len() <= u64::MAX
}

pub proof fn lemma_dec_str_elems(b: Seq<u8>, pos: int, ss: Seq<Seq<char>>)
    requires
        0 <= pos,
        str_elems_encodable(ss),
        pos + enc_str_elems(ss).len() <= b.len(),
        b.subrange(pos, pos + enc_str_elems(ss).len()) == enc_str_elems(ss),
    ensures
        dec_str_elems(b, pos, ss.len()) == Some((ss, pos + enc_str_elems(ss).len())),
    decreases ss.len(),
{
    if ss.len() == 0 {
        assert(dec_str_elems(b, pos, 0) == Some((Seq::<Seq<char>>::empty(), pos)));
        assert(ss =~= Seq::<Seq<char>>::empty());
    } else {
        let s0 = ss.first();
        let rest = ss.drop_first();
        lemma_auto_spec_u64_to_from_le_bytes();
        assert(encode_utf8(s0).len() <= u64::MAX);
        lemma_parse_split(b, pos, enc_str(s0), enc_str_elems(rest));
        lemma_dec_str(b, pos, s0);
        let p1 = pos + enc_str(s0).len();
        assert(str_elems_encodable(rest)) by {
            assert forall|i: int|
                0 <= i < rest.len() implies encode_utf8(#[trigger] rest[i]).len() <= u64::MAX by {
                assert(rest[i] == ss[i + 1]);
            }
        }
        lemma_dec_str_elems(b, p1, rest);
        assert(seq![s0] + rest =~= ss);
    }
}

pub proof fn lemma_dec_str_list(b: Seq<u8>, pos: int, ss: Seq<Seq<char>>)
    requires
        0 <= pos,
        ss.len() <= u64::MAX,
        str_elems_encodable(ss),
        pos + enc_str_list(ss).len() <= b.len(),
        b.subrange(pos, pos + enc_str_list(ss).len()) == enc_str_list(ss),
    ensures
        dec_str_list(b, pos) == Some((ss, pos + enc_str_list(ss).len())),
{
    lemma_auto_spec_u64_to_from_le_bytes();
    lemma_parse_split(b, pos, enc_u64(ss.len() as u64), enc_str_elems(ss));
    lemma_dec_u64(b, pos, ss.len() as u64);
    lemma_dec_str_elems(b, pos + 8, ss);
}

} // verus!

verus! {

// ---------------------------------------------------------------------
// Soundness lemmas: whatever parses was exactly the encoding of the
// parsed value (the format is canonical).
// ---------------------------------------------------------------------

pub proof fn lemma_sound_u64(b: Seq<u8>, pos: int)
    ensures
        dec_u64(b, pos) matches Some((x, p)) ==> p == pos + 8 && pos >= 0 && p <= b.len()
            && b.subrange(pos, p) == enc_u64(x),
{
    lemma_auto_spec_u64_to_from_le_bytes();
}

pub proof fn lemma_sound_bool(b: Seq<u8>, pos: int)
    ensures
        dec_bool(b, pos) matches Some((v, p)) ==> p == pos + 8 && pos >= 0 && p <= b.len()
            && b.subrange(pos, p) == enc_bool(v),
{
    lemma_auto_spec_u64_to_from_le_bytes();
}

pub proof fn lemma_sound_u32(b: Seq<u8>, pos: int)
    ensures
        dec_u32(b, pos) matches Some((v, p)) ==> p == pos + 8 && pos >= 0 && p <= b.len()
            && b.subrange(pos, p) == enc_u32(v),
{
    lemma_auto_spec_u64_to_from_le_bytes();
}

pub proof fn lemma_sound_i32(b: Seq<u8>, pos: int)
    ensures
        dec_i32(b, pos) matches Some((v, p)) ==> p == pos + 16 && pos >= 0 && p <= b.len()
            && b.subrange(pos, p) == enc_i32(v),
{
    lemma_auto_spec_u64_to_from_le_bytes();
    if dec_i32(b, pos) is Some {
        let (neg, p1) = dec_bool(b, pos)->0;
        let (m, p2) = dec_u64(b, p1)->0;
        lemma_sound_bool(b, pos);
        lemma_sound_u64(b, p1);
        let pair = dec_i32(b, pos)->0;
        let v = pair.0;
        assert((v < 0) == neg);
        assert(i32_mag(v) == m);
        assert(b.subrange(pos, p2) =~= b.subrange(pos, p1) + b.subrange(p1, p2));
    }
}

pub proof fn lemma_sound_bytes(b: Seq<u8>, pos: int)
    ensures
        dec_bytes(b, pos) matches Some((raw, p)) ==> pos >= 0 && p == pos + 8 + raw.len() && p
            <= b.len() && b.subrange(pos, p) == enc_bytes(raw) && raw.len() <= u64::MAX,
{
    lemma_auto_spec_u64_to_from_le_bytes();
    if dec_bytes(b, pos) is Some {
        let (n, p1) = dec_u64(b, pos)->0;
        lemma_sound_u64(b, pos);
        let raw = b.subrange(p1, p1 + n);
        assert(b.subrange(pos, p1 + n) =~= b.subrange(pos, p1) + raw);
    }
}

pub proof fn lemma_sound_str(b: Seq<u8>, pos: int)
    ensures
        dec_str(b, pos) matches Some((s, p)) ==> pos >= 0 && p == pos + enc_str(s).len() && p
            <= b.len() && b.subrange(pos, p) == enc_str(s) && encode_utf8(s).len() <= u64::MAX,
{
    broadcast use vstd::utf8::decode_utf8_encode_utf8;

    lemma_sound_bytes(b, pos);
}

pub proof fn lemma_sound_opt_str(b: Seq<u8>, pos: int)
    ensures
        dec_opt_str(b, pos) matches Some((o, p)) ==> pos >= 0 && p == pos + enc_opt_str(o).len()
            && p <= b.len() && b.subrange(pos, p) == enc_opt_str(o) && (o matches Some(s)
            ==> encode_utf8(s).len() <= u64::MAX),
{
    lemma_sound_bool(b, pos);
    if dec_opt_str(b, pos) is Some {
        let (present, p1) = dec_bool(b, pos)->0;
        if present {
            lemma_sound_str(b, p1);
            let (s, p2) = dec_str(b, p1)->0;
            assert(b.subrange(pos, p2) =~= b.subrange(pos, p1) + b.subrange(p1, p2));
        } else {
            assert(b.subrange(pos, p1) =~= b.subrange(pos, p1) + Seq::<u8>::empty());
        }
    }
}

pub proof fn lemma_sound_opt_u64(b: Seq<u8>, pos: int)
    ensures
        dec_opt_u64(b, pos) matches Some((o, p)) ==> pos >= 0 && p == pos + enc_opt_u64(o).len()
            && p <= b.len() && b.subrange(pos, p) == enc_opt_u64(o),
{
    lemma_sound_bool(b, pos);
    if dec_opt_u64(b, pos) is Some {
        let (present, p1) = dec_bool(b, pos)->0;
        if present {
            lemma_sound_u64(b, p1);
            let (x, p2) = dec_u64(b, p1)->0;
            assert(b.subrange(pos, p2) =~= b.subrange(pos, p1) + b.subrange(p1, p2));
        } else {
            assert(b.subrange(pos, p1) =~= b.subrange(pos, p1) + Seq::<u8>::empty());
        }
    }
}

pub proof fn lemma_sound_opt_u32(b: Seq<u8>, pos: int)
    ensures
        dec_opt_u32(b, pos) matches Some((o, p)) ==> pos >= 0 && p == pos + enc_opt_u32(o).len()
            && p <= b.len() && b.subrange(pos, p) == enc_opt_u32(o),
{
    lemma_sound_bool(b, pos);
    if dec_opt_u32(b, pos) is Some {
        let (present, p1) = dec_bool(b, pos)->0;
        if present {
            lemma_sound_u32(b, p1);
            let (x, p2) = dec_u32(b, p1)->0;
            assert(b.subrange(pos, p2) =~= b.subrange(pos, p1) + b.subrange(p1, p2));
        } else {
            assert(b.subrange(pos, p1) =~= b.subrange(pos, p1) + Seq::<u8>::empty());
        }
    }
}

pub proof fn lemma_sound_opt_i32(b: Seq<u8>, pos: int)
    ensures
        dec_opt_i32(b, pos) matches Some((o, p)) ==> pos >= 0 && p == pos + enc_opt_i32(o).len()
            && p <= b.len() && b.subrange(pos, p) == enc_opt_i32(o),
{
    lemma_sound_bool(b, pos);
    if dec_opt_i32(b, pos) is Some {
        let (present, p1) = dec_bool(b, pos)->0;
        if present {
            lemma_sound_i32(b, p1);
            let (x, p2) = dec_i32(b, p1)->0;
            assert(b.subrange(pos, p2) =~= b.subrange(pos, p1) + b.subrange(p1, p2));
        } else {
            assert(b.subrange(pos, p1) =~= b.subrange(pos, p1) + Seq::<u8>::empty());
        }
    }
}

pub proof fn lemma_sound_str_elems(b: Seq<u8>, pos: int, n: nat)
    requires
        0 <= pos <= b.len(),
    ensures
        dec_str_elems(b, pos, n) matches Some((ss, p)) ==> ss.len() == n && pos <= p <= b.len()
            && p == pos + enc_str_elems(ss).len() && b.subrange(pos, p) == enc_str_elems(ss)
            && str_elems_encodable(ss),
    decreases n,
{
    if n == 0 {
        assert(b.subrange(pos, pos) =~= Seq::<u8>::empty());
    } else {
        if dec_str_elems(b, pos, n) is Some {
            let (s, p1) = dec_str(b, pos)->0;
            lemma_sound_str(b, pos);
            lemma_sound_str_elems(b, p1, (n - 1) as nat);
            let (rest, p2) = dec_str_elems(b, p1, (n - 1) as nat)->0;
            let ss = seq![s] + rest;
            assert(ss.first() == s);
            assert(ss.drop_first() =~= rest);
            assert(b.subrange(pos, p2) =~= b.subrange(pos, p1) + b.subrange(p1, p2));
            assert forall|i: int|
                0 <= i < ss.len() implies encode_utf8(#[trigger] ss[i]).len() <= u64::MAX by {
                if i > 0 {
                    assert(ss[i] == rest[i - 1]);
                }
            }
        }
    }
}

pub proof fn lemma_sound_str_list(b: Seq<u8>, pos: int)
    ensures
        dec_str_list(b, pos) matches Some((ss, p)) ==> pos >= 0 && p == pos
            + enc_str_list(ss).len() && p <= b.len() && b.subrange(pos, p) == enc_str_list(ss)
            && ss.len() <= u64::MAX && str_elems_encodable(ss),
{
    lemma_sound_u64(b, pos);
    if dec_str_list(b, pos) is Some {
        let (n, p1) = dec_u64(b, pos)->0;
        lemma_sound_str_elems(b, p1, n as nat);
        let (ss, p2) = dec_str_elems(b, p1, n as nat)->0;
        assert(b.subrange(pos, p2) =~= b.subrange(pos, p1) + b.subrange(p1, p2));
    }
}

} // verus!

verus! {

// ---------------------------------------------------------------------
// Executable encoders: each appends one value's encoding.
// ---------------------------------------------------------------------

pub fn put_u64(out: &mut Vec<u8>, x: u64)
    ensures
        final(out)@ == old(out)@ + enc_u64(x),
{
    let mut b = u64_to_le_bytes(x);
    out.append(&mut b);
}

pub fn put_bool(out: &mut Vec<u8>, v: bool)
    ensures
        final(out)@ == old(out)@ + enc_bool(v),
{
    put_u64(
        out,
        if v {
            1
        } else {
            0
        },
    );
}

pub fn put_u32(out: &mut Vec<u8>, x: u32)
    ensures
        final(out)@ == old(out)@ + enc_u32(x),
{
    put_u64(out, x as u64);
}

pub fn put_i32(out: &mut Vec<u8>, x: i32)
    ensures
        final(out)@ == old(out)@ + enc_i32(x),
{
    let ghost start = out@;
    put_bool(out, x < 0);
    let mag: u64 = if x >= 0 {
        x as u64
    } else {
        ((-(x + 1)) as u64) + 1
    };
    proof {
        assert(mag == i32_mag(x));
    }
    put_u64(out, mag);
    proof {
        assert(out@ =~= start + enc_i32(x));
    }
}

pub fn put_str(out: &mut Vec<u8>, s: &str)
    ensures
        final(out)@ == old(out)@ + enc_str(s@),
{
    let ghost start = out@;
    let mut bytes = s.as_bytes_vec();
    let n: usize = bytes.len();
    put_u64(out, n as u64);
    out.append(&mut bytes);
    proof {
        assert(out@ =~= start + enc_str(s@));
    }
}

pub fn put_opt_str(out: &mut Vec<u8>, s: &Option<String>)
    ensures
        final(out)@ == old(out)@ + enc_opt_str(s.deep_view()),
{
    let ghost start = out@;
    match s {
        Some(v) => {
            put_bool(out, true);
            put_str(out, v.as_str());
        },
        None => {
            put_bool(out, false);
        },
    }
    proof {
        assert(out@ =~= start + enc_opt_str(s.deep_view()));
    }
}

pub fn put_opt_u64(out: &mut Vec<u8>, o: &Option<u64>)
    ensures
        final(out)@ == old(out)@ + enc_opt_u64(*o),
{
    let ghost start = out@;
    match o {
        Some(v) => {
            put_bool(out, true);
            put_u64(out, *v);
        },
        None => {
            put_bool(out, false);
        },
    }
    proof {
        assert(out@ =~= start + enc_opt_u64(*o));
    }
}

pub fn put_opt_u32(out: &mut Vec<u8>, o: &Option<u32>)
    ensures
        final(out)@ == old(out)@ + enc_opt_u32(*o),
{
    let ghost start = out@;
    match o {
        Some(v) => {
            put_bool(out, true);
            put_u32(out, *v);
        },
        None => {
            put_bool(out, false);
        },
    }
    proof {
        assert(out@ =~= start + enc_opt_u32(*o));
    }
}

pub fn put_opt_i32(out: &mut Vec<u8>, o: &Option<i32>)
    ensures
        final(out)@ == old(out)@ + enc_opt_i32(*o),
{
    let ghost start = out@;
    match o {
        Some(v) => {
            put_bool(out, true);
            put_i32(out, *v);
        },
        None => {
            put_bool(out, false);
        },
    }
    proof {
        assert(out@ =~= start + enc_opt_i32(*o));
    }
}

/// Appending one more string extends the element encoding on the right.
proof fn lemma_enc_str_elems_push(ss: Seq<Seq<char>>, s: Seq<char>)
    ensures
        enc_str_elems(ss.push(s)) == enc_str_elems(ss) + enc_str(s),
    decreases ss.len(),
{
    if ss.len() == 0 {
        assert(ss.push(s).first() == s);
        assert(ss.push(s).drop_first() =~= Seq::<Seq<char>>::empty());
        assert(enc_str_elems(ss.push(s).drop_first()) =~= Seq::<u8>::empty());
        assert(enc_str_elems(ss) =~= Seq::<u8>::empty());
        assert(enc_str_elems(ss.push(s)) =~= enc_str_elems(ss) + enc_str(s));
    } else {
        lemma_enc_str_elems_push(ss.drop_first(), s);
        assert(ss.push(s).first() == ss.first());
        assert(ss.push(s).drop_first() =~= ss.drop_first().push(s));
        assert(enc_str_elems(ss.push(s)) =~= enc_str_elems(ss) + enc_str(s));
    }
}

pub fn put_str_list(out: &mut Vec<u8>, ss: &Vec<String>)
    ensures
        final(out)@ == old(out)@ + enc_str_list(ss.deep_view()),
{
    let ghost start = out@;
    let n: usize = ss.len();
    put_u64(out, n as u64);
    let mut i: usize = 0;
    proof {
        assert(ss.deep_view().take(0) =~= Seq::<Seq<char>>::empty());
        assert(out@ =~= start + enc_u64(n as u64) + enc_str_elems(ss.deep_view().take(0)));
    }
    while i < ss.len()
        invariant
            i <= ss@.len(),
            n == ss@.len(),
            ss.deep_view().len() == ss@.len(),
            out@ == start + enc_u64(n as u64) + enc_str_elems(ss.deep_view().take(i as int)),
        decreases ss@.len() - i,
    {
        put_str(out, ss[i].as_str());
        proof {
            lemma_enc_str_elems_push(ss.deep_view().take(i as int), ss.deep_view()[i as int]);
            assert(ss.deep_view().take(i + 1) =~= ss.deep_view().take(i as int).push(
                ss.deep_view()[i as int],
            ));
            assert(out@ =~= start + enc_u64(n as u64) + enc_str_elems(
                ss.deep_view().take(i + 1),
            ));
        }
        i = i + 1;
    }
    proof {
        assert(ss.deep_view().take(ss@.len() as int) =~= ss.deep_view());
        assert(out@ =~= start + enc_str_list(ss.deep_view()));
    }
}

// ---------------------------------------------------------------------
// Executable parsers: each mirrors its parsing spec function.
// ---------------------------------------------------------------------

/// Relies on `String::from_utf8`: it succeeds exactly on valid UTF-8
/// input and decodes it.
#[verifier::external_body]
fn string_from_utf8(v: Vec<u8>) -> (r: Option<String>)
    ensures
        r is Some <==> valid_utf8(v@),
        r matches Some(s) ==> s@ == decode_utf8(v@),
{
    String::from_utf8(v).ok()
}

pub fn get_u64(buf: &Vec<u8>, pos: usize) -> (r: Option<(u64, usize)>)
    ensures
        match r {
            Some((x, p)) => dec_u64(buf@, pos as int) == Some((x, p as int)),
            None => dec_u64(buf@, pos as int) is None,
        },
{
    if pos <= buf.len() && buf.len() - pos >= 8 {
        let sl = slice_subrange(buf.as_slice(), pos, pos + 8);
        let x = u64_from_le_bytes(sl);
        Some((x, pos + 8))
    } else {
        None
    }
}

pub fn get_bool(buf: &Vec<u8>, pos: usize) -> (r: Option<(bool, usize)>)
    ensures
        match r {
            Some((v, p)) => dec_bool(buf@, pos as int) == Some((v, p as int)),
            None => dec_bool(buf@, pos as int) is None,
        },
{
    match get_u64(buf, pos) {
        Some((x, p)) => {
            if x == 0 {
                Some((false, p))
            } else if x == 1 {
                Some((true, p))
            } else {
                None
            }
        },
        None => None,
    }
}

pub fn get_u32(buf: &Vec<u8>, pos: usize) -> (r: Option<(u32, usize)>)
    ensures
        match r {
            Some((v, p)) => dec_u32(buf@, pos as int) == Some((v, p as int)),
            None => dec_u32(buf@, pos as int) is None,
        },
{
    match get_u64(buf, pos) {
        Some((x, p)) => {
            if x <= u32::MAX as u64 {
                Some((x as u32, p))
            } else {
                None
            }
        },
        None => None,
    }
}

pub fn get_i32(buf: &Vec<u8>, pos: usize) -> (r: Option<(i32, usize)>)
    ensures
        match r {
            Some((v, p)) => dec_i32(buf@, pos as int) == Some((v, p as int)),
            None => dec_i32(buf@, pos as int) is None,
        },
{
    match get_bool(buf, pos) {
        Some((neg, p1)) => match get_u64(buf, p1) {
            Some((m, p2)) => {
                if neg {
                    if 1 <= m && m <= I32_MAG_BOUND {
                        let v: i32 = (-((m - 1) as i64) - 1) as i32;
                        proof {
                            assert(v as int == -(m as int));
                        }
                        Some((v, p2))
                    } else {
                        None
                    }
                } else {
                    if m < I32_MAG_BOUND {
                        Some((m as i32, p2))
                    } else {
                        None
                    }
                }
            },
            None => None,
        },
        None => None,
    }
}

pub fn get_str(buf: &Vec<u8>, pos: usize) -> (r: Option<(String, usize)>)
    ensures
        match r {
            Some(p) => (dec_str(buf@, pos as int) matches Some(q) && p.0@ == q.0 && p.1 as int
                == q.1),
            None => dec_str(buf@, pos as int) is None,
        },
{
    match get_u64(buf, pos) {
        Some((n, p1)) => {
            let remaining = buf.len() - p1;
            if n > remaining as u64 {
                None
            } else {
                let len = n as usize;
                let sl = slice_subrange(buf.as_slice(), p1, p1 + len);
                let raw = slice_to_vec(sl);
                match string_from_utf8(raw) {
                    Some(s) => Some((s, p1 + len)),
                    None => None,
                }
            }
        },
        None => None,
    }
}

pub fn get_opt_str(buf: &Vec<u8>, pos: usize) -> (r: Option<(Option<String>, usize)>)
    ensures
        match r {
            Some(p) => (dec_opt_str(buf@, pos as int) matches Some(q) && p.0.deep_view() == q.0
                && p.1 as int == q.1),
            None => dec_opt_str(buf@, pos as int) is None,
        },
{
    match get_bool(buf, pos) {
        Some((present, p1)) => {
            if present {
                match get_str(buf, p1) {
                    Some((s, p2)) => Some((Some(s), p2)),
                    None => None,
                }
            } else {
                Some((None, p1))
            }
        },
        None => None,
    }
}

pub fn get_opt_u64(buf: &Vec<u8>, pos: usize) -> (r: Option<(Option<u64>, usize)>)
    ensures
        match r {
            Some(p) => dec_opt_u64(buf@, pos as int) == Some((p.0, p.1 as int)),
            None => dec_opt_u64(buf@, pos as int) is None,
        },
{
    match get_bool(buf, pos) {
        Some((present, p1)) => {
            if present {
                match get_u64(buf, p1) {
                    Some((x, p2)) => Some((Some(x), p2)),
                    None => None,
                }
            } else {
                Some((None, p1))
            }
        },
        None => None,
    }
}

pub fn get_opt_u32(buf: &Vec<u8>, pos: usize) -> (r: Option<(Option<u32>, usize)>)
    ensures
        match r {
            Some(p) => dec_opt_u32(buf@, pos as int) == Some((p.0, p.1 as int)),
            None => dec_opt_u32(buf@, pos as int) is None,
        },
{
    match get_bool(buf, pos) {
        Some((present, p1)) => {
            if present {
                match get_u32(buf, p1) {
                    Some((x, p2)) => Some((Some(x), p2)),
                    None => None,
                }
            } else {
                Some((None, p1))
            }
        },
        None => None,
    }
}

pub fn get_opt_i32(buf: &Vec<u8>, pos: usize) -> (r: Option<(Option<i32>, usize)>)
    ensures
        match r {
            Some(p) => dec_opt_i32(buf@, pos as int) == Some((p.0, p.1 as int)),
            None => dec_opt_i32(buf@, pos as int) is None,
        },
{
    match get_bool(buf, pos) {
        Some((present, p1)) => {
            if present {
                match get_i32(buf, p1) {
                    Some((x, p2)) => Some((Some(x), p2)),
                    None => None,
                }
            } else {
                Some((None, p1))
            }
        },
        None => None,
    }
}

pub fn get_str_list(buf: &Vec<u8>, pos: usize) -> (r: Option<(Vec<String>, usize)>)
    ensures
        match r {
            Some(p) => (dec_str_list(buf@, pos as int) matches Some(q) && p.0.deep_view() == q.0
                && p.1 as int == q.1),
            None => dec_str_list(buf@, pos as int) is None,
        },
{
    match get_u64(buf, pos) {
        Some((n, p1)) => {
            let mut out: Vec<String> = Vec::new();
            let mut left = n;
            let mut cur = p1;
            proof {
                assert(out.deep_view() =~= Seq::<Seq<char>>::empty());
            }
            loop
                invariant
                    dec_u64(buf@, pos as int) == Some((n, p1 as int)),
                    left <= n,
                    cur <= buf@.len(),
                    ({
                        let d = dec_str_elems(buf@, cur as int, left as nat);
                        let full = dec_str_elems(buf@, p1 as int, n as nat);
                        match d {
                            Some(q) => (full matches Some(f) && f.0 == out.deep_view() + q.0
                                && f.1 == q.1),
                            None => full is None,
                        }
                    }),
                decreases left,
            {
                if left == 0 {
                    proof {
                        let full = dec_str_elems(buf@, p1 as int, n as nat);
                        assert(out.deep_view() + Seq::<Seq<char>>::empty() =~= out.deep_view());
                    }
                    return Some((out, cur));
                }
                match get_str(buf, cur) {
                    Some((s, p2)) => {
                        let ghost prev = out.deep_view();
                        let ghost sv = s@;
                        out.push(s);
                        proof {
                            assert(out.deep_view() =~= prev.push(sv));
                            let d_here = dec_str_elems(buf@, cur as int, left as nat);
                            let d_next = dec_str_elems(buf@, p2 as int, (left - 1) as nat);
                            match d_next {
                                Some(q) => {
                                    assert(prev + (seq![sv] + q.0) =~= prev.push(sv) + q.0);
                                },
                                None => {},
                            }
                        }
                        cur = p2;
                        left = left - 1;
                    },
                    None => {
                        return None;
                    },
                }
            }
        },
        None => None,
    }
}

} // verus!

verus! {

// ---------------------------------------------------------------------
// Status and record codecs.
// ---------------------------------------------------------------------

/// A worker status as a tag.
pub open spec fn enc_worker_status(s: WorkerStatus) -> Seq<u8> {
    enc_u64(
        match s {
            WorkerStatus::Running => 0u64,
            WorkerStatus::Stopped => 1u64,
            WorkerStatus::Error => 2u64,
        },
    )
}

pub open spec fn dec_worker_status(b: Seq<u8>, pos: int) -> Option<(WorkerStatus, int)> {
    match dec_u64(b, pos) {
        Some((x, p)) => if x == 0 {
            Some((WorkerStatus::Running, p))
        } else if x == 1 {
            Some((WorkerStatus::Stopped, p))
        } else if x == 2 {
            Some((WorkerStatus::Error, p))
        } else {
            None
        },
        None => None,
    }
}

/// A run status as a tag.
pub open spec fn enc_run_status(s: RunStatus) -> Seq<u8> {
    enc_u64(
        match s {
            RunStatus::Pending => 0u64,
            RunStatus::Running => 1u64,
            RunStatus::Done => 2u64,
            RunStatus::Error => 3u64,
            RunStatus::RetryScheduled => 4u64,
            RunStatus::Stopped => 5u64,
            RunStatus::Paused => 6u64,
        },
    )
}

pub open spec fn dec_run_status(b: Seq<u8>, pos: int) -> Option<(RunStatus, int)> {
    match dec_u64(b, pos) {
        Some((x, p)) => if x == 0 {
            Some((RunStatus::Pending, p))
        } else if x == 1 {
            Some((RunStatus::Running, p))
        } else if x == 2 {
            Some((RunStatus::Done, p))
        } else if x == 3 {
            Some((RunStatus::Error, p))
        } else if x == 4 {
            Some((RunStatus::RetryScheduled, p))
        } else if x == 5 {
            Some((RunStatus::Stopped, p))
        } else if x == 6 {
            Some((RunStatus::Paused, p))
        } else {
            None
        },
        None => None,
    }
}

pub open spec fn enc_opt_run_status(o: Option<RunStatus>) -> Seq<u8> {
    enc_bool(o is Some) + match o {
        Some(s) => enc_run_status(s),
        None => Seq::empty(),
    }
}

pub open spec fn dec_opt_run_status(b: Seq<u8>, pos: int) -> Option<(Option<RunStatus>, int)> {
    match dec_bool(b, pos) {
        Some((present, p1)) => if present {
            match dec_run_status(b, p1) {
                Some((s, p2)) => Some((Some(s), p2)),
                None => None,
            }
        } else {
            Some((None, p1))
        },
        None => None,
    }
}

pub proof fn lemma_dec_worker_status(b: Seq<u8>, pos: int, s: WorkerStatus)
    requires
        0 <= pos,
        pos + 8 <= b.len(),
        b.subrange(pos, pos + 8) == enc_worker_status(s),
    ensures
        dec_worker_status(b, pos) == Some((s, pos + 8)),
{
    match s {
        WorkerStatus::Running => lemma_dec_u64(b, pos, 0),
        WorkerStatus::Stopped => lemma_dec_u64(b, pos, 1),
        WorkerStatus::Error => lemma_dec_u64(b, pos, 2),
    }
}

pub proof fn lemma_dec_run_status(b: Seq<u8>, pos: int, s: RunStatus)
    requires
        0 <= pos,
        pos + 8 <= b.len(),
        b.subrange(pos, pos + 8) == enc_run_status(s),
    ensures
        dec_run_status(b, pos) == Some((s, pos + 8)),
{
    match s {
        RunStatus::Pending => lemma_dec_u64(b, pos, 0),
        RunStatus::Running => lemma_dec_u64(b, pos, 1),
        RunStatus::Done => lemma_dec_u64(b, pos, 2),
        RunStatus::Error => lemma_dec_u64(b, pos, 3),
        RunStatus::RetryScheduled => lemma_dec_u64(b, pos, 4),
        RunStatus::Stopped => lemma_dec_u64(b, pos, 5),
        RunStatus::Paused => lemma_dec_u64(b, pos, 6),
    }
}

pub proof fn lemma_dec_opt_run_status(b: Seq<u8>, pos: int, o: Option<RunStatus>)
    requires
        0 <= pos,
        pos + enc_opt_run_status(o).len() <= b.len(),
        b.subrange(pos, pos + enc_opt_run_status(o).len()) == enc_opt_run_status(o),
    ensures
        dec_opt_run_status(b, pos) == Some((o, pos + enc_opt_run_status(o).len())),
{
    lemma_auto_spec_u64_to_from_le_bytes();
    match o {
        Some(s) => {
            lemma_parse_split(b, pos, enc_bool(true), enc_run_status(s));
            lemma_dec_bool(b, pos, true);
            lemma_dec_run_status(b, pos + 8, s);
        },
        None => {
            assert(b.subrange(pos, pos + 8) =~= enc_bool(false));
            lemma_dec_bool(b, pos, false);
        },
    }
}

pub proof fn lemma_sound_worker_status(b: Seq<u8>, pos: int)
    ensures
        dec_worker_status(b, pos) matches Some((s, p)) ==> pos >= 0 && p == pos + 8 && p <= b.len()
            && b.subrange(pos, p) == enc_worker_status(s),
{
    lemma_sound_u64(b, pos);
}

pub proof fn lemma_sound_run_status(b: Seq<u8>, pos: int)
    ensures
        dec_run_status(b, pos) matches Some((s, p)) ==> pos >= 0 && p == pos + 8 && p <= b.len()
            && b.subrange(pos, p) == enc_run_status(s),
{
    lemma_sound_u64(b, pos);
}

pub proof fn lemma_sound_opt_run_status(b: Seq<u8>, pos: int)
    ensures
        dec_opt_run_status(b, pos) matches Some((o, p)) ==> pos >= 0 && p == pos
            + enc_opt_run_status(o).len() && p <= b.len() && b.subrange(pos, p)
            == enc_opt_run_status(o),
{
    lemma_sound_bool(b, pos);
    if dec_opt_run_status(b, pos) is Some {
        let (present, p1) = dec_bool(b, pos)->0;
        if present {
            lemma_sound_run_status(b, p1);
            let (s, p2) = dec_run_status(b, p1)->0;
            assert(b.subrange(pos, p2) =~= b.subrange(pos, p1) + b.subrange(p1, p2));
        } else {
            assert(b.subrange(pos, p1) =~= b.subrange(pos, p1) + Seq::<u8>::empty());
        }
    }
}

pub fn put_worker_status(out: &mut Vec<u8>, s: WorkerStatus)
    ensures
        final(out)@ == old(out)@ + enc_worker_status(s),
{
    let tag: u64 = match s {
        WorkerStatus::Running => 0,
        WorkerStatus::Stopped => 1,
        WorkerStatus::Error => 2,
    };
    put_u64(out, tag);
}

pub fn put_run_status(out: &mut Vec<u8>, s: RunStatus)
    ensures
        final(out)@ == old(out)@ + enc_run_status(s),
{
    let tag: u64 = match s {
        RunStatus::Pending => 0,
        RunStatus::Running => 1,
        RunStatus::Done => 2,
        RunStatus::Error => 3,
        RunStatus::RetryScheduled => 4,
        RunStatus::Stopped => 5,
        RunStatus::Paused => 6,
    };
    put_u64(out, tag);
}

pub fn put_opt_run_status(out: &mut Vec<u8>, o: &Option<RunStatus>)
    ensures
        final(out)@ == old(out)@ + enc_opt_run_status(*o),
{
    let ghost start = out@;
    match o {
        Some(s) => {
            put_bool(out, true);
            put_run_status(out, *s);
        },
        None => {
            put_bool(out, false);
        },
    }
    proof {
        assert(out@ =~= start + enc_opt_run_status(*o));
    }
}

pub fn get_worker_status(buf: &Vec<u8>, pos: usize) -> (r: Option<(WorkerStatus, usize)>)
    ensures
        match r {
            Some((s, p)) => dec_worker_status(buf@, pos as int) == Some((s, p as int)),
            None => dec_worker_status(buf@, pos as int) is None,
        },
{
    match get_u64(buf, pos) {
        Some((x, p)) => {
            if x == 0 {
                Some((WorkerStatus::Running, p))
            } else if x == 1 {
                Some((WorkerStatus::Stopped, p))
            } else if x == 2 {
                Some((WorkerStatus::Error, p))
            } else {
                None
            }
        },
        None => None,
    }
}

pub fn get_run_status(buf: &Vec<u8>, pos: usize) -> (r: Option<(RunStatus, usize)>)
    ensures
        match r {
            Some((s, p)) => dec_run_status(buf@, pos as int) == Some((s, p as int)),
            None => dec_run_status(buf@, pos as int) is None,
        },
{
    match get_u64(buf, pos) {
        Some((x, p)) => {
            if x == 0 {
                Some((RunStatus::Pending, p))
            } else if x == 1 {
                Some((RunStatus::Running, p))
            } else if x == 2 {
                Some((RunStatus::Done, p))
            } else if x == 3 {
                Some((RunStatus::Error, p))
            } else if x == 4 {
                Some((RunStatus::RetryScheduled, p))
            } else if x == 5 {
                Some((RunStatus::Stopped, p))
            } else if x == 6 {
                Some((RunStatus::Paused, p))
            } else {
                None
            }
        },
        None => None,
    }
}

pub fn get_opt_run_status(buf: &Vec<u8>, pos: usize) -> (r: Option<(Option<RunStatus>, usize)>)
    ensures
        match r {
            Some((o, p)) => dec_opt_run_status(buf@, pos as int) == Some((o, p as int)),
            None => dec_opt_run_status(buf@, pos as int) is None,
        },
{
    match get_bool(buf, pos) {
        Some((present, p1)) => {
            if present {
                match get_run_status(buf, p1) {
                    Some((s, p2)) => Some((Some(s), p2)),
                    None => None,
                }
            } else {
                Some((None, p1))
            }
        },
        None => None,
    }
}

} // verus!

verus! {

// ---------------------------------------------------------------------
// Worker and run records.
// ---------------------------------------------------------------------

/// A worker record, field by field.
pub open spec fn enc_worker(w: WorkerView) -> Seq<u8> {
    enc_u64(w.id) + enc_opt_str(w.runner_name) + enc_str(w.command) + enc_str_list(w.args)
        + enc_str(w.event_type) + enc_opt_str(w.filters) + enc_u32(w.concurrency) + enc_opt_str(
        w.instance_path,
    ) + enc_bool(w.detached) + enc_worker_status(w.status) + enc_u64(w.created_at) + enc_u64(
        w.updated_at,
    )
}

/// The identity half of a run record: ids, event, command, status and
/// outcome.
pub open spec fn enc_run_a(r: RunView) -> Seq<u8> {
    enc_u64(r.id) + enc_u64(r.worker_id) + enc_u64(r.event_id) + enc_str(r.event_type) + enc_str(
        r.entity_id,
    ) + enc_str(r.command) + enc_str_list(r.args) + enc_run_status(r.status) + enc_opt_i32(
        r.exit_code,
    ) + enc_opt_str(r.error_message)
}

/// The bookkeeping half of a run record: attempts, retry time, pid, log
/// path and timestamps.
pub open spec fn enc_run_b(r: RunView) -> Seq<u8> {
    enc_u32(r.attempt) + enc_u32(r.max_attempts) + enc_opt_u64(r.next_retry_at) + enc_opt_u32(
        r.pid,
    ) + enc_opt_str(r.log_path) + enc_opt_u64(r.started_at) + enc_opt_u64(r.completed_at)
        + enc_u64(r.created_at) + enc_u64(r.updated_at)
}

/// A run record, field by field.
pub open spec fn enc_run(r: RunView) -> Seq<u8> {
    enc_run_a(r) + enc_run_b(r)
}

#[verifier::rlimit(100)]
pub fn put_worker(out: &mut Vec<u8>, w: &Worker)
    ensures
        final(out)@ == old(out)@ + enc_worker(w@),
{
    let ghost start = out@;
    put_u64(out, w.id);
    put_opt_str(out, &w.runner_name);
    put_str(out, w.command.as_str());
    put_str_list(out, &w.args);
    put_str(out, w.event_type.as_str());
    put_opt_str(out, &w.filters);
    put_u32(out, w.concurrency);
    put_opt_str(out, &w.instance_path);
    put_bool(out, w.detached);
    put_worker_status(out, w.status);
    put_u64(out, w.created_at);
    put_u64(out, w.updated_at);
    proof {
        assert(out@ =~= start + enc_worker(w@));
    }
}

#[verifier::rlimit(100)]
pub fn put_run(out: &mut Vec<u8>, r: &Run)
    ensures
        final(out)@ == old(out)@ + enc_run(r@),
{
    let ghost start = out@;
    put_u64(out, r.id);
    put_u64(out, r.worker_id);
    put_u64(out, r.event_id);
    put_str(out, r.event_type.as_str());
    put_str(out, r.entity_id.as_str());
    put_str(out, r.command.as_str());
    put_str_list(out, &r.args);
    put_run_status(out, r.status);
    put_opt_i32(out, &r.exit_code);
    put_opt_str(out, &r.error_message);
    proof {
        assert(out@ =~= start + enc_run_a(r@));
    }
    let ghost mid = out@;
    put_u32(out, r.attempt);
    put_u32(out, r.max_attempts);
    put_opt_u64(out, &r.next_retry_at);
    put_opt_u32(out, &r.pid);
    put_opt_str(out, &r.log_path);
    put_opt_u64(out, &r.started_at);
    put_opt_u64(out, &r.completed_at);
    put_u64(out, r.created_at);
    put_u64(out, r.updated_at);
    proof {
        assert(out@ =~= mid + enc_run_b(r@));
        assert(out@ =~= start + enc_run(r@));
    }
}

/// Parse a worker record.  Whatever parses is exactly the encoding of the
/// parsed record (the format is canonical), sitting at the parse position.
#[verifier::rlimit(100)]
pub fn get_worker(buf: &Vec<u8>, pos: usize) -> (r: Option<(Worker, usize)>)
    ensures
        r matches Some(p) ==> pos as int + enc_worker(p.0@).len() == p.1 as int && p.1 <= buf@.len()
            && pos <= p.1 && buf@.subrange(pos as int, p.1 as int) == enc_worker(p.0@),
{
    let (id, p1) = match get_u64(buf, pos) {
        Some(v) => v,
        None => {
            return None;
        },
    };
    let (runner_name, p2) = match get_opt_str(buf, p1) {
        Some(v) => v,
        None => {
            return None;
        },
    };
    let (command, p3) = match get_str(buf, p2) {
        Some(v) => v,
        None => {
            return None;
        },
    };
    let (args, p4) = match get_str_list(buf, p3) {
        Some(v) => v,
        None => {
            return None;
        },
    };
    let (event_type, p5) = match get_str(buf, p4) {
        Some(v) => v,
        None => {
            return None;
        },
    };
    let (filters, p6) = match get_opt_str(buf, p5) {
        Some(v) => v,
        None => {
            return None;
        },
    };
    let (concurrency, p7) = match get_u32(buf, p6) {
        Some(v) => v,
        None => {
            return None;
        },
    };
    let (instance_path, p8) = match get_opt_str(buf, p7) {
        Some(v) => v,
        None => {
            return None;
        },
    };
    let (detached, p9) = match get_bool(buf, p8) {
        Some(v) => v,
        None => {
            return None;
        },
    };
    let (status, p10) = match get_worker_status(buf, p9) {
        Some(v) => v,
        None => {
            return None;
        },
    };
    let (created_at, p11) = match get_u64(buf, p10) {
        Some(v) => v,
        None => {
            return None;
        },
    };
    let (updated_at, p12) = match get_u64(buf, p11) {
        Some(v) => v,
        None => {
            return None;
        },
    };
    let w = Worker {
        id,
        runner_name,
        command,
        args,
        event_type,
        filters,
        concurrency,
        instance_path,
        detached,
        status,
        created_at,
        updated_at,
    };
    proof {
        let b = buf@;
        lemma_sound_u64(b, pos as int);
        lemma_sound_opt_str(b, p1 as int);
        lemma_sound_str(b, p2 as int);
        lemma_sound_str_list(b, p3 as int);
        lemma_sound_str(b, p4 as int);
        lemma_sound_opt_str(b, p5 as int);
        lemma_sound_u32(b, p6 as int);
        lemma_sound_opt_str(b, p7 as int);
        lemma_sound_bool(b, p8 as int);
        lemma_sound_worker_status(b, p9 as int);
        lemma_sound_u64(b, p10 as int);
        lemma_sound_u64(b, p11 as int);
        lemma_chain(b, pos as int, p1 as int, p2 as int);
        lemma_chain(b, pos as int, p2 as int, p3 as int);
        lemma_chain(b, pos as int, p3 as int, p4 as int);
        lemma_chain(b, pos as int, p4 as int, p5 as int);
        lemma_chain(b, pos as int, p5 as int, p6 as int);
        lemma_chain(b, pos as int, p6 as int, p7 as int);
        lemma_chain(b, pos as int, p7 as int, p8 as int);
        lemma_chain(b, pos as int, p8 as int, p9 as int);
        lemma_chain(b, pos as int, p9 as int, p10 as int);
        lemma_chain(b, pos as int, p10 as int, p11 as int);
        lemma_chain(b, pos as int, p11 as int, p12 as int);
        assert(b.subrange(pos as int, p12 as int) == enc_worker(w@));
    }
    Some((w, p12))
}

/// Parse a run record; the same canonical-soundness contract as
/// [`get_worker`].
#[verifier::rlimit(100)]
pub fn get_run(buf: &Vec<u8>, pos: usize) -> (r: Option<(Run, usize)>)
    ensures
        r matches Some(p) ==> pos as int + enc_run(p.0@).len() == p.1 as int && p.1 <= buf@.len()
            && pos <= p.1 && buf@.subrange(pos as int, p.1 as int) == enc_run(p.0@),
{
    let (id, p1) = match get_u64(buf, pos) {
        Some(v) => v,
        None => {
            return None;
        },
    };
    let (worker_id, p2) = match get_u64(buf, p1) {
        Some(v) => v,
        None => {
            return None;
        },
    };
    let (event_id, p3) = match get_u64(buf, p2) {
        Some(v) => v,
        None => {
            return None;
        },
    };
    let (event_type, p4) = match get_str(buf, p3) {
        Some(v) => v,
        None => {
            return None;
        },
    };
    let (entity_id, p5) = match get_str(buf, p4) {
        Some(v) => v,
        None => {
            return None;
        },
    };
    let (command, p6) = match get_str(buf, p5) {
        Some(v) => v,
        None => {
            return None;
        },
    };
    let (args, p7) = match get_str_list(buf, p6) {
        Some(v) => v,
        None => {
            return None;
        },
    };
    let (status, p8) = match get_run_status(buf, p7) {
        Some(v) => v,
        None => {
            return None;
        },
    };
    let (exit_code, p9) = match get_opt_i32(buf, p8) {
        Some(v) => v,
        None => {
            return None;
        },
    };
    let (error_message, p10) = match get_opt_str(buf, p9) {
        Some(v) => v,
        None => {
            return None;
        },
    };
    let (attempt, p11) = match get_u32(buf, p10) {
        Some(v) => v,
        None => {
            return None;
        },
    };
    let (max_attempts, p12) = match get_u32(buf, p11) {
        Some(v) => v,
        None => {
            return None;
        },
    };
    let (next_retry_at, p13) = match get_opt_u64(buf, p12) {
        Some(v) => v,
        None => {
            return None;
        },
    };
    let (pid, p14) = match get_opt_u32(buf, p13) {
        Some(v) => v,
        None => {
            return None;
        },
    };
    let (log_path, p15) = match get_opt_str(buf, p14) {
        Some(v) => v,
        None => {
            return None;
        },
    };
    let (started_at, p16) = match get_opt_u64(buf, p15) {
        Some(v) => v,
        None => {
            return None;
        },
    };
    let (completed_at, p17) = match get_opt_u64(buf, p16) {
        Some(v) => v,
        None => {
            return None;
        },
    };
    let (created_at, p18) = match get_u64(buf, p17) {
        Some(v) => v,
        None => {
            return None;
        },
    };
    let (updated_at, p19) = match get_u64(buf, p18) {
        Some(v) => v,
        None => {
            return None;
        },
    };
    let r = Run {
        id,
        worker_id,
        event_id,
        event_type,
        entity_id,
        command,
        args,
        status,
        exit_code,
        error_message,
        attempt,
        max_attempts,
        next_retry_at,
        pid,
        log_path,
        started_at,
        completed_at,
        created_at,
        updated_at,
    };
    proof {
        let b = buf@;
        lemma_sound_u64(b, pos as int);
        lemma_sound_u64(b, p1 as int);
        lemma_sound_u64(b, p2 as int);
        lemma_sound_str(b, p3 as int);
        lemma_sound_str(b, p4 as int);
        lemma_sound_str(b, p5 as int);
        lemma_sound_str_list(b, p6 as int);
        lemma_sound_run_status(b, p7 as int);
        lemma_sound_opt_i32(b, p8 as int);
        lemma_sound_opt_str(b, p9 as int);
        lemma_sound_u32(b, p10 as int);
        lemma_sound_u32(b, p11 as int);
        lemma_sound_opt_u64(b, p12 as int);
        lemma_sound_opt_u32(b, p13 as int);
        lemma_sound_opt_str(b, p14 as int);
        lemma_sound_opt_u64(b, p15 as int);
        lemma_sound_opt_u64(b, p16 as int);
        lemma_sound_u64(b, p17 as int);
        lemma_sound_u64(b, p18 as int);
        lemma_chain(b, pos as int, p1 as int, p2 as int);
        lemma_chain(b, pos as int, p2 as int, p3 as int);
        lemma_chain(b, pos as int, p3 as int, p4 as int);
        lemma_chain(b, pos as int, p4 as int, p5 as int);
        lemma_chain(b, pos as int, p5 as int, p6 as int);
        lemma_chain(b, pos as int, p6 as int, p7 as int);
        lemma_chain(b, pos as int, p7 as int, p8 as int);
        lemma_chain(b, pos as int, p8 as int, p9 as int);
        lemma_chain(b, pos as int, p9 as int, p10 as int);
        assert(b.subrange(pos as int, p10 as int) == enc_run_a(r@));
        lemma_chain(b, p10 as int, p11 as int, p12 as int);
        lemma_chain(b, p10 as int, p12 as int, p13 as int);
        lemma_chain(b, p10 as int, p13 as int, p14 as int);
        lemma_chain(b, p10 as int, p14 as int, p15 as int);
        lemma_chain(b, p10 as int, p15 as int, p16 as int);
        lemma_chain(b, p10 as int, p16 as int, p17 as int);
        lemma_chain(b, p10 as int, p17 as int, p18 as int);
        lemma_chain(b, p10 as int, p18 as int, p19 as int);
        assert(b.subrange(p10 as int, p19 as int) == enc_run_b(r@));
        lemma_chain(b, pos as int, p10 as int, p19 as int);
        assert(b.subrange(pos as int, p19 as int) == enc_run(r@));
    }
    Some((r, p19))
}

} // verus!

verus! {

// ---------------------------------------------------------------------
// Lists of records.
// ---------------------------------------------------------------------

pub open spec fn enc_worker_elems(ws: Seq<WorkerView>) -> Seq<u8>
    decreases ws.len(),
{
    if ws.len() == 0 {
        Seq::empty()
    } else {
        enc_worker(ws.first()) + enc_worker_elems(ws.drop_first())
    }
}

/// A worker list: a count, then the records.
pub open spec fn enc_worker_list(ws: Seq<WorkerView>) -> Seq<u8> {
    enc_u64(ws.len() as u64) + enc_worker_elems(ws)
}

pub open spec fn enc_run_elems(rs: Seq<RunView>) -> Seq<u8>
    decreases rs.len(),
{
    if rs.len() == 0 {
        Seq::empty()
    } else {
        enc_run(rs.first()) + enc_run_elems(rs.drop_first())
    }
}

/// A run list: a count, then the records.
pub open spec fn enc_run_list(rs: Seq<RunView>) -> Seq<u8> {
    enc_u64(rs.len() as u64) + enc_run_elems(rs)
}

proof fn lemma_enc_worker_elems_push(ws: Seq<WorkerView>, w: WorkerView)
    ensures
        enc_worker_elems(ws.push(w)) == enc_worker_elems(ws) + enc_worker(w),
    decreases ws.len(),
{
    if ws.len() == 0 {
        assert(ws.push(w).first() == w);
        assert(ws.push(w).drop_first() =~= Seq::<WorkerView>::empty());
        assert(enc_worker_elems(ws.push(w).drop_first()) =~= Seq::<u8>::empty());
        assert(enc_worker_elems(ws) =~= Seq::<u8>::empty());
        assert(enc_worker_elems(ws.push(w)) =~= enc_worker_elems(ws) + enc_worker(w));
    } else {
        lemma_enc_worker_elems_push(ws.drop_first(), w);
        assert(ws.push(w).first() == ws.first());
        assert(ws.push(w).drop_first() =~= ws.drop_first().push(w));
        assert(enc_worker_elems(ws.push(w)) =~= enc_worker_elems(ws) + enc_worker(w));
    }
}

proof fn lemma_enc_run_elems_push(rs: Seq<RunView>, r: RunView)
    ensures
        enc_run_elems(rs.push(r)) == enc_run_elems(rs) + enc_run(r),
    decreases rs.len(),
{
    if rs.len() == 0 {
        assert(rs.push(r).first() == r);
        assert(rs.push(r).drop_first() =~= Seq::<RunView>::empty());
        assert(enc_run_elems(rs.push(r).drop_first()) =~= Seq::<u8>::empty());
        assert(enc_run_elems(rs) =~= Seq::<u8>::empty());
        assert(enc_run_elems(rs.push(r)) =~= enc_run_elems(rs) + enc_run(r));
    } else {
        lemma_enc_run_elems_push(rs.drop_first(), r);
        assert(rs.push(r).first() == rs.first());
        assert(rs.push(r).drop_first() =~= rs.drop_first().push(r));
        assert(enc_run_elems(rs.push(r)) =~= enc_run_elems(rs) + enc_run(r));
    }
}

pub fn put_worker_list(out: &mut Vec<u8>, ws: &Vec<Worker>)
    ensures
        final(out)@ == old(out)@ + enc_worker_list(ws.deep_view()),
{
    let ghost start = out@;
    let n: usize = ws.len();
    put_u64(out, n as u64);
    let mut i: usize = 0;
    proof {
        assert(ws.deep_view().take(0) =~= Seq::<WorkerView>::empty());
        assert(out@ =~= start + enc_u64(n as u64) + enc_worker_elems(ws.deep_view().take(0)));
    }
    while i < ws.len()
        invariant
            i <= ws@.len(),
            n == ws@.len(),
            ws.deep_view().len() == ws@.len(),
            out@ == start + enc_u64(n as u64) + enc_worker_elems(ws.deep_view().take(i as int)),
        decreases ws@.len() - i,
    {
        put_worker(out, &ws[i]);
        proof {
            lemma_enc_worker_elems_push(ws.deep_view().take(i as int), ws.deep_view()[i as int]);
            assert(ws.deep_view().take(i + 1) =~= ws.deep_view().take(i as int).push(
                ws.deep_view()[i as int],
            ));
            assert(out@ =~= start + enc_u64(n as u64) + enc_worker_elems(
                ws.deep_view().take(i + 1),
            ));
        }
        i = i + 1;
    }
    proof {
        assert(ws.deep_view().take(ws@.len() as int) =~= ws.deep_view());
        assert(out@ =~= start + enc_worker_list(ws.deep_view()));
    }
}

pub fn put_run_list(out: &mut Vec<u8>, rs: &Vec<Run>)
    ensures
        final(out)@ == old(out)@ + enc_run_list(rs.deep_view()),
{
    let ghost start = out@;
    let n: usize = rs.len();
    put_u64(out, n as u64);
    let mut i: usize = 0;
    proof {
        assert(rs.deep_view().take(0) =~= Seq::<RunView>::empty());
        assert(out@ =~= start + enc_u64(n as u64) + enc_run_elems(rs.deep_view().take(0)));
    }
    while i < rs.len()
        invariant
            i <= rs@.len(),
            n == rs@.len(),
            rs.deep_view().len() == rs@.len(),
            out@ == start + enc_u64(n as u64) + enc_run_elems(rs.deep_view().take(i as int)),
        decreases rs@.len() - i,
    {
        put_run(out, &rs[i]);
        proof {
            lemma_enc_run_elems_push(rs.deep_view().take(i as int), rs.deep_view()[i as int]);
            assert(rs.deep_view().take(i + 1) =~= rs.deep_view().take(i as int).push(
                rs.deep_view()[i as int],
            ));
            assert(out@ =~= start + enc_u64(n as u64) + enc_run_elems(rs.deep_view().take(i + 1)));
        }
        i = i + 1;
    }
    proof {
        assert(rs.deep_view().take(rs@.len() as int) =~= rs.deep_view());
        assert(out@ =~= start + enc_run_list(rs.deep_view()));
    }
}

/// Parse a worker list, with the canonical-soundness contract of
/// [`get_worker`].
pub fn get_worker_list(buf: &Vec<u8>, pos: usize) -> (r: Option<(Vec<Worker>, usize)>)
    ensures
        r matches Some(p) ==> pos as int + enc_worker_list(p.0.deep_view()).len() == p.1 as int
            && p.1 <= buf@.len() && pos <= p.1 && buf@.subrange(pos as int, p.1 as int)
            == enc_worker_list(p.0.deep_view()),
{
    let (n, p1) = match get_u64(buf, pos) {
        Some(v) => v,
        None => {
            return None;
        },
    };
    proof {
        lemma_sound_u64(buf@, pos as int);
    }
    let mut out: Vec<Worker> = Vec::new();
    let mut left = n;
    let mut cur = p1;
    proof {
        assert(out.deep_view() =~= Seq::<WorkerView>::empty());
        assert(enc_worker_elems(out.deep_view()) =~= Seq::<u8>::empty());
        assert(buf@.subrange(p1 as int, p1 as int) =~= Seq::<u8>::empty());
    }
    loop
        invariant
            pos <= p1 <= cur <= buf@.len(),
            p1 == pos + 8,
            buf@.subrange(pos as int, p1 as int) == enc_u64(n),
            out.deep_view().len() + left == n,
            buf@.subrange(p1 as int, cur as int) == enc_worker_elems(out.deep_view()),
        decreases left,
    {
        if left == 0 {
            proof {
                lemma_chain(buf@, pos as int, p1 as int, cur as int);
                assert(out.deep_view().len() as u64 == n);
            }
            return Some((out, cur));
        }
        match get_worker(buf, cur) {
            Some((w, p2)) => {
                let ghost prev = out.deep_view();
                let ghost wv = w@;
                out.push(w);
                proof {
                    assert(out.deep_view() =~= prev.push(wv));
                    lemma_enc_worker_elems_push(prev, wv);
                    lemma_chain(buf@, p1 as int, cur as int, p2 as int);
                }
                cur = p2;
                left = left - 1;
            },
            None => {
                return None;
            },
        }
    }
}

/// Parse a run list, with the canonical-soundness contract of [`get_run`].
pub fn get_run_list(buf: &Vec<u8>, pos: usize) -> (r: Option<(Vec<Run>, usize)>)
    ensures
        r matches Some(p) ==> pos as int + enc_run_list(p.0.deep_view()).len() == p.1 as int && p.1
            <= buf@.len() && pos <= p.1 && buf@.subrange(pos as int, p.1 as int) == enc_run_list(
            p.0.deep_view(),
        ),
{
    let (n, p1) = match get_u64(buf, pos) {
        Some(v) => v,
        None => {
            return None;
        },
    };
    proof {
        lemma_sound_u64(buf@, pos as int);
    }
    let mut out: Vec<Run> = Vec::new();
    let mut left = n;
    let mut cur = p1;
    proof {
        assert(out.deep_view() =~= Seq::<RunView>::empty());
        assert(enc_run_elems(out.deep_view()) =~= Seq::<u8>::empty());
        assert(buf@.subrange(p1 as int, p1 as int) =~= Seq::<u8>::empty());
    }
    loop
        invariant
            pos <= p1 <= cur <= buf@.len(),
            p1 == pos + 8,
            buf@.subrange(pos as int, p1 as int) == enc_u64(n),
            out.deep_view().len() + left == n,
            buf@.subrange(p1 as int, cur as int) == enc_run_elems(out.deep_view()),
        decreases left,
    {
        if left == 0 {
            proof {
                lemma_chain(buf@, pos as int, p1 as int, cur as int);
                assert(out.deep_view().len() as u64 == n);
            }
            return Some((out, cur));
        }
        match get_run(buf, cur) {
            Some((r0, p2)) => {
                let ghost prev = out.deep_view();
                let ghost rv = r0@;
                out.push(r0);
                proof {
                    assert(out.deep_view() =~= prev.push(rv));
                    lemma_enc_run_elems_push(prev, rv);
                    lemma_chain(buf@, p1 as int, cur as int, p2 as int);
                }
                cur = p2;
                left = left - 1;
            },
            None => {
                return None;
            },
        }
    }
}

} // verus!

verus! {

// ---------------------------------------------------------------------
// Requests: operations, fully round-tripped.
// ---------------------------------------------------------------------

pub open spec fn enc_log_target(t: LogTarget) -> Seq<u8> {
    enc_u64(
        match t {
            LogTarget::Worker => 0u64,
            LogTarget::Run => 1u64,
        },
    )
}

pub open spec fn dec_log_target(b: Seq<u8>, pos: int) -> Option<(LogTarget, int)> {
    match dec_u64(b, pos) {
        Some((x, p)) => if x == 0 {
            Some((LogTarget::Worker, p))
        } else if x == 1 {
            Some((LogTarget::Run, p))
        } else {
            None
        },
        None => None,
    }
}

/// A start-worker request, field by field.
pub open spec fn enc_start_req(v: StartWorkerRequestView) -> Seq<u8> {
    enc_opt_str(v.runner_name) + (enc_str(v.command) + (enc_str_list(v.args) + (enc_str(
        v.event_type,
    ) + (enc_opt_str(v.filters) + (enc_opt_u32(v.concurrency) + (enc_opt_str(v.instance_path)
        + enc_bool(v.attach)))))))
}

pub open spec fn dec_start_req(b: Seq<u8>, pos: int) -> Option<(StartWorkerRequestView, int)> {
    match dec_opt_str(b, pos) {
        Some((runner_name, p1)) => match dec_str(b, p1) {
            Some((command, p2)) => match dec_str_list(b, p2) {
                Some((args, p3)) => match dec_str(b, p3) {
                    Some((event_type, p4)) => match dec_opt_str(b, p4) {
                        Some((filters, p5)) => match dec_opt_u32(b, p5) {
                            Some((concurrency, p6)) => match dec_opt_str(b, p6) {
                                Some((instance_path, p7)) => match dec_bool(b, p7) {
                                    Some((attach, p8)) => Some(
                                        (
                                            StartWorkerRequestView {
                                                runner_name,
                                                command,
                                                args,
                                                event_type,
                                                filters,
                                                concurrency,
                                                instance_path,
                                                attach,
                                            },
                                            p8,
                                        ),
                                    ),
                                    None => None,
                                },
                                None => None,
                            },
                            None => None,
                        },
                        None => None,
                    },
                    None => None,
                },
                None => None,
            },
            None => None,
        },
        None => None,
    }
}

/// Whether a string fits the length field of its encoding.
pub open spec fn str_encodable(s: Seq<char>) -> bool {
    encode_utf8(s).len() <= u64::MAX
}

pub open spec fn opt_str_encodable(o: Option<Seq<char>>) -> bool {
    o matches Some(s) ==> str_encodable(s)
}

pub open spec fn str_list_encodable(ss: Seq<Seq<char>>) -> bool {
    ss.len() <= u64::MAX && str_elems_encodable(ss)
}

pub open spec fn start_req_encodable(v: StartWorkerRequestView) -> bool {
    &&& opt_str_encodable(v.runner_name)
    &&& str_encodable(v.command)
    &&& str_list_encodable(v.args)
    &&& str_encodable(v.event_type)
    &&& opt_str_encodable(v.filters)
    &&& opt_str_encodable(v.instance_path)
}

pub proof fn lemma_dec_log_target(b: Seq<u8>, pos: int, t: LogTarget)
    requires
        0 <= pos,
        pos + 8 <= b.len(),
        b.subrange(pos, pos + 8) == enc_log_target(t),
    ensures
        dec_log_target(b, pos) == Some((t, pos + 8)),
{
    match t {
        LogTarget::Worker => lemma_dec_u64(b, pos, 0),
        LogTarget::Run => lemma_dec_u64(b, pos, 1),
    }
}

pub proof fn lemma_dec_start_req(b: Seq<u8>, pos: int, v: StartWorkerRequestView)
    requires
        0 <= pos,
        start_req_encodable(v),
        pos + enc_start_req(v).len() <= b.len(),
        b.subrange(pos, pos + enc_start_req(v).len()) == enc_start_req(v),
    ensures
        dec_start_req(b, pos) == Some((v, pos + enc_start_req(v).len())),
{
    lemma_auto_spec_u64_to_from_le_bytes();
    let e1 = enc_opt_str(v.runner_name);
    let e2 = enc_str(v.command);
    let e3 = enc_str_list(v.args);
    let e4 = enc_str(v.event_type);
    let e5 = enc_opt_str(v.filters);
    let e6 = enc_opt_u32(v.concurrency);
    let e7 = enc_opt_str(v.instance_path);
    let e8 = enc_bool(v.attach);
    let p1 = pos + e1.len();
    lemma_parse_split(b, pos, e1, e2 + (e3 + (e4 + (e5 + (e6 + (e7 + e8))))));
    lemma_dec_opt_str(b, pos, v.runner_name);
    let p2 = p1 + e2.len();
    lemma_parse_split(b, p1, e2, e3 + (e4 + (e5 + (e6 + (e7 + e8)))));
    lemma_dec_str(b, p1, v.command);
    let p3 = p2 + e3.len();
    lemma_parse_split(b, p2, e3, e4 + (e5 + (e6 + (e7 + e8))));
    lemma_dec_str_list(b, p2, v.args);
    let p4 = p3 + e4.len();
    lemma_parse_split(b, p3, e4, e5 + (e6 + (e7 + e8)));
    lemma_dec_str(b, p3, v.event_type);
    let p5 = p4 + e5.len();
    lemma_parse_split(b, p4, e5, e6 + (e7 + e8));
    lemma_dec_opt_str(b, p4, v.filters);
    let p6 = p5 + e6.len();
    lemma_parse_split(b, p5, e6, e7 + e8);
    lemma_dec_opt_u32(b, p5, v.concurrency);
    let p7 = p6 + e7.len();
    lemma_parse_split(b, p6, e7, e8);
    lemma_dec_opt_str(b, p6, v.instance_path);
    lemma_dec_bool(b, p7, v.attach);
}

/// A log-retrieval request, field by field.
pub open spec fn enc_getlogs_req(v: GetLogsRequestView) -> Seq<u8> {
    enc_u64(v.target_id) + (enc_log_target(v.target_type) + (enc_u64(v.since_line) + enc_u64(
        v.limit,
    )))
}

pub open spec fn dec_getlogs_req(b: Seq<u8>, pos: int) -> Option<(GetLogsRequestView, int)> {
    match dec_u64(b, pos) {
        Some((target_id, p1)) => match dec_log_target(b, p1) {
            Some((target_type, p2)) => match dec_u64(b, p2) {
                Some((since_line, p3)) => match dec_u64(b, p3) {
                    Some((limit, p4)) => Some(
                        (GetLogsRequestView { target_id, target_type, since_line, limit }, p4),
                    ),
                    None => None,
                },
                None => None,
            },
            None => None,
        },
        None => None,
    }
}

pub proof fn lemma_dec_getlogs_req(b: Seq<u8>, pos: int, v: GetLogsRequestView)
    requires
        0 <= pos,
        pos + 32 <= b.len(),
        b.subrange(pos, pos + 32) == enc_getlogs_req(v),
    ensures
        dec_getlogs_req(b, pos) == Some((v, pos + 32)),
{
    lemma_auto_spec_u64_to_from_le_bytes();
    let e1 = enc_u64(v.target_id);
    let e2 = enc_log_target(v.target_type);
    let e3 = enc_u64(v.since_line);
    let e4 = enc_u64(v.limit);
    lemma_parse_split(b, pos, e1, e2 + (e3 + e4));
    lemma_dec_u64(b, pos, v.target_id);
    lemma_parse_split(b, pos + 8, e2, e3 + e4);
    lemma_dec_log_target(b, pos + 8, v.target_type);
    lemma_parse_split(b, pos + 16, e3, e4);
    lemma_dec_u64(b, pos + 16, v.since_line);
    lemma_dec_u64(b, pos + 24, v.limit);
}

} // verus!

verus! {

/// An operation: a tag, then its parameters.
pub open spec fn enc_op(o: OperationView) -> Seq<u8> {
    match o {
        OperationView::Ping => enc_u64(0),
        OperationView::Shutdown => enc_u64(1),
        OperationView::StartWorker { req } => enc_u64(2) + enc_start_req(req),
        OperationView::StopWorker { worker_id, stop_runs } => enc_u64(3) + (enc_u64(worker_id)
            + enc_bool(stop_runs)),
        OperationView::GetWorker { worker_id } => enc_u64(4) + enc_u64(worker_id),
        OperationView::ListWorkers { all } => enc_u64(5) + enc_bool(all),
        OperationView::PruneWorkers => enc_u64(6),
        OperationView::WorkerLogs { worker_id, lines } => enc_u64(7) + (enc_u64(worker_id)
            + enc_u64(lines)),
        OperationView::GetRun { run_id } => enc_u64(8) + enc_u64(run_id),
        OperationView::ListRuns { worker_id, status, all } => enc_u64(9) + (enc_opt_u64(worker_id)
            + (enc_opt_run_status(status) + enc_bool(all))),
        OperationView::StopRun { run_id } => enc_u64(10) + enc_u64(run_id),
        OperationView::PauseRun { run_id } => enc_u64(11) + enc_u64(run_id),
        OperationView::ResumeRun { run_id } => enc_u64(12) + enc_u64(run_id),
        OperationView::RunLogs { run_id, lines } => enc_u64(13) + (enc_u64(run_id) + enc_u64(
            lines,
        )),
        OperationView::GetLogs { req } => enc_u64(14) + enc_getlogs_req(req),
    }
}

pub open spec fn dec_op(b: Seq<u8>, pos: int) -> Option<(OperationView, int)> {
    match dec_u64(b, pos) {
        Some((tag, p1)) => if tag == 0 {
            Some((OperationView::Ping, p1))
        } else if tag == 1 {
            Some((OperationView::Shutdown, p1))
        } else if tag == 2 {
            match dec_start_req(b, p1) {
                Some((req, p2)) => Some((OperationView::StartWorker { req }, p2)),
                None => None,
            }
        } else if tag == 3 {
            match dec_u64(b, p1) {
                Some((worker_id, p2)) => match dec_bool(b, p2) {
                    Some((stop_runs, p3)) => Some(
                        (OperationView::StopWorker { worker_id, stop_runs }, p3),
                    ),
                    None => None,
                },
                None => None,
            }
        } else if tag == 4 {
            match dec_u64(b, p1) {
                Some((worker_id, p2)) => Some((OperationView::GetWorker { worker_id }, p2)),
                None => None,
            }
        } else if tag == 5 {
            match dec_bool(b, p1) {
                Some((all, p2)) => Some((OperationView::ListWorkers { all }, p2)),
                None => None,
            }
        } else if tag == 6 {
            Some((OperationView::PruneWorkers, p1))
        } else if tag == 7 {
            match dec_u64(b, p1) {
                Some((worker_id, p2)) => match dec_u64(b, p2) {
                    Some((lines, p3)) => Some((OperationView::WorkerLogs { worker_id, lines }, p3)),
                    None => None,
                },
                None => None,
            }
        } else if tag == 8 {
            match dec_u64(b, p1) {
                Some((run_id, p2)) => Some((OperationView::GetRun { run_id }, p2)),
                None => None,
            }
        } else if tag == 9 {
            match dec_opt_u64(b, p1) {
                Some((worker_id, p2)) => match dec_opt_run_status(b, p2) {
                    Some((status, p3)) => match dec_bool(b, p3) {
                        Some((all, p4)) => Some(
                            (OperationView::ListRuns { worker_id, status, all }, p4),
                        ),
                        None => None,
                    },
                    None => None,
                },
                None => None,
            }
        } else if tag == 10 {
            match dec_u64(b, p1) {
                Some((run_id, p2)) => Some((OperationView::StopRun { run_id }, p2)),
                None => None,
            }
        } else if tag == 11 {
            match dec_u64(b, p1) {
                Some((run_id, p2)) => Some((OperationView::PauseRun { run_id }, p2)),
                None => None,
            }
        } else if tag == 12 {
            match dec_u64(b, p1) {
                Some((run_id, p2)) => Some((OperationView::ResumeRun { run_id }, p2)),
                None => None,
            }
        } else if tag == 13 {
            match dec_u64(b, p1) {
                Some((run_id, p2)) => match dec_u64(b, p2) {
                    Some((lines, p3)) => Some((OperationView::RunLogs { run_id, lines }, p3)),
                    None => None,
                },
                None => None,
            }
        } else if tag == 14 {
            match dec_getlogs_req(b, p1) {
                Some((req, p2)) => Some((OperationView::GetLogs { req }, p2)),
                None => None,
            }
        } else {
            None
        },
        None => None,
    }
}

/// Whether an operation's strings fit their length fields.
pub open spec fn op_encodable(o: OperationView) -> bool {
    o matches OperationView::StartWorker { req } ==> start_req_encodable(req)
}

pub proof fn lemma_dec_op(b: Seq<u8>, pos: int, o: OperationView)
    requires
        0 <= pos,
        op_encodable(o),
        pos + enc_op(o).len() <= b.len(),
        b.subrange(pos, pos + enc_op(o).len()) == enc_op(o),
    ensures
        dec_op(b, pos) == Some((o, pos + enc_op(o).len())),
{
    lemma_auto_spec_u64_to_from_le_bytes();
    match o {
        OperationView::Ping => {
            lemma_dec_u64(b, pos, 0);
        },
        OperationView::Shutdown => {
            lemma_dec_u64(b, pos, 1);
        },
        OperationView::StartWorker { req } => {
            lemma_parse_split(b, pos, enc_u64(2), enc_start_req(req));
            lemma_dec_u64(b, pos, 2);
            lemma_dec_start_req(b, pos + 8, req);
        },
        OperationView::StopWorker { worker_id, stop_runs } => {
            lemma_parse_split(b, pos, enc_u64(3), enc_u64(worker_id) + enc_bool(stop_runs));
            lemma_dec_u64(b, pos, 3);
            lemma_parse_split(b, pos + 8, enc_u64(worker_id), enc_bool(stop_runs));
            lemma_dec_u64(b, pos + 8, worker_id);
            lemma_dec_bool(b, pos + 16, stop_runs);
        },
        OperationView::GetWorker { worker_id } => {
            lemma_parse_split(b, pos, enc_u64(4), enc_u64(worker_id));
            lemma_dec_u64(b, pos, 4);
            lemma_dec_u64(b, pos + 8, worker_id);
        },
        OperationView::ListWorkers { all } => {
            lemma_parse_split(b, pos, enc_u64(5), enc_bool(all));
            lemma_dec_u64(b, pos, 5);
            lemma_dec_bool(b, pos + 8, all);
        },
        OperationView::PruneWorkers => {
            lemma_dec_u64(b, pos, 6);
        },
        OperationView::WorkerLogs { worker_id, lines } => {
            lemma_parse_split(b, pos, enc_u64(7), enc_u64(worker_id) + enc_u64(lines));
            lemma_dec_u64(b, pos, 7);
            lemma_parse_split(b, pos + 8, enc_u64(worker_id), enc_u64(lines));
            lemma_dec_u64(b, pos + 8, worker_id);
            lemma_dec_u64(b, pos + 16, lines);
        },
        OperationView::GetRun { run_id } => {
            lemma_parse_split(b, pos, enc_u64(8), enc_u64(run_id));
            lemma_dec_u64(b, pos, 8);
            lemma_dec_u64(b, pos + 8, run_id);
        },
        OperationView::ListRuns { worker_id, status, all } => {
            lemma_parse_split(
                b,
                pos,
                enc_u64(9),
                enc_opt_u64(worker_id) + (enc_opt_run_status(status) + enc_bool(all)),
            );
            lemma_dec_u64(b, pos, 9);
            let p1 = pos + 8;
            lemma_parse_split(
                b,
                p1,
                enc_opt_u64(worker_id),
                enc_opt_run_status(status) + enc_bool(all),
            );
            lemma_dec_opt_u64(b, p1, worker_id);
            let p2 = p1 + enc_opt_u64(worker_id).len();
            lemma_parse_split(b, p2, enc_opt_run_status(status), enc_bool(all));
            lemma_dec_opt_run_status(b, p2, status);
            let p3 = p2 + enc_opt_run_status(status).len();
            lemma_dec_bool(b, p3, all);
        },
        OperationView::StopRun { run_id } => {
            lemma_parse_split(b, pos, enc_u64(10), enc_u64(run_id));
            lemma_dec_u64(b, pos, 10);
            lemma_dec_u64(b, pos + 8, run_id);
        },
        OperationView::PauseRun { run_id } => {
            lemma_parse_split(b, pos, enc_u64(11), enc_u64(run_id));
            lemma_dec_u64(b, pos, 11);
            lemma_dec_u64(b, pos + 8, run_id);
        },
        OperationView::ResumeRun { run_id } => {
            lemma_parse_split(b, pos, enc_u64(12), enc_u64(run_id));
            lemma_dec_u64(b, pos, 12);
            lemma_dec_u64(b, pos + 8, run_id);
        },
        OperationView::RunLogs { run_id, lines } => {
            lemma_parse_split(b, pos, enc_u64(13), enc_u64(run_id) + enc_u64(lines));
            lemma_dec_u64(b, pos, 13);
            lemma_parse_split(b, pos + 8, enc_u64(run_id), enc_u64(lines));
            lemma_dec_u64(b, pos + 8, run_id);
            lemma_dec_u64(b, pos + 16, lines);
        },
        OperationView::GetLogs { req } => {
            lemma_parse_split(b, pos, enc_u64(14), enc_getlogs_req(req));
            lemma_dec_u64(b, pos, 14);
            lemma_dec_getlogs_req(b, pos + 8, req);
        },
    }
}

/// A request: the correlation id, then the operation.
pub open spec fn enc_request(rv: RequestView) -> Seq<u8> {
    enc_u64(rv.id) + enc_op(rv.op)
}

pub open spec fn dec_request(b: Seq<u8>, pos: int) -> Option<(RequestView, int)> {
    match dec_u64(b, pos) {
        Some((id, p1)) => match dec_op(b, p1) {
            Some((op, p2)) => Some((RequestView { id, op }, p2)),
            None => None,
        },
        None => None,
    }
}

pub open spec fn request_encodable(rv: RequestView) -> bool {
    op_encodable(rv.op)
}

/// The protocol's round-trip guarantee, request side: parsing the
/// encoding of any encodable request yields exactly that request and
/// consumes the whole encoding.
pub proof fn lemma_request_round_trip(rv: RequestView)
    requires
        request_encodable(rv),
    ensures
        dec_request(enc_request(rv), 0) == Some((rv, enc_request(rv).len() as int)),
{
    let b = enc_request(rv);
    lemma_auto_spec_u64_to_from_le_bytes();
    assert(b.subrange(0, b.len() as int) =~= b);
    lemma_parse_split(b, 0, enc_u64(rv.id), enc_op(rv.op));
    lemma_dec_u64(b, 0, rv.id);
    lemma_dec_op(b, 8, rv.op);
}

} // verus!

verus! {

// ---------------------------------------------------------------------
// Executable request codec.
// ---------------------------------------------------------------------

pub fn put_log_target(out: &mut Vec<u8>, t: LogTarget)
    ensures
        final(out)@ == old(out)@ + enc_log_target(t),
{
    let tag: u64 = match t {
        LogTarget::Worker => 0,
        LogTarget::Run => 1,
    };
    put_u64(out, tag);
}

pub fn get_log_target(buf: &Vec<u8>, pos: usize) -> (r: Option<(LogTarget, usize)>)
    ensures
        match r {
            Some((t, p)) => dec_log_target(buf@, pos as int) == Some((t, p as int)),
            None => dec_log_target(buf@, pos as int) is None,
        },
{
    match get_u64(buf, pos) {
        Some((x, p)) => {
            if x == 0 {
                Some((LogTarget::Worker, p))
            } else if x == 1 {
                Some((LogTarget::Run, p))
            } else {
                None
            }
        },
        None => None,
    }
}

pub fn put_start_req(out: &mut Vec<u8>, v: &StartWorkerRequest)
    ensures
        final(out)@ == old(out)@ + enc_start_req(v@),
{
    let ghost start = out@;
    put_opt_str(out, &v.runner_name);
    let ghost s1 = out@;
    put_str(out, v.command.as_str());
    let ghost s2 = out@;
    put_str_list(out, &v.args);
    let ghost s3 = out@;
    put_str(out, v.event_type.as_str());
    let ghost s4 = out@;
    put_opt_str(out, &v.filters);
    let ghost s5 = out@;
    put_opt_u32(out, &v.concurrency);
    let ghost s6 = out@;
    put_opt_str(out, &v.instance_path);
    let ghost s7 = out@;
    put_bool(out, v.attach);
    proof {
        let e1 = enc_opt_str(v@.runner_name);
        let e2 = enc_str(v@.command);
        let e3 = enc_str_list(v@.args);
        let e4 = enc_str(v@.event_type);
        let e5 = enc_opt_str(v@.filters);
        let e6 = enc_opt_u32(v@.concurrency);
        let e7 = enc_opt_str(v@.instance_path);
        let e8 = enc_bool(v@.attach);
        assert(out@ =~= s6 + (e7 + e8));
        assert(out@ =~= s5 + (e6 + (e7 + e8)));
        assert(out@ =~= s4 + (e5 + (e6 + (e7 + e8))));
        assert(out@ =~= s3 + (e4 + (e5 + (e6 + (e7 + e8)))));
        assert(out@ =~= s2 + (e3 + (e4 + (e5 + (e6 + (e7 + e8))))));
        assert(out@ =~= s1 + (e2 + (e3 + (e4 + (e5 + (e6 + (e7 + e8)))))));
        assert(out@ =~= start + enc_start_req(v@));
    }
}

pub fn get_start_req(buf: &Vec<u8>, pos: usize) -> (r: Option<(StartWorkerRequest, usize)>)
    ensures
        match r {
            Some(p) => (dec_start_req(buf@, pos as int) matches Some(q) && p.0@ == q.0 && p.1 as int
                == q.1),
            None => dec_start_req(buf@, pos as int) is None,
        },
{
    let (runner_name, p1) = match get_opt_str(buf, pos) {
        Some(v) => v,
        None => {
            return None;
        },
    };
    let (command, p2) = match get_str(buf, p1) {
        Some(v) => v,
        None => {
            return None;
        },
    };
    let (args, p3) = match get_str_list(buf, p2) {
        Some(v) => v,
        None => {
            return None;
        },
    };
    let (event_type, p4) = match get_str(buf, p3) {
        Some(v) => v,
        None => {
            return None;
        },
    };
    let (filters, p5) = match get_opt_str(buf, p4) {
        Some(v) => v,
        None => {
            return None;
        },
    };
    let (concurrency, p6) = match get_opt_u32(buf, p5) {
        Some(v) => v,
        None => {
            return None;
        },
    };
    let (instance_path, p7) = match get_opt_str(buf, p6) {
        Some(v) => v,
        None => {
            return None;
        },
    };
    let (attach, p8) = match get_bool(buf, p7) {
        Some(v) => v,
        None => {
            return None;
        },
    };
    Some(
        (
            StartWorkerRequest {
                runner_name,
                command,
                args,
                event_type,
                filters,
                concurrency,
                instance_path,
                attach,
            },
            p8,
        ),
    )
}

pub fn get_getlogs_req(buf: &Vec<u8>, pos: usize) -> (r: Option<(GetLogsRequest, usize)>)
    ensures
        match r {
            Some(p) => dec_getlogs_req(buf@, pos as int) == Some((p.0@, p.1 as int)),
            None => dec_getlogs_req(buf@, pos as int) is None,
        },
{
    let (target_id, p1) = match get_u64(buf, pos) {
        Some(v) => v,
        None => {
            return None;
        },
    };
    let (target_type, p2) = match get_log_target(buf, p1) {
        Some(v) => v,
        None => {
            return None;
        },
    };
    let (since_line, p3) = match get_u64(buf, p2) {
        Some(v) => v,
        None => {
            return None;
        },
    };
    let (limit, p4) = match get_u64(buf, p3) {
        Some(v) => v,
        None => {
            return None;
        },
    };
    Some((GetLogsRequest { target_id, target_type, since_line, limit }, p4))
}

pub fn put_getlogs_req(out: &mut Vec<u8>, v: &GetLogsRequest)
    ensures
        final(out)@ == old(out)@ + enc_getlogs_req(v@),
{
    let ghost start = out@;
    put_u64(out, v.target_id);
    put_log_target(out, v.target_type);
    put_u64(out, v.since_line);
    put_u64(out, v.limit);
    proof {
        assert(out@ =~= start + enc_getlogs_req(v@));
    }
}

#[verifier::rlimit(100)]
pub fn put_op(out: &mut Vec<u8>, o: &Operation)
    ensures
        final(out)@ == old(out)@ + enc_op(o@),
{
    let ghost start = out@;
    match o {
        Operation::Ping => {
            put_u64(out, 0);
        },
        Operation::Shutdown => {
            put_u64(out, 1);
        },
        Operation::StartWorker(req) => {
            put_u64(out, 2);
            put_start_req(out, req);
        },
        Operation::StopWorker { worker_id, stop_runs } => {
            put_u64(out, 3);
            put_u64(out, *worker_id);
            put_bool(out, *stop_runs);
        },
        Operation::GetWorker { worker_id } => {
            put_u64(out, 4);
            put_u64(out, *worker_id);
        },
        Operation::ListWorkers { all } => {
            put_u64(out, 5);
            put_bool(out, *all);
        },
        Operation::PruneWorkers => {
            put_u64(out, 6);
        },
        Operation::WorkerLogs { worker_id, lines } => {
            put_u64(out, 7);
            put_u64(out, *worker_id);
            put_u64(out, *lines);
        },
        Operation::GetRun { run_id } => {
            put_u64(out, 8);
            put_u64(out, *run_id);
        },
        Operation::ListRuns { worker_id, status, all } => {
            put_u64(out, 9);
            put_opt_u64(out, worker_id);
            put_opt_run_status(out, status);
            put_bool(out, *all);
        },
        Operation::StopRun { run_id } => {
            put_u64(out, 10);
            put_u64(out, *run_id);
        },
        Operation::PauseRun { run_id } => {
            put_u64(out, 11);
            put_u64(out, *run_id);
        },
        Operation::ResumeRun { run_id } => {
            put_u64(out, 12);
            put_u64(out, *run_id);
        },
        Operation::RunLogs { run_id, lines } => {
            put_u64(out, 13);
            put_u64(out, *run_id);
            put_u64(out, *lines);
        },
        Operation::GetLogs(req) => {
            put_u64(out, 14);
            put_getlogs_req(out, req);
        },
    }
    proof {
        assert(out@ =~= start + enc_op(o@));
    }
}

#[verifier::rlimit(100)]
pub fn get_op(buf: &Vec<u8>, pos: usize) -> (r: Option<(Operation, usize)>)
    ensures
        match r {
            Some(p) => (dec_op(buf@, pos as int) matches Some(q) && p.0@ == q.0 && p.1 as int
                == q.1),
            None => dec_op(buf@, pos as int) is None,
        },
{
    let (tag, p1) = match get_u64(buf, pos) {
        Some(v) => v,
        None => {
            return None;
        },
    };
    if tag == 0 {
        Some((Operation::Ping, p1))
    } else if tag == 1 {
        Some((Operation::Shutdown, p1))
    } else if tag == 2 {
        match get_start_req(buf, p1) {
            Some((req, p2)) => Some((Operation::StartWorker(req), p2)),
            None => None,
        }
    } else if tag == 3 {
        match get_u64(buf, p1) {
            Some((worker_id, p2)) => match get_bool(buf, p2) {
                Some((stop_runs, p3)) => Some((Operation::StopWorker { worker_id, stop_runs }, p3)),
                None => None,
            },
            None => None,
        }
    } else if tag == 4 {
        match get_u64(buf, p1) {
            Some((worker_id, p2)) => Some((Operation::GetWorker { worker_id }, p2)),
            None => None,
        }
    } else if tag == 5 {
        match get_bool(buf, p1) {
            Some((all, p2)) => Some((Operation::ListWorkers { all }, p2)),
            None => None,
        }
    } else if tag == 6 {
        Some((Operation::PruneWorkers, p1))
    } else if tag == 7 {
        match get_u64(buf, p1) {
            Some((worker_id, p2)) => match get_u64(buf, p2) {
                Some((lines, p3)) => Some((Operation::WorkerLogs { worker_id, lines }, p3)),
                None => None,
            },
            None => None,
        }
    } else if tag == 8 {
        match get_u64(buf, p1) {
            Some((run_id, p2)) => Some((Operation::GetRun { run_id }, p2)),
            None => None,
        }
    } else if tag == 9 {
        match get_opt_u64(buf, p1) {
            Some((worker_id, p2)) => match get_opt_run_status(buf, p2) {
                Some((status, p3)) => match get_bool(buf, p3) {
                    Some((all, p4)) => Some((Operation::ListRuns { worker_id, status, all }, p4)),
                    None => None,
                },
                None => None,
            },
            None => None,
        }
    } else if tag == 10 {
        match get_u64(buf, p1) {
            Some((run_id, p2)) => Some((Operation::StopRun { run_id }, p2)),
            None => None,
        }
    } else if tag == 11 {
        match get_u64(buf, p1) {
            Some((run_id, p2)) => Some((Operation::PauseRun { run_id }, p2)),
            None => None,
        }
    } else if tag == 12 {
        match get_u64(buf, p1) {
            Some((run_id, p2)) => Some((Operation::ResumeRun { run_id }, p2)),
            None => None,
        }
    } else if tag == 13 {
        match get_u64(buf, p1) {
            Some((run_id, p2)) => match get_u64(buf, p2) {
                Some((lines, p3)) => Some((Operation::RunLogs { run_id, lines }, p3)),
                None => None,
            },
            None => None,
        }
    } else if tag == 14 {
        match get_getlogs_req(buf, p1) {
            Some((req, p2)) => Some((Operation::GetLogs(req), p2)),
            None => None,
        }
    } else {
        None
    }
}

/// Encode one request.
pub fn encode_request(req: &Request) -> (out: Vec<u8>)
    ensures
        out@ == enc_request(req@),
{
    let mut out: Vec<u8> = Vec::new();
    put_u64(&mut out, req.id);
    put_op(&mut out, &req.op);
    proof {
        assert(out@ =~= enc_request(req@));
    }
    out
}

/// Parse one complete request message: the whole buffer must be exactly
/// one encoded request.
pub fn decode_request(buf: &Vec<u8>) -> (r: Option<Request>)
    ensures
        match r {
            Some(req) => (dec_request(buf@, 0) matches Some(q) && req@ == q.0 && q.1
                == buf@.len()),
            None => dec_request(buf@, 0) is None || (dec_request(buf@, 0) matches Some(q) && q.1
                != buf@.len()),
        },
{
    let (id, p1) = match get_u64(buf, 0) {
        Some(v) => v,
        None => {
            return None;
        },
    };
    let (op, p2) = match get_op(buf, p1) {
        Some(v) => v,
        None => {
            return None;
        },
    };
    if p2 == buf.len() {
        Some(Request { id, op })
    } else {
        None
    }
}

} // verus!

verus! {

// ---------------------------------------------------------------------
// Responses and framing.
// ---------------------------------------------------------------------

/// A payload: a tag, then its contents.
pub open spec fn enc_payload(p: PayloadView) -> Seq<u8> {
    match p {
        PayloadView::Empty => enc_u64(0),
        PayloadView::Ack => enc_u64(1),
        PayloadView::Pong { version } => enc_u64(2) + enc_str(version),
        PayloadView::WorkerRecord { worker } => enc_u64(3) + enc_worker(worker),
        PayloadView::WorkerList { workers } => enc_u64(4) + enc_worker_list(workers),
        PayloadView::RunRecord { run } => enc_u64(5) + enc_run(run),
        PayloadView::RunList { runs } => enc_u64(6) + enc_run_list(runs),
        PayloadView::LogText { content, note } => enc_u64(7) + (enc_str(content) + enc_opt_str(
            note,
        )),
        PayloadView::LogPage { lines, next_line } => enc_u64(8) + (enc_str_list(lines) + enc_u64(
            next_line,
        )),
    }
}

/// A response: the correlation id, a success flag, then the payload or
/// the error message.
pub open spec fn enc_response(rv: ResponseView) -> Seq<u8> {
    enc_u64(rv.id) + match rv.result {
        Ok(p) => enc_bool(true) + enc_payload(p),
        Err(m) => enc_bool(false) + enc_str(m),
    }
}

#[verifier::rlimit(100)]
pub fn put_payload(out: &mut Vec<u8>, p: &Payload)
    ensures
        final(out)@ == old(out)@ + enc_payload(p@),
{
    let ghost start = out@;
    match p {
        Payload::Empty => {
            put_u64(out, 0);
        },
        Payload::Ack => {
            put_u64(out, 1);
        },
        Payload::Pong { version } => {
            put_u64(out, 2);
            put_str(out, version.as_str());
        },
        Payload::WorkerRecord(w) => {
            put_u64(out, 3);
            put_worker(out, w);
        },
        Payload::WorkerList(ws) => {
            put_u64(out, 4);
            put_worker_list(out, ws);
        },
        Payload::RunRecord(r) => {
            put_u64(out, 5);
            put_run(out, r);
        },
        Payload::RunList(rs) => {
            put_u64(out, 6);
            put_run_list(out, rs);
        },
        Payload::LogText { content, note } => {
            put_u64(out, 7);
            put_str(out, content.as_str());
            put_opt_str(out, note);
        },
        Payload::LogPage { lines, next_line } => {
            put_u64(out, 8);
            put_str_list(out, lines);
            put_u64(out, *next_line);
        },
    }
    proof {
        assert(out@ =~= start + enc_payload(p@));
    }
}

/// Encode one response.
pub fn encode_response(resp: &Response) -> (out: Vec<u8>)
    ensures
        out@ == enc_response(resp@),
{
    let mut out: Vec<u8> = Vec::new();
    put_u64(&mut out, resp.id);
    match &resp.result {
        Ok(p) => {
            put_bool(&mut out, true);
            put_payload(&mut out, p);
        },
        Err(m) => {
            put_bool(&mut out, false);
            put_str(&mut out, m.as_str());
        },
    }
    proof {
        assert(out@ =~= enc_response(resp@));
    }
    out
}

/// Parse a payload.  Whatever parses is exactly the encoding of the
/// parsed payload, sitting at the parse position.
#[verifier::rlimit(100)]
pub fn get_payload(buf: &Vec<u8>, pos: usize) -> (r: Option<(Payload, usize)>)
    ensures
        r matches Some(p) ==> pos as int + enc_payload(p.0@).len() == p.1 as int && p.1
            <= buf@.len() && pos <= p.1 && buf@.subrange(pos as int, p.1 as int) == enc_payload(
            p.0@,
        ),
{
    let (tag, p1) = match get_u64(buf, pos) {
        Some(v) => v,
        None => {
            return None;
        },
    };
    proof {
        lemma_sound_u64(buf@, pos as int);
    }
    if tag == 0 {
        Some((Payload::Empty, p1))
    } else if tag == 1 {
        Some((Payload::Ack, p1))
    } else if tag == 2 {
        match get_str(buf, p1) {
            Some((version, p2)) => {
                proof {
                    lemma_sound_str(buf@, p1 as int);
                    lemma_chain(buf@, pos as int, p1 as int, p2 as int);
                }
                Some((Payload::Pong { version }, p2))
            },
            None => None,
        }
    } else if tag == 3 {
        match get_worker(buf, p1) {
            Some((w, p2)) => {
                proof {
                    lemma_chain(buf@, pos as int, p1 as int, p2 as int);
                }
                Some((Payload::WorkerRecord(w), p2))
            },
            None => None,
        }
    } else if tag == 4 {
        match get_worker_list(buf, p1) {
            Some((ws, p2)) => {
                proof {
                    lemma_chain(buf@, pos as int, p1 as int, p2 as int);
                }
                Some((Payload::WorkerList(ws), p2))
            },
            None => None,
        }
    } else if tag == 5 {
        match get_run(buf, p1) {
            Some((r0, p2)) => {
                proof {
                    lemma_chain(buf@, pos as int, p1 as int, p2 as int);
                }
                Some((Payload::RunRecord(r0), p2))
            },
            None => None,
        }
    } else if tag == 6 {
        match get_run_list(buf, p1) {
            Some((rs, p2)) => {
                proof {
                    lemma_chain(buf@, pos as int, p1 as int, p2 as int);
                }
                Some((Payload::RunList(rs), p2))
            },
            None => None,
        }
    } else if tag == 7 {
        match get_str(buf, p1) {
            Some((content, p2)) => match get_opt_str(buf, p2) {
                Some((note, p3)) => {
                    proof {
                        lemma_sound_str(buf@, p1 as int);
                        lemma_sound_opt_str(buf@, p2 as int);
                        lemma_chain(buf@, p1 as int, p2 as int, p3 as int);
                        lemma_chain(buf@, pos as int, p1 as int, p3 as int);
                    }
                    Some((Payload::LogText { content, note }, p3))
                },
                None => None,
            },
            None => None,
        }
    } else if tag == 8 {
        match get_str_list(buf, p1) {
            Some((lines, p2)) => match get_u64(buf, p2) {
                Some((next_line, p3)) => {
                    proof {
                        lemma_sound_str_list(buf@, p1 as int);
                        lemma_sound_u64(buf@, p2 as int);
                        lemma_chain(buf@, p1 as int, p2 as int, p3 as int);
                        lemma_chain(buf@, pos as int, p1 as int, p3 as int);
                    }
                    Some((Payload::LogPage { lines, next_line }, p3))
                },
                None => None,
            },
            None => None,
        }
    } else {
        None
    }
}

/// Parse one complete response message: the whole buffer must be exactly
/// one encoded response, and what parses is exactly the encoding of the
/// parsed response.
pub fn decode_response(buf: &Vec<u8>) -> (r: Option<Response>)
    ensures
        r matches Some(resp) ==> buf@ == enc_response(resp@),
{
    let (id, p1) = match get_u64(buf, 0) {
        Some(v) => v,
        None => {
            return None;
        },
    };
    proof {
        lemma_sound_u64(buf@, 0);
    }
    let (ok, p2) = match get_bool(buf, p1) {
        Some(v) => v,
        None => {
            return None;
        },
    };
    proof {
        lemma_sound_bool(buf@, p1 as int);
    }
    if ok {
        match get_payload(buf, p2) {
            Some((payload, p3)) => {
                if p3 == buf.len() {
                    let resp = Response { id, result: Ok(payload) };
                    proof {
                        lemma_chain(buf@, p1 as int, p2 as int, p3 as int);
                        lemma_chain(buf@, 0, p1 as int, p3 as int);
                        assert(buf@.subrange(0, buf@.len() as int) =~= buf@);
                        assert(buf@ == enc_response(resp@));
                    }
                    Some(resp)
                } else {
                    None
                }
            },
            None => None,
        }
    } else {
        match get_str(buf, p2) {
            Some((message, p3)) => {
                if p3 == buf.len() {
                    let resp = Response { id, result: Err(message) };
                    proof {
                        lemma_sound_str(buf@, p2 as int);
                        lemma_chain(buf@, p1 as int, p2 as int, p3 as int);
                        lemma_chain(buf@, 0, p1 as int, p3 as int);
                        assert(buf@.subrange(0, buf@.len() as int) =~= buf@);
                        assert(buf@ == enc_response(resp@));
                    }
                    Some(resp)
                } else {
                    None
                }
            },
            None => None,
        }
    }
}

/// A framed message: the payload's byte count, then the payload.
pub open spec fn enc_frame(payload: Seq<u8>) -> Seq<u8> {
    enc_u64(payload.len() as u64) + payload
}

/// Frame one message for the stream.
pub fn frame_message(payload: &Vec<u8>) -> (out: Vec<u8>)
    ensures
        out@ == enc_frame(payload@),
{
    let mut out: Vec<u8> = Vec::new();
    let n: usize = payload.len();
    put_u64(&mut out, n as u64);
    let mut body = slice_to_vec(payload.as_slice());
    out.append(&mut body);
    proof {
        assert(out@ =~= enc_frame(payload@));
    }
    out
}

/// Split the first complete frame off the front of a stream buffer.
/// Returns the frame's payload and the number of bytes consumed; `None`
/// exactly when the buffer does not yet hold a complete frame.
pub fn take_frame(buf: &Vec<u8>) -> (r: Option<(Vec<u8>, usize)>)
    ensures
        r matches Some(p) ==> p.1 == 8 + p.0@.len() && p.1 <= buf@.len() && buf@.subrange(
            0,
            p.1 as int,
        ) == enc_frame(p.0@),
        r is None <==> (dec_u64(buf@, 0) is None || (dec_u64(buf@, 0) matches Some((n, _)) && 8
            + n > buf@.len())),
{
    let (n, p1) = match get_u64(buf, 0) {
        Some(v) => v,
        None => {
            return None;
        },
    };
    proof {
        lemma_sound_u64(buf@, 0);
    }
    let remaining = buf.len() - p1;
    if n > remaining as u64 {
        return None;
    }
    let len = n as usize;
    let sl = slice_subrange(buf.as_slice(), p1, p1 + len);
    let payload = slice_to_vec(sl);
    proof {
        lemma_chain(buf@, 0, p1 as int, p1 as int + len as int);
    }
    Some((payload, p1 + len))
}

} // verus!
