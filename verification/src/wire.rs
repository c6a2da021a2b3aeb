//! The payload encoding: how requests and replies are laid out in bytes.
//!
//! Integers are little-endian at their full width, a `bool` is one byte (0
//! or 1), a string or byte vector is a 64-bit length and then the bytes, a
//! sequence is a 64-bit count and then its items, an optional value is a
//! 32-bit tag (0 absent, 1 present) and then the value, an enum is a 32-bit
//! variant number and then the variant's fields. A payload with bytes left
//! over after its value is refused.
//!
//! Each piece has a specification of what it writes (`ser_…`), one of what
//! reading at a position gives (`de_…`), a writer, a reader and a proof that
//! reading what was written gives the value back.

use crate::message::Urgency;
use vstd::prelude::*;
use vstd::utf8::{decode_utf8, encode_utf8, valid_utf8};

verus! {

/// The unsigned number with the bit pattern of `x` in 32 bits.
pub open spec fn twos(x: i32) -> u32 {
    if x >= 0 {
        x as u32
    } else {
        (x + 0x1_0000_0000) as u32
    }
}

/// The signed number with the bit pattern of `u` in 32 bits.
pub open spec fn untwos(u: u32) -> i32 {
    if u < 0x8000_0000 {
        u as i32
    } else {
        (u - 0x1_0000_0000) as i32
    }
}

/// `part` stands in `s` at `pos`.
pub open spec fn holds_at(s: Seq<u8>, pos: int, part: Seq<u8>) -> bool {
    &&& 0 <= pos
    &&& pos + part.len() <= s.len()
    &&& s.subrange(pos, pos + part.len()) == part
}

/// A part that stands in `s` holds its own parts: the first where it
/// stands, the second right after.
pub proof fn lemma_holds_at_split(s: Seq<u8>, pos: int, a: Seq<u8>, b: Seq<u8>)
    requires
        holds_at(s, pos, a + b),
    ensures
        holds_at(s, pos, a),
        holds_at(s, pos + a.len(), b),
{
    let whole = s.subrange(pos, pos + (a + b).len());
    assert(s.subrange(pos, pos + a.len()) =~= a) by {
        assert forall|i: int| 0 <= i < a.len() implies s.subrange(pos, pos + a.len())[i]
            == a[i] by {
            assert(whole[i] == (a + b)[i]);
        }
    }
    assert(s.subrange(pos + a.len(), pos + a.len() + b.len()) =~= b) by {
        assert forall|i: int| 0 <= i < b.len() implies s.subrange(
            pos + a.len(),
            pos + a.len() + b.len(),
        )[i] == b[i] by {
            assert(whole[i + a.len()] == (a + b)[i + a.len()]);
        }
    }
}

// ------------------------------------------------------------- integers
/// What a `u32` is written as: four bytes, least significant first.
#[verifier::opaque]
pub open spec fn ser_u32(x: u32) -> Seq<u8> {
    seq![
        (x % 256) as u8,
        (x / 0x100 % 256) as u8,
        (x / 0x1_0000 % 256) as u8,
        (x / 0x100_0000 % 256) as u8,
    ]
}

/// What a `u64` is written as: eight bytes, least significant first.
pub open spec fn ser_u64(x: u64) -> Seq<u8> {
    ser_u32((x % 0x1_0000_0000) as u32) + ser_u32((x / 0x1_0000_0000) as u32)
}

/// What an `i32` is written as: its two's complement.
pub open spec fn ser_i32(x: i32) -> Seq<u8> {
    ser_u32(twos(x))
}

/// What a `bool` is written as.
pub open spec fn ser_bool(b: bool) -> Seq<u8> {
    seq![if b { 1u8 } else { 0u8 }]
}

/// The number in the four bytes of `s` from `pos`, least significant
/// first.
#[verifier::opaque]
pub open spec fn u32_at(s: Seq<u8>, pos: int) -> u32 {
    (s[pos] + 0x100 * s[pos + 1] + 0x1_0000 * s[pos + 2] + 0x100_0000 * s[pos + 3]) as u32
}

/// The `u32` read at `pos`, and where reading goes on.
pub open spec fn de_u32(s: Seq<u8>, pos: int) -> Option<(u32, int)> {
    if 0 <= pos && pos + 4 <= s.len() {
        Some((u32_at(s, pos), pos + 4))
    } else {
        None
    }
}

/// The `u64` read at `pos`, and where reading goes on.
pub open spec fn de_u64(s: Seq<u8>, pos: int) -> Option<(u64, int)> {
    if 0 <= pos && pos + 8 <= s.len() {
        Some(((u32_at(s, pos) + 0x1_0000_0000 * u32_at(s, pos + 4)) as u64, pos + 8))
    } else {
        None
    }
}

/// The `i32` read at `pos`, and where reading goes on.
pub open spec fn de_i32(s: Seq<u8>, pos: int) -> Option<(i32, int)> {
    match de_u32(s, pos) {
        Some((u, next)) => Some((untwos(u), next)),
        None => None,
    }
}

/// The `bool` read at `pos`, and where reading goes on. A byte other
/// than 0 and 1 is no `bool`.
pub open spec fn de_bool(s: Seq<u8>, pos: int) -> Option<(bool, int)> {
    if 0 <= pos && pos + 1 <= s.len() && s[pos] <= 1 {
        Some((s[pos] == 1, pos + 1))
    } else {
        None
    }
}

/// What a reader returned is what the specification gives.
pub open spec fn same<T>(r: Option<(T, usize)>, spec: Option<(T, int)>) -> bool {
    match (r, spec) {
        (Some((v, next)), Some((spec_v, spec_next))) => v == spec_v && next == spec_next,
        (None, None) => true,
        _ => false,
    }
}

/// What a reader returned has the view that the specification gives.
pub open spec fn same_view<T: View>(r: Option<(T, usize)>, spec: Option<(T::V, int)>) -> bool {
    match (r, spec) {
        (Some((v, next)), Some((spec_v, spec_next))) => v@ == spec_v && next == spec_next,
        (None, None) => true,
        _ => false,
    }
}

/// Appends a `u32`.
pub fn put_u32(out: &mut Vec<u8>, x: u32)
    ensures
        final(out)@ == old(out)@ + ser_u32(x),
{
    reveal(ser_u32);
    out.push((x % 256) as u8);
    out.push((x / 0x100 % 256) as u8);
    out.push((x / 0x1_0000 % 256) as u8);
    out.push((x / 0x100_0000 % 256) as u8);
    assert(out@ =~= old(out)@ + ser_u32(x));
}

/// Appends a `u64`.
pub fn put_u64(out: &mut Vec<u8>, x: u64)
    ensures
        final(out)@ == old(out)@ + ser_u64(x),
{
    let lo: u32 = (x % 0x1_0000_0000) as u32;
    let hi: u32 = (x / 0x1_0000_0000) as u32;
    put_u32(out, lo);
    put_u32(out, hi);
    assert(out@ =~= old(out)@ + ser_u64(x));
}

/// Appends an `i32`.
pub fn put_i32(out: &mut Vec<u8>, x: i32)
    ensures
        final(out)@ == old(out)@ + ser_i32(x),
{
    let u: u32 = if x >= 0 {
        x as u32
    } else {
        (x as i64 + 0x1_0000_0000) as u32
    };
    put_u32(out, u);
}

/// Appends a `bool`.
pub fn put_bool(out: &mut Vec<u8>, b: bool)
    ensures
        final(out)@ == old(out)@ + ser_bool(b),
{
    out.push(if b {
        1
    } else {
        0
    });
    assert(out@ =~= old(out)@ + ser_bool(b));
}

/// Reads a `u32` at `pos`.
pub fn read_u32(bytes: &[u8], pos: usize) -> (r: Option<(u32, usize)>)
    ensures
        same(r, de_u32(bytes@, pos as int)),
{
    if pos > bytes.len() || bytes.len() - pos < 4 {
        return None;
    }
    reveal(u32_at);
    let b0: u32 = bytes[pos] as u32;
    let b1: u32 = bytes[pos + 1] as u32;
    let b2: u32 = bytes[pos + 2] as u32;
    let b3: u32 = bytes[pos + 3] as u32;
    Some((b0 + 0x100 * b1 + 0x1_0000 * b2 + 0x100_0000 * b3, pos + 4))
}

/// Reads a `u64` at `pos`.
pub fn read_u64(bytes: &[u8], pos: usize) -> (r: Option<(u64, usize)>)
    ensures
        same(r, de_u64(bytes@, pos as int)),
{
    if pos > bytes.len() || bytes.len() - pos < 8 {
        return None;
    }
    let (lo, mid) = read_u32(bytes, pos)?;
    let (hi, next) = read_u32(bytes, mid)?;
    Some((lo as u64 + 0x1_0000_0000 * (hi as u64), next))
}

/// Reads an `i32` at `pos`.
pub fn read_i32(bytes: &[u8], pos: usize) -> (r: Option<(i32, usize)>)
    ensures
        same(r, de_i32(bytes@, pos as int)),
{
    let (u, next) = read_u32(bytes, pos)?;
    let x: i32 = if u < 0x8000_0000 {
        u as i32
    } else {
        (u as i64 - 0x1_0000_0000) as i32
    };
    Some((x, next))
}

/// Reads a `bool` at `pos`.
pub fn read_bool(bytes: &[u8], pos: usize) -> (r: Option<(bool, usize)>)
    ensures
        same(r, de_bool(bytes@, pos as int)),
{
    if pos >= bytes.len() {
        return None;
    }
    let b: u8 = bytes[pos];
    if b > 1 {
        return None;
    }
    Some((b == 1, pos + 1))
}

/// A `u32` takes four bytes.
pub proof fn lemma_ser_u32_len(x: u32)
    ensures
        ser_u32(x).len() == 4,
{
    reveal(ser_u32);
}

/// Reading a `u32` where one was written gives it back.
pub proof fn lemma_u32_round_trip(s: Seq<u8>, pos: int, x: u32)
    requires
        holds_at(s, pos, ser_u32(x)),
    ensures
        de_u32(s, pos) == Some((x, pos + 4)),
        ser_u32(x).len() == 4,
{
    reveal(ser_u32);
    reveal(u32_at);
    let part = s.subrange(pos, pos + 4);
    assert(part[0] == s[pos] && part[1] == s[pos + 1] && part[2] == s[pos + 2] && part[3] == s[pos
        + 3]);
}

/// Reading a `u64` where one was written gives it back.
pub proof fn lemma_u64_round_trip(s: Seq<u8>, pos: int, x: u64)
    requires
        holds_at(s, pos, ser_u64(x)),
    ensures
        de_u64(s, pos) == Some((x, pos + 8)),
        ser_u64(x).len() == 8,
{
    let lo = (x % 0x1_0000_0000) as u32;
    let hi = (x / 0x1_0000_0000) as u32;
    lemma_holds_at_split(s, pos, ser_u32(lo), ser_u32(hi));
    lemma_u32_round_trip(s, pos, lo);
    lemma_u32_round_trip(s, pos + 4, hi);
}

/// Reading an `i32` where one was written gives it back.
pub proof fn lemma_i32_round_trip(s: Seq<u8>, pos: int, x: i32)
    requires
        holds_at(s, pos, ser_i32(x)),
    ensures
        de_i32(s, pos) == Some((x, pos + 4)),
        ser_i32(x).len() == 4,
{
    lemma_u32_round_trip(s, pos, twos(x));
}

/// Reading a `bool` where one was written gives it back.
pub proof fn lemma_bool_round_trip(s: Seq<u8>, pos: int, b: bool)
    requires
        holds_at(s, pos, ser_bool(b)),
    ensures
        de_bool(s, pos) == Some((b, pos + 1)),
        ser_bool(b).len() == 1,
{
    assert(s.subrange(pos, pos + 1)[0] == ser_bool(b)[0]);
}

// ------------------------------------------------- byte vectors and text
/// What a byte vector is written as: its length in 64 bits, then its bytes.
pub open spec fn ser_bytes(data: Seq<u8>) -> Seq<u8> {
    ser_u64(data.len() as u64) + data
}

/// What a string is written as: its UTF-8 form as a byte vector.
pub open spec fn ser_text(t: Seq<char>) -> Seq<u8> {
    ser_bytes(encode_utf8(t))
}

/// The byte vector read at `pos`, and where reading goes on. A length
/// that runs past the end of `s` is refused.
pub open spec fn de_bytes(s: Seq<u8>, pos: int) -> Option<(Seq<u8>, int)> {
    match de_u64(s, pos) {
        Some((n, start)) => if n <= s.len() - start {
            Some((s.subrange(start, start + n), start + n))
        } else {
            None
        },
        None => None,
    }
}

/// The string read at `pos`, and where reading goes on. Bytes that are
/// not UTF-8 are refused.
pub open spec fn de_text(s: Seq<u8>, pos: int) -> Option<(Seq<char>, int)> {
    match de_bytes(s, pos) {
        Some((raw, next)) => if valid_utf8(raw) {
            Some((decode_utf8(raw), next))
        } else {
            None
        },
        None => None,
    }
}

/// `String::from_utf8`: the string whose UTF-8 form is `raw`, or nothing
/// where `raw` is not UTF-8. std documents that the bytes are checked and
/// then kept as they are.
#[verifier::external_body]
fn string_from_utf8(raw: Vec<u8>) -> (r: Option<String>)
    ensures
        r is Some <==> valid_utf8(raw@),
        r matches Some(t) ==> encode_utf8(t@) == raw@,
{
    String::from_utf8(raw).ok()
}

/// Appends a byte vector.
pub fn put_bytes(out: &mut Vec<u8>, data: &[u8])
    ensures
        final(out)@ == old(out)@ + ser_bytes(data@),
{
    put_u64(out, data.len() as u64);
    let ghost mid = out@;
    out.extend_from_slice(data);
    assert(out@ =~= mid + data@);
    assert(out@ =~= old(out)@ + ser_bytes(data@));
}

/// Appends a string.
pub fn put_text(out: &mut Vec<u8>, t: &str)
    ensures
        final(out)@ == old(out)@ + ser_text(t@),
{
    put_bytes(out, t.as_bytes());
}

/// Reads a byte vector at `pos`.
pub fn read_bytes(bytes: &[u8], pos: usize) -> (r: Option<(Vec<u8>, usize)>)
    ensures
        same_view(r, de_bytes(bytes@, pos as int)),
{
    let (n, start) = read_u64(bytes, pos)?;
    if n > (bytes.len() - start) as u64 {
        return None;
    }
    let len: usize = n as usize;
    let data = vstd::slice::slice_to_vec(vstd::slice::slice_subrange(bytes, start, start + len));
    Some((data, start + len))
}

/// Reads a string at `pos`.
pub fn read_text(bytes: &[u8], pos: usize) -> (r: Option<(String, usize)>)
    ensures
        same_view(r, de_text(bytes@, pos as int)),
{
    let (raw, next) = read_bytes(bytes, pos)?;
    let ghost raw_bytes = raw@;
    let t = string_from_utf8(raw)?;
    proof {
        vstd::utf8::encode_utf8_decode_utf8(t@);
    }
    Some((t, next))
}

/// Reading a byte vector where one was written gives it back.
pub proof fn lemma_bytes_round_trip(s: Seq<u8>, pos: int, data: Seq<u8>)
    requires
        holds_at(s, pos, ser_bytes(data)),
        data.len() <= u64::MAX,
    ensures
        de_bytes(s, pos) == Some((data, pos + ser_bytes(data).len())),
        ser_bytes(data).len() == 8 + data.len(),
{
    lemma_holds_at_split(s, pos, ser_u64(data.len() as u64), data);
    lemma_u64_round_trip(s, pos, data.len() as u64);
}

/// Reading a string where one was written gives it back.
pub proof fn lemma_text_round_trip(s: Seq<u8>, pos: int, t: Seq<char>)
    requires
        holds_at(s, pos, ser_text(t)),
        encode_utf8(t).len() <= u64::MAX,
    ensures
        de_text(s, pos) == Some((t, pos + ser_text(t).len())),
{
    lemma_bytes_round_trip(s, pos, encode_utf8(t));
    vstd::utf8::encode_utf8_valid_utf8(t);
    vstd::utf8::encode_utf8_decode_utf8(t);
}

// ------------------------------------------------------ optional values
/// A string can be written: its UTF-8 form is short enough for its length
/// to be written in 64 bits. Every `String` is.
pub open spec fn text_fits(t: Seq<char>) -> bool {
    encode_utf8(t).len() <= u64::MAX
}

/// What an optional string is written as.
pub open spec fn ser_opt_text(t: Option<Seq<char>>) -> Seq<u8> {
    match t {
        None => ser_u32(0),
        Some(x) => ser_u32(1) + ser_text(x),
    }
}

/// The optional string read at `pos`, and where reading goes on. A tag
/// other than 0 and 1 is refused.
pub open spec fn de_opt_text(s: Seq<u8>, pos: int) -> Option<(Option<Seq<char>>, int)> {
    match de_u32(s, pos) {
        Some((tag, next)) => if tag == 0 {
            Some((None, next))
        } else if tag == 1 {
            match de_text(s, next) {
                Some((t, end)) => Some((Some(t), end)),
                None => None,
            }
        } else {
            None
        },
        None => None,
    }
}

/// What an urgency is written as: the number of its variant.
pub open spec fn ser_urgency(u: Urgency) -> Seq<u8> {
    ser_u32(u.level() as u32)
}

/// What an optional urgency is written as.
pub open spec fn ser_opt_urgency(u: Option<Urgency>) -> Seq<u8> {
    match u {
        None => ser_u32(0),
        Some(x) => ser_u32(1) + ser_urgency(x),
    }
}

/// The urgency read at `pos`, and where reading goes on.
pub open spec fn de_urgency(s: Seq<u8>, pos: int) -> Option<(Urgency, int)> {
    match de_u32(s, pos) {
        Some((tag, next)) => if tag == 0 {
            Some((Urgency::Low, next))
        } else if tag == 1 {
            Some((Urgency::Normal, next))
        } else if tag == 2 {
            Some((Urgency::Critical, next))
        } else {
            None
        },
        None => None,
    }
}

/// The optional urgency read at `pos`, and where reading goes on.
pub open spec fn de_opt_urgency(s: Seq<u8>, pos: int) -> Option<(Option<Urgency>, int)> {
    match de_u32(s, pos) {
        Some((tag, next)) => if tag == 0 {
            Some((None, next))
        } else if tag == 1 {
            match de_urgency(s, next) {
                Some((u, end)) => Some((Some(u), end)),
                None => None,
            }
        } else {
            None
        },
        None => None,
    }
}

/// Appends an optional string.
pub fn put_opt_text(out: &mut Vec<u8>, t: &Option<String>)
    ensures
        final(out)@ == old(out)@ + ser_opt_text(crate::message::text_view(*t)),
{
    match t {
        None => {
            put_u32(out, 0);
        },
        Some(x) => {
            put_u32(out, 1);
            put_text(out, x.as_str());
            assert(out@ =~= old(out)@ + (ser_u32(1) + ser_text(x@)));
        },
    }
}

/// Appends an optional urgency.
pub fn put_opt_urgency(out: &mut Vec<u8>, u: Option<Urgency>)
    ensures
        final(out)@ == old(out)@ + ser_opt_urgency(u),
{
    match u {
        None => {
            put_u32(out, 0);
        },
        Some(x) => {
            put_u32(out, 1);
            put_u32(out, x.to_byte() as u32);
            assert(out@ =~= old(out)@ + (ser_u32(1) + ser_urgency(x)));
        },
    }
}

/// Reads an optional string at `pos`.
pub fn read_opt_text(bytes: &[u8], pos: usize) -> (r: Option<(Option<String>, usize)>)
    ensures
        match (r, de_opt_text(bytes@, pos as int)) {
            (Some((t, next)), Some((spec_t, spec_next))) => crate::message::text_view(t) == spec_t
                && next == spec_next,
            (None, None) => true,
            _ => false,
        },
{
    let (tag, next) = read_u32(bytes, pos)?;
    if tag == 0 {
        Some((None, next))
    } else if tag == 1 {
        let (t, end) = read_text(bytes, next)?;
        Some((Some(t), end))
    } else {
        None
    }
}

/// Reads an optional urgency at `pos`.
pub fn read_opt_urgency(bytes: &[u8], pos: usize) -> (r: Option<(Option<Urgency>, usize)>)
    ensures
        same(r, de_opt_urgency(bytes@, pos as int)),
{
    let (tag, next) = read_u32(bytes, pos)?;
    if tag == 0 {
        Some((None, next))
    } else if tag == 1 {
        let (level, end) = read_u32(bytes, next)?;
        if level == 0 {
            Some((Some(Urgency::Low), end))
        } else if level == 1 {
            Some((Some(Urgency::Normal), end))
        } else if level == 2 {
            Some((Some(Urgency::Critical), end))
        } else {
            None
        }
    } else {
        None
    }
}

/// Reading an optional string where one was written gives it back.
pub proof fn lemma_opt_text_round_trip(s: Seq<u8>, pos: int, t: Option<Seq<char>>)
    requires
        holds_at(s, pos, ser_opt_text(t)),
        t matches Some(x) ==> text_fits(x),
    ensures
        de_opt_text(s, pos) == Some((t, pos + ser_opt_text(t).len())),
{
    match t {
        None => {
            lemma_u32_round_trip(s, pos, 0);
        },
        Some(x) => {
            lemma_holds_at_split(s, pos, ser_u32(1), ser_text(x));
            lemma_u32_round_trip(s, pos, 1);
            lemma_text_round_trip(s, pos + 4, x);
        },
    }
}

/// Reading an optional urgency where one was written gives it back.
pub proof fn lemma_opt_urgency_round_trip(s: Seq<u8>, pos: int, u: Option<Urgency>)
    requires
        holds_at(s, pos, ser_opt_urgency(u)),
    ensures
        de_opt_urgency(s, pos) == Some((u, pos + ser_opt_urgency(u).len())),
{
    match u {
        None => {
            lemma_u32_round_trip(s, pos, 0);
        },
        Some(x) => {
            lemma_holds_at_split(s, pos, ser_u32(1), ser_urgency(x));
            lemma_u32_round_trip(s, pos, 1);
            lemma_u32_round_trip(s, pos + 4, x.level() as u32);
        },
    }
}

// --------------------------------------------------- sequences of strings
/// What the strings of a sequence are written as, one after the other.
pub open spec fn ser_items(items: Seq<Seq<char>>) -> Seq<u8>
    decreases items.len(),
{
    if items.len() == 0 {
        Seq::empty()
    } else {
        ser_items(items.drop_last()) + ser_text(items.last())
    }
}

/// What a sequence of strings is written as: its length in 64 bits, then
/// its strings.
pub open spec fn ser_texts(items: Seq<Seq<char>>) -> Seq<u8> {
    ser_u64(items.len() as u64) + ser_items(items)
}

/// The `count` strings read from `pos` on, and where reading goes on.
pub open spec fn de_items(s: Seq<u8>, pos: int, count: nat) -> Option<(Seq<Seq<char>>, int)>
    decreases count,
{
    if count == 0 {
        Some((Seq::empty(), pos))
    } else {
        match de_text(s, pos) {
            Some((t, next)) => match de_items(s, next, (count - 1) as nat) {
                Some((rest, end)) => Some((seq![t] + rest, end)),
                None => None,
            },
            None => None,
        }
    }
}

/// The sequence of strings read at `pos`, and where reading goes on.
pub open spec fn de_texts(s: Seq<u8>, pos: int) -> Option<(Seq<Seq<char>>, int)> {
    match de_u64(s, pos) {
        Some((count, next)) => de_items(s, next, count as nat),
        None => None,
    }
}

/// Every string of `items` can be written, and so can their number.
pub open spec fn texts_fit(items: Seq<Seq<char>>) -> bool {
    &&& items.len() <= u64::MAX
    &&& forall|i: int| 0 <= i < items.len() ==> text_fits(#[trigger] items[i])
}

proof fn lemma_ser_items_front(items: Seq<Seq<char>>)
    requires
        items.len() > 0,
    ensures
        ser_items(items) == ser_text(items[0]) + ser_items(items.drop_first()),
    decreases items.len(),
{
    if items.len() == 1 {
        assert(items.drop_last() =~= Seq::<Seq<char>>::empty());
        assert(items.drop_first() =~= Seq::<Seq<char>>::empty());
        assert(ser_items(items.drop_last()) =~= Seq::<u8>::empty());
        assert(ser_items(items) =~= ser_text(items[0]) + ser_items(items.drop_first()));
    } else {
        let front = items.drop_last();
        lemma_ser_items_front(front);
        assert(front.drop_first() =~= items.drop_first().drop_last());
        assert(items.drop_first().last() == items.last());
        assert(ser_items(items) =~= ser_text(items[0]) + ser_items(items.drop_first()));
    }
}

/// Appends a sequence of strings.
pub fn put_texts(out: &mut Vec<u8>, items: &Vec<String>)
    ensures
        final(out)@ == old(out)@ + ser_texts(crate::message::texts_view(items@)),
{
    let ghost all = crate::message::texts_view(items@);
    put_u64(out, items.len() as u64);
    let ghost base = out@;
    let mut i: usize = 0;
    proof {
        assert(all.take(0) =~= Seq::<Seq<char>>::empty());
        assert(out@ =~= base + ser_items(all.take(0)));
    }
    while i < items.len()
        invariant
            i <= items.len(),
            all == crate::message::texts_view(items@),
            out@ == base + ser_items(all.take(i as int)),
        decreases items.len() - i,
    {
        let ghost before = out@;
        put_text(out, items[i].as_str());
        proof {
            assert(all.take(i + 1).drop_last() =~= all.take(i as int));
            assert(all.take(i + 1).last() == items@[i as int]@);
            assert(out@ =~= base + ser_items(all.take(i + 1)));
        }
        i += 1;
    }
    proof {
        assert(all.take(i as int) =~= all);
        assert(out@ =~= old(out)@ + ser_texts(all));
    }
}

/// Reads a sequence of strings at `pos`.
pub fn read_texts(bytes: &[u8], pos: usize) -> (r: Option<(Vec<String>, usize)>)
    ensures
        match (r, de_texts(bytes@, pos as int)) {
            (Some((items, next)), Some((spec_items, spec_next))) => crate::message::texts_view(
                items@,
            ) == spec_items && next == spec_next,
            (None, None) => true,
            _ => false,
        },
{
    let (count, start) = read_u64(bytes, pos)?;
    let mut items: Vec<String> = Vec::new();
    let mut at: usize = start;
    let mut done: u64 = 0;
    let ghost whole = de_items(bytes@, start as int, count as nat);
    proof {
        assert(crate::message::texts_view(items@) =~= Seq::<Seq<char>>::empty());
        match whole {
            Some((all, end)) => {
                assert(Seq::<Seq<char>>::empty() + all =~= all);
            },
            None => {},
        }
    }
    while done < count
        invariant
            done <= count,
            whole == de_texts(bytes@, pos as int),
            whole == match de_items(bytes@, at as int, (count - done) as nat) {
                Some((rest, end)) => Some((crate::message::texts_view(items@) + rest, end)),
                None => None,
            },
        decreases count - done,
    {
        let ghost before = crate::message::texts_view(items@);
        match read_text(bytes, at) {
            None => {
                return None;
            },
            Some((t, next)) => {
                items.push(t);
                proof {
                    assert(crate::message::texts_view(items@) =~= before.push(t@));
                    match de_items(bytes@, next as int, (count - done - 1) as nat) {
                        Some((rest, end)) => {
                            assert(before.push(t@) + rest =~= before + (seq![t@] + rest));
                        },
                        None => {},
                    }
                }
                at = next;
                done += 1;
            },
        }
    }
    proof {
        assert(crate::message::texts_view(items@) + Seq::<Seq<char>>::empty()
            =~= crate::message::texts_view(items@));
    }
    Some((items, at))
}

/// Reading strings where they were written gives them back.
pub proof fn lemma_items_round_trip(s: Seq<u8>, pos: int, items: Seq<Seq<char>>)
    requires
        holds_at(s, pos, ser_items(items)),
        texts_fit(items),
    ensures
        de_items(s, pos, items.len()) == Some((items, pos + ser_items(items).len())),
    decreases items.len(),
{
    if items.len() > 0 {
        let rest = items.drop_first();
        lemma_ser_items_front(items);
        lemma_holds_at_split(s, pos, ser_text(items[0]), ser_items(rest));
        assert(text_fits(items[0]));
        lemma_text_round_trip(s, pos, items[0]);
        assert forall|i: int| 0 <= i < rest.len() implies text_fits(#[trigger] rest[i]) by {
            assert(rest[i] == items[i + 1]);
        }
        lemma_items_round_trip(s, pos + ser_text(items[0]).len(), rest);
        assert(seq![items[0]] + rest =~= items);
    }
}

/// Reading a sequence of strings where one was written gives it back.
pub proof fn lemma_texts_round_trip(s: Seq<u8>, pos: int, items: Seq<Seq<char>>)
    requires
        holds_at(s, pos, ser_texts(items)),
        texts_fit(items),
    ensures
        de_texts(s, pos) == Some((items, pos + ser_texts(items).len())),
{
    lemma_holds_at_split(s, pos, ser_u64(items.len() as u64), ser_items(items));
    lemma_u64_round_trip(s, pos, items.len() as u64);
    lemma_items_round_trip(s, pos + 8, items);
}

} // verus!
