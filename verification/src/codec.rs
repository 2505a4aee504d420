//! The store's byte encoding: a self-describing, round-trippable form.
//!
//! The store is one blob: the record count as eight little-endian bytes,
//! then each record in turn. A record is its token identifier (a character
//! count as eight bytes, then each character as four little-endian bytes of
//! its Unicode scalar value), the owner identifier as eight bytes, the
//! creation date as three four-byte fields (year, month, day), and the
//! category as one tag byte, followed for the free-text tag by the text in
//! the same form as the token identifier. Decoding demands that the whole
//! blob is consumed; it restores fields exactly as stored and leaves judging
//! them to validation.

use vstd::prelude::*;
use vstd::string::StrSliceExecFns;

use crate::category::{Category, CategoryModel};
use crate::date::Date;
use crate::nft::{NftModel, NFT};
use crate::text::push_char;

verus! {

// ---------------------------------------------------------------------------
// Little-endian integer fields.
// ---------------------------------------------------------------------------
/// The four little-endian bytes of `n`.
pub open spec fn spec_le4(n: u32) -> Seq<u8> {
    seq![
        (n & 0xff) as u8,
        ((n >> 8) & 0xff) as u8,
        ((n >> 16) & 0xff) as u8,
        ((n >> 24) & 0xff) as u8,
    ]
}

/// The eight little-endian bytes of `n`.
pub open spec fn spec_le8(n: u64) -> Seq<u8> {
    seq![
        (n & 0xff) as u8,
        ((n >> 8) & 0xff) as u8,
        ((n >> 16) & 0xff) as u8,
        ((n >> 24) & 0xff) as u8,
        ((n >> 32) & 0xff) as u8,
        ((n >> 40) & 0xff) as u8,
        ((n >> 48) & 0xff) as u8,
        ((n >> 56) & 0xff) as u8,
    ]
}

/// The value read from four little-endian bytes.
pub open spec fn spec_u32_of(b0: u8, b1: u8, b2: u8, b3: u8) -> u32 {
    (b0 as u32) | ((b1 as u32) << 8) | ((b2 as u32) << 16) | ((b3 as u32) << 24)
}

/// The value read from eight little-endian bytes.
pub open spec fn spec_u64_of(b0: u8, b1: u8, b2: u8, b3: u8, b4: u8, b5: u8, b6: u8, b7: u8) -> u64 {
    (b0 as u64) | ((b1 as u64) << 8) | ((b2 as u64) << 16) | ((b3 as u64) << 24) | ((b4 as u64)
        << 32) | ((b5 as u64) << 40) | ((b6 as u64) << 48) | ((b7 as u64) << 56)
}

/// Reading back the four little-endian bytes of `n` yields `n`.
pub proof fn lemma_u32_round_trip(n: u32)
    ensures
        spec_u32_of(
            (n & 0xff) as u8,
            ((n >> 8) & 0xff) as u8,
            ((n >> 16) & 0xff) as u8,
            ((n >> 24) & 0xff) as u8,
        ) == n,
{
    assert(((n & 0xff) as u8 as u32) | (((n >> 8) & 0xff) as u8 as u32) << 8 | (((n >> 16)
        & 0xff) as u8 as u32) << 16 | (((n >> 24) & 0xff) as u8 as u32) << 24 == n)
        by (bit_vector);
}

/// Reading back the eight little-endian bytes of `n` yields `n`.
pub proof fn lemma_u64_round_trip(n: u64)
    ensures
        spec_u64_of(
            (n & 0xff) as u8,
            ((n >> 8) & 0xff) as u8,
            ((n >> 16) & 0xff) as u8,
            ((n >> 24) & 0xff) as u8,
            ((n >> 32) & 0xff) as u8,
            ((n >> 40) & 0xff) as u8,
            ((n >> 48) & 0xff) as u8,
            ((n >> 56) & 0xff) as u8,
        ) == n,
{
    assert(((n & 0xff) as u8 as u64) | (((n >> 8) & 0xff) as u8 as u64) << 8 | (((n >> 16)
        & 0xff) as u8 as u64) << 16 | (((n >> 24) & 0xff) as u8 as u64) << 24 | (((n >> 32)
        & 0xff) as u8 as u64) << 32 | (((n >> 40) & 0xff) as u8 as u64) << 40 | (((n >> 48)
        & 0xff) as u8 as u64) << 48 | (((n >> 56) & 0xff) as u8 as u64) << 56 == n)
        by (bit_vector);
}

/// Appends the four little-endian bytes of `n`.
fn write_u32(out: &mut Vec<u8>, n: u32)
    ensures
        final(out)@ == old(out)@ + spec_le4(n),
{
    out.push((n & 0xff) as u8);
    out.push(((n >> 8) & 0xff) as u8);
    out.push(((n >> 16) & 0xff) as u8);
    out.push(((n >> 24) & 0xff) as u8);
    proof {
        assert(out@ =~= old(out)@ + spec_le4(n));
    }
}

/// Appends the eight little-endian bytes of `n`.
fn write_u64(out: &mut Vec<u8>, n: u64)
    ensures
        final(out)@ == old(out)@ + spec_le8(n),
{
    out.push((n & 0xff) as u8);
    out.push(((n >> 8) & 0xff) as u8);
    out.push(((n >> 16) & 0xff) as u8);
    out.push(((n >> 24) & 0xff) as u8);
    out.push(((n >> 32) & 0xff) as u8);
    out.push(((n >> 40) & 0xff) as u8);
    out.push(((n >> 48) & 0xff) as u8);
    out.push(((n >> 56) & 0xff) as u8);
    proof {
        assert(out@ =~= old(out)@ + spec_le8(n));
    }
}

// ---------------------------------------------------------------------------
// Decoding, over the remaining byte stream.
// ---------------------------------------------------------------------------
/// Reads one byte; `None` when the stream is too short.
pub open spec fn spec_dec_u8(b: Seq<u8>) -> Option<(u8, Seq<u8>)> {
    if b.len() >= 1 {
        Some((b[0], b.skip(1)))
    } else {
        None
    }
}

/// Reads a four-byte little-endian value; `None` when the stream is too
/// short.
pub open spec fn spec_dec_u32(b: Seq<u8>) -> Option<(u32, Seq<u8>)> {
    if b.len() >= 4 {
        Some((spec_u32_of(b[0], b[1], b[2], b[3]), b.skip(4)))
    } else {
        None
    }
}

/// Reads an eight-byte little-endian value; `None` when the stream is too
/// short.
pub open spec fn spec_dec_u64(b: Seq<u8>) -> Option<(u64, Seq<u8>)> {
    if b.len() >= 8 {
        Some((spec_u64_of(b[0], b[1], b[2], b[3], b[4], b[5], b[6], b[7]), b.skip(8)))
    } else {
        None
    }
}

/// Reads one byte at position `i` of `bytes`.
fn read_u8(bytes: &Vec<u8>, i: usize) -> (r: Option<(u8, usize)>)
    requires
        i <= bytes@.len(),
    ensures
        match spec_dec_u8(bytes@.skip(i as int)) {
            Some(p) => r matches Some(q) && q.0 == p.0 && q.1 as int == i + 1 && bytes@.skip(
                q.1 as int,
            ) == p.1,
            None => r is None,
        },
{
    if i < bytes.len() {
        let b = bytes[i];
        proof {
            assert(bytes@.skip(i as int)[0] == bytes@[i as int]);
            assert(bytes@.skip(i as int).skip(1) =~= bytes@.skip(i + 1));
        }
        Some((b, i + 1))
    } else {
        None
    }
}

/// Reads a four-byte little-endian value at position `i` of `bytes`.
fn read_u32(bytes: &Vec<u8>, i: usize) -> (r: Option<(u32, usize)>)
    requires
        i <= bytes@.len(),
    ensures
        match spec_dec_u32(bytes@.skip(i as int)) {
            Some(p) => r matches Some(q) && q.0 == p.0 && q.1 as int == i + 4 && bytes@.skip(
                q.1 as int,
            ) == p.1,
            None => r is None,
        },
{
    if bytes.len() - i >= 4 {
        let b0 = bytes[i] as u32;
        let b1 = bytes[i + 1] as u32;
        let b2 = bytes[i + 2] as u32;
        let b3 = bytes[i + 3] as u32;
        let n: u32 = b0 | (b1 << 8) | (b2 << 16) | (b3 << 24);
        proof {
            let s = bytes@.skip(i as int);
            assert(s[0] == bytes@[i as int]);
            assert(s[1] == bytes@[i + 1]);
            assert(s[2] == bytes@[i + 2]);
            assert(s[3] == bytes@[i + 3]);
            assert(s.skip(4) =~= bytes@.skip(i + 4));
        }
        Some((n, i + 4))
    } else {
        None
    }
}

/// Reads an eight-byte little-endian value at position `i` of `bytes`.
fn read_u64(bytes: &Vec<u8>, i: usize) -> (r: Option<(u64, usize)>)
    requires
        i <= bytes@.len(),
    ensures
        match spec_dec_u64(bytes@.skip(i as int)) {
            Some(p) => r matches Some(q) && q.0 == p.0 && q.1 as int == i + 8 && bytes@.skip(
                q.1 as int,
            ) == p.1,
            None => r is None,
        },
{
    if bytes.len() - i >= 8 {
        let b0 = bytes[i] as u64;
        let b1 = bytes[i + 1] as u64;
        let b2 = bytes[i + 2] as u64;
        let b3 = bytes[i + 3] as u64;
        let b4 = bytes[i + 4] as u64;
        let b5 = bytes[i + 5] as u64;
        let b6 = bytes[i + 6] as u64;
        let b7 = bytes[i + 7] as u64;
        let n: u64 = b0 | (b1 << 8) | (b2 << 16) | (b3 << 24) | (b4 << 32) | (b5 << 40) | (b6
            << 48) | (b7 << 56);
        proof {
            let s = bytes@.skip(i as int);
            assert(s[0] == bytes@[i as int]);
            assert(s[1] == bytes@[i + 1]);
            assert(s[2] == bytes@[i + 2]);
            assert(s[3] == bytes@[i + 3]);
            assert(s[4] == bytes@[i + 4]);
            assert(s[5] == bytes@[i + 5]);
            assert(s[6] == bytes@[i + 6]);
            assert(s[7] == bytes@[i + 7]);
            assert(s.skip(8) =~= bytes@.skip(i + 8));
        }
        Some((n, i + 8))
    } else {
        None
    }
}

// ---------------------------------------------------------------------------
// Character sequences and strings.
// ---------------------------------------------------------------------------
/// A Unicode scalar value: what a `char` may carry.
pub open spec fn spec_is_scalar(v: u32) -> bool {
    v < 0xD800 || (0xE000 <= v && v <= 0x10FFFF)
}

/// A `char` carries a Unicode scalar value, and casting it to `u32` and
/// back yields it again.
pub proof fn lemma_char_scalar(c: char)
    ensures
        spec_is_scalar(c as u32),
        ((c as u32) as char) == c,
{
}

/// Each character as four little-endian bytes of its scalar value.
pub open spec fn spec_enc_chars(s: Seq<char>) -> Seq<u8>
    decreases s.len(),
{
    if s.len() == 0 {
        Seq::empty()
    } else {
        spec_le4(s[0] as u32) + spec_enc_chars(s.skip(1))
    }
}

/// A character count and the characters as four bytes each.
pub open spec fn spec_enc_str(s: Seq<char>) -> Seq<u8> {
    spec_le8(s.len() as u64) + spec_enc_chars(s)
}

/// Reads `count` characters of four bytes each; `None` when the stream is
/// too short or a value is not a Unicode scalar value.
pub open spec fn spec_dec_chars(b: Seq<u8>, count: nat) -> Option<(Seq<char>, Seq<u8>)>
    decreases count,
{
    if count == 0 {
        Some((Seq::empty(), b))
    } else {
        match spec_dec_u32(b) {
            Some(p) => if spec_is_scalar(p.0) {
                match spec_dec_chars(p.1, (count - 1) as nat) {
                    Some(q) => Some((seq![p.0 as char] + q.0, q.1)),
                    None => None,
                }
            } else {
                None
            },
            None => None,
        }
    }
}

/// Reads a character count, then that many characters.
pub open spec fn spec_dec_str(b: Seq<u8>) -> Option<(Seq<char>, Seq<u8>)> {
    match spec_dec_u64(b) {
        Some(p) => spec_dec_chars(p.1, p.0 as nat),
        None => None,
    }
}

/// Encoding distributes over concatenation of character sequences.
pub proof fn lemma_enc_chars_concat(a: Seq<char>, b: Seq<char>)
    ensures
        spec_enc_chars(a + b) == spec_enc_chars(a) + spec_enc_chars(b),
    decreases a.len(),
{
    if a.len() == 0 {
        assert(a + b =~= b);
        assert(spec_enc_chars(a) + spec_enc_chars(b) =~= spec_enc_chars(b));
    } else {
        lemma_enc_chars_concat(a.skip(1), b);
        assert((a + b).skip(1) =~= a.skip(1) + b);
        assert(spec_le4(a[0] as u32) + (spec_enc_chars(a.skip(1)) + spec_enc_chars(b)) =~= (
        spec_le4(a[0] as u32) + spec_enc_chars(a.skip(1))) + spec_enc_chars(b));
    }
}

/// Reading a four-byte field back off the stream it heads yields its value
/// and the rest.
pub proof fn lemma_dec_le4(n: u32, rest: Seq<u8>)
    ensures
        spec_dec_u32(spec_le4(n) + rest) == Some((n, rest)),
{
    let b = spec_le4(n) + rest;
    assert(b[0] == spec_le4(n)[0]);
    assert(b[1] == spec_le4(n)[1]);
    assert(b[2] == spec_le4(n)[2]);
    assert(b[3] == spec_le4(n)[3]);
    lemma_u32_round_trip(n);
    assert(b.skip(4) =~= rest);
}

/// Reading an eight-byte field back off the stream it heads yields its
/// value and the rest.
pub proof fn lemma_dec_le8(n: u64, rest: Seq<u8>)
    ensures
        spec_dec_u64(spec_le8(n) + rest) == Some((n, rest)),
{
    let b = spec_le8(n) + rest;
    assert(b[0] == spec_le8(n)[0]);
    assert(b[1] == spec_le8(n)[1]);
    assert(b[2] == spec_le8(n)[2]);
    assert(b[3] == spec_le8(n)[3]);
    assert(b[4] == spec_le8(n)[4]);
    assert(b[5] == spec_le8(n)[5]);
    assert(b[6] == spec_le8(n)[6]);
    assert(b[7] == spec_le8(n)[7]);
    lemma_u64_round_trip(n);
    assert(b.skip(8) =~= rest);
}

/// Decoding the encoding of a character sequence yields it back, leaving
/// the rest of the stream untouched.
pub proof fn lemma_chars_round_trip(s: Seq<char>, rest: Seq<u8>)
    ensures
        spec_dec_chars(spec_enc_chars(s) + rest, s.len()) == Some((s, rest)),
    decreases s.len(),
{
    if s.len() == 0 {
        assert(spec_enc_chars(s) + rest =~= rest);
        assert(s =~= Seq::<char>::empty());
    } else {
        let v = s[0] as u32;
        lemma_char_scalar(s[0]);
        assert(spec_enc_chars(s) + rest =~= spec_le4(v) + (spec_enc_chars(s.skip(1)) + rest));
        lemma_dec_le4(v, spec_enc_chars(s.skip(1)) + rest);
        lemma_chars_round_trip(s.skip(1), rest);
        assert(seq![v as char] + s.skip(1) =~= s);
    }
}

/// Decoding the encoding of a string yields it back, leaving the rest of
/// the stream untouched.
pub proof fn lemma_str_round_trip(s: Seq<char>, rest: Seq<u8>)
    requires
        s.len() <= u64::MAX,
    ensures
        spec_dec_str(spec_enc_str(s) + rest) == Some((s, rest)),
{
    let n = (s.len() as u64);
    assert(spec_enc_str(s) + rest =~= spec_le8(n) + (spec_enc_chars(s) + rest));
    lemma_dec_le8(n, spec_enc_chars(s) + rest);
    assert(n as nat == s.len());
    lemma_chars_round_trip(s, rest);
}

/// Relies on core's `char::from_u32`: it returns `Some` exactly when the
/// value is a Unicode scalar value, and the character then carries that
/// value.
#[verifier::external_body]
fn char_from_u32(v: u32) -> (r: Option<char>)
    ensures
        r is Some <==> spec_is_scalar(v),
        r matches Some(c) ==> c as u32 == v,
{
    char::from_u32(v)
}

/// Appends the characters of `s`, four bytes each.
fn write_chars(out: &mut Vec<u8>, s: &str)
    ensures
        final(out)@ == old(out)@ + spec_enc_chars(s@),
{
    let n = s.unicode_len();
    let mut i: usize = 0;
    while i < n
        invariant
            i <= n,
            n == s@.len(),
            out@ == old(out)@ + spec_enc_chars(s@.take(i as int)),
        decreases n - i,
    {
        let c = s.get_char(i);
        write_u32(out, c as u32);
        proof {
            assert(s@.take(i + 1) =~= s@.take(i as int) + seq![s@[i as int]]);
            lemma_enc_chars_concat(s@.take(i as int), seq![s@[i as int]]);
            assert(seq![s@[i as int]].skip(1) =~= Seq::<char>::empty());
            assert(spec_enc_chars(Seq::<char>::empty()) == Seq::<u8>::empty());
            assert(spec_le4(s@[i as int] as u32) + Seq::<u8>::empty() =~= spec_le4(
                s@[i as int] as u32,
            ));
            assert(spec_enc_chars(seq![s@[i as int]]) =~= spec_le4(s@[i as int] as u32));
            assert(old(out)@ + spec_enc_chars(s@.take(i as int)) + spec_le4(c as u32) =~= old(
                out,
            )@ + spec_enc_chars(s@.take(i + 1)));
        }
        i = i + 1;
    }
    proof {
        assert(s@.take(n as int) =~= s@);
    }
}

/// Appends the encoding of a string: character count, then the characters.
fn write_str(out: &mut Vec<u8>, s: &str)
    ensures
        final(out)@ == old(out)@ + spec_enc_str(s@),
{
    let n = s.unicode_len();
    write_u64(out, n as u64);
    write_chars(out, s);
    proof {
        assert(old(out)@ + spec_le8(n as u64) + spec_enc_chars(s@) =~= old(out)@ + spec_enc_str(
            s@,
        ));
    }
}

/// Reads `count` characters of four bytes each at position `i` of `bytes`.
fn read_chars(bytes: &Vec<u8>, i: usize, count: u64) -> (r: Option<(String, usize)>)
    requires
        i <= bytes@.len(),
    ensures
        match spec_dec_chars(bytes@.skip(i as int), count as nat) {
            Some(p) => r matches Some(q) && q.0@ == p.0 && q.1 <= bytes@.len() && bytes@.skip(
                q.1 as int,
            ) == p.1,
            None => r is None,
        },
{
    let mut s = String::new();
    let mut pos: usize = i;
    let mut j: u64 = 0;
    while j < count
        invariant
            j <= count,
            pos <= bytes@.len(),
            match spec_dec_chars(bytes@.skip(pos as int), (count - j) as nat) {
                Some(p) => spec_dec_chars(bytes@.skip(i as int), count as nat) == Some(
                    (s@ + p.0, p.1),
                ),
                None => spec_dec_chars(bytes@.skip(i as int), count as nat) is None,
            },
        decreases count - j,
    {
        match read_u32(bytes, pos) {
            None => {
                assert(spec_dec_chars(bytes@.skip(pos as int), (count - j) as nat) is None);
                return None;
            },
            Some((v, next)) => {
                if !(v < 0xD800 || (0xE000 <= v && v <= 0x10FFFF)) {
                    assert(spec_dec_chars(bytes@.skip(pos as int), (count - j) as nat) is None);
                    return None;
                }
                let ghost prefix = s@;
                let c = char_from_u32(v).unwrap();
                push_char(&mut s, c);
                proof {
                    lemma_char_scalar(c);
                    assert(c == (v as char));
                    let tail = spec_dec_chars(bytes@.skip(next as int), (count - j - 1) as nat);
                    if tail is Some {
                        assert(prefix + (seq![v as char] + (tail->0).0) =~= s@ + (tail->0).0);
                    }
                }
                pos = next;
                j = j + 1;
            },
        }
    }
    proof {
        let p = spec_dec_chars(bytes@.skip(pos as int), 0);
        assert(s@ + (p->0).0 =~= s@);
    }
    Some((s, pos))
}

/// Reads a string at position `i` of `bytes`.
fn read_str(bytes: &Vec<u8>, i: usize) -> (r: Option<(String, usize)>)
    requires
        i <= bytes@.len(),
    ensures
        match spec_dec_str(bytes@.skip(i as int)) {
            Some(p) => r matches Some(q) && q.0@ == p.0 && q.1 <= bytes@.len() && bytes@.skip(
                q.1 as int,
            ) == p.1,
            None => r is None,
        },
{
    match read_u64(bytes, i) {
        None => None,
        Some((n, j)) => read_chars(bytes, j, n),
    }
}

// ---------------------------------------------------------------------------
// Dates, categories, records, and the whole store.
// ---------------------------------------------------------------------------
/// A date as three four-byte fields: year, month, day.
pub open spec fn spec_enc_date(d: Date) -> Seq<u8> {
    spec_le4(d.year) + spec_le4(d.month) + spec_le4(d.day)
}

/// Reads a date's three four-byte fields.
pub open spec fn spec_dec_date(b: Seq<u8>) -> Option<(Date, Seq<u8>)> {
    match spec_dec_u32(b) {
        None => None,
        Some(py) => match spec_dec_u32(py.1) {
            None => None,
            Some(pm) => match spec_dec_u32(pm.1) {
                None => None,
                Some(pd) => Some((Date { year: py.0, month: pm.0, day: pd.0 }, pd.1)),
            },
        },
    }
}

/// A category as one tag byte; the free-text tag is followed by its text.
pub open spec fn spec_enc_cat(c: CategoryModel) -> Seq<u8> {
    match c {
        CategoryModel::Art => seq![0u8],
        CategoryModel::Music => seq![1u8],
        CategoryModel::VirtualRealEstate => seq![2u8],
        CategoryModel::Collectible => seq![3u8],
        CategoryModel::GameItem => seq![4u8],
        CategoryModel::Other(t) => seq![5u8] + spec_enc_str(t),
    }
}

/// Reads a category: a tag byte, then for the free-text tag its text.
pub open spec fn spec_dec_cat(b: Seq<u8>) -> Option<(CategoryModel, Seq<u8>)> {
    match spec_dec_u8(b) {
        None => None,
        Some(p) => if p.0 == 0 {
            Some((CategoryModel::Art, p.1))
        } else if p.0 == 1 {
            Some((CategoryModel::Music, p.1))
        } else if p.0 == 2 {
            Some((CategoryModel::VirtualRealEstate, p.1))
        } else if p.0 == 3 {
            Some((CategoryModel::Collectible, p.1))
        } else if p.0 == 4 {
            Some((CategoryModel::GameItem, p.1))
        } else if p.0 == 5 {
            match spec_dec_str(p.1) {
                None => None,
                Some(q) => Some((CategoryModel::Other(q.0), q.1)),
            }
        } else {
            None
        },
    }
}

/// A record: token identifier, owner identifier, creation date, category.
pub open spec fn spec_enc_nft(n: NftModel) -> Seq<u8> {
    spec_enc_str(n.token_id) + spec_le8(n.owner_id) + spec_enc_date(n.creation_date)
        + spec_enc_cat(n.category)
}

/// Reads one record's four fields.
pub open spec fn spec_dec_nft(b: Seq<u8>) -> Option<(NftModel, Seq<u8>)> {
    match spec_dec_str(b) {
        None => None,
        Some(pt) => match spec_dec_u64(pt.1) {
            None => None,
            Some(po) => match spec_dec_date(po.1) {
                None => None,
                Some(pd) => match spec_dec_cat(pd.1) {
                    None => None,
                    Some(pc) => Some(
                        (
                            NftModel {
                                token_id: pt.0,
                                owner_id: po.0,
                                creation_date: pd.0,
                                category: pc.0,
                            },
                            pc.1,
                        ),
                    ),
                },
            },
        },
    }
}

/// The records of a store, one after the other.
pub open spec fn spec_enc_records(s: Seq<NftModel>) -> Seq<u8>
    decreases s.len(),
{
    if s.len() == 0 {
        Seq::empty()
    } else {
        spec_enc_nft(s[0]) + spec_enc_records(s.skip(1))
    }
}

/// Reads `count` records, one after the other.
pub open spec fn spec_dec_records(b: Seq<u8>, count: nat) -> Option<(Seq<NftModel>, Seq<u8>)>
    decreases count,
{
    if count == 0 {
        Some((Seq::empty(), b))
    } else {
        match spec_dec_nft(b) {
            None => None,
            Some(p) => match spec_dec_records(p.1, (count - 1) as nat) {
                None => None,
                Some(q) => Some((seq![p.0] + q.0, q.1)),
            },
        }
    }
}

/// The whole store as one blob: the record count, then the records.
pub open spec fn spec_enc_store(s: Seq<NftModel>) -> Seq<u8> {
    spec_le8(s.len() as u64) + spec_enc_records(s)
}

/// The store read back from a blob: the record count, then that many
/// records, with nothing left over; `None` when the bytes do not have that
/// shape.
pub open spec fn spec_dec_store(b: Seq<u8>) -> Option<Seq<NftModel>> {
    match spec_dec_u64(b) {
        None => None,
        Some(p) => match spec_dec_records(p.1, p.0 as nat) {
            None => None,
            Some(q) => if q.1.len() == 0 {
                Some(q.0)
            } else {
                None
            },
        },
    }
}

/// A record model the encoding can carry: field lengths fit the count
/// fields. Every record held by executable code satisfies this.
pub open spec fn spec_wf_nft(n: NftModel) -> bool {
    &&& n.token_id.len() <= u64::MAX
    &&& match n.category {
        CategoryModel::Other(t) => t.len() <= u64::MAX,
        _ => true,
    }
}

/// Reading a one-byte tag back off the stream it heads yields it and the
/// rest.
proof fn lemma_dec_tag(t: u8, rest: Seq<u8>)
    ensures
        spec_dec_u8(seq![t] + rest) == Some((t, rest)),
{
    let b = seq![t] + rest;
    assert(b[0] == t);
    assert(b.skip(1) =~= rest);
}

/// Decoding the encoding of a date yields it back.
pub proof fn lemma_date_round_trip(d: Date, rest: Seq<u8>)
    ensures
        spec_dec_date(spec_enc_date(d) + rest) == Some((d, rest)),
{
    assert(spec_enc_date(d) + rest =~= spec_le4(d.year) + (spec_le4(d.month) + (spec_le4(d.day)
        + rest)));
    lemma_dec_le4(d.year, spec_le4(d.month) + (spec_le4(d.day) + rest));
    lemma_dec_le4(d.month, spec_le4(d.day) + rest);
    lemma_dec_le4(d.day, rest);
}

/// Decoding the encoding of a category yields it back.
pub proof fn lemma_cat_round_trip(c: CategoryModel, rest: Seq<u8>)
    requires
        c matches CategoryModel::Other(t) ==> t.len() <= u64::MAX,
    ensures
        spec_dec_cat(spec_enc_cat(c) + rest) == Some((c, rest)),
{
    match c {
        CategoryModel::Art => lemma_dec_tag(0u8, rest),
        CategoryModel::Music => lemma_dec_tag(1u8, rest),
        CategoryModel::VirtualRealEstate => lemma_dec_tag(2u8, rest),
        CategoryModel::Collectible => lemma_dec_tag(3u8, rest),
        CategoryModel::GameItem => lemma_dec_tag(4u8, rest),
        CategoryModel::Other(t) => {
            assert(spec_enc_cat(c) + rest =~= seq![5u8] + (spec_enc_str(t) + rest));
            lemma_dec_tag(5u8, spec_enc_str(t) + rest);
            lemma_str_round_trip(t, rest);
        },
    }
}

/// Decoding the encoding of a record yields it back.
pub proof fn lemma_nft_round_trip(n: NftModel, rest: Seq<u8>)
    requires
        spec_wf_nft(n),
    ensures
        spec_dec_nft(spec_enc_nft(n) + rest) == Some((n, rest)),
{
    let after_token = spec_le8(n.owner_id) + (spec_enc_date(n.creation_date) + (spec_enc_cat(
        n.category,
    ) + rest));
    assert(spec_enc_nft(n) + rest =~= spec_enc_str(n.token_id) + after_token);
    lemma_str_round_trip(n.token_id, after_token);
    lemma_dec_le8(n.owner_id, spec_enc_date(n.creation_date) + (spec_enc_cat(n.category) + rest));
    lemma_date_round_trip(n.creation_date, spec_enc_cat(n.category) + rest);
    lemma_cat_round_trip(n.category, rest);
}

/// Encoding distributes over concatenation of record sequences.
pub proof fn lemma_enc_records_concat(a: Seq<NftModel>, b: Seq<NftModel>)
    ensures
        spec_enc_records(a + b) == spec_enc_records(a) + spec_enc_records(b),
    decreases a.len(),
{
    if a.len() == 0 {
        assert(a + b =~= b);
        assert(spec_enc_records(a) + spec_enc_records(b) =~= spec_enc_records(b));
    } else {
        lemma_enc_records_concat(a.skip(1), b);
        assert((a + b).skip(1) =~= a.skip(1) + b);
        assert(spec_enc_nft(a[0]) + (spec_enc_records(a.skip(1)) + spec_enc_records(b)) =~= (
        spec_enc_nft(a[0]) + spec_enc_records(a.skip(1))) + spec_enc_records(b));
    }
}

/// Decoding the encoding of a record sequence yields it back.
pub proof fn lemma_records_round_trip(s: Seq<NftModel>, rest: Seq<u8>)
    requires
        forall|i: int| 0 <= i < s.len() ==> spec_wf_nft(#[trigger] s[i]),
    ensures
        spec_dec_records(spec_enc_records(s) + rest, s.len()) == Some((s, rest)),
    decreases s.len(),
{
    if s.len() == 0 {
        assert(spec_enc_records(s) + rest =~= rest);
        assert(s =~= Seq::<NftModel>::empty());
    } else {
        assert(spec_enc_records(s) + rest =~= spec_enc_nft(s[0]) + (spec_enc_records(s.skip(1))
            + rest));
        lemma_nft_round_trip(s[0], spec_enc_records(s.skip(1)) + rest);
        assert(forall|i: int|
            0 <= i < s.skip(1).len() ==> spec_wf_nft(#[trigger] s.skip(1)[i]));
        lemma_records_round_trip(s.skip(1), rest);
        assert(seq![s[0]] + s.skip(1) =~= s);
    }
}

/// Appends a date's three four-byte fields.
fn write_date(out: &mut Vec<u8>, d: &Date)
    ensures
        final(out)@ == old(out)@ + spec_enc_date(*d),
{
    write_u32(out, d.year);
    write_u32(out, d.month);
    write_u32(out, d.day);
    proof {
        assert(old(out)@ + spec_le4(d.year) + spec_le4(d.month) + spec_le4(d.day) =~= old(out)@
            + spec_enc_date(*d));
    }
}

/// Appends a category: its tag byte, then for free text the text.
fn write_cat(out: &mut Vec<u8>, c: &Category)
    ensures
        final(out)@ == old(out)@ + spec_enc_cat(c@),
{
    match c {
        Category::Art => {
            out.push(0u8);
            proof {
                assert(out@ =~= old(out)@ + spec_enc_cat(c@));
            }
        },
        Category::Music => {
            out.push(1u8);
            proof {
                assert(out@ =~= old(out)@ + spec_enc_cat(c@));
            }
        },
        Category::VirtualRealEstate => {
            out.push(2u8);
            proof {
                assert(out@ =~= old(out)@ + spec_enc_cat(c@));
            }
        },
        Category::Collectible => {
            out.push(3u8);
            proof {
                assert(out@ =~= old(out)@ + spec_enc_cat(c@));
            }
        },
        Category::GameItem => {
            out.push(4u8);
            proof {
                assert(out@ =~= old(out)@ + spec_enc_cat(c@));
            }
        },
        Category::Other(t) => {
            out.push(5u8);
            write_str(out, t.as_str());
            proof {
                assert(old(out)@.push(5u8) =~= old(out)@ + seq![5u8]);
                assert(old(out)@ + seq![5u8] + spec_enc_str(t@) =~= old(out)@ + spec_enc_cat(c@));
            }
        },
    }
}

/// Appends one record's four fields.
fn write_nft(out: &mut Vec<u8>, n: &NFT)
    ensures
        final(out)@ == old(out)@ + spec_enc_nft(n@),
{
    write_str(out, n.token_id.as_str());
    write_u64(out, n.owner_id);
    write_date(out, &n.creation_date);
    write_cat(out, &n.category);
    proof {
        assert(old(out)@ + spec_enc_str(n.token_id@) + spec_le8(n.owner_id) + spec_enc_date(
            n.creation_date,
        ) + spec_enc_cat(n.category@) =~= old(out)@ + spec_enc_nft(n@));
    }
}

/// The whole store as one blob: the record count, then the records.
pub fn encode_store(records: &Vec<NFT>) -> (r: Vec<u8>)
    ensures
        r@ == spec_enc_store(records.deep_view()),
{
    let ghost dv = records.deep_view();
    let mut out: Vec<u8> = Vec::new();
    let count = records.len();
    write_u64(&mut out, count as u64);
    proof {
        assert(dv.len() == count);
        assert(out@ =~= spec_le8(count as u64) + spec_enc_records(dv.take(0)));
    }
    let mut i: usize = 0;
    while i < count
        invariant
            i <= count,
            count == records@.len(),
            dv == records.deep_view(),
            out@ == spec_le8(count as u64) + spec_enc_records(dv.take(i as int)),
        decreases count - i,
    {
        write_nft(&mut out, &records[i]);
        proof {
            assert(records@[i as int].deep_view() == dv[i as int]);
            assert(dv.take(i + 1) =~= dv.take(i as int) + seq![dv[i as int]]);
            lemma_enc_records_concat(dv.take(i as int), seq![dv[i as int]]);
            assert(seq![dv[i as int]].skip(1) =~= Seq::<NftModel>::empty());
            assert(spec_enc_records(Seq::<NftModel>::empty()) == Seq::<u8>::empty());
            assert(spec_enc_nft(dv[i as int]) + Seq::<u8>::empty() =~= spec_enc_nft(
                dv[i as int],
            ));
            assert(spec_enc_records(seq![dv[i as int]]) =~= spec_enc_nft(dv[i as int]));
            assert(spec_le8(count as u64) + spec_enc_records(dv.take(i as int)) + spec_enc_nft(
                dv[i as int],
            ) =~= spec_le8(count as u64) + spec_enc_records(dv.take(i + 1)));
        }
        i = i + 1;
    }
    proof {
        assert(dv.take(count as int) =~= dv);
    }
    out
}

/// Reads a date at position `i` of `bytes`.
fn read_date(bytes: &Vec<u8>, i: usize) -> (r: Option<(Date, usize)>)
    requires
        i <= bytes@.len(),
    ensures
        match spec_dec_date(bytes@.skip(i as int)) {
            Some(p) => r matches Some(q) && q.0 == p.0 && q.1 <= bytes@.len() && bytes@.skip(
                q.1 as int,
            ) == p.1,
            None => r is None,
        },
{
    match read_u32(bytes, i) {
        None => None,
        Some((year, j)) => match read_u32(bytes, j) {
            None => None,
            Some((month, k)) => match read_u32(bytes, k) {
                None => None,
                Some((day, m)) => Some((Date { year, month, day }, m)),
            },
        },
    }
}

/// Reads a category at position `i` of `bytes`.
fn read_cat(bytes: &Vec<u8>, i: usize) -> (r: Option<(Category, usize)>)
    requires
        i <= bytes@.len(),
    ensures
        match spec_dec_cat(bytes@.skip(i as int)) {
            Some(p) => r matches Some(q) && q.0@ == p.0 && q.1 <= bytes@.len() && bytes@.skip(
                q.1 as int,
            ) == p.1,
            None => r is None,
        },
{
    match read_u8(bytes, i) {
        None => None,
        Some((tag, j)) => {
            if tag == 0 {
                Some((Category::Art, j))
            } else if tag == 1 {
                Some((Category::Music, j))
            } else if tag == 2 {
                Some((Category::VirtualRealEstate, j))
            } else if tag == 3 {
                Some((Category::Collectible, j))
            } else if tag == 4 {
                Some((Category::GameItem, j))
            } else if tag == 5 {
                match read_str(bytes, j) {
                    None => None,
                    Some((t, k)) => Some((Category::Other(t), k)),
                }
            } else {
                None
            }
        },
    }
}

/// Reads one record at position `i` of `bytes`.
fn read_nft(bytes: &Vec<u8>, i: usize) -> (r: Option<(NFT, usize)>)
    requires
        i <= bytes@.len(),
    ensures
        match spec_dec_nft(bytes@.skip(i as int)) {
            Some(p) => r matches Some(q) && q.0@ == p.0 && q.1 <= bytes@.len() && bytes@.skip(
                q.1 as int,
            ) == p.1,
            None => r is None,
        },
{
    match read_str(bytes, i) {
        None => None,
        Some((token_id, j)) => match read_u64(bytes, j) {
            None => None,
            Some((owner_id, k)) => match read_date(bytes, k) {
                None => None,
                Some((creation_date, m)) => match read_cat(bytes, m) {
                    None => None,
                    Some((category, n)) => Some(
                        (NFT { token_id, owner_id, creation_date, category }, n),
                    ),
                },
            },
        },
    }
}

/// The store read back from a blob; `None` when the bytes do not decode as
/// a store or leave anything over.
pub fn decode_store(bytes: &Vec<u8>) -> (r: Option<Vec<NFT>>)
    ensures
        match spec_dec_store(bytes@) {
            Some(s) => r matches Some(v) && v.deep_view() == s,
            None => r is None,
        },
{
    let mut records: Vec<NFT> = Vec::new();
    match read_u64(bytes, 0) {
        None => {
            proof {
                assert(bytes@.skip(0) =~= bytes@);
            }
            None
        },
        Some((count, start)) => {
            proof {
                assert(bytes@.skip(0) =~= bytes@);
            }
            let mut pos: usize = start;
            let mut j: u64 = 0;
            while j < count
                invariant
                    j <= count,
                    pos <= bytes@.len(),
                    start <= bytes@.len(),
                    spec_dec_u64(bytes@) == Some((count, bytes@.skip(start as int))),
                    match spec_dec_records(bytes@.skip(pos as int), (count - j) as nat) {
                        Some(p) => spec_dec_records(
                            bytes@.skip(start as int),
                            count as nat,
                        ) == Some((records.deep_view() + p.0, p.1)),
                        None => spec_dec_records(
                            bytes@.skip(start as int),
                            count as nat,
                        ) is None,
                    },
                decreases count - j,
            {
                match read_nft(bytes, pos) {
                    None => {
                        assert(spec_dec_records(bytes@.skip(pos as int), (count - j) as nat)
                            is None);
                        return None;
                    },
                    Some((nft, next)) => {
                        let ghost prefix = records.deep_view();
                        records.push(nft);
                        proof {
                            assert(records.deep_view() =~= prefix.push(nft@));
                            let tail = spec_dec_records(
                                bytes@.skip(next as int),
                                (count - j - 1) as nat,
                            );
                            if tail is Some {
                                assert(prefix + (seq![nft@] + (tail->0).0) =~= records.deep_view()
                                    + (tail->0).0);
                            }
                        }
                        pos = next;
                        j = j + 1;
                    },
                }
            }
            proof {
                let p = spec_dec_records(bytes@.skip(pos as int), 0);
                assert(records.deep_view() + (p->0).0 =~= records.deep_view());
            }
            if pos == bytes.len() {
                proof {
                    assert(bytes@.skip(pos as int).len() == 0);
                }
                Some(records)
            } else {
                proof {
                    assert(bytes@.skip(pos as int).len() != 0);
                }
                None
            }
        },
    }
}

/// The round trip of the store encoding: decoding the encoding of any
/// record sequence the encoding can carry yields that sequence again.
pub proof fn lemma_store_round_trip(s: Seq<NftModel>)
    requires
        s.len() <= u64::MAX,
        forall|i: int| 0 <= i < s.len() ==> spec_wf_nft(#[trigger] s[i]),
    ensures
        spec_dec_store(spec_enc_store(s)) == Some(s),
{
    let n = (s.len() as u64);
    lemma_dec_le8(n, spec_enc_records(s));
    assert(n as nat == s.len());
    lemma_records_round_trip(s, Seq::empty());
    assert(spec_enc_records(s) + Seq::<u8>::empty() =~= spec_enc_records(s));
}

} // verus!
