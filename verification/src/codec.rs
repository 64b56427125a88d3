//! The codec: decodes the string fields of a raw fixture into the canonical
//! model, enforcing hex prefixing, fixed-width padding and numeric parsing.
//!
//! Every decoder's contract equates its result with a spec-level decoder
//! (`s_hexdata`, `s_number`, ...), so the behaviour on every input — the
//! value produced as well as the error — is pinned down exactly.

use vstd::prelude::*;

use core::str::FromStr;

verus! {

use crate::model::{
    h160_eq, h256_eq, str_bytes, AccountState, AccountStateV, Block, BlockHeader, BlockHeaderV, BlockV,
    CallTransaction, CallTransactionV, NetworkType, RawAccountState, RawAccountStateV, RawBlock,
    RawBlockHeader, RawBlockHeaderV, RawBlockV, RawFixture, RawTestCase, RawTestCaseV,
    RawTransaction, RawTransactionV, TestCase, TestCaseV, H160, H256, U256,
};
use vstd::slice::slice_subrange;

/// The ways decoding a fixture document can fail. Any of them is fatal to
/// the whole document: no partial document is produced.
#[derive(Debug, Clone, PartialEq, Eq)]
pub enum DecodeError {
    /// An arbitrary-length byte field lacked the literal `0x` prefix.
    MissingPrefix,
    /// The remainder of a byte field was not valid hex.
    InvalidHex,
    /// A numeric field was neither a decimal nor a hex numeral in range.
    InvalidNumber,
    /// A hash, address or storage word had the wrong width or content.
    InvalidFixedBytes,
    /// A network name outside the closed set of forks, carried verbatim.
    UnknownNetwork(String),
}

/// The mathematical view of a decode error.
pub enum DecodeErrorV {
    MissingPrefix,
    InvalidHex,
    InvalidNumber,
    InvalidFixedBytes,
    UnknownNetwork(Seq<char>),
}

/// The view of an exec-level decode error.
pub open spec fn err_v(e: DecodeError) -> DecodeErrorV {
    match e {
        DecodeError::MissingPrefix => DecodeErrorV::MissingPrefix,
        DecodeError::InvalidHex => DecodeErrorV::InvalidHex,
        DecodeError::InvalidNumber => DecodeErrorV::InvalidNumber,
        DecodeError::InvalidFixedBytes => DecodeErrorV::InvalidFixedBytes,
        DecodeError::UnknownNetwork(s) => DecodeErrorV::UnknownNetwork(s@),
    }
}

/// The view of a whole decode result.
pub open spec fn rv<T: View>(r: Result<T, DecodeError>) -> Result<T::V, DecodeErrorV> {
    match r {
        Ok(v) => Ok(v.view()),
        Err(e) => Err(err_v(e)),
    }
}

/// Whether a byte is an ASCII hex digit, either case.
pub open spec fn is_hex_digit(b: u8) -> bool {
    (48u8 <= b && b <= 57u8) || (65u8 <= b && b <= 70u8) || (97u8 <= b && b <= 102u8)
}

/// The value of an ASCII hex digit.
pub open spec fn hex_nibble(b: u8) -> u8 {
    if 48u8 <= b && b <= 57u8 {
        (b - 48u8) as u8
    } else if 65u8 <= b && b <= 70u8 {
        (b - 65u8 + 10) as u8
    } else {
        (b - 97u8 + 10) as u8
    }
}

/// Whether every byte of `s` is an ASCII hex digit.
pub open spec fn all_hex(s: Seq<u8>) -> bool {
    forall|i: int| 0 <= i < s.len() ==> is_hex_digit(s[i])
}

/// The byte a pair of hex digits denotes.
pub open spec fn hex_pair_byte(hi: u8, lo: u8) -> u8 {
    (hex_nibble(hi) * 16 + hex_nibble(lo)) as u8
}

/// The bytes an even-length hex numeral denotes, pair by pair.
pub open spec fn hex_bytes(s: Seq<u8>) -> Seq<u8>
    decreases s.len(),
{
    if s.len() < 2 {
        Seq::empty()
    } else {
        seq![hex_pair_byte(s[0], s[1])] + hex_bytes(s.skip(2))
    }
}

/// The numeric value of a hex numeral, big endian; the empty numeral is 0.
pub open spec fn hex_val(s: Seq<u8>) -> nat
    decreases s.len(),
{
    if s.len() == 0 {
        0
    } else {
        hex_val(s.drop_last()) * 16 + (hex_nibble(s.last()) as nat)
    }
}

/// Whether a byte is an ASCII decimal digit.
pub open spec fn is_dec_digit(b: u8) -> bool {
    48u8 <= b && b <= 57u8
}

/// Whether every byte of `s` is an ASCII decimal digit.
pub open spec fn all_dec(s: Seq<u8>) -> bool {
    forall|i: int| 0 <= i < s.len() ==> is_dec_digit(s[i])
}

/// The numeric value of a decimal numeral; the empty numeral is 0.
pub open spec fn dec_val(s: Seq<u8>) -> nat
    decreases s.len(),
{
    if s.len() == 0 {
        0
    } else {
        dec_val(s.drop_last()) * 10 + (if is_dec_digit(s.last()) {
            (s.last() - 48u8) as nat
        } else {
            0
        })
    }
}

/// One more than the largest value a 256-bit integer can hold.
pub open spec fn pow_2_256() -> nat {
    (0x1_0000_0000_0000_0000int * 0x1_0000_0000_0000_0000 * 0x1_0000_0000_0000_0000
        * 0x1_0000_0000_0000_0000) as nat
}

/// Whether `s` starts with the two bytes of the literal `0x`.
pub open spec fn starts_0x(s: Seq<u8>) -> bool {
    s.len() >= 2 && s[0] == 48u8 && s[1] == 120u8
}

/// `s` with one leading `0x` removed, if present.
pub open spec fn strip_0x(s: Seq<u8>) -> Seq<u8> {
    if starts_0x(s) {
        s.skip(2)
    } else {
        s
    }
}

/// `s` left-padded with ASCII zeros to 64 digits.
pub open spec fn pad64(s: Seq<u8>) -> Seq<u8> {
    Seq::new((64 - s.len()) as nat, |i: int| 48u8) + s
}

/// Spec decoder for an even-length hex numeral: the bytes it denotes, or
/// `InvalidHex`.
pub open spec fn s_hex(t: Seq<u8>) -> Result<Seq<u8>, DecodeErrorV> {
    if t.len() % 2 == 0 && all_hex(t) {
        Ok(hex_bytes(t))
    } else {
        Err(DecodeErrorV::InvalidHex)
    }
}

/// Spec decoder for an arbitrary-length byte field: a `0x` prefix is
/// required, the remainder must be even-length hex.
pub open spec fn s_hexdata(b: Seq<u8>) -> Result<Seq<u8>, DecodeErrorV> {
    if !starts_0x(b) {
        Err(DecodeErrorV::MissingPrefix)
    } else {
        s_hex(b.skip(2))
    }
}

/// Spec decoder for a hex numeral with an optional `0x` prefix: at most 64
/// digits, big endian; the empty numeral is 0.
pub open spec fn s_hexnum(b: Seq<u8>) -> Result<nat, DecodeErrorV> {
    if strip_0x(b).len() <= 64 && all_hex(strip_0x(b)) {
        Ok(hex_val(strip_0x(b)))
    } else {
        Err(DecodeErrorV::InvalidNumber)
    }
}

/// Spec decoder for a decimal numeral whose value fits in 256 bits.
pub open spec fn s_decnum(b: Seq<u8>) -> Result<nat, DecodeErrorV> {
    if all_dec(b) && dec_val(b) < pow_2_256() {
        Ok(dec_val(b))
    } else {
        Err(DecodeErrorV::InvalidNumber)
    }
}

/// Spec decoder for a numeric field: with a `0x` prefix, a hex numeral of at
/// most 64 digits; otherwise a decimal numeral whose value fits in 256 bits.
pub open spec fn s_number(b: Seq<u8>) -> Result<nat, DecodeErrorV> {
    if starts_0x(b) {
        s_hexnum(b)
    } else {
        s_decnum(b)
    }
}

/// Spec decoder for a fixed-width field of `n` bytes: an optional `0x`
/// prefix, then exactly `2 * n` hex digits.
pub open spec fn s_fixed(b: Seq<u8>, n: nat) -> Result<Seq<u8>, DecodeErrorV> {
    if strip_0x(b).len() == 2 * n && all_hex(strip_0x(b)) {
        Ok(hex_bytes(strip_0x(b)))
    } else {
        Err(DecodeErrorV::InvalidFixedBytes)
    }
}

/// Spec decoder for a storage key or value: a `0x` prefix is required, the
/// remainder is left-zero-padded to 64 hex digits and read as 32 bytes.
pub open spec fn s_word(b: Seq<u8>) -> Result<Seq<u8>, DecodeErrorV> {
    if !starts_0x(b) {
        Err(DecodeErrorV::MissingPrefix)
    } else if b.skip(2).len() <= 64 && all_hex(b.skip(2)) {
        Ok(hex_bytes(pad64(b.skip(2))))
    } else {
        Err(DecodeErrorV::InvalidFixedBytes)
    }
}

/// Relies on hex::decode: one byte for each pair of hex digits of either
/// case; rejects an odd-length or non-hex input.
#[verifier::external_body]
fn hex_decode(t: &[u8]) -> (r: Result<Vec<u8>, DecodeError>)
    ensures
        rv(r) == s_hex(t@),
{
    match hex::decode(t) {
        Ok(v) => Ok(v),
        Err(_) => Err(DecodeError::InvalidHex),
    }
}

/// Relies on ethereum_types::H256::from_str (fixed-hash): exactly 64 hex
/// digits give the 32 bytes they spell, big endian.
#[verifier::external_body]
fn h256_parse(t: &[u8]) -> (r: H256)
    requires
        t@.len() == 64,
        all_hex(t@),
    ensures
        r@ == hex_bytes(t@),
{
    let s = core::str::from_utf8(t).unwrap();
    let h = ethereum_types::H256::from_str(s).unwrap();
    H256(h.0)
}

/// Relies on ethereum_types::H160::from_str (fixed-hash): exactly 40 hex
/// digits give the 20 bytes they spell, big endian.
#[verifier::external_body]
fn h160_parse(t: &[u8]) -> (r: H160)
    requires
        t@.len() == 40,
        all_hex(t@),
    ensures
        r@ == hex_bytes(t@),
{
    let s = core::str::from_utf8(t).unwrap();
    let h = ethereum_types::H160::from_str(s).unwrap();
    H160(h.0)
}

/// Relies on ethereum_types::U256::from_str (uint): strips one optional
/// `0x`, then accepts up to 64 hex digits, big endian; the empty numeral
/// is 0.
#[verifier::external_body]
fn u256_from_hex(s: &str) -> (r: Result<U256, DecodeError>)
    ensures
        rv(r) == s_hexnum(str_bytes(s@)),
{
    match ethereum_types::U256::from_str(s) {
        Ok(u) => Ok(U256(u.0)),
        Err(_) => Err(DecodeError::InvalidNumber),
    }
}

/// Relies on ethereum_types::U256::from_dec_str (uint): accepts decimal
/// digits whose value fits in 256 bits; the empty numeral is 0.
#[verifier::external_body]
fn u256_from_dec(s: &str) -> (r: Result<U256, DecodeError>)
    ensures
        rv(r) == s_decnum(str_bytes(s@)),
{
    match ethereum_types::U256::from_dec_str(s) {
        Ok(u) => Ok(U256(u.0)),
        Err(_) => Err(DecodeError::InvalidNumber),
    }
}

/// Whether every byte of the slice is a hex digit.
fn check_all_hex(t: &[u8]) -> (r: bool)
    ensures
        r == all_hex(t@),
{
    let mut i: usize = 0;
    while i < t.len()
        invariant
            i <= t@.len(),
            forall|j: int| 0 <= j < i ==> is_hex_digit(t@[j]),
        decreases t@.len() - i,
    {
        let b = t[i];
        if !((48u8 <= b && b <= 57u8) || (65u8 <= b && b <= 70u8) || (97u8 <= b && b <= 102u8)) {
            return false;
        }
        i += 1;
    }
    true
}

/// Whether two byte strings are equal.
pub fn bytes_eq(a: &[u8], b: &[u8]) -> (r: bool)
    ensures
        r == (a@ == b@),
{
    if a.len() != b.len() {
        assert(a@.len() != b@.len());
        return false;
    }
    let mut i: usize = 0;
    while i < a.len()
        invariant
            i <= a@.len(),
            a@.len() == b@.len(),
            forall|j: int| 0 <= j < i ==> a@[j] == b@[j],
        decreases a@.len() - i,
    {
        if a[i] != b[i] {
            return false;
        }
        i += 1;
    }
    proof {
        assert(a@ =~= b@);
    }
    true
}

/// Decodes an arbitrary-length byte field: requires the literal `0x`
/// prefix, then even-length hex.
pub fn decode_hex_data(s: &str) -> (r: Result<Vec<u8>, DecodeError>)
    ensures
        rv(r) == s_hexdata(str_bytes(s@)),
{
    let bs = s.as_bytes();
    if !(bs.len() >= 2 && bs[0] == 48u8 && bs[1] == 120u8) {
        return Err(DecodeError::MissingPrefix);
    }
    let tail = slice_subrange(bs, 2, bs.len());
    assert(tail@ =~= str_bytes(s@).skip(2));
    hex_decode(tail)
}

/// Decodes a 32-byte hash field: an optional `0x`, then exactly 64 hex
/// digits.
pub fn decode_h256(s: &str) -> (r: Result<H256, DecodeError>)
    ensures
        rv(r) == s_fixed(str_bytes(s@), 32),
{
    let bs = s.as_bytes();
    let start: usize = if bs.len() >= 2 && bs[0] == 48u8 && bs[1] == 120u8 {
        2
    } else {
        0
    };
    let t = slice_subrange(bs, start, bs.len());
    assert(t@ =~= strip_0x(str_bytes(s@)));
    if t.len() != 64 {
        return Err(DecodeError::InvalidFixedBytes);
    }
    if !check_all_hex(t) {
        return Err(DecodeError::InvalidFixedBytes);
    }
    Ok(h256_parse(t))
}

/// Decodes a 20-byte address field: an optional `0x`, then exactly 40 hex
/// digits.
pub fn decode_h160(s: &str) -> (r: Result<H160, DecodeError>)
    ensures
        rv(r) == s_fixed(str_bytes(s@), 20),
{
    let bs = s.as_bytes();
    let start: usize = if bs.len() >= 2 && bs[0] == 48u8 && bs[1] == 120u8 {
        2
    } else {
        0
    };
    let t = slice_subrange(bs, start, bs.len());
    assert(t@ =~= strip_0x(str_bytes(s@)));
    if t.len() != 40 {
        return Err(DecodeError::InvalidFixedBytes);
    }
    if !check_all_hex(t) {
        return Err(DecodeError::InvalidFixedBytes);
    }
    Ok(h160_parse(t))
}

/// Decodes a numeric field: with a `0x` prefix a hex numeral, otherwise a
/// decimal numeral; the value must fit in 256 bits.
pub fn decode_number(s: &str) -> (r: Result<U256, DecodeError>)
    ensures
        rv(r) == s_number(str_bytes(s@)),
{
    let bs = s.as_bytes();
    if bs.len() >= 2 && bs[0] == 48u8 && bs[1] == 120u8 {
        assert(strip_0x(str_bytes(s@)) =~= str_bytes(s@).skip(2));
        u256_from_hex(s)
    } else {
        u256_from_dec(s)
    }
}

/// Decodes one storage key or value: requires the `0x` prefix, then at most
/// 64 hex digits, left-zero-padded to the full 32-byte width. A short form
/// such as `0x1` becomes the word that ends in the byte 1; a full-width form
/// is taken as it stands.
pub fn decode_storage_word(s: &str) -> (r: Result<H256, DecodeError>)
    ensures
        rv(r) == s_word(str_bytes(s@)),
{
    let bs = s.as_bytes();
    if !(bs.len() >= 2 && bs[0] == 48u8 && bs[1] == 120u8) {
        return Err(DecodeError::MissingPrefix);
    }
    let t = slice_subrange(bs, 2, bs.len());
    assert(t@ =~= str_bytes(s@).skip(2));
    if t.len() > 64 {
        return Err(DecodeError::InvalidFixedBytes);
    }
    if !check_all_hex(t) {
        return Err(DecodeError::InvalidFixedBytes);
    }
    let pad: usize = 64 - t.len();
    let mut v: Vec<u8> = Vec::new();
    let mut i: usize = 0;
    while i < pad
        invariant
            i <= pad,
            v@.len() == i,
            forall|j: int| 0 <= j < i ==> v@[j] == 48u8,
        decreases pad - i,
    {
        v.push(48u8);
        i += 1;
    }
    let mut k: usize = 0;
    while k < t.len()
        invariant
            k <= t@.len(),
            pad == 64 - t@.len(),
            v@.len() == pad + k,
            forall|j: int| 0 <= j < pad ==> v@[j] == 48u8,
            forall|j: int| 0 <= j < k ==> v@[pad + j] == t@[j],
        decreases t@.len() - k,
    {
        v.push(t[k]);
        k += 1;
    }
    assert(v@ =~= pad64(t@));
    assert(all_hex(v@));
    Ok(h256_parse(v.as_slice()))
}

/// Spec decoder for a network name: exactly the four fork literals are
/// accepted, case-sensitively; any other string is `UnknownNetwork`,
/// carrying the name.
pub open spec fn s_network(c: Seq<char>) -> Result<NetworkType, DecodeErrorV> {
    if str_bytes(c) == str_bytes("Istanbul"@) {
        Ok(NetworkType::Istanbul)
    } else if str_bytes(c) == str_bytes("Berlin"@) {
        Ok(NetworkType::Berlin)
    } else if str_bytes(c) == str_bytes("London"@) {
        Ok(NetworkType::London)
    } else if str_bytes(c) == str_bytes("Merge"@) {
        Ok(NetworkType::Merge)
    } else {
        Err(DecodeErrorV::UnknownNetwork(c))
    }
}

/// Decodes a fork name into the closed `NetworkType` enumeration.
pub fn decode_network(s: &str) -> (r: Result<NetworkType, DecodeError>)
    ensures
        r matches Ok(n) ==> s_network(s@) == Ok::<NetworkType, DecodeErrorV>(n),
        r matches Err(e) ==> s_network(s@) == Err::<NetworkType, DecodeErrorV>(err_v(e)),
{
    let bs = s.as_bytes();
    if bytes_eq(bs, "Istanbul".as_bytes()) {
        Ok(NetworkType::Istanbul)
    } else if bytes_eq(bs, "Berlin".as_bytes()) {
        Ok(NetworkType::Berlin)
    } else if bytes_eq(bs, "London".as_bytes()) {
        Ok(NetworkType::London)
    } else if bytes_eq(bs, "Merge".as_bytes()) {
        Ok(NetworkType::Merge)
    } else {
        Err(DecodeError::UnknownNetwork(s.to_owned()))
    }
}


/// The first index at which a key stands in a key/value sequence, or -1 if
/// it is absent.
pub open spec fn find_key<K, V>(s: Seq<(K, V)>, k: K) -> int
    decreases s.len(),
{
    if s.len() == 0 {
        -1
    } else if s[0].0 == k {
        0
    } else if find_key(s.drop_first(), k) < 0 {
        -1
    } else {
        find_key(s.drop_first(), k) + 1
    }
}

/// One mapping entry written into a key/value sequence, as standard
/// last-wins mapping construction does it: an existing entry with the key
/// is overwritten in place, a new key is appended.
pub open spec fn upsert<K, V>(s: Seq<(K, V)>, k: K, v: V) -> Seq<(K, V)> {
    if find_key(s, k) < 0 {
        s.push((k, v))
    } else {
        s.update(find_key(s, k), (k, v))
    }
}

/// `find_key` names exactly the first index bearing the key.
proof fn lemma_find_key_at<K, V>(s: Seq<(K, V)>, k: K, j: int)
    requires
        0 <= j < s.len(),
        s[j].0 == k,
        forall|t: int| 0 <= t < j ==> s[t].0 != k,
    ensures
        find_key(s, k) == j,
    decreases s.len(),
{
    if j > 0 {
        assert(s[0].0 != k);
        assert(s.drop_first()[j - 1].0 == k);
        assert forall|t: int| 0 <= t < j - 1 implies s.drop_first()[t].0 != k by {
            assert(s.drop_first()[t] == s[t + 1]);
        }
        lemma_find_key_at(s.drop_first(), k, j - 1);
    }
}

/// A key that no entry bears is not found.
proof fn lemma_find_key_none<K, V>(s: Seq<(K, V)>, k: K)
    requires
        forall|t: int| 0 <= t < s.len() ==> s[t].0 != k,
    ensures
        find_key(s, k) == -1,
    decreases s.len(),
{
    if s.len() > 0 {
        assert forall|t: int| 0 <= t < s.drop_first().len() implies s.drop_first()[t].0 != k by {
            assert(s.drop_first()[t] == s[t + 1]);
        }
        lemma_find_key_none(s.drop_first(), k);
    }
}

/// The view of a decoded storage list.
pub open spec fn storage_v(v: Seq<(H256, H256)>) -> Seq<(Seq<u8>, Seq<u8>)> {
    v.map_values(|q: (H256, H256)| (q.0@, q.1@))
}

/// The view of a raw storage list.
pub open spec fn raw_pairs_v(v: Seq<(String, String)>) -> Seq<(Seq<char>, Seq<char>)> {
    v.map_values(|p: (String, String)| (p.0@, p.1@))
}

/// Spec decoder for a storage list: each entry's key, then its value, in
/// document order; the first error wins. Entries build a mapping: a later
/// entry whose padded key equals an earlier one's silently overwrites it
/// (last wins), so the result's keys are unique.
pub open spec fn s_storage(ps: Seq<(Seq<char>, Seq<char>)>) -> Result<
    Seq<(Seq<u8>, Seq<u8>)>,
    DecodeErrorV,
>
    decreases ps.len(),
{
    if ps.len() == 0 {
        Ok(Seq::empty())
    } else {
        match s_storage(ps.drop_last()) {
            Err(e) => Err(e),
            Ok(acc) => match s_word(str_bytes(ps.last().0)) {
                Err(e) => Err(e),
                Ok(k) => match s_word(str_bytes(ps.last().1)) {
                    Err(e) => Err(e),
                    Ok(v) => Ok(upsert(acc, k, v)),
                },
            },
        }
    }
}

/// An error in a prefix of a storage list is the error of the whole list.
proof fn lemma_s_storage_err(ps: Seq<(Seq<char>, Seq<char>)>, m: int, e: DecodeErrorV)
    requires
        0 <= m <= ps.len(),
        s_storage(ps.take(m)) == Err::<Seq<(Seq<u8>, Seq<u8>)>, DecodeErrorV>(e),
    ensures
        s_storage(ps) == Err::<Seq<(Seq<u8>, Seq<u8>)>, DecodeErrorV>(e),
    decreases ps.len() - m,
{
    if m == ps.len() {
        assert(ps.take(m) =~= ps);
    } else {
        assert(ps.take(m + 1).drop_last() =~= ps.take(m));
        lemma_s_storage_err(ps, m + 1, e);
    }
}

/// Writes one decoded storage entry into the map being built: an existing
/// key is overwritten, a new one appended.
fn upsert_word(out: &mut Vec<(H256, H256)>, k: H256, v: H256)
    ensures
        storage_v(final(out)@) == upsert(storage_v(old(out)@), k@, v@),
{
    let mut j: usize = 0;
    while j < out.len()
        invariant
            j <= out@.len(),
            out@ == old(out)@,
            forall|t: int| 0 <= t < j ==> out@[t].0@ != k@,
        decreases out@.len() - j,
    {
        if h256_eq(&out[j].0, &k) {
            proof {
                assert forall|t: int| 0 <= t < j implies storage_v(out@)[t].0 != k@ by {
                    assert(storage_v(out@)[t] == (out@[t].0@, out@[t].1@));
                }
                assert(storage_v(out@)[j as int].0 == k@);
                lemma_find_key_at(storage_v(out@), k@, j as int);
            }
            out.set(j, (k, v));
            proof {
                assert(storage_v(out@) =~= storage_v(old(out)@).update(j as int, (k@, v@)));
            }
            return ;
        }
        j += 1;
    }
    proof {
        assert forall|t: int| 0 <= t < storage_v(out@).len() implies storage_v(out@)[t].0 != k@ by {
            assert(storage_v(out@)[t] == (out@[t].0@, out@[t].1@));
        }
        lemma_find_key_none(storage_v(out@), k@);
    }
    out.push((k, v));
    proof {
        assert(storage_v(out@) =~= storage_v(old(out)@).push((k@, v@)));
    }
}

/// Decodes a storage map: every key and value gets the `0x` prefix checked
/// and is padded to the full 32-byte width; a later entry for the same
/// padded key silently overwrites the earlier (last wins).
pub fn decode_storage(ps: &Vec<(String, String)>) -> (r: Result<Vec<(H256, H256)>, DecodeError>)
    ensures
        r matches Ok(v) ==> s_storage(raw_pairs_v(ps@)) == Ok::<_, DecodeErrorV>(storage_v(v@)),
        r matches Err(e) ==> s_storage(raw_pairs_v(ps@)) == Err::<
            Seq<(Seq<u8>, Seq<u8>)>,
            _,
        >(err_v(e)),
{
    let ghost rp = raw_pairs_v(ps@);
    let mut out: Vec<(H256, H256)> = Vec::new();
    proof {
        assert(rp.take(0) =~= Seq::<(Seq<char>, Seq<char>)>::empty());
        assert(storage_v(out@) =~= Seq::<(Seq<u8>, Seq<u8>)>::empty());
    }
    let mut i: usize = 0;
    while i < ps.len()
        invariant
            i <= ps@.len(),
            rp == raw_pairs_v(ps@),
            s_storage(rp.take(i as int)) == Ok::<Seq<(Seq<u8>, Seq<u8>)>, DecodeErrorV>(
                storage_v(out@),
            ),
        decreases ps@.len() - i,
    {
        proof {
            assert(rp.take(i + 1).drop_last() =~= rp.take(i as int));
            assert(rp.take(i + 1).last() == (ps@[i as int].0@, ps@[i as int].1@));
        }
        let k = match decode_storage_word(ps[i].0.as_str()) {
            Ok(k) => k,
            Err(e) => {
                proof {
                    lemma_s_storage_err(rp, i + 1, err_v(e));
                }
                return Err(e);
            },
        };
        let v = match decode_storage_word(ps[i].1.as_str()) {
            Ok(v) => v,
            Err(e) => {
                proof {
                    lemma_s_storage_err(rp, i + 1, err_v(e));
                }
                return Err(e);
            },
        };
        upsert_word(&mut out, k, v);
        i += 1;
    }
    proof {
        assert(rp.take(i as int) =~= rp);
    }
    Ok(out)
}

/// Spec decoder for one account: balance, code, nonce, then storage; the
/// first error wins.
pub open spec fn s_account(a: RawAccountStateV) -> Result<AccountStateV, DecodeErrorV> {
    match s_number(str_bytes(a.balance)) {
        Err(e) => Err(e),
        Ok(balance) => match s_hexdata(str_bytes(a.code)) {
            Err(e) => Err(e),
            Ok(code) => match s_number(str_bytes(a.nonce)) {
                Err(e) => Err(e),
                Ok(nonce) => match s_storage(a.storage) {
                    Err(e) => Err(e),
                    Ok(storage) => Ok(AccountStateV { balance, code, nonce, storage }),
                },
            },
        },
    }
}

/// Decodes one account state.
pub fn decode_account(a: &RawAccountState) -> (r: Result<AccountState, DecodeError>)
    ensures
        r matches Ok(v) ==> s_account(a@) == Ok::<AccountStateV, DecodeErrorV>(v@),
        r matches Err(e) ==> s_account(a@) == Err::<AccountStateV, DecodeErrorV>(err_v(e)),
{
    let balance = match decode_number(a.balance.as_str()) {
        Ok(v) => v,
        Err(e) => {
            return Err(e);
        },
    };
    let code = match decode_hex_data(a.code.as_str()) {
        Ok(v) => v,
        Err(e) => {
            return Err(e);
        },
    };
    let nonce = match decode_number(a.nonce.as_str()) {
        Ok(v) => v,
        Err(e) => {
            return Err(e);
        },
    };
    let storage = match decode_storage(&a.storage) {
        Ok(v) => v,
        Err(e) => {
            return Err(e);
        },
    };
    Ok(AccountState { balance, code, nonce, storage })
}

/// The view of a raw account list.
pub open spec fn raw_accounts_v(v: Seq<(String, RawAccountState)>) -> Seq<
    (Seq<char>, RawAccountStateV),
> {
    v.map_values(|p: (String, RawAccountState)| (p.0@, p.1@))
}

/// The view of a decoded account list.
pub open spec fn accounts_v(v: Seq<(H160, AccountState)>) -> Seq<(Seq<u8>, AccountStateV)> {
    v.map_values(|p: (H160, AccountState)| (p.0@, p.1@))
}

/// Spec decoder for an account map: each key is a 20-byte address, each
/// value an account; document order, first error wins. When two key strings
/// decode to one address, the later entry silently overwrites the earlier
/// (last wins), as standard mapping construction does.
pub open spec fn s_accounts(ps: Seq<(Seq<char>, RawAccountStateV)>) -> Result<
    Seq<(Seq<u8>, AccountStateV)>,
    DecodeErrorV,
>
    decreases ps.len(),
{
    if ps.len() == 0 {
        Ok(Seq::empty())
    } else {
        match s_accounts(ps.drop_last()) {
            Err(e) => Err(e),
            Ok(acc) => match s_fixed(str_bytes(ps.last().0), 20) {
                Err(e) => Err(e),
                Ok(addr) => match s_account(ps.last().1) {
                    Err(e) => Err(e),
                    Ok(acct) => Ok(upsert(acc, addr, acct)),
                },
            },
        }
    }
}

/// An error in a prefix of an account map is the error of the whole map.
proof fn lemma_s_accounts_err(ps: Seq<(Seq<char>, RawAccountStateV)>, m: int, e: DecodeErrorV)
    requires
        0 <= m <= ps.len(),
        s_accounts(ps.take(m)) == Err::<Seq<(Seq<u8>, AccountStateV)>, DecodeErrorV>(e),
    ensures
        s_accounts(ps) == Err::<Seq<(Seq<u8>, AccountStateV)>, DecodeErrorV>(e),
    decreases ps.len() - m,
{
    if m == ps.len() {
        assert(ps.take(m) =~= ps);
    } else {
        assert(ps.take(m + 1).drop_last() =~= ps.take(m));
        lemma_s_accounts_err(ps, m + 1, e);
    }
}

/// Writes one decoded account into the map being built: an existing
/// address is overwritten, a new one appended.
fn upsert_account(out: &mut Vec<(H160, AccountState)>, k: H160, v: AccountState)
    ensures
        accounts_v(final(out)@) == upsert(accounts_v(old(out)@), k@, v@),
{
    let mut j: usize = 0;
    while j < out.len()
        invariant
            j <= out@.len(),
            out@ == old(out)@,
            forall|t: int| 0 <= t < j ==> out@[t].0@ != k@,
        decreases out@.len() - j,
    {
        if h160_eq(&out[j].0, &k) {
            proof {
                assert forall|t: int| 0 <= t < j implies accounts_v(out@)[t].0 != k@ by {
                    assert(accounts_v(out@)[t] == (out@[t].0@, out@[t].1@));
                }
                assert(accounts_v(out@)[j as int].0 == k@);
                lemma_find_key_at(accounts_v(out@), k@, j as int);
            }
            let ghost prev = out@;
            out.set(j, (k, v));
            proof {
                assert(accounts_v(out@) =~= accounts_v(prev).update(j as int, (k@, v@)));
            }
            return ;
        }
        j += 1;
    }
    proof {
        assert forall|t: int| 0 <= t < accounts_v(out@).len() implies accounts_v(out@)[t].0
            != k@ by {
            assert(accounts_v(out@)[t] == (out@[t].0@, out@[t].1@));
        }
        lemma_find_key_none(accounts_v(out@), k@);
    }
    out.push((k, v));
    proof {
        assert(accounts_v(out@) =~= accounts_v(old(out)@).push((k@, v@)));
    }
}

/// Decodes a pre-state or post-state account map: one entry per distinct
/// decoded address, a later duplicate silently overwriting the earlier.
pub fn decode_accounts(ps: &Vec<(String, RawAccountState)>) -> (r: Result<
    Vec<(H160, AccountState)>,
    DecodeError,
>)
    ensures
        r matches Ok(v) ==> s_accounts(raw_accounts_v(ps@)) == Ok::<_, DecodeErrorV>(
            accounts_v(v@),
        ),
        r matches Err(e) ==> s_accounts(raw_accounts_v(ps@)) == Err::<
            Seq<(Seq<u8>, AccountStateV)>,
            _,
        >(err_v(e)),
{
    let ghost rp = raw_accounts_v(ps@);
    let mut out: Vec<(H160, AccountState)> = Vec::new();
    proof {
        assert(rp.take(0) =~= Seq::<(Seq<char>, RawAccountStateV)>::empty());
        assert(accounts_v(out@) =~= Seq::<(Seq<u8>, AccountStateV)>::empty());
    }
    let mut i: usize = 0;
    while i < ps.len()
        invariant
            i <= ps@.len(),
            rp == raw_accounts_v(ps@),
            s_accounts(rp.take(i as int)) == Ok::<Seq<(Seq<u8>, AccountStateV)>, DecodeErrorV>(
                accounts_v(out@),
            ),
        decreases ps@.len() - i,
    {
        proof {
            assert(rp.take(i + 1).drop_last() =~= rp.take(i as int));
            assert(rp.take(i + 1).last() == (ps@[i as int].0@, ps@[i as int].1@));
        }
        let addr = match decode_h160(ps[i].0.as_str()) {
            Ok(v) => v,
            Err(e) => {
                proof {
                    lemma_s_accounts_err(rp, i + 1, err_v(e));
                }
                return Err(e);
            },
        };
        let acct = match decode_account(&ps[i].1) {
            Ok(v) => v,
            Err(e) => {
                proof {
                    lemma_s_accounts_err(rp, i + 1, err_v(e));
                }
                return Err(e);
            },
        };
        upsert_account(&mut out, addr, acct);
        i += 1;
    }
    proof {
        assert(rp.take(i as int) =~= rp);
    }
    Ok(out)
}

/// Spec decoder for a block header; field order, first error wins.
pub open spec fn s_header(h: RawBlockHeaderV) -> Result<BlockHeaderV, DecodeErrorV> {
    match s_fixed(str_bytes(h.coinbase), 20) {
        Err(e) => Err(e),
        Ok(coinbase) => match s_number(str_bytes(h.difficulty)) {
            Err(e) => Err(e),
            Ok(difficulty) => match s_number(str_bytes(h.gas_limit)) {
                Err(e) => Err(e),
                Ok(gas_limit) => match s_fixed(str_bytes(h.hash), 32) {
                    Err(e) => Err(e),
                    Ok(hash) => match s_number(str_bytes(h.number)) {
                        Err(e) => Err(e),
                        Ok(number) => match s_number(str_bytes(h.timestamp)) {
                            Err(e) => Err(e),
                            Ok(timestamp) => Ok(
                                BlockHeaderV {
                                    coinbase,
                                    difficulty,
                                    gas_limit,
                                    hash,
                                    number,
                                    timestamp,
                                },
                            ),
                        },
                    },
                },
            },
        },
    }
}

/// Decodes one block header.
pub fn decode_header(h: &RawBlockHeader) -> (r: Result<BlockHeader, DecodeError>)
    ensures
        r matches Ok(v) ==> s_header(h@) == Ok::<BlockHeaderV, DecodeErrorV>(v@),
        r matches Err(e) ==> s_header(h@) == Err::<BlockHeaderV, DecodeErrorV>(err_v(e)),
{
    let coinbase = match decode_h160(h.coinbase.as_str()) {
        Ok(v) => v,
        Err(e) => {
            return Err(e);
        },
    };
    let difficulty = match decode_number(h.difficulty.as_str()) {
        Ok(v) => v,
        Err(e) => {
            return Err(e);
        },
    };
    let gas_limit = match decode_number(h.gas_limit.as_str()) {
        Ok(v) => v,
        Err(e) => {
            return Err(e);
        },
    };
    let hash = match decode_h256(h.hash.as_str()) {
        Ok(v) => v,
        Err(e) => {
            return Err(e);
        },
    };
    let number = match decode_number(h.number.as_str()) {
        Ok(v) => v,
        Err(e) => {
            return Err(e);
        },
    };
    let timestamp = match decode_number(h.timestamp.as_str()) {
        Ok(v) => v,
        Err(e) => {
            return Err(e);
        },
    };
    Ok(BlockHeader { coinbase, difficulty, gas_limit, hash, number, timestamp })
}

/// Spec decoder for one transaction; field order, first error wins.
pub open spec fn s_tx(t: RawTransactionV) -> Result<CallTransactionV, DecodeErrorV> {
    match s_hexdata(str_bytes(t.data)) {
        Err(e) => Err(e),
        Ok(data) => match s_number(str_bytes(t.gas_limit)) {
            Err(e) => Err(e),
            Ok(gas_limit) => match s_number(str_bytes(t.gas_price)) {
                Err(e) => Err(e),
                Ok(gas_price) => match s_number(str_bytes(t.nonce)) {
                    Err(e) => Err(e),
                    Ok(nonce) => match s_fixed(str_bytes(t.sender), 20) {
                        Err(e) => Err(e),
                        Ok(sender) => match s_fixed(str_bytes(t.to), 20) {
                            Err(e) => Err(e),
                            Ok(to) => match s_number(str_bytes(t.value)) {
                                Err(e) => Err(e),
                                Ok(value) => match s_hexdata(str_bytes(t.r)) {
                                    Err(e) => Err(e),
                                    Ok(r) => match s_hexdata(str_bytes(t.s)) {
                                        Err(e) => Err(e),
                                        Ok(s) => match s_hexdata(str_bytes(t.v)) {
                                            Err(e) => Err(e),
                                            Ok(v) => Ok(
                                                CallTransactionV {
                                                    data,
                                                    gas_limit,
                                                    gas_price,
                                                    nonce,
                                                    sender,
                                                    to,
                                                    value,
                                                    r,
                                                    s,
                                                    v,
                                                },
                                            ),
                                        },
                                    },
                                },
                            },
                        },
                    },
                },
            },
        },
    }
}

/// Decodes one transaction.
pub fn decode_transaction(t: &RawTransaction) -> (res: Result<CallTransaction, DecodeError>)
    ensures
        res matches Ok(v) ==> s_tx(t@) == Ok::<CallTransactionV, DecodeErrorV>(v@),
        res matches Err(e) ==> s_tx(t@) == Err::<CallTransactionV, DecodeErrorV>(err_v(e)),
{
    let data = match decode_hex_data(t.data.as_str()) {
        Ok(v) => v,
        Err(e) => {
            return Err(e);
        },
    };
    let gas_limit = match decode_number(t.gas_limit.as_str()) {
        Ok(v) => v,
        Err(e) => {
            return Err(e);
        },
    };
    let gas_price = match decode_number(t.gas_price.as_str()) {
        Ok(v) => v,
        Err(e) => {
            return Err(e);
        },
    };
    let nonce = match decode_number(t.nonce.as_str()) {
        Ok(v) => v,
        Err(e) => {
            return Err(e);
        },
    };
    let sender = match decode_h160(t.sender.as_str()) {
        Ok(v) => v,
        Err(e) => {
            return Err(e);
        },
    };
    let to = match decode_h160(t.to.as_str()) {
        Ok(v) => v,
        Err(e) => {
            return Err(e);
        },
    };
    let value = match decode_number(t.value.as_str()) {
        Ok(v) => v,
        Err(e) => {
            return Err(e);
        },
    };
    let r = match decode_hex_data(t.r.as_str()) {
        Ok(v) => v,
        Err(e) => {
            return Err(e);
        },
    };
    let s = match decode_hex_data(t.s.as_str()) {
        Ok(v) => v,
        Err(e) => {
            return Err(e);
        },
    };
    let v = match decode_hex_data(t.v.as_str()) {
        Ok(v) => v,
        Err(e) => {
            return Err(e);
        },
    };
    Ok(CallTransaction { data, gas_limit, gas_price, nonce, sender, to, value, r, s, v })
}

/// Spec decoder for a transaction list, in execution order.
pub open spec fn s_txs(ts: Seq<RawTransactionV>) -> Result<Seq<CallTransactionV>, DecodeErrorV>
    decreases ts.len(),
{
    if ts.len() == 0 {
        Ok(Seq::empty())
    } else {
        match s_tx(ts[0]) {
            Err(e) => Err(e),
            Ok(t) => match s_txs(ts.drop_first()) {
                Err(e) => Err(e),
                Ok(rest) => Ok(seq![t] + rest),
            },
        }
    }
}

/// The view of a raw transaction list.
pub open spec fn raw_txs_v(v: Seq<RawTransaction>) -> Seq<RawTransactionV> {
    v.map_values(|t: RawTransaction| t@)
}

/// The view of a decoded transaction list.
pub open spec fn txs_v(v: Seq<CallTransaction>) -> Seq<CallTransactionV> {
    v.map_values(|t: CallTransaction| t@)
}

#[verifier::rlimit(100)]
fn decode_txs_from(ts: &Vec<RawTransaction>, i: usize) -> (r: Result<
    Vec<CallTransaction>,
    DecodeError,
>)
    requires
        i <= ts@.len(),
    ensures
        r matches Ok(v) ==> s_txs(raw_txs_v(ts@).skip(i as int)) == Ok::<_, DecodeErrorV>(
            txs_v(v@),
        ),
        r matches Err(e) ==> s_txs(raw_txs_v(ts@).skip(i as int)) == Err::<
            Seq<CallTransactionV>,
            _,
        >(err_v(e)),
    decreases ts@.len() - i,
{
    let ghost tail = raw_txs_v(ts@).skip(i as int);
    if i == ts.len() {
        assert(tail =~= Seq::<RawTransactionV>::empty());
        let out: Vec<CallTransaction> = Vec::new();
        assert(txs_v(out@) =~= Seq::<CallTransactionV>::empty());
        return Ok(out);
    }
    assert(tail[0] == ts@[i as int]@);
    assert(tail.drop_first() =~= raw_txs_v(ts@).skip(i as int + 1));
    let t = match decode_transaction(&ts[i]) {
        Ok(v) => v,
        Err(e) => {
            return Err(e);
        },
    };
    let mut rest = match decode_txs_from(ts, i + 1) {
        Ok(rest) => rest,
        Err(e) => {
            return Err(e);
        },
    };
    let ghost rest0 = rest@;
    let ghost tv = t@;
    rest.insert(0, t);
    proof {
        assert(rest@ =~= seq![rest@[0]] + rest0);
        assert(txs_v(rest@) =~= seq![tv] + txs_v(rest0));
    }
    Ok(rest)
}

/// Spec decoder for one block: its header, then its transactions.
pub open spec fn s_block(b: RawBlockV) -> Result<BlockV, DecodeErrorV> {
    match s_header(b.block_header) {
        Err(e) => Err(e),
        Ok(block_header) => match s_txs(b.transactions) {
            Err(e) => Err(e),
            Ok(transactions) => Ok(BlockV { block_header, transactions }),
        },
    }
}

/// Decodes one block.
pub fn decode_block(b: &RawBlock) -> (r: Result<Block, DecodeError>)
    ensures
        r matches Ok(v) ==> s_block(b@) == Ok::<BlockV, DecodeErrorV>(v@),
        r matches Err(e) ==> s_block(b@) == Err::<BlockV, DecodeErrorV>(err_v(e)),
{
    let block_header = match decode_header(&b.block_header) {
        Ok(v) => v,
        Err(e) => {
            return Err(e);
        },
    };
    let transactions = match decode_txs_from(&b.transactions, 0) {
        Ok(v) => v,
        Err(e) => {
            proof {
                assert(raw_txs_v(b.transactions@).skip(0) =~= raw_txs_v(b.transactions@));
            }
            return Err(e);
        },
    };
    proof {
        assert(raw_txs_v(b.transactions@).skip(0) =~= raw_txs_v(b.transactions@));
    }
    Ok(Block { block_header, transactions })
}

/// Spec decoder for a block list, in listed order.
pub open spec fn s_blocks(bs: Seq<RawBlockV>) -> Result<Seq<BlockV>, DecodeErrorV>
    decreases bs.len(),
{
    if bs.len() == 0 {
        Ok(Seq::empty())
    } else {
        match s_block(bs[0]) {
            Err(e) => Err(e),
            Ok(b) => match s_blocks(bs.drop_first()) {
                Err(e) => Err(e),
                Ok(rest) => Ok(seq![b] + rest),
            },
        }
    }
}

/// The view of a raw block list.
pub open spec fn raw_blocks_v(v: Seq<RawBlock>) -> Seq<RawBlockV> {
    v.map_values(|b: RawBlock| b@)
}

/// The view of a decoded block list.
pub open spec fn blocks_v(v: Seq<Block>) -> Seq<BlockV> {
    v.map_values(|b: Block| b@)
}

#[verifier::rlimit(100)]
fn decode_blocks_from(bs: &Vec<RawBlock>, i: usize) -> (r: Result<Vec<Block>, DecodeError>)
    requires
        i <= bs@.len(),
    ensures
        r matches Ok(v) ==> s_blocks(raw_blocks_v(bs@).skip(i as int)) == Ok::<_, DecodeErrorV>(
            blocks_v(v@),
        ),
        r matches Err(e) ==> s_blocks(raw_blocks_v(bs@).skip(i as int)) == Err::<
            Seq<BlockV>,
            _,
        >(err_v(e)),
    decreases bs@.len() - i,
{
    let ghost tail = raw_blocks_v(bs@).skip(i as int);
    if i == bs.len() {
        assert(tail =~= Seq::<RawBlockV>::empty());
        let out: Vec<Block> = Vec::new();
        assert(blocks_v(out@) =~= Seq::<BlockV>::empty());
        return Ok(out);
    }
    assert(tail[0] == bs@[i as int]@);
    assert(tail.drop_first() =~= raw_blocks_v(bs@).skip(i as int + 1));
    let b = match decode_block(&bs[i]) {
        Ok(v) => v,
        Err(e) => {
            return Err(e);
        },
    };
    let mut rest = match decode_blocks_from(bs, i + 1) {
        Ok(rest) => rest,
        Err(e) => {
            return Err(e);
        },
    };
    let ghost rest0 = rest@;
    let ghost bv = b@;
    rest.insert(0, b);
    proof {
        assert(rest@ =~= seq![rest@[0]] + rest0);
        assert(blocks_v(rest@) =~= seq![bv] + blocks_v(rest0));
    }
    Ok(rest)
}

/// Spec decoder for one test case: pre-state, network, genesis header,
/// blocks, post-state; the first error wins.
pub open spec fn s_case(c: RawTestCaseV) -> Result<TestCaseV, DecodeErrorV> {
    match s_accounts(c.pre) {
        Err(e) => Err(e),
        Ok(pre) => match s_network(c.network) {
            Err(e) => Err(e),
            Ok(network) => match s_header(c.genesis_block_header) {
                Err(e) => Err(e),
                Ok(genesis_block_header) => match s_blocks(c.blocks) {
                    Err(e) => Err(e),
                    Ok(blocks) => match s_accounts(c.post_state) {
                        Err(e) => Err(e),
                        Ok(post_state) => Ok(
                            TestCaseV { pre, network, genesis_block_header, blocks, post_state },
                        ),
                    },
                },
            },
        },
    }
}

/// Decodes one test case.
pub fn decode_case(c: &RawTestCase) -> (r: Result<TestCase, DecodeError>)
    ensures
        r matches Ok(v) ==> s_case(c@) == Ok::<TestCaseV, DecodeErrorV>(v@),
        r matches Err(e) ==> s_case(c@) == Err::<TestCaseV, DecodeErrorV>(err_v(e)),
{
    let pre = match decode_accounts(&c.pre) {
        Ok(v) => v,
        Err(e) => {
            return Err(e);
        },
    };
    let network = match decode_network(c.network.as_str()) {
        Ok(v) => v,
        Err(e) => {
            return Err(e);
        },
    };
    let genesis_block_header = match decode_header(&c.genesis_block_header) {
        Ok(v) => v,
        Err(e) => {
            return Err(e);
        },
    };
    let blocks = match decode_blocks_from(&c.blocks, 0) {
        Ok(v) => v,
        Err(e) => {
            proof {
                assert(raw_blocks_v(c.blocks@).skip(0) =~= raw_blocks_v(c.blocks@));
            }
            return Err(e);
        },
    };
    proof {
        assert(raw_blocks_v(c.blocks@).skip(0) =~= raw_blocks_v(c.blocks@));
    }
    let post_state = match decode_accounts(&c.post_state) {
        Ok(v) => v,
        Err(e) => {
            return Err(e);
        },
    };
    Ok(TestCase { pre, network, genesis_block_header, blocks, post_state })
}

/// Spec decoder for a whole fixture document: each named case in document
/// order, names kept verbatim; the first error is fatal to the document.
pub open spec fn s_fixture(cs: Seq<(Seq<char>, RawTestCaseV)>) -> Result<
    Seq<(Seq<char>, TestCaseV)>,
    DecodeErrorV,
>
    decreases cs.len(),
{
    if cs.len() == 0 {
        Ok(Seq::empty())
    } else {
        match s_case(cs[0].1) {
            Err(e) => Err(e),
            Ok(c) => match s_fixture(cs.drop_first()) {
                Err(e) => Err(e),
                Ok(rest) => Ok(seq![(cs[0].0, c)] + rest),
            },
        }
    }
}

/// The view of a decoded case list.
pub open spec fn cases_v(v: Seq<(String, TestCase)>) -> Seq<(Seq<char>, TestCaseV)> {
    v.map_values(|p: (String, TestCase)| (p.0@, p.1@))
}

#[verifier::rlimit(100)]
fn decode_fixture_from(f: &RawFixture, i: usize) -> (r: Result<Vec<(String, TestCase)>, DecodeError>)
    requires
        i <= f.cases@.len(),
    ensures
        r matches Ok(v) ==> s_fixture(f@.skip(i as int)) == Ok::<_, DecodeErrorV>(cases_v(v@)),
        r matches Err(e) ==> s_fixture(f@.skip(i as int)) == Err::<
            Seq<(Seq<char>, TestCaseV)>,
            _,
        >(err_v(e)),
    decreases f.cases@.len() - i,
{
    let ghost tail = f@.skip(i as int);
    if i == f.cases.len() {
        assert(tail =~= Seq::<(Seq<char>, RawTestCaseV)>::empty());
        let out: Vec<(String, TestCase)> = Vec::new();
        assert(cases_v(out@) =~= Seq::<(Seq<char>, TestCaseV)>::empty());
        return Ok(out);
    }
    assert(tail[0] == (f.cases@[i as int].0@, f.cases@[i as int].1@));
    assert(tail.drop_first() =~= f@.skip(i as int + 1));
    let name = f.cases[i].0.clone();
    let c = match decode_case(&f.cases[i].1) {
        Ok(v) => v,
        Err(e) => {
            return Err(e);
        },
    };
    let mut rest = match decode_fixture_from(f, i + 1) {
        Ok(rest) => rest,
        Err(e) => {
            return Err(e);
        },
    };
    let ghost rest0 = rest@;
    let ghost nv = name@;
    let ghost cv = c@;
    rest.insert(0, (name, c));
    proof {
        assert(rest@ =~= seq![rest@[0]] + rest0);
        assert(cases_v(rest@) =~= seq![(nv, cv)] + cases_v(rest0));
    }
    Ok(rest)
}

/// The lowercase hex digit of a nibble value below 16.
pub open spec fn hex_digit_of(n: u8) -> u8 {
    if n < 10 {
        (48 + n) as u8
    } else {
        (87 + n) as u8
    }
}

/// The lowercase hex encoding of a byte sequence, two digits per byte.
pub open spec fn hex_str_of(bs: Seq<u8>) -> Seq<u8>
    decreases bs.len(),
{
    if bs.len() == 0 {
        Seq::empty()
    } else {
        seq![hex_digit_of(bs.first() / 16), hex_digit_of(bs.first() % 16)] + hex_str_of(
            bs.drop_first(),
        )
    }
}

/// The hex encoding of a byte sequence is twice as long, is made of hex
/// digits, and decodes back to the bytes it encodes.
pub proof fn lemma_hex_str_of(bs: Seq<u8>)
    ensures
        hex_str_of(bs).len() == 2 * bs.len(),
        all_hex(hex_str_of(bs)),
        hex_bytes(hex_str_of(bs)) == bs,
    decreases bs.len(),
{
    if bs.len() == 0 {
        assert(hex_bytes(hex_str_of(bs)) =~= bs);
    } else {
        lemma_hex_str_of(bs.drop_first());
        let s = hex_str_of(bs);
        let b = bs.first();
        assert(s[0] == hex_digit_of(b / 16) && s[1] == hex_digit_of(b % 16));
        assert(hex_nibble(hex_digit_of(b / 16)) == b / 16);
        assert(hex_nibble(hex_digit_of(b % 16)) == b % 16);
        assert(hex_pair_byte(s[0], s[1]) == b);
        assert(s.skip(2) =~= hex_str_of(bs.drop_first()));
        assert(hex_bytes(s) =~= seq![b] + bs.drop_first());
        assert(seq![b] + bs.drop_first() =~= bs);
        assert forall|i: int| 0 <= i < s.len() implies is_hex_digit(s[i]) by {
            if i >= 2 {
                assert(s[i] == hex_str_of(bs.drop_first())[i - 2]);
            }
        }
    }
}

/// Round trip: for any byte sequence, decoding `0x` followed by its hex
/// encoding yields exactly those bytes.
pub proof fn lemma_hex_round_trip(bs: Seq<u8>)
    ensures
        s_hexdata(seq![48u8, 120u8] + hex_str_of(bs)) == Ok::<Seq<u8>, DecodeErrorV>(bs),
{
    lemma_hex_str_of(bs);
    let s = seq![48u8, 120u8] + hex_str_of(bs);
    assert(starts_0x(s));
    assert(s.skip(2) =~= hex_str_of(bs));
}

/// Padding: a storage word already written with its full 64 hex digits is
/// decoded as it stands, unchanged by padding.
pub proof fn lemma_storage_word_full_width(b: Seq<u8>)
    requires
        starts_0x(b),
        b.skip(2).len() == 64,
        all_hex(b.skip(2)),
    ensures
        s_word(b) == Ok::<Seq<u8>, DecodeErrorV>(hex_bytes(b.skip(2))),
        s_word(b) == s_fixed(b, 32),
{
    assert(pad64(b.skip(2)) =~= b.skip(2));
    assert(strip_0x(b) =~= b.skip(2));
}

/// Decodes a whole fixture document into its named test cases.
pub fn decode_fixture(f: &RawFixture) -> (r: Result<Vec<(String, TestCase)>, DecodeError>)
    ensures
        r matches Ok(v) ==> s_fixture(f@) == Ok::<_, DecodeErrorV>(cases_v(v@)),
        r matches Err(e) ==> s_fixture(f@) == Err::<Seq<(Seq<char>, TestCaseV)>, _>(err_v(e)),
{
    let r = decode_fixture_from(f, 0);
    proof {
        assert(f@.skip(0) =~= f@);
    }
    r
}

} // verus!
