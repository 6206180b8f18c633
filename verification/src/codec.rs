//! Canonical hex codec for the two fixed-width identifiers: the 20-byte
//! execution address and the 48-byte BLS public key.
//!
//! Text form is `"0x"` followed by lowercase hex digits; parsing accepts
//! either case and rejects every malformed input with a distinct error.

use vstd::prelude::*;

verus! {

/// Why a piece of identifier text was rejected.
#[derive(Clone, Copy, Debug, PartialEq, Eq, Structural)]
pub enum CodecError {
    /// The text does not start with `0x`.
    MissingPrefix,
    /// The hex payload has an odd number of digits.
    OddHexLength,
    /// The payload holds a character that is not a hex digit.
    InvalidHexChar,
    /// The payload decodes to the wrong number of bytes.
    InvalidLength,
}

/// The canonical (lowercase) hex digit for a value below 16.
pub open spec fn hex_digit_char(n: int) -> char {
    if n == 0 {
        '0'
    } else if n == 1 {
        '1'
    } else if n == 2 {
        '2'
    } else if n == 3 {
        '3'
    } else if n == 4 {
        '4'
    } else if n == 5 {
        '5'
    } else if n == 6 {
        '6'
    } else if n == 7 {
        '7'
    } else if n == 8 {
        '8'
    } else if n == 9 {
        '9'
    } else if n == 10 {
        'a'
    } else if n == 11 {
        'b'
    } else if n == 12 {
        'c'
    } else if n == 13 {
        'd'
    } else if n == 14 {
        'e'
    } else {
        'f'
    }
}

/// Both hex digits of one byte, high nibble first.
pub open spec fn byte_hex(b: u8) -> Seq<char> {
    seq![hex_digit_char(b as int / 16), hex_digit_char(b as int % 16)]
}

/// The lowercase hex text of a byte sequence, without any prefix.
pub open spec fn hex_str(bs: Seq<u8>) -> Seq<char>
    decreases bs.len(),
{
    if bs.len() == 0 {
        seq![]
    } else {
        byte_hex(bs[0]) + hex_str(bs.drop_first())
    }
}

/// The full canonical text of a byte sequence: `0x` plus lowercase hex.
pub open spec fn encoded(bs: Seq<u8>) -> Seq<char> {
    seq!['0', 'x'] + hex_str(bs)
}

/// Whether a character is a hex digit of either case.
pub open spec fn is_hex_digit(c: char) -> bool {
    (48 <= c as u32 && c as u32 <= 57)  // '0'..'9'
    || (97 <= c as u32 && c as u32 <= 102)  // 'a'..'f'
    || (65 <= c as u32 && c as u32 <= 70)  // 'A'..'F'
}

/// Whether a character is a canonical lowercase hex digit.
pub open spec fn is_lower_hex_digit(c: char) -> bool {
    is_hex_digit(c) && !(65 <= c as u32 && c as u32 <= 70)
}

/// Whether every character of a sequence is a hex digit.
pub open spec fn all_hex(s: Seq<char>) -> bool {
    forall|i: int| 0 <= i < s.len() ==> is_hex_digit(#[trigger] s[i])
}

/// The value of one hex digit, of either case.
pub open spec fn hex_val(c: char) -> int {
    if 48 <= c as u32 && c as u32 <= 57 {
        c as u32 - 48
    } else if 97 <= c as u32 && c as u32 <= 102 {
        c as u32 - 87
    } else if 65 <= c as u32 && c as u32 <= 70 {
        c as u32 - 55
    } else {
        0
    }
}

/// The byte written as two hex digits, high digit first.
pub open spec fn hex_pair(hi: char, lo: char) -> u8 {
    (hex_val(hi) * 16 + hex_val(lo)) as u8
}

/// The bytes decoded from an even-length hex digit sequence.
pub open spec fn decode_hex(s: Seq<char>) -> Seq<u8> {
    Seq::new(s.len() / 2, |i: int| hex_pair(s[2 * i], s[2 * i + 1]))
}

/// Whether the text starts with the mandatory `0x` prefix.
pub open spec fn has_hex_prefix(s: Seq<char>) -> bool {
    s.len() >= 2 && s[0] == '0' && s[1] == 'x'
}

/// The hex payload: everything after the `0x` prefix.
pub open spec fn hex_payload(s: Seq<char>) -> Seq<char> {
    s.skip(2)
}

proof fn lemma_hex_str_snoc(bs: Seq<u8>, b: u8)
    ensures
        hex_str(bs.push(b)) == hex_str(bs) + byte_hex(b),
    decreases bs.len(),
{
    let s1 = bs.push(b);
    if bs.len() == 0 {
        assert(s1.drop_first() =~= Seq::<u8>::empty());
        assert(hex_str(s1.drop_first()) =~= Seq::<char>::empty());
        assert(hex_str(s1) =~= byte_hex(b) + hex_str(s1.drop_first()));
        assert(hex_str(bs.push(b)) =~= hex_str(bs) + byte_hex(b));
    } else {
        assert(s1.drop_first() =~= bs.drop_first().push(b));
        lemma_hex_str_snoc(bs.drop_first(), b);
        assert(hex_str(s1) == byte_hex(s1[0]) + hex_str(s1.drop_first()));
        assert(hex_str(s1.drop_first()) == hex_str(bs.drop_first()) + byte_hex(b));
        assert(hex_str(bs) == byte_hex(bs[0]) + hex_str(bs.drop_first()));
        assert(hex_str(bs.push(b)) =~= hex_str(bs) + byte_hex(b));
    }
}

proof fn lemma_hex_str_len(bs: Seq<u8>)
    ensures
        hex_str(bs).len() == 2 * bs.len(),
    decreases bs.len(),
{
    if bs.len() > 0 {
        lemma_hex_str_len(bs.drop_first());
    }
}

proof fn lemma_hex_str_index(bs: Seq<u8>, i: int)
    requires
        0 <= i < bs.len(),
    ensures
        hex_str(bs).len() == 2 * bs.len(),
        hex_str(bs)[2 * i] == hex_digit_char(bs[i] as int / 16),
        hex_str(bs)[2 * i + 1] == hex_digit_char(bs[i] as int % 16),
    decreases bs.len(),
{
    lemma_hex_str_len(bs);
    if i == 0 {
        lemma_hex_str_len(bs.drop_first());
    } else {
        lemma_hex_str_index(bs.drop_first(), i - 1);
    }
}

proof fn lemma_hex_digit_char_val(n: int)
    requires
        0 <= n < 16,
    ensures
        is_hex_digit(hex_digit_char(n)),
        is_lower_hex_digit(hex_digit_char(n)),
        hex_val(hex_digit_char(n)) == n,
{
}

/// Law: the canonical text of any byte sequence is all lowercase hex of
/// twice the byte length, and decoding it gives the bytes back.
pub proof fn lemma_hex_round_trip(bs: Seq<u8>)
    ensures
        hex_str(bs).len() == 2 * bs.len(),
        all_hex(hex_str(bs)),
        forall|i: int|
            0 <= i < hex_str(bs).len() ==> is_lower_hex_digit(#[trigger] hex_str(bs)[i]),
        decode_hex(hex_str(bs)) == bs,
{
    lemma_hex_str_len(bs);
    assert forall|i: int| 0 <= i < hex_str(bs).len() implies is_lower_hex_digit(
        #[trigger] hex_str(bs)[i],
    ) by {
        let j = i / 2;
        lemma_hex_str_index(bs, j);
        if i % 2 == 0 {
            lemma_hex_digit_char_val(bs[j] as int / 16);
        } else {
            lemma_hex_digit_char_val(bs[j] as int % 16);
        }
    }
    assert forall|i: int| 0 <= i < bs.len() implies decode_hex(hex_str(bs))[i] == bs[i] by {
        lemma_hex_str_index(bs, i);
        lemma_hex_digit_char_val(bs[i] as int / 16);
        lemma_hex_digit_char_val(bs[i] as int % 16);
        assert(hex_pair(hex_str(bs)[2 * i], hex_str(bs)[2 * i + 1]) == bs[i]);
    }
    assert(decode_hex(hex_str(bs)) =~= bs);
}

/// The single-character text of one hex digit value.
pub(crate) fn nibble_str(n: u8) -> (r: &'static str)
    requires
        n < 16,
    ensures
        r@ =~= seq![hex_digit_char(n as int)],
{
    proof {
        reveal_strlit("0");
        reveal_strlit("1");
        reveal_strlit("2");
        reveal_strlit("3");
        reveal_strlit("4");
        reveal_strlit("5");
        reveal_strlit("6");
        reveal_strlit("7");
        reveal_strlit("8");
        reveal_strlit("9");
        reveal_strlit("a");
        reveal_strlit("b");
        reveal_strlit("c");
        reveal_strlit("d");
        reveal_strlit("e");
        reveal_strlit("f");
    }
    match n {
        0 => "0",
        1 => "1",
        2 => "2",
        3 => "3",
        4 => "4",
        5 => "5",
        6 => "6",
        7 => "7",
        8 => "8",
        9 => "9",
        10 => "a",
        11 => "b",
        12 => "c",
        13 => "d",
        14 => "e",
        _ => "f",
    }
}

/// The lowercase hex text of a byte slice, without a prefix.
pub fn bytes_to_hex(bytes: &[u8]) -> (r: String)
    ensures
        r@ == hex_str(bytes@),
{
    let mut r = String::new();
    let mut i: usize = 0;
    while i < bytes.len()
        invariant
            i <= bytes.len(),
            r@ == hex_str(bytes@.subrange(0, i as int)),
        decreases bytes.len() - i,
    {
        let b = bytes[i];
        r.append(nibble_str(b / 16));
        r.append(nibble_str(b % 16));
        proof {
            let pre = bytes@.subrange(0, i as int);
            assert(bytes@.subrange(0, i + 1) =~= pre.push(bytes@[i as int]));
            lemma_hex_str_snoc(pre, bytes@[i as int]);
            assert(r@ =~= hex_str(bytes@.subrange(0, i + 1)));
        }
        i = i + 1;
    }
    proof {
        assert(bytes@.subrange(0, bytes@.len() as int) =~= bytes@);
    }
    r
}

/// The canonical text of a byte slice: `0x` plus lowercase hex.
pub fn encode_prefixed(bytes: &[u8]) -> (r: String)
    ensures
        r@ == encoded(bytes@),
{
    proof {
        reveal_strlit("0x");
    }
    let mut r = String::from_str("0x");
    let hex = bytes_to_hex(bytes);
    r.append(hex.as_str());
    proof {
        assert(r@ =~= encoded(bytes@));
    }
    r
}

/// Whether an (exec) character is a hex digit.
fn is_hex_digit_exec(c: char) -> (r: bool)
    ensures
        r == is_hex_digit(c),
{
    let u = c as u32;
    (48 <= u && u <= 57) || (97 <= u && u <= 102) || (65 <= u && u <= 70)
}

/// The value of one (exec) hex digit.
fn hex_val_exec(c: char) -> (r: u8)
    requires
        is_hex_digit(c),
    ensures
        r == hex_val(c),
        r < 16,
{
    let u = c as u32;
    if 48 <= u && u <= 57 {
        (u - 48) as u8
    } else if 97 <= u && u <= 102 {
        (u - 87) as u8
    } else {
        (u - 55) as u8
    }
}

/// Whether the text is a well-formed identifier of `n` bytes: `0x` prefix
/// and exactly `2 * n` hex digits of either case.
pub open spec fn valid_hex_text(s: Seq<char>, n: int) -> bool {
    has_hex_prefix(s) && all_hex(hex_payload(s)) && hex_payload(s).len() == 2 * n
}

/// The error reported for a malformed identifier text, checked in this
/// order: missing prefix, odd payload length, non-hex character, wrong
/// decoded length.
pub open spec fn decode_err(s: Seq<char>, n: int) -> CodecError {
    if !has_hex_prefix(s) {
        CodecError::MissingPrefix
    } else if hex_payload(s).len() % 2 == 1 {
        CodecError::OddHexLength
    } else if !all_hex(hex_payload(s)) {
        CodecError::InvalidHexChar
    } else {
        CodecError::InvalidLength
    }
}

/// Law: the rejection classes are disjoint, and each malformed text is
/// reported with the error of its own class — missing prefix, odd
/// payload, non-hex character, wrong decoded length.
pub proof fn lemma_rejections_distinct(s: Seq<char>, n: int)
    ensures
        !has_hex_prefix(s) ==> decode_err(s, n) == CodecError::MissingPrefix,
        has_hex_prefix(s) && hex_payload(s).len() % 2 == 1 ==> decode_err(s, n)
            == CodecError::OddHexLength,
        has_hex_prefix(s) && hex_payload(s).len() % 2 == 0 && !all_hex(hex_payload(s))
            ==> decode_err(s, n) == CodecError::InvalidHexChar,
        has_hex_prefix(s) && hex_payload(s).len() % 2 == 0 && all_hex(hex_payload(s))
            && hex_payload(s).len() != 2 * n ==> decode_err(s, n) == CodecError::InvalidLength,
{
}

/// Decodes `0x`-prefixed hex text into exactly `n` bytes.
///
/// Succeeds exactly on well-formed texts; every malformed text gets the
/// distinct error that `decode_err` names.
pub fn decode_prefixed(s: &str, n: usize) -> (r: Result<Vec<u8>, CodecError>)
    requires
        n <= 0x1000,
    ensures
        match r {
            Result::Ok(v) => valid_hex_text(s@, n as int) && v@ == decode_hex(hex_payload(s@))
                && v@.len() == n,
            Result::Err(e) => !valid_hex_text(s@, n as int) && e == decode_err(s@, n as int),
        },
{
    let len = s.unicode_len();
    if len < 2 || s.get_char(0) != '0' || s.get_char(1) != 'x' {
        return Result::Err(CodecError::MissingPrefix);
    }
    let payload_len = len - 2;
    if payload_len % 2 == 1 {
        return Result::Err(CodecError::OddHexLength);
    }
    let mut i: usize = 0;
    while i < payload_len
        invariant
            i <= payload_len,
            payload_len == s@.len() - 2,
            s@.len() >= 2,
            forall|j: int| 0 <= j < i ==> is_hex_digit(#[trigger] hex_payload(s@)[j]),
        decreases payload_len - i,
    {
        let c = s.get_char(2 + i);
        if !is_hex_digit_exec(c) {
            assert(hex_payload(s@)[i as int] == c);
            return Result::Err(CodecError::InvalidHexChar);
        }
        assert(hex_payload(s@)[i as int] == c);
        i = i + 1;
    }
    if payload_len != 2 * n {
        return Result::Err(CodecError::InvalidLength);
    }
    let mut v: Vec<u8> = Vec::new();
    let mut k: usize = 0;
    while k < n
        invariant
            k <= n,
            s@.len() == 2 * n + 2,
            all_hex(hex_payload(s@)),
            v@.len() == k,
            forall|j: int|
                0 <= j < k ==> v@[j] == hex_pair(
                    #[trigger] hex_payload(s@)[2 * j],
                    hex_payload(s@)[2 * j + 1],
                ),
        decreases n - k,
    {
        let hi = s.get_char(2 + 2 * k);
        let lo = s.get_char(2 + 2 * k + 1);
        assert(hex_payload(s@)[2 * k as int] == hi);
        assert(hex_payload(s@)[2 * k as int + 1] == lo);
        let b = hex_val_exec(hi) * 16 + hex_val_exec(lo);
        v.push(b);
        k = k + 1;
    }
    proof {
        assert(v@ =~= decode_hex(hex_payload(s@)));
    }
    Result::Ok(v)
}

/// Law: encoding any `n`-byte value gives a well-formed text that decodes
/// back to the same bytes.
pub proof fn lemma_encode_decode_round_trip(bs: Seq<u8>, n: int)
    requires
        bs.len() == n,
    ensures
        valid_hex_text(encoded(bs), n),
        decode_hex(hex_payload(encoded(bs))) == bs,
        encoded(bs).len() == 2 * n + 2,
{
    lemma_hex_round_trip(bs);
    assert(hex_payload(encoded(bs)) =~= hex_str(bs));
}

/// Copies a byte vector.
fn copy_bytes(v: &Vec<u8>) -> (r: Vec<u8>)
    ensures
        r@ == v@,
{
    let mut r: Vec<u8> = Vec::new();
    let mut i: usize = 0;
    while i < v.len()
        invariant
            i <= v.len(),
            r@ == v@.subrange(0, i as int),
        decreases v.len() - i,
    {
        r.push(v[i]);
        proof {
            assert(r@ =~= v@.subrange(0, i + 1));
        }
        i = i + 1;
    }
    proof {
        assert(r@ =~= v@);
    }
    r
}

/// Whether two byte vectors hold the same bytes.
fn bytes_eq(a: &Vec<u8>, b: &Vec<u8>) -> (r: bool)
    ensures
        r == (a@ == b@),
{
    if a.len() != b.len() {
        return false;
    }
    let mut i: usize = 0;
    while i < a.len()
        invariant
            i <= a.len(),
            a@.len() == b@.len(),
            forall|j: int| 0 <= j < i ==> a@[j] == b@[j],
        decreases a.len() - i,
    {
        if a[i] != b[i] {
            return false;
        }
        i = i + 1;
    }
    proof {
        assert(a@ =~= b@);
    }
    true
}

/// A BLS validator public key: exactly 48 opaque bytes, written as
/// `0x` plus 96 lowercase hex digits.
#[derive(Debug)]
pub struct BlsPubkey {
    bytes: Vec<u8>,
}

impl View for BlsPubkey {
    type V = Seq<u8>;

    closed spec fn view(&self) -> Seq<u8> {
        self.bytes@
    }
}

impl BlsPubkey {
    /// How many bytes a key holds.
    pub open spec fn spec_len() -> int {
        48
    }

    #[verifier::type_invariant]
    spec fn wf(self) -> bool {
        self.bytes@.len() == 48
    }

    /// Wraps exactly 48 bytes; any other length is an invalid length.
    pub fn from_bytes(bytes: Vec<u8>) -> (r: Result<Self, CodecError>)
        ensures
            match r {
                Result::Ok(k) => bytes@.len() == 48 && k@ == bytes@,
                Result::Err(e) => bytes@.len() != 48 && e == CodecError::InvalidLength,
            },
    {
        if bytes.len() == 48 {
            Result::Ok(BlsPubkey { bytes })
        } else {
            Result::Err(CodecError::InvalidLength)
        }
    }

    /// The raw bytes.
    pub fn bytes(&self) -> (r: &Vec<u8>)
        ensures
            r@ == self@,
    {
        &self.bytes
    }

    /// Parses `0x`-prefixed hex of either case into a key; rejects every
    /// malformed text with the distinct error that `decode_err` names.
    pub fn parse(s: &str) -> (r: Result<Self, CodecError>)
        ensures
            match r {
                Result::Ok(k) => valid_hex_text(s@, 48) && k@ == decode_hex(hex_payload(s@)),
                Result::Err(e) => !valid_hex_text(s@, 48) && e == decode_err(s@, 48),
            },
    {
        match decode_prefixed(s, 48) {
            Result::Ok(bytes) => Result::Ok(BlsPubkey { bytes }),
            Result::Err(e) => Result::Err(e),
        }
    }

    /// The canonical text: `0x` plus 96 lowercase hex digits.
    pub fn to_hex(&self) -> (r: String)
        ensures
            r@ == encoded(self@),
            r@.len() == 98,
    {
        proof {
            use_type_invariant(self);
            lemma_hex_round_trip(self@);
        }
        encode_prefixed(self.bytes.as_slice())
    }
}

impl Clone for BlsPubkey {
    /// Cloning keeps the bytes.
    fn clone(&self) -> (r: Self)
        ensures
            r@ == self@,
    {
        proof {
            use_type_invariant(self);
        }
        BlsPubkey { bytes: copy_bytes(&self.bytes) }
    }
}

impl PartialEq for BlsPubkey {
    fn eq(&self, other: &Self) -> (r: bool) {
        bytes_eq(&self.bytes, &other.bytes)
    }
}

impl vstd::std_specs::cmp::PartialEqSpecImpl for BlsPubkey {
    open spec fn obeys_eq_spec() -> bool {
        true
    }

    open spec fn eq_spec(&self, other: &Self) -> bool {
        self@ == other@
    }
}

/// An Ethereum execution address: exactly 20 opaque bytes, written as
/// `0x` plus 40 lowercase hex digits.
#[derive(Debug)]
pub struct EthAddress {
    bytes: Vec<u8>,
}

impl View for EthAddress {
    type V = Seq<u8>;

    closed spec fn view(&self) -> Seq<u8> {
        self.bytes@
    }
}

impl EthAddress {
    /// How many bytes an address holds.
    pub open spec fn spec_len() -> int {
        20
    }

    #[verifier::type_invariant]
    spec fn wf(self) -> bool {
        self.bytes@.len() == 20
    }

    /// Wraps exactly 20 bytes; any other length is an invalid length.
    pub fn from_bytes(bytes: Vec<u8>) -> (r: Result<Self, CodecError>)
        ensures
            match r {
                Result::Ok(a) => bytes@.len() == 20 && a@ == bytes@,
                Result::Err(e) => bytes@.len() != 20 && e == CodecError::InvalidLength,
            },
    {
        if bytes.len() == 20 {
            Result::Ok(EthAddress { bytes })
        } else {
            Result::Err(CodecError::InvalidLength)
        }
    }

    /// The raw bytes.
    pub fn bytes(&self) -> (r: &Vec<u8>)
        ensures
            r@ == self@,
    {
        &self.bytes
    }

    /// Parses `0x`-prefixed hex of either case into an address; rejects
    /// every malformed text with the distinct error that `decode_err`
    /// names.
    pub fn parse(s: &str) -> (r: Result<Self, CodecError>)
        ensures
            match r {
                Result::Ok(a) => valid_hex_text(s@, 20) && a@ == decode_hex(hex_payload(s@)),
                Result::Err(e) => !valid_hex_text(s@, 20) && e == decode_err(s@, 20),
            },
    {
        match decode_prefixed(s, 20) {
            Result::Ok(bytes) => Result::Ok(EthAddress { bytes }),
            Result::Err(e) => Result::Err(e),
        }
    }

    /// The canonical text: `0x` plus 40 lowercase hex digits.
    pub fn to_hex(&self) -> (r: String)
        ensures
            r@ == encoded(self@),
            r@.len() == 42,
    {
        proof {
            use_type_invariant(self);
            lemma_hex_round_trip(self@);
        }
        encode_prefixed(self.bytes.as_slice())
    }
}

impl Clone for EthAddress {
    /// Cloning keeps the bytes.
    fn clone(&self) -> (r: Self)
        ensures
            r@ == self@,
    {
        proof {
            use_type_invariant(self);
        }
        EthAddress { bytes: copy_bytes(&self.bytes) }
    }
}

impl PartialEq for EthAddress {
    fn eq(&self, other: &Self) -> (r: bool) {
        bytes_eq(&self.bytes, &other.bytes)
    }
}

impl vstd::std_specs::cmp::PartialEqSpecImpl for EthAddress {
    open spec fn obeys_eq_spec() -> bool {
        true
    }

    open spec fn eq_spec(&self, other: &Self) -> bool {
        self@ == other@
    }
}

} // verus!
