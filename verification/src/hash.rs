//! Torrent identity.
use vstd::prelude::*;

verus! {

/// A 160-bit torrent identity, held as three big-endian words.
#[derive(Clone, Copy, PartialEq, Eq, Structural, Debug)]
pub struct InfoHash {
    pub high: u64,
    pub middle: u64,
    pub low: u32,
}

impl InfoHash {
    /// The identity read as one unsigned big-endian number.
    pub open spec fn rank(self) -> int {
        self.high * 0x1_0000_0000_0000_0000_0000_0000 + self.middle * 0x1_0000_0000 + self.low
    }

    /// Identities are ordered as the numbers they are.
    pub fn precedes(&self, other: &InfoHash) -> (before: bool)
        ensures
            before == (self.rank() < other.rank()),
    {
        if self.high != other.high {
            self.high < other.high
        } else if self.middle != other.middle {
            self.middle < other.middle
        } else {
            self.low < other.low
        }
    }
}

/// The hexadecimal digit of a value below sixteen.
pub open spec fn hex_digit(value: nat) -> char {
    if value < 10 {
        (48 + value) as char
    } else {
        (87 + value) as char
    }
}

/// The low hexadecimal digits of a number, the highest first.
pub open spec fn hex_of(value: nat, digits: nat) -> Seq<char>
    decreases digits,
{
    if digits == 0 {
        Seq::<char>::empty()
    } else {
        hex_of(value / 16, (digits - 1) as nat).push(hex_digit(value % 16))
    }
}

/// An identity in hexadecimal notation.
pub open spec fn hex(hash: InfoHash) -> Seq<char> {
    hex_of(hash.high as nat, 16) + hex_of(hash.middle as nat, 16) + hex_of(hash.low as nat, 8)
}

fn push_hex(text: &mut String, value: u64, digits: u32)
    ensures
        final(text)@ == old(text)@ + hex_of(value as nat, digits as nat),
    decreases digits,
{
    if digits > 0 {
        push_hex(text, value / 16, digits - 1);
        let digit: u8 = (value % 16) as u8;
        let code: u8 = if digit < 10 {
            48 + digit
        } else {
            87 + digit
        };
        assert(code as char == hex_digit((value % 16) as nat));
        text.push(code as char);
    }
    assert(text@ =~= old(text)@ + hex_of(value as nat, digits as nat));
}

impl InfoHash {
    /// The identity in hexadecimal notation.
    pub fn to_hex(&self) -> (text: String)
        ensures
            text@ == hex(*self),
    {
        let mut text: String = String::new();
        push_hex(&mut text, self.high, 16);
        push_hex(&mut text, self.middle, 16);
        push_hex(&mut text, self.low as u64, 8);
        assert(text@ =~= hex(*self));
        text
    }

    /// The identity that twenty bytes spell, the highest byte first.
    pub fn from_bytes(bytes: &[u8; 20]) -> (hash: InfoHash)
        ensures
            hash.high == word(bytes@, 0, 8),
            hash.middle == word(bytes@, 8, 8),
            hash.low == word(bytes@, 16, 4),
    {
        let high: u64 = read_word(bytes, 0, 8);
        let middle: u64 = read_word(bytes, 8, 8);
        let low: u64 = read_word(bytes, 16, 4);
        InfoHash { high, middle, low: low as u32 }
    }
}

/// The number that some bytes spell, the highest byte first.
pub open spec fn word(bytes: Seq<u8>, from: int, count: nat) -> nat
    decreases count,
{
    if count == 0 {
        0
    } else {
        word(bytes, from, (count - 1) as nat) * 256 + bytes[from + count - 1] as nat
    }
}

/// One more than the largest number that some bytes can spell.
pub open spec fn word_limit(count: nat) -> nat
    decreases count,
{
    if count == 0 {
        1
    } else {
        word_limit((count - 1) as nat) * 256
    }
}

proof fn lemma_word_limit(bytes: Seq<u8>, from: int, count: nat)
    ensures
        word(bytes, from, count) < word_limit(count),
    decreases count,
{
    if count > 0 {
        lemma_word_limit(bytes, from, (count - 1) as nat);
    }
}

fn read_word(bytes: &[u8; 20], from: usize, count: usize) -> (value: u64)
    requires
        count <= 8,
        from + count <= 20,
    ensures
        value == word(bytes@, from as int, count as nat),
        count <= 4 ==> value <= u32::MAX,
{
    let mut value: u64 = 0;
    let mut i: usize = 0;
    while i < count
        invariant
            i <= count <= 8,
            from + count <= 20,
            value == word(bytes@, from as int, i as nat),
        decreases count - i,
    {
        proof {
            lemma_word_limit(bytes@, from as int, (i + 1) as nat);
            reveal_with_fuel(word_limit, 9);
        }
        value = value * 256 + bytes[from + i] as u64;
        i = i + 1;
    }
    proof {
        lemma_word_limit(bytes@, from as int, count as nat);
        reveal_with_fuel(word_limit, 9);
    }
    value
}

/// Two identities with the same number are the same identity.
pub proof fn rank_is_injective(a: InfoHash, b: InfoHash)
    requires
        a.rank() == b.rank(),
    ensures
        a == b,
{
}

/// Sixteen to a power.
pub open spec fn hex_limit(digits: nat) -> nat
    decreases digits,
{
    if digits == 0 {
        1
    } else {
        16 * hex_limit((digits - 1) as nat)
    }
}

proof fn lemma_hex_digits(a: nat, b: nat)
    requires
        a < 16,
        b < 16,
        hex_digit(a) == hex_digit(b),
    ensures
        a == b,
{
    assert(hex_digit(a) as int == if a < 10 {
        48 + a
    } else {
        87 + a
    });
    assert(hex_digit(b) as int == if b < 10 {
        48 + b
    } else {
        87 + b
    });
}

proof fn lemma_hex_of(a: nat, b: nat, digits: nat)
    ensures
        hex_of(a, digits).len() == digits,
        a < hex_limit(digits) && b < hex_limit(digits) && hex_of(a, digits) == hex_of(b, digits)
            ==> a == b,
    decreases digits,
{
    if digits > 0 {
        let fewer = (digits - 1) as nat;
        lemma_hex_of(a / 16, b / 16, fewer);
        lemma_hex_of(b / 16, a / 16, fewer);
        if a < hex_limit(digits) && b < hex_limit(digits) && hex_of(a, digits) == hex_of(
            b,
            digits,
        ) {
            let left = hex_of(a, digits);
            let right = hex_of(b, digits);
            assert(left.drop_last() =~= hex_of(a / 16, fewer));
            assert(right.drop_last() =~= hex_of(b / 16, fewer));
            assert(left.last() == hex_digit(a % 16));
            assert(right.last() == hex_digit(b % 16));
            lemma_hex_digits(a % 16, b % 16);
        }
    }
}

/// A hash is written in forty digits, and two hashes are written alike only where they are the
/// same.
pub proof fn hashes_are_told_apart_by_their_digits(a: InfoHash, b: InfoHash)
    ensures
        hex(a).len() == 40,
        hex(a) == hex(b) ==> a == b,
{
    lemma_hex_of(a.high as nat, b.high as nat, 16);
    lemma_hex_of(a.middle as nat, b.middle as nat, 16);
    lemma_hex_of(a.low as nat, b.low as nat, 8);
    lemma_hex_of(b.high as nat, a.high as nat, 16);
    lemma_hex_of(b.middle as nat, a.middle as nat, 16);
    lemma_hex_of(b.low as nat, a.low as nat, 8);
    reveal_with_fuel(hex_limit, 18);
    assert(hex_limit(16) == 0x1_0000_0000_0000_0000);
    assert(hex_limit(8) == 0x1_0000_0000);
    if hex(a) == hex(b) {
        assert(hex(a).subrange(0, 16) =~= hex_of(a.high as nat, 16));
        assert(hex(b).subrange(0, 16) =~= hex_of(b.high as nat, 16));
        assert(hex(a).subrange(16, 32) =~= hex_of(a.middle as nat, 16));
        assert(hex(b).subrange(16, 32) =~= hex_of(b.middle as nat, 16));
        assert(hex(a).subrange(32, 40) =~= hex_of(a.low as nat, 8));
        assert(hex(b).subrange(32, 40) =~= hex_of(b.low as nat, 8));
    }
}

/// Bytes spell a number with the highest byte first.
pub proof fn the_highest_byte_comes_first(bytes: Seq<u8>, from: int)
    ensures
        word(bytes, from, 0) == 0,
        word(bytes, from, 1) == bytes[from],
        word(bytes, from, 4) == bytes[from] * 0x100_0000 + bytes[from + 1] * 0x1_0000 + bytes[from
            + 2] * 0x100 + bytes[from + 3],
{
    reveal_with_fuel(word, 5);
}

} // verus!
