//! Content fingerprints and cache keys.

use std::collections::hash_map::DefaultHasher;
use std::hash::Hasher;
use vstd::prelude::*;
use vstd::std_specs::hash::DefaultHasherAdditionalSpecFns;
use vstd::string::StringExecFns;
use vstd::utf8::encode_utf8;

verus! {

/// Number of hexadecimal digits in a cache key.
pub const KEY_WIDTH: usize = 16;

/// The digest that the default hasher gives to one write of `bytes`.
pub open spec fn digest(bytes: Seq<u8>) -> u64 {
    DefaultHasher::spec_finish(seq![bytes])
}

/// Fingerprint of a file content: the digest of its bytes.
pub open spec fn content_fingerprint(content: Seq<u8>) -> u64 {
    digest(content)
}

/// The hexadecimal digit, in lower case, for a value below sixteen.
pub open spec fn hex_digit(value: int) -> char {
    if value == 0 {
        '0'
    } else if value == 1 {
        '1'
    } else if value == 2 {
        '2'
    } else if value == 3 {
        '3'
    } else if value == 4 {
        '4'
    } else if value == 5 {
        '5'
    } else if value == 6 {
        '6'
    } else if value == 7 {
        '7'
    } else if value == 8 {
        '8'
    } else if value == 9 {
        '9'
    } else if value == 10 {
        'a'
    } else if value == 11 {
        'b'
    } else if value == 12 {
        'c'
    } else if value == 13 {
        'd'
    } else if value == 14 {
        'e'
    } else {
        'f'
    }
}

/// The last `width` hexadecimal digits of `value`, most significant first.
pub open spec fn hex_digits(value: nat, width: nat) -> Seq<char>
    decreases width,
{
    if width == 0 {
        Seq::empty()
    } else {
        hex_digits(value / 16, (width - 1) as nat).push(hex_digit((value % 16) as int))
    }
}

/// The key of a digest: its sixteen hexadecimal digits, in lower case and
/// with leading zeros.
pub open spec fn key_of_digest(value: u64) -> Seq<char> {
    hex_digits(value as nat, KEY_WIDTH as nat)
}

/// The cache key of a canonical path: the key of the digest of its UTF-8
/// form. The same path always gives the same key.
pub open spec fn cache_key(canonical_path: Seq<char>) -> Seq<char> {
    key_of_digest(digest(encode_utf8(canonical_path)))
}

/// Computes the fingerprint of a file content.
pub fn calculate_hash(data: &[u8]) -> (fingerprint: u64)
    ensures
        fingerprint == content_fingerprint(data@),
{
    let mut hasher = DefaultHasher::new();
    hasher.write(data);
    assert(hasher@ =~= seq![data@]);
    hasher.finish()
}

/// The one-digit text for a value below sixteen.
fn digit_text(value: u64) -> (text: &'static str)
    requires
        value < 16,
    ensures
        text@ == seq![hex_digit(value as int)],
{
    proof {
        reveal_strlit("0");
        reveal_strlit("1");
        reveal_strlit("2");
        reveal_strlit("3");
        reveal_strlit("4");
        reveal_strlit("5");
        reveal_strlit("6");
        reveal_strlit("7");
        reveal_strlit("8");
        reveal_strlit("9");
        reveal_strlit("a");
        reveal_strlit("b");
        reveal_strlit("c");
        reveal_strlit("d");
        reveal_strlit("e");
        reveal_strlit("f");
    }
    let text = if value == 0 {
        "0"
    } else if value == 1 {
        "1"
    } else if value == 2 {
        "2"
    } else if value == 3 {
        "3"
    } else if value == 4 {
        "4"
    } else if value == 5 {
        "5"
    } else if value == 6 {
        "6"
    } else if value == 7 {
        "7"
    } else if value == 8 {
        "8"
    } else if value == 9 {
        "9"
    } else if value == 10 {
        "a"
    } else if value == 11 {
        "b"
    } else if value == 12 {
        "c"
    } else if value == 13 {
        "d"
    } else if value == 14 {
        "e"
    } else {
        "f"
    };
    assert(text@ =~= seq![hex_digit(value as int)]);
    text
}

/// Sixteen to the power `exponent`.
pub open spec fn pow16(exponent: nat) -> nat
    decreases exponent,
{
    if exponent == 0 {
        1
    } else {
        16 * pow16((exponent - 1) as nat)
    }
}

/// A power of sixteen is positive.
proof fn lemma_pow16_positive(exponent: nat)
    ensures
        pow16(exponent) > 0,
    decreases exponent,
{
    if exponent > 0 {
        lemma_pow16_positive((exponent - 1) as nat);
    }
}

/// Renders a digest as a cache key.
pub fn render_key(value: u64) -> (key: String)
    ensures
        key@ == key_of_digest(value),
{
    let mut key = String::new();
    let mut done: usize = 0;
    proof {
        lemma_pow16_positive(KEY_WIDTH as nat);
    }
    while done < KEY_WIDTH
        invariant
            done <= KEY_WIDTH,
            key@ == hex_digits((value as nat) / pow16((KEY_WIDTH - done) as nat), done as nat),
        decreases KEY_WIDTH - done,
    {
        let shift: u32 = (4 * (KEY_WIDTH - 1 - done)) as u32;
        let nibble: u64 = (value >> shift) & 0xf;
        proof {
            let rest: nat = (KEY_WIDTH - 1 - done) as nat;
            let high: nat = (value as nat) / pow16(rest);
            lemma_pow16_positive(rest);
            lemma_shift_is_division(value, rest);
            assert(nibble < 16 && nibble == (value >> shift) % 16) by (bit_vector)
                requires
                    nibble == (value >> shift) & 0xf,
            ;
            assert(nibble == high % 16);
            assert(high / 16 == (value as nat) / pow16(rest + 1)) by {
                vstd::arithmetic::div_mod::lemma_div_denominator(
                    value as int,
                    pow16(rest) as int,
                    16,
                );
                assert(pow16(rest + 1) == 16 * pow16(rest));
                assert(pow16(rest) * 16 == 16 * pow16(rest));
            }
            assert(hex_digits(high, (done + 1) as nat) == hex_digits(high / 16, done as nat).push(
                hex_digit((high % 16) as int),
            ));
        }
        let ghost before = key@;
        key.append(digit_text(nibble));
        assert(key@ =~= before.push(hex_digit(nibble as int)));
        done += 1;
    }
    assert(pow16(0) == 1);
    assert((value as nat) / 1 == value as nat);
    key
}

/// A right shift by four times `digits` bits drops that many hexadecimal
/// digits.
proof fn lemma_shift_is_division(value: u64, digits: nat)
    requires
        digits < 16,
    ensures
        (value >> ((4 * digits) as u32)) == (value as nat) / pow16(digits),
    decreases digits,
{
    if digits == 0 {
        assert(value >> 0u32 == value) by (bit_vector);
        assert(pow16(0) == 1);
    } else {
        let less: nat = (digits - 1) as nat;
        lemma_shift_is_division(value, less);
        let low: u32 = (4 * less) as u32;
        let high: u32 = (4 * digits) as u32;
        assert(value >> high == (value >> low) / 16) by (bit_vector)
            requires
                high == low + 4,
                low < 60,
        ;
        lemma_pow16_positive(less);
        vstd::arithmetic::div_mod::lemma_div_denominator(value as int, pow16(less) as int, 16);
        assert(pow16(digits) == 16 * pow16(less));
        assert(pow16(less) * 16 == 16 * pow16(less));
    }
}

/// Derives the cache key of a canonical path.
pub fn get_cache_key(canonical_path: &str) -> (key: String)
    ensures
        key@ == cache_key(canonical_path@),
        key@.len() == KEY_WIDTH,
{
    let mut hasher = DefaultHasher::new();
    hasher.write(canonical_path.as_bytes());
    assert(hasher@ =~= seq![encode_utf8(canonical_path@)]);
    let value = hasher.finish();
    proof {
        lemma_key_width(value as nat, KEY_WIDTH as nat);
    }
    render_key(value)
}

/// A run of hexadecimal digits is as long as asked for.
pub proof fn lemma_key_width(value: nat, width: nat)
    ensures
        hex_digits(value, width).len() == width,
    decreases width,
{
    if width > 0 {
        lemma_key_width(value / 16, (width - 1) as nat);
    }
}

} // verus!
