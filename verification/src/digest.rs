//! The digest primitive behind the hash tree: a 64-bit hash of a string,
//! rendered as a lowercase hexadecimal string, plus the verified numeral
//! rendering it relies on.

use std::collections::hash_map::DefaultHasher;
use std::hash::Hasher;
use vstd::prelude::*;
use vstd::std_specs::hash::DefaultHasherAdditionalSpecFns;
use vstd::string::StringExecFns;
use vstd::utf8::encode_utf8;

verus! {

/// The character for one digit value (base 16 and below).
pub open spec fn digit_char(d: int) -> char {
    if d == 0 {
        '0'
    } else if d == 1 {
        '1'
    } else if d == 2 {
        '2'
    } else if d == 3 {
        '3'
    } else if d == 4 {
        '4'
    } else if d == 5 {
        '5'
    } else if d == 6 {
        '6'
    } else if d == 7 {
        '7'
    } else if d == 8 {
        '8'
    } else if d == 9 {
        '9'
    } else if d == 10 {
        'a'
    } else if d == 11 {
        'b'
    } else if d == 12 {
        'c'
    } else if d == 13 {
        'd'
    } else if d == 14 {
        'e'
    } else {
        'f'
    }
}

/// The shortest lowercase hexadecimal numeral for `n`.
pub open spec fn hex_rep(n: nat) -> Seq<char>
    decreases n,
{
    if n < 16 {
        seq![digit_char(n as int)]
    } else {
        hex_rep(n / 16).push(digit_char((n % 16) as int))
    }
}

/// The shortest decimal numeral for `n`.
pub open spec fn dec_rep(n: nat) -> Seq<char>
    decreases n,
{
    if n < 10 {
        seq![digit_char(n as int)]
    } else {
        dec_rep(n / 10).push(digit_char((n % 10) as int))
    }
}

/// The digest of a string: its 64-bit `DefaultHasher` value written in
/// lowercase hexadecimal. Deterministic: a pure function of the characters.
pub open spec fn hash_of(s: Seq<char>) -> Seq<char> {
    hex_rep(DefaultHasher::spec_finish(seq![encode_utf8(s)]) as nat)
}

fn digit_str(d: u64) -> (r: &'static str)
    requires
        d < 16,
    ensures
        r@ == seq![digit_char(d as int)],
{
    let s: &'static str = match d {
        0 => "0",
        1 => "1",
        2 => "2",
        3 => "3",
        4 => "4",
        5 => "5",
        6 => "6",
        7 => "7",
        8 => "8",
        9 => "9",
        10 => "a",
        11 => "b",
        12 => "c",
        13 => "d",
        14 => "e",
        _ => "f",
    };
    proof {
        reveal_strlit("0");
        reveal_strlit("1");
        reveal_strlit("2");
        reveal_strlit("3");
        reveal_strlit("4");
        reveal_strlit("5");
        reveal_strlit("6");
        reveal_strlit("7");
        reveal_strlit("8");
        reveal_strlit("9");
        reveal_strlit("a");
        reveal_strlit("b");
        reveal_strlit("c");
        reveal_strlit("d");
        reveal_strlit("e");
        reveal_strlit("f");
        assert(s@ =~= seq![digit_char(d as int)]);
    }
    s
}

/// Renders `n` in lowercase hexadecimal, as `format!("{:x}", n)` does.
pub fn u64_to_hex(n: u64) -> (r: String)
    ensures
        r@ == hex_rep(n as nat),
    decreases n,
{
    if n < 16 {
        String::from_str(digit_str(n))
    } else {
        let prefix = u64_to_hex(n / 16);
        let r = prefix.concat(digit_str(n % 16));
        proof {
            assert(r@ =~= hex_rep(n as nat));
        }
        r
    }
}

/// Renders `n` in decimal, as `format!("{}", n)` does.
pub fn u64_to_dec(n: u64) -> (r: String)
    ensures
        r@ == dec_rep(n as nat),
    decreases n,
{
    if n < 10 {
        String::from_str(digit_str(n))
    } else {
        let prefix = u64_to_dec(n / 10);
        let r = prefix.concat(digit_str(n % 10));
        proof {
            assert(r@ =~= dec_rep(n as nat));
        }
        r
    }
}

/// The hash function injected into the tree builder: deterministic, with no
/// side effects. (A stand-in for a cryptographic hash; the tree only needs
/// determinism, not collision resistance, for its verified properties.)
pub fn mock_hash(input: &str) -> (r: String)
    ensures
        r@ == hash_of(input@),
{
    let mut hasher = DefaultHasher::new();
    hasher.write(input.as_bytes());
    let h: u64 = hasher.finish();
    proof {
        assert(hasher@ =~= seq![encode_utf8(input@)]);
    }
    u64_to_hex(h)
}

} // verus!
