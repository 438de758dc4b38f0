//! Checksums of packages.

use vstd::prelude::*;
use vstd::string::*;

use crate::outside::{sha256, sha256_digest};
use crate::text::same;

verus! {

/// The hexadecimal digit of a number below 16, in lower case.
pub open spec fn hex_digit(n: int) -> char {
    if n < 10 {
        ('0' as int + n) as char
    } else {
        ('a' as int + n - 10) as char
    }
}

/// Bytes in hexadecimal: two digits each, in lower case.
pub open spec fn hex_of(bytes: Seq<u8>) -> Seq<char> {
    Seq::new(
        2 * bytes.len(),
        |i: int|
            hex_digit(
                if i % 2 == 0 {
                    bytes[i / 2] as int / 16
                } else {
                    bytes[i / 2] as int % 16
                },
            ),
    )
}

fn hex_text(n: u8) -> (r: &'static str)
    requires
        n < 16,
    ensures
        r@ == seq![hex_digit(n as int)],
{
    proof {
        reveal_strlit("0");
        reveal_strlit("1");
        reveal_strlit("2");
        reveal_strlit("3");
        reveal_strlit("4");
        reveal_strlit("5");
        reveal_strlit("6");
        reveal_strlit("7");
        reveal_strlit("8");
        reveal_strlit("9");
        reveal_strlit("a");
        reveal_strlit("b");
        reveal_strlit("c");
        reveal_strlit("d");
        reveal_strlit("e");
        reveal_strlit("f");
    }
    match n {
        0 => "0",
        1 => "1",
        2 => "2",
        3 => "3",
        4 => "4",
        5 => "5",
        6 => "6",
        7 => "7",
        8 => "8",
        9 => "9",
        10 => "a",
        11 => "b",
        12 => "c",
        13 => "d",
        14 => "e",
        _ => "f",
    }
}

/// Writes bytes in hexadecimal.
pub fn hex(bytes: &[u8]) -> (r: String)
    ensures
        r@ == hex_of(bytes@),
{
    let mut r = "".to_owned();
    proof {
        reveal_strlit("");
    }
    assert(r@ =~= hex_of(bytes@.take(0)));
    let n = bytes.len();
    for i in 0..n
        invariant
            n == bytes@.len(),
            r@ == hex_of(bytes@.take(i as int)),
    {
        let b = bytes[i];
        let ghost before = r@;
        r.append(hex_text(b / 16));
        r.append(hex_text(b % 16));
        proof {
            let next = bytes@.take(i + 1);
            assert(before.len() == 2 * i);
            assert forall|k: int| 0 <= k < 2 * (i + 1) implies r@[k] == hex_of(next)[k] by {
                if k < 2 * i {
                    assert(k / 2 < i);
                    assert(next[k / 2] == bytes@.take(i as int)[k / 2]);
                    assert(before[k] == hex_of(bytes@.take(i as int))[k]);
                } else {
                    assert(k / 2 == i);
                }
            }
            assert(r@ =~= hex_of(next));
        }
    }
    assert(bytes@.take(n as int) =~= bytes@);
    r
}

/// The checksum that a package has, where it is not the one that it should have. An empty
/// checksum asks for nothing.
pub open spec fn mismatch(expected: Seq<char>, digest: Seq<u8>) -> Option<Seq<char>> {
    if expected.len() == 0 || hex_of(digest) == expected {
        None
    } else {
        Some(hex_of(digest))
    }
}

/// Holds a digest against the checksum that a package should have.
pub fn compare_digest(expected: &str, digest: &[u8]) -> (r: Option<String>)
    ensures
        crate::text::opt_text(r) == mismatch(expected@, digest@),
{
    if expected.unicode_len() == 0 {
        return None;
    }
    let actual = hex(digest);
    if same(actual.as_str(), expected) {
        None
    } else {
        Some(actual)
    }
}

/// Holds a package against the checksum that it should have.
pub fn compare_checksum(expected: &str, package: &[u8]) -> (r: Option<String>)
    ensures
        crate::text::opt_text(r) == mismatch(expected@, sha256(package@)),
{
    let digest = sha256_digest(package);
    compare_digest(expected, digest.as_slice())
}

/// Different digests of one length are written differently, so that a checksum fits one digest
/// only.
pub proof fn lemma_hex_injective(a: Seq<u8>, b: Seq<u8>)
    requires
        hex_of(a) == hex_of(b),
    ensures
        a == b,
{
    assert(hex_of(a).len() == 2 * a.len());
    assert(hex_of(b).len() == 2 * b.len());
    assert forall|i: int| 0 <= i < a.len() implies a[i] == b[i] by {
        let x = a[i] as int;
        let y = b[i] as int;
        assert(hex_of(a)[2 * i] == hex_digit(x / 16));
        assert(hex_of(b)[2 * i] == hex_digit(y / 16));
        assert((2 * i + 1) / 2 == i);
        assert(hex_of(a)[2 * i + 1] == hex_digit(x % 16));
        assert(hex_of(b)[2 * i + 1] == hex_digit(y % 16));
        assert(x / 16 == y / 16);
        assert(x % 16 == y % 16);
    }
    assert(a =~= b);
}

} // verus!
