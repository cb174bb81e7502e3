//! Naming of downloaded result files: the name is a pure function of the
//! downloaded bytes, so byte-identical downloads collide onto one file and
//! act as their own deduplication.

use vstd::prelude::*;
use vstd::arithmetic::div_mod::lemma_fundamental_div_mod;
use crate::text::{push_chars_of, string_from_chars};

verus! {

/// The digest that the hashing pass computes over a byte sequence.
pub uninterp spec fn md5_digest(bytes: Seq<u8>) -> Seq<u8>;

/// Relies on md5::compute: a digest of exactly 16 bytes, determined by
/// the input bytes alone.
#[verifier::external_body]
fn compute_md5(data: &Vec<u8>) -> (r: Vec<u8>)
    ensures
        r@ == md5_digest(data@),
        r@.len() == 16,
{
    md5::compute(data.as_slice()).0.to_vec()
}

/// The lower-case hex digit of a value; values of 15 and above all give
/// the highest digit.
pub open spec fn hex_digit(n: u8) -> char {
    if n == 0 {
        '0'
    } else if n == 1 {
        '1'
    } else if n == 2 {
        '2'
    } else if n == 3 {
        '3'
    } else if n == 4 {
        '4'
    } else if n == 5 {
        '5'
    } else if n == 6 {
        '6'
    } else if n == 7 {
        '7'
    } else if n == 8 {
        '8'
    } else if n == 9 {
        '9'
    } else if n == 10 {
        'a'
    } else if n == 11 {
        'b'
    } else if n == 12 {
        'c'
    } else if n == 13 {
        'd'
    } else if n == 14 {
        'e'
    } else {
        'f'
    }
}

pub(crate) fn hex_digit_exec(n: u8) -> (c: char)
    ensures
        c == hex_digit(n),
{
    match n {
        0 => '0',
        1 => '1',
        2 => '2',
        3 => '3',
        4 => '4',
        5 => '5',
        6 => '6',
        7 => '7',
        8 => '8',
        9 => '9',
        10 => 'a',
        11 => 'b',
        12 => 'c',
        13 => 'd',
        14 => 'e',
        _ => 'f',
    }
}

/// The lower-case hex spelling of a byte sequence, two digits per byte.
pub open spec fn hex_of(bytes: Seq<u8>) -> Seq<char>
    decreases bytes.len(),
{
    if bytes.len() == 0 {
        Seq::empty()
    } else {
        hex_of(bytes.drop_last()) + seq![
            hex_digit(bytes.last() / 16),
            hex_digit(bytes.last() % 16),
        ]
    }
}

pub proof fn lemma_hex_of_len(bytes: Seq<u8>)
    ensures
        hex_of(bytes).len() == 2 * bytes.len(),
    decreases bytes.len(),
{
    if bytes.len() > 0 {
        lemma_hex_of_len(bytes.drop_last());
    }
}

fn hex_chars(bytes: &Vec<u8>) -> (r: Vec<char>)
    ensures
        r@ == hex_of(bytes@),
{
    let mut r: Vec<char> = Vec::new();
    let mut i: usize = 0;
    while i < bytes.len()
        invariant
            i <= bytes@.len(),
            r@ == hex_of(bytes@.take(i as int)),
        decreases bytes@.len() - i,
    {
        proof {
            assert(bytes@.take(i + 1 as int).drop_last() =~= bytes@.take(i as int));
            assert(bytes@.take(i + 1 as int).last() == bytes@[i as int]);
        }
        let b = bytes[i];
        r.push(hex_digit_exec(b / 16));
        r.push(hex_digit_exec(b % 16));
        proof {
            assert(r@ =~= hex_of(bytes@.take(i + 1 as int)));
        }
        i += 1;
    }
    proof {
        assert(bytes@.take(bytes@.len() as int) =~= bytes@);
    }
    r
}

/// The name under which downloaded content is stored: the hex digest of
/// the bytes between a fixed prefix and suffix.
pub open spec fn spec_result_filename(bytes: Seq<u8>) -> Seq<char> {
    "result-"@ + hex_of(md5_digest(bytes)) + ".json.gz"@
}

/// Name the file that will hold `contents`: `result-` followed by the
/// 32 hex digits of the content digest and the `.json.gz` ending.
pub fn result_filename(contents: &Vec<u8>) -> (r: String)
    ensures
        r@ == spec_result_filename(contents@),
        r@.len() == 47,
{
    let digest = compute_md5(contents);
    let mut hex = hex_chars(&digest);
    let mut v: Vec<char> = Vec::new();
    push_chars_of(&mut v, "result-");
    v.append(&mut hex);
    push_chars_of(&mut v, ".json.gz");
    proof {
        reveal_strlit("result-");
        reveal_strlit(".json.gz");
        lemma_hex_of_len(md5_digest(contents@));
    }
    string_from_chars(&v)
}

/// The stored name depends on the downloaded bytes alone: byte-identical
/// downloads, from the same URL or different ones, always collide onto
/// the same filename.
pub proof fn lemma_filename_of_content_alone(b1: Seq<u8>, b2: Seq<u8>)
    requires
        b1 == b2,
    ensures
        spec_result_filename(b1) == spec_result_filename(b2),
{
}

proof fn lemma_hex_of_index(bytes: Seq<u8>, i: int)
    requires
        0 <= i < bytes.len(),
    ensures
        hex_of(bytes)[2 * i] == hex_digit(bytes[i] / 16),
        hex_of(bytes)[2 * i + 1] == hex_digit(bytes[i] % 16),
    decreases bytes.len(),
{
    lemma_hex_of_len(bytes.drop_last());
    if i < bytes.len() - 1 {
        lemma_hex_of_index(bytes.drop_last(), i);
        assert(bytes.drop_last()[i] == bytes[i]);
    }
}

proof fn lemma_hex_of_injective(d1: Seq<u8>, d2: Seq<u8>)
    requires
        d1.len() == d2.len(),
        d1 != d2,
    ensures
        hex_of(d1) != hex_of(d2),
{
    if forall|i: int| 0 <= i < d1.len() ==> d1[i] == d2[i] {
        assert(d1 =~= d2);
    }
    let i = choose|i: int| 0 <= i < d1.len() && d1[i] != d2[i];
    lemma_hex_of_index(d1, i);
    lemma_hex_of_index(d2, i);
    let x = d1[i];
    let y = d2[i];
    lemma_fundamental_div_mod(x as int, 16);
    lemma_fundamental_div_mod(y as int, 16);
    if x / 16 == y / 16 && x % 16 == y % 16 {
        assert(x as int == 16 * ((x as int) / 16) + (x as int) % 16);
        assert(false);
    }
    assert(x / 16 < 16 && y / 16 < 16);
    if x / 16 != y / 16 {
        assert(hex_of(d1)[2 * i] != hex_of(d2)[2 * i]);
    } else {
        assert(hex_of(d1)[2 * i + 1] != hex_of(d2)[2 * i + 1]);
    }
}

/// Contents with different digests are stored under different names:
/// only a digest collision can make two downloads share a file.
pub proof fn lemma_distinct_digests_distinct_filenames(b1: Seq<u8>, b2: Seq<u8>)
    requires
        md5_digest(b1) != md5_digest(b2),
        md5_digest(b1).len() == md5_digest(b2).len(),
    ensures
        spec_result_filename(b1) != spec_result_filename(b2),
{
    let p = "result-"@;
    let h1 = hex_of(md5_digest(b1));
    let h2 = hex_of(md5_digest(b2));
    lemma_hex_of_injective(md5_digest(b1), md5_digest(b2));
    lemma_hex_of_len(md5_digest(b1));
    lemma_hex_of_len(md5_digest(b2));
    if spec_result_filename(b1) == spec_result_filename(b2) {
        assert forall|j: int| 0 <= j < h1.len() implies h1[j] == h2[j] by {
            assert((p + h1)[p.len() + j] == h1[j]);
            assert((p + h2)[p.len() + j] == h2[j]);
            assert(spec_result_filename(b1)[p.len() + j] == h1[j]);
            assert(spec_result_filename(b2)[p.len() + j] == h2[j]);
        }
        assert(h1 =~= h2);
        assert(false);
    }
}

} // verus!
