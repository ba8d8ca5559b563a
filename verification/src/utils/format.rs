//! Alert hash generation.
//!
//! An alert's hash is a prefix followed by the lower-case hex writing of the
//! MD5 digest of the alert's components: the user id's bytes, the symbol's
//! bytes, and the decimal text of the fixed-point price level.

use vstd::prelude::*;
use vstd::string::{StrSliceExecFns, StringExecFns, StringSliceAdditionalSpecFns};
use crate::price::{format_price, lemma_price_text_ascii, price_text_of};
use crate::text::{digit_char, digit_str};
use md5::{Digest, Md5};

verus! {

/// The 16-byte MD5 digest of a byte string.
pub uninterp spec fn md5_of(bytes: Seq<u8>) -> Seq<u8>;

/// Relies on the md-5 crate's Md5 (RustCrypto `Digest` interface): the
/// digest depends on the input bytes alone, and MD5 digests are 16 bytes.
#[verifier::external_body]
fn md5_digest(input: &Vec<u8>) -> (r: Vec<u8>)
    ensures
        r@ == md5_of(input@),
        r@.len() == 16,
{
    let mut hasher = Md5::new();
    hasher.update(input.as_slice());
    hasher.finalize().to_vec()
}

/// The lower-case hex writing of a byte string, two digits per byte.
pub open spec fn hex_of(bytes: Seq<u8>) -> Seq<char>
    decreases bytes.len(),
{
    if bytes.len() == 0 {
        Seq::empty()
    } else {
        hex_of(bytes.drop_last()) + seq![
            digit_char(bytes.last() as int / 16),
            digit_char(bytes.last() as int % 16),
        ]
    }
}

/// Writes bytes as lower-case hex, two digits per byte.
fn hex_string(bytes: &Vec<u8>) -> (r: String)
    ensures
        r@ == hex_of(bytes@),
{
    let mut out = String::new();
    let n = bytes.len();
    let mut i: usize = 0;
    proof {
        assert(out@ =~= hex_of(bytes@.take(0)));
    }
    while i < n
        invariant
            i <= n,
            n == bytes@.len(),
            out@ == hex_of(bytes@.take(i as int)),
        decreases n - i,
    {
        let ghost pre = out@;
        let b = bytes[i];
        out.append(digit_str(b / 16));
        out.append(digit_str(b % 16));
        proof {
            assert(bytes@.take(i as int + 1).drop_last() =~= bytes@.take(i as int));
            assert(bytes@.take(i as int + 1).last() == bytes@[i as int]);
            assert(out@ =~= pre + seq![
                digit_char(b as int / 16),
                digit_char(b as int % 16),
            ]);
        }
        i += 1;
    }
    proof {
        assert(bytes@.take(n as int) =~= bytes@);
    }
    out
}

/// The bytes of an ASCII text, one byte per character.
pub open spec fn char_bytes(s: Seq<char>) -> Seq<u8> {
    Seq::new(s.len(), |i: int| s[i] as u8)
}

/// The bytes an alert's hash digests: the user id, the symbol, and the
/// decimal text of the fixed-point price level.
pub open spec fn alert_hash_input(user_id: &str, symbol: &str, price_level: i64) -> Seq<u8> {
    user_id.spec_bytes() + symbol.spec_bytes() + char_bytes(price_text_of(price_level))
}

/// The text `generate_hash` yields.
pub open spec fn alert_hash_text(
    user_id: &str,
    symbol: &str,
    price_level: i64,
    prefix: &str,
) -> Seq<char> {
    prefix@ + hex_of(md5_of(alert_hash_input(user_id, symbol, price_level)))
}

/// Generates an alert's hash: the prefix followed by the hex writing of the
/// MD5 digest of the alert's components.
pub fn generate_hash(user_id: &str, symbol: &str, price_level: i64, prefix: &str) -> (r: String)
    ensures
        r@ == alert_hash_text(user_id, symbol, price_level, prefix),
{
    let mut input: Vec<u8> = user_id.as_bytes_vec();
    let sym_bytes = symbol.as_bytes_vec();
    let m = sym_bytes.len();
    let mut i: usize = 0;
    while i < m
        invariant
            i <= m,
            m == sym_bytes@.len(),
            sym_bytes@ == symbol.spec_bytes(),
            input@ == user_id.spec_bytes() + sym_bytes@.take(i as int),
        decreases m - i,
    {
        input.push(sym_bytes[i]);
        proof {
            assert(input@ =~= user_id.spec_bytes() + sym_bytes@.take(i as int + 1));
        }
        i += 1;
    }
    proof {
        assert(sym_bytes@.take(m as int) =~= sym_bytes@);
    }

    let text = format_price(price_level);
    let ghost base: Seq<u8> = input@;
    let tn = text.as_str().unicode_len();
    let mut k: usize = 0;
    proof {
        lemma_price_text_ascii(price_level);
        assert(input@ =~= base + char_bytes(text@).take(0));
    }
    while k < tn
        invariant
            k <= tn,
            tn == text@.len(),
            text@ == price_text_of(price_level),
            forall|j: int| 0 <= j < text@.len() ==> (#[trigger] text@[j] as u32) < 128,
            input@ == base + char_bytes(text@).take(k as int),
        decreases tn - k,
    {
        let c = text.as_str().get_char(k);
        proof {
            assert((c as u32) < 128);
        }
        input.push(c as u8);
        proof {
            assert(char_bytes(text@)[k as int] == c as u8);
            assert(input@ =~= base + char_bytes(text@).take(k as int + 1));
        }
        k += 1;
    }
    proof {
        assert(char_bytes(text@).take(tn as int) =~= char_bytes(text@));
        assert(input@ =~= alert_hash_input(user_id, symbol, price_level));
    }

    let digest = md5_digest(&input);
    let hex = hex_string(&digest);
    String::from_str(prefix).concat(hex.as_str())
}

} // verus!
