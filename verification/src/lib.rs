//! Rendezvous service for a peer-to-peer object transfer tool.
//!
//! A sender publishes the metadata of an object (its transfer address,
//! content hash, kind and size) and receives a short human-readable
//! identifier together with a secret keep-alive key. A receiver looks the
//! identifier up to learn where to fetch the object. Registrations are
//! leased: unless the keep-alive key is used to renew them in time, an
//! expiry removes them. The registry core lives in [`registry`]; identifier
//! generation in [`idgen`]; the wire data types in [`object`] and
//! [`backend`].

pub mod assoc;
pub mod backend;
pub mod idgen;
pub mod laws;
pub mod object;
pub mod registry;
pub mod strings;

use vstd::prelude::*;

use crate::strings::{push_decimal, replace_char, spec_decimal, spec_replace_char};
use vstd::string::StringExecFns;

verus! {

/// Number of bytes in one kibibyte.
pub const BYTES_IN_A_KIBIBYTE: u64 = 1024;

/// The quantity `size`, scaled to hundredths of the unit `divisor` and
/// rounded to the nearest hundredth (half away from zero).
pub open spec fn spec_scaled_hundredths(size: nat, divisor: nat) -> nat
    recommends
        divisor > 0,
{
    (size * 200 + divisor) / (2 * divisor)
}

/// The rendering of `size` bytes as a count of the unit worth `divisor`
/// bytes with two decimal places, followed by `suffix`.
pub open spec fn spec_scaled_with_suffix(size: nat, divisor: nat, suffix: Seq<char>) -> Seq<char>
    recommends
        divisor > 0,
{
    let hundredths = spec_scaled_hundredths(size, divisor);
    spec_decimal(hundredths / 100) + seq!['.'] + spec_decimal((hundredths % 100) / 10)
        + spec_decimal(hundredths % 10) + suffix
}

/// What `format_bytes_with_unit` returns: the unit is chosen as the byte
/// count dictates, and the scaled quantity is rounded to two decimals.
pub open spec fn spec_format_bytes_with_unit(size: u64) -> Seq<char> {
    if size as nat / 1024 == 0 {
        spec_scaled_with_suffix(size as nat, 1, " B"@)
    } else if size as nat / 1024 == 1 {
        spec_scaled_with_suffix(size as nat, 1024, " KiB"@)
    } else if size as nat / (1024 * 1024 * 1024) == 0 {
        spec_scaled_with_suffix(size as nat, 1024 * 1024, " MiB"@)
    } else {
        spec_scaled_with_suffix(size as nat, 1024 * 1024 * 1024, " GiB"@)
    }
}

/// Format a quantity of bytes with a suffix from B (byte) to GiB (gibibyte),
/// with two decimal places.
pub fn format_bytes_with_unit(size: u64) -> (r: String)
    ensures
        r@ == spec_format_bytes_with_unit(size),
{
    let scale = size / BYTES_IN_A_KIBIBYTE;

    let (divisor, suffix): (u64, &str) = if scale == 0 {
        (1, " B")
    } else if scale == 1 {
        (BYTES_IN_A_KIBIBYTE, " KiB")
    } else if size / (BYTES_IN_A_KIBIBYTE * BYTES_IN_A_KIBIBYTE * BYTES_IN_A_KIBIBYTE) == 0 {
        (BYTES_IN_A_KIBIBYTE * BYTES_IN_A_KIBIBYTE, " MiB")
    } else {
        (BYTES_IN_A_KIBIBYTE * BYTES_IN_A_KIBIBYTE * BYTES_IN_A_KIBIBYTE, " GiB")
    };

    proof {
        if size as int / 1024 == 0 {
            vstd::arithmetic::div_mod::lemma_small_div_converse(size as int, 1024);
        } else if size as int / 1024 == 1 {
            vstd::arithmetic::div_mod::lemma_fundamental_div_mod(size as int, 1024);
            vstd::arithmetic::div_mod::lemma_mod_division_less_than_divisor(size as int, 1024);
        } else if size as int / 0x4000_0000 == 0 {
            vstd::arithmetic::div_mod::lemma_small_div_converse(size as int, 0x4000_0000);
        }
    }
    let hundredths = scaled_hundredths(size, divisor);

    let mut r = String::new();
    push_decimal(&mut r, hundredths / 100);
    r.push('.');
    push_decimal(&mut r, (hundredths % 100) / 10);
    push_decimal(&mut r, hundredths % 10);
    r.append(suffix);
    proof {
        assert(r@ =~= spec_scaled_with_suffix(size as nat, divisor as nat, suffix@));
    }
    r
}

/// The scaled-and-rounded quantity, computed in 128-bit arithmetic so the
/// intermediate product cannot overflow.
fn scaled_hundredths(size: u64, divisor: u64) -> (r: u64)
    requires
        divisor > 0,
        size as nat * 200 + divisor as nat <= 2 * divisor as nat * 0xffff_ffff_ffff_ffff,
    ensures
        r == spec_scaled_hundredths(size as nat, divisor as nat),
{
    proof {
        lemma_scaled_hundredths_fits(size as nat, divisor as nat);
    }
    let wide = (size as u128 * 200 + divisor as u128) / (2 * divisor as u128);
    wide as u64
}

/// The rounded quantity fits in a 64-bit integer whenever the dividend is at
/// most the divisor times the largest 64-bit value.
proof fn lemma_scaled_hundredths_fits(size: nat, divisor: nat)
    requires
        divisor > 0,
        size * 200 + divisor <= 2 * divisor * 0xffff_ffff_ffff_ffff,
    ensures
        spec_scaled_hundredths(size, divisor) <= 0xffff_ffff_ffff_ffff,
{
    let n = (size * 200 + divisor) as int;
    let d = (2 * divisor) as int;
    let m = 0xffff_ffff_ffff_ffff as int;
    vstd::arithmetic::div_mod::lemma_div_is_ordered(n, d * m, d);
    vstd::arithmetic::div_mod::lemma_div_multiples_vanish(m, d);
}

/// What `format_bytes_to_string` returns: a whole number of bytes below one
/// kibibyte, else a whole (truncated) number of kibibytes.
pub open spec fn spec_format_bytes_to_string(size: u64) -> Seq<char> {
    if size < 1024 {
        spec_decimal(size as nat) + " B"@
    } else {
        spec_decimal((size / 1024) as nat) + " KiB"@
    }
}

/// Format a quantity of bytes as whole bytes or whole kibibytes.
pub fn format_bytes_to_string(size: u64) -> (r: String)
    ensures
        r@ == spec_format_bytes_to_string(size),
{
    let mut r = String::new();
    if size < BYTES_IN_A_KIBIBYTE {
        push_decimal(&mut r, size);
        r.append(" B");
    } else {
        push_decimal(&mut r, size / BYTES_IN_A_KIBIBYTE);
        r.append(" KiB");
    }
    r
}

/// The backend address for objects published under the given identifier
/// prefix, if the prefix is a known one.
pub fn get_backend_address_from_prefix(prefix: &String) -> (r: Option<String>)
    ensures
        prefix@ == "test"@ ==> (r matches Some(u) && u@ == "http://localhost:8080"@),
        prefix@ == "the"@ ==> (r matches Some(u) && u@ == "https://eu1.backend.niku.app"@),
        prefix@ != "test"@ && prefix@ != "the"@ ==> r is None,
{
    proof {
        reveal_strlit("test");
        reveal_strlit("the");
        assert("test"@.len() == 4);
        assert("the"@.len() == 3);
    }
    if *prefix == String::from_str("test") {
        Some(String::from_str("http://localhost:8080"))
    } else if *prefix == String::from_str("the") {
        Some(String::from_str("https://eu1.backend.niku.app"))
    } else {
        None
    }
}

/// The backend address to publish to when no prefix chooses one.
pub fn get_recommended_backend_address() -> (r: String)
    ensures
        r@ == "https://eu1.backend.niku.app"@,
{
    String::from_str("https://eu1.backend.niku.app")
}

/// An identifier as typed by a user, with underscores accepted in place of
/// dashes.
pub fn normalize_id(id: &String) -> (r: String)
    ensures
        r@ == spec_replace_char(id@, '_', '-'),
{
    replace_char(id, '_', '-')
}

/// An identifier as shown to a user: dashes become spaces.
pub fn id_with_spaces(id: &String) -> (r: String)
    ensures
        r@ == spec_replace_char(id@, '-', ' '),
{
    replace_char(id, '-', ' ')
}

/// Whether a (lowercased) prompt answer confirms a download: yes, y, or
/// just pressing enter.
pub fn download_confirmed(answer: &String) -> (r: bool)
    ensures
        r == (answer@ == "y"@ || answer@ == "yes"@ || answer@.len() == 0),
{
    answer.as_str().is_empty() || *answer == String::from_str("y") || *answer == String::from_str(
        "yes",
    )
}

} // verus!
