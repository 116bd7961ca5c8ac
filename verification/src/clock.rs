//! What depends on the time: the default name of the output file and the seed of a reroll.

use vstd::prelude::*;

use crate::number::{decimal, write_u64};

verus! {

/// Calls `SystemTime::now` and `SystemTime::duration_since` for the start of 1970: the seconds
/// and the nanoseconds since then, or nothing where the clock stands before it. Nothing is
/// claimed of the time.
#[verifier::external_body]
fn since_epoch() -> (r: Option<(u64, u32)>) {
    std::time::SystemTime::now()
        .duration_since(std::time::UNIX_EPOCH)
        .ok()
        .map(|d| (d.as_secs(), d.subsec_nanos()))
}

/// The whole seconds of a reading of the clock; zero where the clock stands before 1970.
pub open spec fn seconds(reading: Option<(u64, u32)>) -> u64 {
    match reading {
        Some(t) => t.0,
        None => 0,
    }
}

/// The whole seconds of a reading of the clock.
pub fn secs_of(reading: Option<(u64, u32)>) -> (r: u64)
    ensures
        r == seconds(reading),
{
    match reading {
        Some(t) => t.0,
        None => 0,
    }
}

/// The seconds since the start of 1970: those of a reading of the clock, whatever it reads.
pub fn epoch_secs() -> (r: u64)
    ensures
        exists|reading: Option<(u64, u32)>| r == #[trigger] seconds(reading),
{
    secs_of(since_epoch())
}

/// The output path that is named after a time.
pub open spec fn out_named(secs: u64) -> Seq<char> {
    "~/Music/lyra-"@ + decimal(secs as nat) + ".wav"@
}

/// The output path that is named after a time.
pub fn out_at(secs: u64) -> (r: String)
    ensures
        r@ == out_named(secs),
{
    let mut s = "~/Music/lyra-".to_string();
    s.append(write_u64(secs).as_str());
    s.append(".wav");
    s
}

/// The output path that is named after the current time.
pub fn default_out() -> (r: String)
    ensures
        exists|secs: u64| r@ == #[trigger] out_named(secs),
{
    out_at(epoch_secs())
}

/// A number mixed by shifts.
pub open spec fn mixed(t: u64) -> u64 {
    let a = t ^ 0x9e37_79b9_7f4a_7c15;
    let b = a ^ (a << 13);
    let c = b ^ (b >> 7);
    c ^ (c << 17)
}

/// Mixes a number by shifts.
pub fn mix(t: u64) -> (r: u64)
    ensures
        r == mixed(t),
{
    let a: u64 = t ^ 0x9e37_79b9_7f4a_7c15;
    let b: u64 = a ^ (a << 13);
    let c: u64 = b ^ (b >> 7);
    c ^ (c << 17)
}

/// The nanoseconds of a reading of the clock, in 64 bits; zero where the clock stands before 1970.
pub open spec fn nanoseconds(reading: Option<(u64, u32)>) -> int {
    match reading {
        Some(t) => (t.0 * 1_000_000_000 + t.1) % 0x1_0000_0000_0000_0000,
        None => 0,
    }
}

/// The nanoseconds of a reading of the clock, in 64 bits.
pub fn nanos_of(reading: Option<(u64, u32)>) -> (r: u64)
    ensures
        r == nanoseconds(reading),
{
    match reading {
        Some(t) => {
            let all: u128 = t.0 as u128 * 1_000_000_000 + t.1 as u128;
            (all % 0x1_0000_0000_0000_0000) as u64
        },
        None => 0,
    }
}

/// The nanoseconds since the start of 1970, in 64 bits: those of a reading of the clock, whatever it
/// reads.
fn epoch_nanos() -> (r: u64)
    ensures
        exists|reading: Option<(u64, u32)>| r == #[trigger] nanoseconds(reading),
{
    nanos_of(since_epoch())
}

/// A seed for a reroll, mixed from the current time.
pub fn random_seed() -> (r: u64)
    ensures
        exists|t: u64| r == #[trigger] mixed(t),
{
    mix(epoch_nanos())
}

proof fn lemma_shifts_keep_apart(x: u64, y: u64)
    by (bit_vector)
    ensures
        x ^ (x << 13) == y ^ (y << 13) ==> x == y,
        x ^ (x >> 7) == y ^ (y >> 7) ==> x == y,
        x ^ (x << 17) == y ^ (y << 17) ==> x == y,
        x ^ 0x9e37_79b9_7f4a_7c15 == y ^ 0x9e37_79b9_7f4a_7c15 ==> x == y,
{
}

/// Different times give different seeds.
pub proof fn law_seeds_differ(s: u64, t: u64)
    requires
        mixed(s) == mixed(t),
    ensures
        s == t,
{
    let a = s ^ 0x9e37_79b9_7f4a_7c15;
    let b = a ^ (a << 13);
    let c = b ^ (b >> 7);
    let p = t ^ 0x9e37_79b9_7f4a_7c15;
    let q = p ^ (p << 13);
    let r = q ^ (q >> 7);
    lemma_shifts_keep_apart(c, r);
    lemma_shifts_keep_apart(b, q);
    lemma_shifts_keep_apart(a, p);
    lemma_shifts_keep_apart(s, t);
}

} // verus!
