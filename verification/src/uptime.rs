//! Seconds since a server or a session started, and the clock reads the
//! library cannot make itself.

use crate::utils::{spec_dec2_u32, spec_dec_u32, u32_to_dec2_bytes, u32_to_dec_bytes};
use vstd::prelude::*;

verus! {

#[verifier::external_type_specification]
#[verifier::external_body]
pub struct ExInstant(std::time::Instant);

/// A moment a server or session came to life, from which its uptime is
/// measured.
#[derive(Debug)]
pub struct Uptime(std::time::Instant);

impl Uptime {
    /// Relies on `std::time::Instant::now`: marks the present moment.
    #[verifier::external_body]
    pub fn new() -> Self {
        Uptime(std::time::Instant::now())
    }

    /// Relies on `std::time::Instant::elapsed`: the time since this moment.
    /// Nothing can be promised of a clock read.
    #[verifier::external_body]
    pub fn duration(&self) -> std::time::Duration {
        self.0.elapsed()
    }

    /// Relies on `std::time::Instant::elapsed` and `Duration::as_secs`: the
    /// whole seconds since this moment. Nothing can be promised of a clock
    /// read.
    #[verifier::external_body]
    pub fn elapsed_secs(&self) -> u64 {
        self.0.elapsed().as_secs()
    }

    /// The whole seconds since this moment, truncated to 32 bits.
    pub fn as_secs_u32(&self) -> u32 {
        let secs = self.elapsed_secs();
        #[verifier::truncate] (secs as u32)
    }
}

/// Relies on `std::time::SystemTime::now` and `duration_since` the UNIX
/// epoch: the wall-clock seconds, truncated to 32 bits, and zero should the
/// clock stand before the epoch. Nothing can be promised of a clock read.
#[verifier::external_body]
pub fn unix_now_secs() -> u32 {
    match std::time::SystemTime::now().duration_since(std::time::UNIX_EPOCH) {
        Ok(d) => d.as_secs() as u32,
        Err(_) => 0,
    }
}

/// An uptime of `secs` seconds rendered `h:mm:ss`: hours modulo a day, then
/// two-digit minutes and seconds.
pub open spec fn spec_uptime_display(secs: u64) -> Seq<u8> {
    spec_dec_u32(((secs / 3600) % 24) as u32) + seq![58u8] + spec_dec2_u32(
        ((secs / 60) % 60) as u32,
    ) + seq![58u8] + spec_dec2_u32((secs % 60) as u32)
}

/// Renders an uptime of `secs` seconds as `h:mm:ss`.
pub fn format_uptime(secs: u64) -> (r: Vec<u8>)
    ensures
        r@ == spec_uptime_display(secs),
{
    let mut out = u32_to_dec_bytes(((secs / 3600) % 24) as u32);
    out.push(58);
    let mut b = u32_to_dec2_bytes(((secs / 60) % 60) as u32);
    out.append(&mut b);
    out.push(58);
    let mut b = u32_to_dec2_bytes((secs % 60) as u32);
    out.append(&mut b);
    assert(out@ =~= spec_uptime_display(secs));
    out
}

} // verus!
