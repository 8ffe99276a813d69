//! Picking a port.
use vstd::prelude::*;

verus! {

/// Calls `rand::random::<u16>()`, which draws from the thread-local generator; nothing is
/// promised of the value.
#[verifier::external_body]
fn random_u16() -> (r: u16) {
    rand::random()
}

/// The port in `from..to` that the random draw `info` picks.
pub fn port_from_draw(from: u16, to: u16, info: u16) -> (r: u16)
    requires
        from < to,
    ensures
        r == from + info % ((to - from) as u16),
        from <= r < to,
{
    let valid_range = to - from;
    let offset = info % valid_range;
    from + offset
}

/// A random port in `from..to`.
pub fn random_port(from: u16, to: u16) -> (r: u16)
    requires
        from < to,
    ensures
        from <= r < to,
{
    let info = random_u16();
    port_from_draw(from, to, info)
}

} // verus!
