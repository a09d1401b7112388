//! Networking helpers (port allocation, browser-blocked list).

use vstd::prelude::*;
use crate::common::error::Error;

verus! {

/// Well-known ports that browsers refuse to connect to.
///
/// This is a conservative subset covering the most commonly blocked ports
/// across modern browsers (Chrome, Firefox, Safari, Edge).
pub const BROWSER_BLOCKED_PORTS: [u16; 81] = [
        1, 7, 9, 11, 13, 15, 17, 19, 20, 21, 22, 23, 25, 37, 42, 43, 53, 69, 77, 79, 87, 95,
        101, 102, 103, 104, 109, 110, 111, 113, 115, 117, 119, 123, 135, 137, 139, 143, 161,
        179, 389, 427, 465, 512, 513, 514, 515, 526, 530, 531, 532, 540, 548, 554, 556, 563,
        587, 601, 636, 989, 990, 993, 995, 1719, 1720, 1723, 2049, 3659, 4045, 5060, 5061,
        6000, 6566, 6665, 6666, 6667, 6668, 6669, 6679, 6697, 10080,
];

/// The browser-blocked ports, as a sequence.
pub open spec fn blocked_ports() -> Seq<u16> {
    BROWSER_BLOCKED_PORTS@
}

/// `port` is in the browser-blocked list.
pub open spec fn blocked(port: u16) -> bool {
    blocked_ports().contains(port)
}

/// Returns true if a port is in the browser-blocked list.
pub fn is_browser_blocked(port: u16) -> (r: bool)
    ensures
        r == blocked(port),
{
    let list = BROWSER_BLOCKED_PORTS;
    let mut i: usize = 0;
    while i < list.len()
        invariant
            list@ == blocked_ports(),
            i <= list@.len(),
            forall|j: int| 0 <= j < i ==> list@[j] != port,
        decreases list.len() - i,
    {
        if list[i] == port {
            return true;
        }
        i += 1;
    }
    false
}

/// Find a free TCP port in the inclusive range `start..=end`, skipping
/// browser-blocked ports; `is_free` says whether a port can be bound
/// locally. Returns the first port that is not blocked and that `is_free`
/// accepts; every unblocked port before it was probed and refused. An
/// empty range (`start > end`) is an error.
pub fn find_free_port<F: Fn(u16) -> bool>(start: u16, end: u16, is_free: F) -> (r: Result<u16, Error>)
    requires
        forall|p: u16| #[trigger] is_free.requires((p,)),
    ensures
        start > end ==> r == Err::<u16, Error>(Error::NoFreePort(start, end)),
        match r {
            Ok(p) => {
                &&& start <= p <= end
                &&& !blocked(p)
                &&& is_free.ensures((p,), true)
                &&& forall|q: u16| start <= q < p && !blocked(q) ==> #[trigger] is_free.ensures((q,), false)
            },
            Err(e) => {
                &&& e == Error::NoFreePort(start, end)
                &&& forall|q: u16| start <= q <= end && !blocked(q) ==> #[trigger] is_free.ensures((q,), false)
            },
        },
{
    if start > end {
        return Err(Error::NoFreePort(start, end));
    }
    let mut port: u32 = start as u32;
    while port <= end as u32
        invariant
            start <= port <= end + 1,
            forall|p: u16| #[trigger] is_free.requires((p,)),
            forall|q: u16| start <= q < port && !blocked(q) ==> #[trigger] is_free.ensures((q,), false),
        decreases end + 1 - port,
    {
        let p = port as u16;
        if !is_browser_blocked(p) {
            if is_free(p) {
                return Ok(p);
            }
        }
        port += 1;
    }
    Err(Error::NoFreePort(start, end))
}

} // verus!
