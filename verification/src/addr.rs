//! Addresses of simulated peers.

use vstd::prelude::*;

verus! {

/// An IP address of a simulated host, held as its octets (IPv4) or its
/// 16-bit segments (IPv6), most significant first.
#[derive(Clone, Copy, Debug, PartialEq, Eq, Hash, Structural)]
pub enum IpAddr {
    V4(u8, u8, u8, u8),
    V6(u16, u16, u16, u16, u16, u16, u16, u16),
}

/// An IP address together with a port: where a simulated socket is bound.
#[derive(Clone, Copy, Debug, PartialEq, Eq, Hash, Structural)]
pub struct SocketAddr {
    pub ip: IpAddr,
    pub port: u16,
}

/// One step of the digest: the state `h` after the word `x` went in.
pub open spec fn mixed(h: u64, x: u64) -> u64 {
    h.wrapping_mul(1099511628211).wrapping_add(x)
}

/// Computes one step of the digest.
pub fn mix(h: u64, x: u64) -> (next: u64)
    ensures
        next == mixed(h, x),
{
    h.wrapping_mul(1099511628211).wrapping_add(x)
}

impl IpAddr {
    /// The digest state `h` after this address went in: the address family
    /// first, then the parts of the address from the most significant down.
    pub open spec fn mixed_into(self, h: u64) -> u64 {
        match self {
            IpAddr::V4(a, b, c, d) => mixed(
                mixed(mixed(mixed(mixed(h, 4), a as u64), b as u64), c as u64),
                d as u64,
            ),
            IpAddr::V6(a, b, c, d, e, f, g, i) => mixed(
                mixed(
                    mixed(
                        mixed(
                            mixed(mixed(mixed(mixed(mixed(h, 6), a as u64), b as u64), c as u64), d as u64),
                            e as u64,
                        ),
                        f as u64,
                    ),
                    g as u64,
                ),
                i as u64,
            ),
        }
    }

    /// Mixes this address into the digest state `h`.
    pub fn mix_into(&self, h: u64) -> (next: u64)
        ensures
            next == self.mixed_into(h),
    {
        match *self {
            IpAddr::V4(a, b, c, d) => {
                let h = mix(h, 4);
                let h = mix(h, a as u64);
                let h = mix(h, b as u64);
                let h = mix(h, c as u64);
                mix(h, d as u64)
            },
            IpAddr::V6(a, b, c, d, e, f, g, i) => {
                let h = mix(h, 6);
                let h = mix(h, a as u64);
                let h = mix(h, b as u64);
                let h = mix(h, c as u64);
                let h = mix(h, d as u64);
                let h = mix(h, e as u64);
                let h = mix(h, f as u64);
                let h = mix(h, g as u64);
                mix(h, i as u64)
            },
        }
    }
}

impl SocketAddr {
    /// The digest state `h` after this address went in: the IP address
    /// first, then the port.
    pub open spec fn mixed_into(self, h: u64) -> u64 {
        mixed(self.ip.mixed_into(h), self.port as u64)
    }

    /// Mixes this address into the digest state `h`.
    pub fn mix_into(&self, h: u64) -> (next: u64)
        ensures
            next == self.mixed_into(h),
    {
        mix(self.ip.mix_into(h), self.port as u64)
    }

    /// The address made of `ip` and `port`.
    pub fn new(ip: IpAddr, port: u16) -> (addr: SocketAddr)
        ensures
            addr == (SocketAddr { ip, port }),
    {
        SocketAddr { ip, port }
    }

    /// The IP address part.
    pub fn ip(&self) -> (ip: IpAddr)
        ensures
            ip == self.ip,
    {
        self.ip
    }

    /// The port part.
    pub fn port(&self) -> (port: u16)
        ensures
            port == self.port,
    {
        self.port
    }
}

} // verus!
