//! IP addresses as plain integers, address ranges, and reverse-lookup names.
use vstd::prelude::*;

use crate::text::{decimal, push_char, push_decimal, push_str};

verus! {

/// An IPv4 or IPv6 address, most significant bit first.
#[derive(Clone, Copy, Debug, PartialEq, Eq, Structural)]
pub enum IpAddress {
    V4(u32),
    V6(u128),
}

/// An address range written `network/prefix_len`.
#[derive(Clone, Copy, Debug, PartialEq, Eq, Structural)]
pub struct Cidr {
    pub network: IpAddress,
    pub prefix_len: u8,
}

/// The first `p` bits of `a` and `b` agree, `p` being at most 32.
pub open spec fn same_prefix_v4(a: u32, b: u32, p: u8) -> bool {
    p <= 32 && (p == 0 || (a >> ((32 - p) as u32)) == (b >> ((32 - p) as u32)))
}

/// The first `p` bits of `a` and `b` agree, `p` being at most 128.
pub open spec fn same_prefix_v6(a: u128, b: u128, p: u8) -> bool {
    p <= 128 && (p == 0 || (a >> ((128 - p) as u32)) == (b >> ((128 - p) as u32)))
}

impl Cidr {
    /// The prefix is no longer than the address.
    pub open spec fn wf(&self) -> bool {
        match self.network {
            IpAddress::V4(_) => self.prefix_len <= 32,
            IpAddress::V6(_) => self.prefix_len <= 128,
        }
    }

    /// The range holds `a`: same family, and the first `prefix_len` bits agree.
    pub open spec fn holds(&self, a: IpAddress) -> bool {
        match (self.network, a) {
            (IpAddress::V4(n), IpAddress::V4(x)) => same_prefix_v4(n, x, self.prefix_len),
            (IpAddress::V6(n), IpAddress::V6(x)) => same_prefix_v6(n, x, self.prefix_len),
            _ => false,
        }
    }

    /// The range `network/prefix_len`; `None` when the prefix is longer than
    /// the address.
    pub fn new(network: IpAddress, prefix_len: u8) -> (r: Option<Cidr>)
        ensures
            r matches Some(c) ==> c.wf() && c.network == network && c.prefix_len == prefix_len,
            r is None <==> match network {
                IpAddress::V4(_) => prefix_len > 32,
                IpAddress::V6(_) => prefix_len > 128,
            },
    {
        let fits = match network {
            IpAddress::V4(_) => prefix_len <= 32,
            IpAddress::V6(_) => prefix_len <= 128,
        };
        if fits {
            Some(Cidr { network, prefix_len })
        } else {
            None
        }
    }

    /// Whether the range holds `address`.
    pub fn contains(&self, address: &IpAddress) -> (r: bool)
        ensures
            r == self.holds(*address),
    {
        let p = self.prefix_len;
        match (self.network, *address) {
            (IpAddress::V4(n), IpAddress::V4(x)) => p <= 32 && (p == 0 || (n >> ((32 - p) as u32))
                == (x >> ((32 - p) as u32))),
            (IpAddress::V6(n), IpAddress::V6(x)) => p <= 128 && (p == 0 || (n >> ((128 - p) as u32))
                == (x >> ((128 - p) as u32))),
            _ => false,
        }
    }
}

/// Some range of `blacklist` holds `a`.
pub open spec fn blacklisted(blacklist: Seq<Cidr>, a: IpAddress) -> bool {
    exists|i: int| 0 <= i < blacklist.len() && (#[trigger] blacklist[i]).holds(a)
}

/// Whether some range of `blacklist` holds `address`.
pub fn is_blacklisted(blacklist: &Vec<Cidr>, address: &IpAddress) -> (r: bool)
    ensures
        r == blacklisted(blacklist@, *address),
{
    let mut i: usize = 0;
    while i < blacklist.len()
        invariant
            i <= blacklist@.len(),
            forall|k: int| 0 <= k < i ==> !(#[trigger] blacklist@[k]).holds(*address),
        decreases blacklist@.len() - i,
    {
        if blacklist[i].contains(address) {
            return true;
        }
        i = i + 1;
    }
    false
}

/// The lowercase hexadecimal digit for `d`.
pub open spec fn hex_char(d: nat) -> char {
    if d < 10 {
        crate::text::digit_char(d)
    } else if d == 10 {
        'a'
    } else if d == 11 {
        'b'
    } else if d == 12 {
        'c'
    } else if d == 13 {
        'd'
    } else if d == 14 {
        'e'
    } else {
        'f'
    }
}

fn hex_digit(d: u128) -> (c: char)
    requires
        d < 16,
    ensures
        c == hex_char(d as nat),
{
    if d == 0 {
        '0'
    } else if d == 1 {
        '1'
    } else if d == 2 {
        '2'
    } else if d == 3 {
        '3'
    } else if d == 4 {
        '4'
    } else if d == 5 {
        '5'
    } else if d == 6 {
        '6'
    } else if d == 7 {
        '7'
    } else if d == 8 {
        '8'
    } else if d == 9 {
        '9'
    } else if d == 10 {
        'a'
    } else if d == 11 {
        'b'
    } else if d == 12 {
        'c'
    } else if d == 13 {
        'd'
    } else if d == 14 {
        'e'
    } else {
        'f'
    }
}

/// The lowest `count` nibbles of `x`, lowest first, each as a label.
pub open spec fn nibble_labels(x: nat, count: nat) -> Seq<char>
    decreases count,
{
    if count == 0 {
        Seq::empty()
    } else {
        seq![hex_char(x % 16), '.'] + nibble_labels(x / 16, (count - 1) as nat)
    }
}

/// The name under which a PTR record for `a` is stored: the bytes of an IPv4
/// address in reverse order under `in-addr.arpa`, the nibbles of an IPv6
/// address in reverse order under `ip6.arpa`.
pub open spec fn reverse_name(a: IpAddress) -> Seq<char> {
    match a {
        IpAddress::V4(x) => decimal((x % 256) as nat) + "."@ + decimal(((x / 256) % 256) as nat)
            + "."@ + decimal(((x / 65536) % 256) as nat) + "."@ + decimal((x / 16777216) as nat)
            + ".in-addr.arpa"@,
        IpAddress::V6(x) => nibble_labels(x as nat, 32) + "ip6.arpa"@,
    }
}

fn push_nibbles(s: &mut String, x: u128, count: u8)
    ensures
        final(s)@ == old(s)@ + nibble_labels(x as nat, count as nat),
    decreases count,
{
    if count > 0 {
        push_char(s, hex_digit(x % 16));
        push_char(s, '.');
        push_nibbles(s, x / 16, count - 1);
        assert(final(s)@ =~= old(s)@ + nibble_labels(x as nat, count as nat));
    } else {
        assert(final(s)@ =~= old(s)@ + nibble_labels(x as nat, count as nat));
    }
}

/// The reverse-lookup name of `address`.
pub fn reverse_lookup_name(address: &IpAddress) -> (r: String)
    ensures
        r@ == reverse_name(*address),
{
    let mut r = String::new();
    match *address {
        IpAddress::V4(x) => {
            push_decimal(&mut r, (x % 256) as u64);
            push_str(&mut r, ".");
            push_decimal(&mut r, ((x / 256) % 256) as u64);
            push_str(&mut r, ".");
            push_decimal(&mut r, ((x / 65536) % 256) as u64);
            push_str(&mut r, ".");
            push_decimal(&mut r, (x / 16777216) as u64);
            push_str(&mut r, ".in-addr.arpa");
        },
        IpAddress::V6(x) => {
            push_nibbles(&mut r, x, 32);
            push_str(&mut r, "ip6.arpa");
        },
    }
    assert(r@ =~= reverse_name(*address));
    r
}

} // verus!
