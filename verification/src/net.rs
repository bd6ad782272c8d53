//! Addresses and discovery: which local address a device shows, which
//! address of a discovered device is dialled, what a device announces on
//! the local network, and how an announcement is read.

use vstd::prelude::*;
use crate::ids::{
    bytes_lt, hex_of, lemma_bytes_lt_asymmetric, lemma_bytes_lt_total, lemma_bytes_lt_transitive,
    parse_uuid, uuid_parsed, Uuid,
};
use crate::model::DevicePlatform;
use crate::text::{concat2, parse_u32, parsed_unsigned, u64_to_decimal};
use crate::transport::PROTOCOL_VERSION;

verus! {

/// An IP address: four bytes for IPv4, sixteen for IPv6.
#[derive(Debug, Clone, Copy, PartialEq, Eq)]
pub enum IpAddress {
    V4([u8; 4]),
    V6([u8; 16]),
}

/// An IP address and a port.
#[derive(Debug, Clone, Copy, PartialEq, Eq)]
pub struct SocketAddress {
    pub ip: IpAddress,
    pub port: u16,
}

pub open spec fn ip_bytes(ip: IpAddress) -> Seq<u8> {
    match ip {
        IpAddress::V4(b) => b@,
        IpAddress::V6(b) => b@,
    }
}

/// Loopback: 127.0.0.0/8, or ::1.
pub open spec fn is_loopback(ip: IpAddress) -> bool {
    match ip {
        IpAddress::V4(b) => b[0] == 127,
        IpAddress::V6(b) => (forall|i: int| 0 <= i < 15 ==> b[i] == 0) && b[15] == 1,
    }
}

/// Unspecified: 0.0.0.0, or ::.
pub open spec fn is_unspecified(ip: IpAddress) -> bool {
    forall|i: int| 0 <= i < ip_bytes(ip).len() ==> ip_bytes(ip)[i] == 0
}

/// Multicast: 224.0.0.0/4, or ff00::/8.
pub open spec fn is_multicast(ip: IpAddress) -> bool {
    match ip {
        IpAddress::V4(b) => 224 <= b[0] <= 239,
        IpAddress::V6(b) => b[0] == 0xff,
    }
}

/// Addresses a device view can show: not loopback, unspecified or
/// multicast; for IPv4 not link-local (169.254.0.0/16) or the broadcast
/// address; for IPv6 not unicast link-local (fe80::/10), which needs a
/// scope the view does not carry.
pub open spec fn is_usable(ip: IpAddress) -> bool {
    &&& !is_loopback(ip)
    &&& !is_unspecified(ip)
    &&& !is_multicast(ip)
    &&& match ip {
        IpAddress::V4(b) => !(b[0] == 169 && b[1] == 254) && !(b[0] == 255 && b[1] == 255 && b[2] == 255
            && b[3] == 255),
        IpAddress::V6(b) => !(b[0] == 0xfe && (b[1] & 0xc0) == 0x80),
    }
}

/// Private IPv4: 10.0.0.0/8, 172.16.0.0/12 or 192.168.0.0/16.
pub open spec fn is_private_v4(b: Seq<u8>) -> bool {
    ||| b[0] == 10
    ||| b[0] == 172 && 16 <= b[1] <= 31
    ||| b[0] == 192 && b[1] == 168
}

/// Preference among usable addresses: private IPv4 first, then other IPv4,
/// then IPv6.
pub open spec fn priority(ip: IpAddress) -> int {
    match ip {
        IpAddress::V4(b) => if is_private_v4(b@) {
            0
        } else {
            1
        },
        IpAddress::V6(_) => 2,
    }
}

/// `a` is preferred to `b`: by priority, then by address.
pub open spec fn preferred_to(a: IpAddress, b: IpAddress) -> bool {
    ||| priority(a) < priority(b)
    ||| priority(a) == priority(b) && bytes_lt(ip_bytes(a), ip_bytes(b))
}

fn usable(ip: &IpAddress) -> (u: bool)
    ensures
        u == is_usable(*ip),
{
    match ip {
        IpAddress::V4(b) => {
            let unspecified = b[0] == 0 && b[1] == 0 && b[2] == 0 && b[3] == 0;
            proof {
                if !unspecified {
                    assert(!is_unspecified(*ip)) by {
                        if b[0] != 0 {
                            assert(ip_bytes(*ip)[0] != 0);
                        } else if b[1] != 0 {
                            assert(ip_bytes(*ip)[1] != 0);
                        } else if b[2] != 0 {
                            assert(ip_bytes(*ip)[2] != 0);
                        } else {
                            assert(ip_bytes(*ip)[3] != 0);
                        }
                    }
                }
            }
            b[0] != 127 && !unspecified && !(224 <= b[0] && b[0] <= 239) && !(b[0] == 169 && b[1] == 254)
                && !(b[0] == 255 && b[1] == 255 && b[2] == 255 && b[3] == 255)
        },
        IpAddress::V6(b) => {
            let mut zero_head = true;
            let mut i: usize = 0;
            while i < 15
                invariant
                    i <= 15,
                    zero_head == (forall|j: int| 0 <= j < i ==> b[j] == 0),
                decreases 15 - i,
            {
                if b[i] != 0 {
                    zero_head = false;
                }
                i = i + 1;
            }
            let loopback = zero_head && b[15] == 1;
            let unspecified = zero_head && b[15] == 0;
            proof {
                if !unspecified {
                    assert(!is_unspecified(*ip)) by {
                        if !zero_head {
                            let j = choose|j: int| 0 <= j < 15 && b[j] != 0;
                            assert(ip_bytes(*ip)[j] != 0);
                        } else {
                            assert(ip_bytes(*ip)[15] != 0);
                        }
                    }
                }
            }
            let link_local = b[0] == 0xfe && (b[1] & 0xc0) == 0x80;
            !loopback && !unspecified && b[0] != 0xff && !link_local
        },
    }
}

fn priority_of(ip: &IpAddress) -> (p: u8)
    ensures
        p == priority(*ip),
{
    match ip {
        IpAddress::V4(b) => if b[0] == 10 || (b[0] == 172 && 16 <= b[1] && b[1] <= 31) || (b[0] == 192
            && b[1] == 168) {
            0
        } else {
            1
        },
        IpAddress::V6(_) => 2,
    }
}

fn bytes_precede(a: &[u8], b: &[u8]) -> (lt: bool)
    requires
        a@.len() == b@.len(),
    ensures
        lt == bytes_lt(a@, b@),
{
    let mut i: usize = 0;
    while i < a.len()
        invariant
            i <= a@.len(),
            a@.len() == b@.len(),
            a@.subrange(0, i as int) == b@.subrange(0, i as int),
        decreases a@.len() - i,
    {
        if a[i] != b[i] {
            let lt = a[i] < b[i];
            proof {
                if !lt {
                    assert forall|k: int|
                        0 <= k < a@.len() && a@[k] < b@[k] && a@.subrange(0, k) == b@.subrange(0, k)
                            implies false by {
                        if k < i {
                            assert(a@.subrange(0, i as int)[k] == a@[k]);
                            assert(b@.subrange(0, i as int)[k] == b@[k]);
                        } else if k > i {
                            assert(a@.subrange(0, k)[i as int] == a@[i as int]);
                            assert(b@.subrange(0, k)[i as int] == b@[i as int]);
                        }
                    }
                }
            }
            return lt;
        }
        assert(a@.subrange(0, i + 1) =~= a@.subrange(0, i as int).push(a@[i as int]));
        assert(b@.subrange(0, i + 1) =~= b@.subrange(0, i as int).push(b@[i as int]));
        i = i + 1;
    }
    proof {
        assert forall|k: int|
            0 <= k < a@.len() && a@[k] < b@[k] && a@.subrange(0, k) == b@.subrange(0, k) implies false by {
            assert(a@.subrange(0, a@.len() as int)[k] == a@[k]);
            assert(b@.subrange(0, b@.len() as int)[k] == b@[k]);
        }
    }
    false
}

fn is_preferred_to(a: &IpAddress, b: &IpAddress) -> (r: bool)
    ensures
        r == preferred_to(*a, *b),
{
    let pa = priority_of(a);
    let pb = priority_of(b);
    if pa != pb {
        return pa < pb;
    }
    match (a, b) {
        (IpAddress::V4(x), IpAddress::V4(y)) => bytes_precede(x.as_slice(), y.as_slice()),
        (IpAddress::V6(x), IpAddress::V6(y)) => bytes_precede(x.as_slice(), y.as_slice()),
        _ => false,
    }
}

/// The address a device shows for itself: the most preferred usable one.
pub fn preferred_local_ip(addresses: &Vec<IpAddress>) -> (r: Option<IpAddress>)
    ensures
        r is None <==> forall|i: int| 0 <= i < addresses@.len() ==> !is_usable(#[trigger] addresses@[i]),
        r matches Some(ip) ==> addresses@.contains(ip) && is_usable(ip),
        r matches Some(ip) ==> forall|i: int|
            0 <= i < addresses@.len() && is_usable(#[trigger] addresses@[i]) ==> !preferred_to(addresses@[i], ip),
{
    let mut best: Option<IpAddress> = None;
    let mut i: usize = 0;
    while i < addresses.len()
        invariant
            i <= addresses@.len(),
            best is None <==> forall|j: int| 0 <= j < i ==> !is_usable(#[trigger] addresses@[j]),
            best matches Some(ip) ==> addresses@.subrange(0, i as int).contains(ip) && is_usable(ip),
            best matches Some(ip) ==> forall|j: int|
                0 <= j < i && is_usable(#[trigger] addresses@[j]) ==> !preferred_to(addresses@[j], ip),
        decreases addresses@.len() - i,
    {
        let candidate = addresses[i];
        if usable(&candidate) {
            match best {
                None => {
                    best = Some(candidate);
                },
                Some(current) => {
                    if is_preferred_to(&candidate, &current) {
                        proof {
                            lemma_preferred_transitive_asym(addresses@.subrange(0, i as int), current, candidate);
                        }
                        best = Some(candidate);
                    }
                },
            }
        }
        proof {
            if let Some(ip) = best {
                let pre = addresses@.subrange(0, i as int);
                let next = addresses@.subrange(0, i + 1);
                if pre.contains(ip) {
                    let k = choose|k: int| 0 <= k < pre.len() && pre[k] == ip;
                    assert(next[k] == ip);
                } else {
                    assert(next[i as int] == ip);
                }
            }
        }
        i = i + 1;
    }
    assert(addresses@.subrange(0, addresses@.len() as int) =~= addresses@);
    best
}

proof fn lemma_preferred_transitive_asym(seen: Seq<IpAddress>, current: IpAddress, candidate: IpAddress)
    requires
        preferred_to(candidate, current),
    ensures
        forall|x: IpAddress| preferred_to(x, candidate) ==> preferred_to(x, current),
        !preferred_to(current, candidate),
{
    assert forall|x: IpAddress| preferred_to(x, candidate) implies preferred_to(x, current) by {
        if priority(x) == priority(candidate) && priority(candidate) == priority(current) {
            assert(ip_bytes(x).len() == ip_bytes(candidate).len());
            assert(ip_bytes(candidate).len() == ip_bytes(current).len());
            lemma_bytes_lt_transitive(ip_bytes(x), ip_bytes(candidate), ip_bytes(current));
        }
    }
    if priority(candidate) == priority(current) {
        lemma_bytes_lt_asymmetric(ip_bytes(candidate), ip_bytes(current));
    }
}

/// The address dialled for a discovered device: its first non-loopback
/// IPv4 address, else its first non-loopback address.
pub fn preferred_address(addresses: &Vec<IpAddress>) -> (r: Option<IpAddress>)
    ensures
        match r {
            Some(ip) => exists|i: int| {
                &&& 0 <= i < addresses@.len()
                &&& addresses@[i] == ip
                &&& !is_loopback(ip)
                &&& ip is V4 ==> forall|j: int|
                    0 <= j < i && !is_loopback(#[trigger] addresses@[j]) ==> addresses@[j] is V6
                &&& ip is V6 ==> (forall|j: int| 0 <= j < i ==> is_loopback(#[trigger] addresses@[j]))
                    && forall|j: int|
                    0 <= j < addresses@.len() && !is_loopback(#[trigger] addresses@[j]) ==> addresses@[j] is V6
            },
            None => forall|j: int| 0 <= j < addresses@.len() ==> is_loopback(#[trigger] addresses@[j]),
        },
{
    let mut first: Option<usize> = None;
    let mut i: usize = 0;
    while i < addresses.len()
        invariant
            i <= addresses@.len(),
            match first {
                Some(f) => f < i && !is_loopback(addresses@[f as int]) && forall|j: int|
                    0 <= j < f ==> is_loopback(#[trigger] addresses@[j]),
                None => forall|j: int| 0 <= j < i ==> is_loopback(#[trigger] addresses@[j]),
            },
            forall|j: int| 0 <= j < i && !is_loopback(#[trigger] addresses@[j]) ==> addresses@[j] is V6,
        decreases addresses@.len() - i,
    {
        let ip = addresses[i];
        let loopback = match ip {
            IpAddress::V4(b) => b[0] == 127,
            IpAddress::V6(b) => {
                let mut zero_head = true;
                let mut k: usize = 0;
                while k < 15
                    invariant
                        k <= 15,
                        zero_head == (forall|j: int| 0 <= j < k ==> b[j] == 0),
                    decreases 15 - k,
                {
                    if b[k] != 0 {
                        zero_head = false;
                    }
                    k = k + 1;
                }
                zero_head && b[15] == 1
            },
        };
        assert(loopback == is_loopback(ip));
        if !loopback {
            if let IpAddress::V4(_) = ip {
                assert(addresses@[i as int] == ip);
                return Some(ip);
            }
            if first.is_none() {
                first = Some(i);
            }
        }
        i = i + 1;
    }
    match first {
        Some(f) => {
            assert(addresses@[f as int] == addresses@[f as int]);
            Some(addresses[f])
        },
        None => None,
    }
}

/// What a device announces on the local network.
#[derive(Debug, Clone)]
pub struct DiscoveryConfig {
    pub device_id: Uuid,
    pub device_name: String,
    pub platform: DevicePlatform,
    pub port: u16,
    pub pairing_open: bool,
}

/// A device found on the local network.
#[derive(Debug, Clone)]
pub struct DiscoveredPeer {
    pub device_id: Uuid,
    pub device_name: String,
    pub platform: DevicePlatform,
    pub address: SocketAddress,
    pub pairing_open: bool,
    pub protocol_version: u16,
    pub fullname: String,
}

/// The announced name of a platform.
pub open spec fn platform_name(p: DevicePlatform) -> Seq<char> {
    match p {
        DevicePlatform::Macos => "macos"@,
        DevicePlatform::Linux => "linux"@,
        DevicePlatform::Unknown => "unknown"@,
    }
}

/// The service instance name: `sh-` and the first twelve hexadecimal
/// digits of the device identifier.
pub open spec fn instance_name_of(device_id: Seq<u8>) -> Seq<char> {
    "sh-"@ + hex_of(device_id).subrange(0, 12)
}

/// The service instance a device announces itself as.
pub fn instance_name(device_id: &Uuid) -> (name: String)
    ensures
        name@ == instance_name_of(device_id.bytes@),
{
    let simple = device_id.to_simple();
    let chars = crate::text::chars_of(simple.as_str());
    proof {
        crate::ids::lemma_hex_of_len(device_id.bytes@);
    }
    let mut head: Vec<char> = Vec::new();
    let mut i: usize = 0;
    while i < 12
        invariant
            i <= 12,
            chars@ == hex_of(device_id.bytes@),
            chars@.len() == 32,
            head@ == chars@.subrange(0, i as int),
        decreases 12 - i,
    {
        head.push(chars[i]);
        i = i + 1;
        assert(head@ =~= chars@.subrange(0, i as int));
    }
    let h = crate::text::string_from_chars(head.as_slice());
    proof {
        reveal_strlit("sh-");
    }
    concat2("sh-", h.as_str())
}

/// The properties a device announces: protocol version, identifier, name,
/// platform and whether it accepts pairing, as (key, value) pairs.
pub fn service_properties(config: &DiscoveryConfig) -> (props: Vec<(String, String)>)
    ensures
        props@.len() == 5,
        props@[0].0@ == "v"@ && props@[0].1@ == crate::text::decimal(PROTOCOL_VERSION as nat),
        props@[1].0@ == "id"@ && props@[1].1@ == crate::ids::hyphenated(config.device_id.bytes@),
        props@[2].0@ == "name"@ && props@[2].1@ == config.device_name@,
        props@[3].0@ == "platform"@ && props@[3].1@ == platform_name(config.platform),
        props@[4].0@ == "pair"@ && props@[4].1@ == (if config.pairing_open { "1"@ } else { "0"@ }),
{
    let platform = match config.platform {
        DevicePlatform::Macos => "macos",
        DevicePlatform::Linux => "linux",
        DevicePlatform::Unknown => "unknown",
    };
    let pair = if config.pairing_open { "1" } else { "0" };
    let mut props: Vec<(String, String)> = Vec::new();
    props.push((String::from_str("v"), u64_to_decimal(PROTOCOL_VERSION as u64)));
    props.push((String::from_str("id"), config.device_id.to_hyphenated()));
    props.push((String::from_str("name"), String::from_str(config.device_name.as_str())));
    props.push((String::from_str("platform"), String::from_str(platform)));
    props.push((String::from_str("pair"), String::from_str(pair)));
    props
}

/// The name shown for a device that announces none.
pub const UNNAMED_DEVICE: &'static str = "附近设备";

/// A discovered device as its announcement reads: its identifier must
/// parse and differ from this device's, and it must have a usable address
/// (see `preferred_address`); a missing name reads as a placeholder, an
/// unknown platform as unknown, a missing or unreadable version as 0.
pub fn parse_peer(
    id: Option<&str>,
    name: Option<&str>,
    platform: Option<&str>,
    version: Option<&str>,
    pair: Option<&str>,
    addresses: &Vec<IpAddress>,
    port: u16,
    fullname: &str,
    local_device_id: &Uuid,
) -> (r: Option<DiscoveredPeer>)
    ensures
        r is Some <==> (id matches Some(t) && uuid_parsed(t@) matches Some(b) && b != local_device_id.bytes@
            && exists|i: int| 0 <= i < addresses@.len() && !is_loopback(#[trigger] addresses@[i])),
        r matches Some(p) ==> {
            &&& id matches Some(t) && uuid_parsed(t@) == Some(p.device_id.bytes@)
            &&& p.device_name@ == (match name {
                Some(n) => n@,
                None => UNNAMED_DEVICE@,
            })
            &&& p.platform == (match platform {
                Some(s) => if s@ == "macos"@ {
                    DevicePlatform::Macos
                } else if s@ == "linux"@ {
                    DevicePlatform::Linux
                } else {
                    DevicePlatform::Unknown
                },
                None => DevicePlatform::Unknown,
            })
            &&& p.protocol_version == (match version {
                Some(v) => match parsed_unsigned(v@) {
                    Some(n) => if n <= u16::MAX {
                        n as u16
                    } else {
                        0u16
                    },
                    None => 0u16,
                },
                None => 0u16,
            })
            &&& p.pairing_open == (pair matches Some(s) && s@ == "1"@)
            &&& p.address.port == port
            &&& !is_loopback(p.address.ip) && addresses@.contains(p.address.ip)
            &&& p.fullname@ == fullname@
        },
{
    let id_text = match id {
        Some(t) => t,
        None => return None,
    };
    let device_id = match parse_uuid(id_text) {
        Ok(u) => u,
        Err(_) => return None,
    };
    if device_id.same(local_device_id) {
        return None;
    }
    let device_name = match name {
        Some(n) => String::from_str(n),
        None => String::from_str(UNNAMED_DEVICE),
    };
    let platform_kind = match platform {
        Some(s) => {
            let given = String::from_str(s);
            let macos = String::from_str("macos");
            let linux = String::from_str("linux");
            if given == macos {
                DevicePlatform::Macos
            } else if given == linux {
                DevicePlatform::Linux
            } else {
                DevicePlatform::Unknown
            }
        },
        None => DevicePlatform::Unknown,
    };
    let protocol_version: u16 = match version {
        Some(v) => match parse_u32(v) {
            Some(n) => if n <= 65535 {
                n as u16
            } else {
                0
            },
            None => 0,
        },
        None => 0,
    };
    let pairing_open = match pair {
        Some(s) => {
            let given = String::from_str(s);
            let one = String::from_str("1");
            given == one
        },
        None => false,
    };
    let ip = match preferred_address(addresses) {
        Some(ip) => ip,
        None => return None,
    };
    proof {
        let i = choose|i: int| 0 <= i < addresses@.len() && addresses@[i] == ip && !is_loopback(ip);
        assert(addresses@[i] == ip);
    }
    Some(DiscoveredPeer {
        device_id,
        device_name,
        platform: platform_kind,
        address: SocketAddress { ip, port },
        pairing_open,
        protocol_version,
        fullname: String::from_str(fullname),
    })
}

/// The most devices a pairing code is tried on.
pub const MAX_PAIRING_ATTEMPTS: usize = 3;

/// The order in which a pairing code is tried: the devices that accept
/// pairing, by identifier, at most three, as indices into `peers`.
/// Identifiers of discovered devices are distinct.
pub fn pairing_attempt_order(peers: &Vec<DiscoveredPeer>) -> (order: Vec<usize>)
    requires
        forall|i: int, j: int|
            0 <= i < j < peers@.len() ==> peers@[i].device_id.bytes@ != peers@[j].device_id.bytes@,
    ensures
        order@.len() <= MAX_PAIRING_ATTEMPTS,
        forall|k: int| 0 <= k < order@.len() ==> #[trigger] order@[k] < peers@.len() && peers@[order@[k] as int].pairing_open,
        forall|k: int, l: int|
            0 <= k < l < order@.len() ==> bytes_lt(
                peers@[order@[k] as int].device_id.bytes@,
                peers@[order@[l] as int].device_id.bytes@,
            ),
        forall|i: int|
            0 <= i < peers@.len() && #[trigger] peers@[i].pairing_open ==> order@.contains(i as usize) || (
            order@.len() == MAX_PAIRING_ATTEMPTS && bytes_lt(
                peers@[order@[MAX_PAIRING_ATTEMPTS - 1] as int].device_id.bytes@,
                peers@[i].device_id.bytes@,
            )),
{
    let mut order: Vec<usize> = Vec::new();
    let mut round: usize = 0;
    while round < MAX_PAIRING_ATTEMPTS
        invariant
            order@.len() == round,
            round <= MAX_PAIRING_ATTEMPTS,
            forall|i: int, j: int|
                0 <= i < j < peers@.len() ==> peers@[i].device_id.bytes@ != peers@[j].device_id.bytes@,
            forall|k: int| 0 <= k < order@.len() ==> #[trigger] order@[k] < peers@.len() && peers@[order@[k] as int].pairing_open,
            forall|k: int, l: int|
                0 <= k < l < order@.len() ==> bytes_lt(
                    peers@[order@[k] as int].device_id.bytes@,
                    peers@[order@[l] as int].device_id.bytes@,
                ),
            forall|i: int|
                0 <= i < peers@.len() && #[trigger] peers@[i].pairing_open ==> order@.contains(i as usize) || (
                order@.len() > 0 && bytes_lt(
                    peers@[order@[order@.len() - 1] as int].device_id.bytes@,
                    peers@[i].device_id.bytes@,
                )) || order@.len() == 0,
        decreases MAX_PAIRING_ATTEMPTS - round,
    {
        let mut best: Option<usize> = None;
        let mut i: usize = 0;
        while i < peers.len()
            invariant
                i <= peers@.len(),
                order@.len() == round,
                match best {
                    Some(b) => b < i && peers@[b as int].pairing_open && (round == 0 || bytes_lt(
                        peers@[order@[round - 1] as int].device_id.bytes@,
                        peers@[b as int].device_id.bytes@,
                    )) && forall|j: int|
                        0 <= j < i && peers@[j].pairing_open && (round == 0 || bytes_lt(
                            peers@[order@[round - 1] as int].device_id.bytes@,
                            peers@[j].device_id.bytes@,
                        )) ==> j == b || bytes_lt(peers@[b as int].device_id.bytes@, peers@[j].device_id.bytes@),
                    None => forall|j: int|
                        0 <= j < i && peers@[j].pairing_open ==> !(round == 0 || bytes_lt(
                            peers@[order@[round - 1] as int].device_id.bytes@,
                            peers@[j].device_id.bytes@,
                        )),
                },
                forall|k: int| 0 <= k < order@.len() ==> #[trigger] order@[k] < peers@.len(),
                forall|a: int, c: int|
                    0 <= a < c < peers@.len() ==> peers@[a].device_id.bytes@ != peers@[c].device_id.bytes@,
            decreases peers@.len() - i,
        {
            let peer = &peers[i];
            if peer.pairing_open {
                let after_last = round == 0 || peers[order[round - 1]].device_id.precedes(&peer.device_id);
                if after_last {
                    match best {
                        None => {
                            best = Some(i);
                        },
                        Some(b) => {
                            if peer.device_id.precedes(&peers[b].device_id) {
                                proof {
                                    let pb = peers@[b as int].device_id.bytes@;
                                    let pi = peer.device_id.bytes@;
                                    assert forall|j: int|
                                        0 <= j < i && peers@[j].pairing_open && (round == 0 || bytes_lt(
                                            peers@[order@[round - 1] as int].device_id.bytes@,
                                            peers@[j].device_id.bytes@,
                                        )) implies j == i || bytes_lt(pi, peers@[j].device_id.bytes@) by {
                                        if j != b {
                                            lemma_bytes_lt_transitive(pi, pb, peers@[j].device_id.bytes@);
                                        }
                                    }
                                }
                                best = Some(i);
                            } else {
                                proof {
                                    let pb = peers@[b as int].device_id.bytes@;
                                    let pi = peer.device_id.bytes@;
                                    assert(pb != pi);
                                    lemma_bytes_lt_total(pb, pi);
                                }
                            }
                        },
                    }
                }
            }
            i = i + 1;
        }
        match best {
            None => {
                proof {
                    assert forall|j: int| 0 <= j < peers@.len() && #[trigger] peers@[j].pairing_open implies order@.contains(
                        j as usize,
                    ) by {
                        if round > 0 {
                            assert(!bytes_lt(
                                peers@[order@[round - 1] as int].device_id.bytes@,
                                peers@[j].device_id.bytes@,
                            ));
                        }
                    }
                }
                assert(forall|j: int| 0 <= j < peers@.len() && #[trigger] peers@[j].pairing_open ==> order@.contains(j as usize));
                return order;
            },
            Some(b) => {
                let ghost old_order = order@;
                order.push(b);
                proof {
                    assert forall|k: int, l: int| 0 <= k < l < order@.len() implies bytes_lt(
                        peers@[order@[k] as int].device_id.bytes@,
                        peers@[order@[l] as int].device_id.bytes@,
                    ) by {
                        if l == order@.len() - 1 && l - 1 > k {
                            lemma_bytes_lt_transitive(
                                peers@[order@[k] as int].device_id.bytes@,
                                peers@[order@[l - 1] as int].device_id.bytes@,
                                peers@[order@[l] as int].device_id.bytes@,
                            );
                        }
                    }
                    assert forall|j: int| 0 <= j < peers@.len() && #[trigger] peers@[j].pairing_open implies order@.contains(
                        j as usize,
                    ) || (order@.len() > 0 && bytes_lt(
                        peers@[order@[order@.len() - 1] as int].device_id.bytes@,
                        peers@[j].device_id.bytes@,
                    )) || order@.len() == 0 by {
                        if old_order.contains(j as usize) {
                            let k = choose|k: int| 0 <= k < old_order.len() && old_order[k] == j as usize;
                            assert(order@[k] == j as usize);
                        } else if j == b as int {
                            assert(order@[order@.len() - 1] == b);
                        } else {
                            if round > 0 {
                                assert(bytes_lt(
                                    peers@[old_order[round - 1] as int].device_id.bytes@,
                                    peers@[j].device_id.bytes@,
                                ));
                            }
                            assert(bytes_lt(peers@[b as int].device_id.bytes@, peers@[j].device_id.bytes@));
                        }
                    }
                }
            },
        }
        round = round + 1;
    }
    order
}

} // verus!
