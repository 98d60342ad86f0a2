//! The IP/UDP packet codec: parses a raw IPv4 or IPv6 datagram into header
//! fields and a UDP payload view, and builds fresh datagrams — checksums
//! included — for the reply path, whose addressing is the request's swapped.
//!
//! The wire formats are stated byte for byte as specification functions;
//! every executable function here is proved against them.

use vstd::prelude::*;
use vstd::slice::slice_to_vec;

verus! {

/// The UDP protocol number carried in an IP header.
pub const UDP_PROTOCOL: u8 = 17;

/// A parsed UDP datagram: both ports and the payload the length field
/// delimits.
pub struct UdpDatagram {
    pub source_port: u16,
    pub destination_port: u16,
    pub payload: Vec<u8>,
}

/// The ghost value of a parsed UDP datagram.
pub struct UdpModel {
    pub source_port: u16,
    pub destination_port: u16,
    pub payload: Seq<u8>,
}

impl View for UdpDatagram {
    type V = UdpModel;

    open spec fn view(&self) -> UdpModel {
        UdpModel {
            source_port: self.source_port,
            destination_port: self.destination_port,
            payload: self.payload@,
        }
    }
}

/// The header fields of a parsed IP packet that the reply path needs:
/// addresses, and the fields a response preserves.
pub enum IpHeader {
    V4 { source: Vec<u8>, destination: Vec<u8>, time_to_live: u8, identification: u16 },
    V6 {
        source: Vec<u8>,
        destination: Vec<u8>,
        traffic_class: u8,
        flow_label: u32,
        hop_limit: u8,
    },
}

/// The ghost value of a parsed IP header.
pub enum HeaderModel {
    V4 { source: Seq<u8>, destination: Seq<u8>, time_to_live: u8, identification: u16 },
    V6 {
        source: Seq<u8>,
        destination: Seq<u8>,
        traffic_class: u8,
        flow_label: u32,
        hop_limit: u8,
    },
}

impl View for IpHeader {
    type V = HeaderModel;

    open spec fn view(&self) -> HeaderModel {
        match self {
            IpHeader::V4 { source, destination, time_to_live, identification } => HeaderModel::V4 {
                source: source@,
                destination: destination@,
                time_to_live: *time_to_live,
                identification: *identification,
            },
            IpHeader::V6 { source, destination, traffic_class, flow_label, hop_limit } => HeaderModel::V6 {
                source: source@,
                destination: destination@,
                traffic_class: *traffic_class,
                flow_label: *flow_label,
                hop_limit: *hop_limit,
            },
        }
    }
}

/// A parsed IP packet: its header and, where the packet carries an
/// unfragmented UDP datagram, that datagram.
pub struct GenericIpPacket {
    pub header: IpHeader,
    pub udp: Option<UdpDatagram>,
}

/// The ghost value of a parsed IP packet.
pub struct PacketModel {
    pub header: HeaderModel,
    pub udp: Option<UdpModel>,
}

impl View for GenericIpPacket {
    type V = PacketModel;

    open spec fn view(&self) -> PacketModel {
        PacketModel {
            header: self.header@,
            udp: match self.udp {
                Some(u) => Some(u@),
                None => None,
            },
        }
    }
}

/// The big-endian 16-bit value of two bytes.
pub open spec fn be16(hi: u8, lo: u8) -> u16 {
    ((hi as int) * 256 + lo as int) as u16
}

pub open spec fn u16_hi(x: u16) -> u8 {
    (x / 256) as u8
}

pub open spec fn u16_lo(x: u16) -> u8 {
    (x % 256) as u8
}

/// What a well-formed UDP datagram's bytes hold: at least the eight header
/// bytes, and a length field that covers the header and delimits the
/// payload; trailing bytes beyond the length field are ignored.
pub open spec fn spec_parse_udp(b: Seq<u8>) -> Option<UdpModel> {
    if b.len() < 8 {
        None
    } else {
        let ulen = be16(b[4], b[5]) as int;
        if ulen < 8 || ulen > b.len() {
            None
        } else {
            Some(
                UdpModel {
                    source_port: be16(b[0], b[1]),
                    destination_port: be16(b[2], b[3]),
                    payload: b.subrange(8, ulen),
                },
            )
        }
    }
}

/// What a parseable IPv4 packet's bytes hold: version 4, a header length of
/// at least 20 bytes, a total length covering the header and within the
/// data handed in. An unfragmented UDP packet must carry a well-formed UDP
/// datagram; any other protocol leaves the payload unread.
pub open spec fn spec_parse_ipv4(b: Seq<u8>) -> Option<PacketModel> {
    if b.len() < 20 {
        None
    } else {
        let hlen = (b[0] % 16) as int * 4;
        let total = be16(b[2], b[3]) as int;
        if b[0] % 16 < 5 || total < hlen || total > b.len() {
            None
        } else {
            let header = HeaderModel::V4 {
                source: b.subrange(12, 16),
                destination: b.subrange(16, 20),
                time_to_live: b[8],
                identification: be16(b[4], b[5]),
            };
            let fragmented = (b[6] / 32) % 2 == 1 || b[6] % 32 != 0 || b[7] != 0;
            if b[9] == UDP_PROTOCOL && !fragmented {
                match spec_parse_udp(b.subrange(hlen, total)) {
                    Some(u) => Some(PacketModel { header, udp: Some(u) }),
                    None => None,
                }
            } else {
                Some(PacketModel { header, udp: None })
            }
        }
    }
}

/// What a parseable IPv6 packet's bytes hold: the 40 fixed header bytes and
/// a payload length within the data handed in. A packet whose next header
/// is UDP must carry a well-formed UDP datagram; anything else — extension
/// headers included — leaves the payload unread.
pub open spec fn spec_parse_ipv6(b: Seq<u8>) -> Option<PacketModel> {
    if b.len() < 40 {
        None
    } else {
        let plen = be16(b[4], b[5]) as int;
        if 40 + plen > b.len() {
            None
        } else {
            let header = HeaderModel::V6 {
                source: b.subrange(8, 24),
                destination: b.subrange(24, 40),
                traffic_class: ((b[0] % 16) * 16 + b[1] / 16) as u8,
                flow_label: ((b[1] % 16) as int * 65536 + b[2] as int * 256 + b[3] as int) as u32,
                hop_limit: b[7],
            };
            if b[6] == UDP_PROTOCOL {
                match spec_parse_udp(b.subrange(40, 40 + plen)) {
                    Some(u) => Some(PacketModel { header, udp: Some(u) }),
                    None => None,
                }
            } else {
                Some(PacketModel { header, udp: None })
            }
        }
    }
}

/// The packet a raw datagram parses to, if its version nibble says IPv4 or
/// IPv6 and the rest is well-formed.
pub open spec fn spec_parse_ip(b: Seq<u8>) -> Option<PacketModel> {
    if b.len() < 1 {
        None
    } else if b[0] / 16 == 4 {
        spec_parse_ipv4(b)
    } else if b[0] / 16 == 6 {
        spec_parse_ipv6(b)
    } else {
        None
    }
}

/// The bytes of `v[a..b]`.
pub(crate) fn vec_range(v: &Vec<u8>, a: usize, b: usize) -> (r: Vec<u8>)
    requires
        a <= b <= v@.len(),
    ensures
        r@ == v@.subrange(a as int, b as int),
{
    let mut out: Vec<u8> = Vec::new();
    let mut j = a;
    while j < b
        invariant
            a <= j <= b,
            b <= v@.len(),
            out@ == v@.subrange(a as int, j as int),
        decreases b - j,
    {
        out.push(v[j]);
        proof {
            assert(v@.subrange(a as int, j + 1) =~= v@.subrange(a as int, j as int).push(
                v@[j as int],
            ));
        }
        j += 1;
    }
    out
}

/// Parses the UDP datagram in `seg`.
fn parse_udp(seg: &Vec<u8>) -> (r: Option<UdpDatagram>)
    ensures
        match r {
            Some(u) => spec_parse_udp(seg@) == Some(u@),
            None => spec_parse_udp(seg@) is None,
        },
{
    let n = seg.len();
    if n < 8 {
        return None;
    }
    let ulen_u16 = be16_exec(seg[4], seg[5]);
    let ulen = ulen_u16 as usize;
    if ulen < 8 || ulen > n {
        return None;
    }
    let payload = vec_range(seg, 8, ulen);
    Some(
        UdpDatagram {
            source_port: be16_exec(seg[0], seg[1]),
            destination_port: be16_exec(seg[2], seg[3]),
            payload,
        },
    )
}

pub(crate) fn be16_exec(hi: u8, lo: u8) -> (r: u16)
    ensures
        r == be16(hi, lo),
{
    (hi as u16) * 256 + lo as u16
}

impl GenericIpPacket {
    /// Parses a raw IP datagram; see `spec_parse_ip` for exactly what is
    /// accepted. Anything else — non-IP, truncated, inconsistent lengths,
    /// or an IP-borne UDP datagram that is itself malformed — yields
    /// nothing, and such packets are silently dropped upstream.
    pub fn from_ip_packet(data: &[u8]) -> (r: Option<GenericIpPacket>)
        ensures
            match r {
                Some(p) => spec_parse_ip(data@) == Some(p@),
                None => spec_parse_ip(data@) is None,
            },
    {
        let v = slice_to_vec(data);
        let n = v.len();
        if n < 1 {
            return None;
        }
        let version = v[0] / 16;
        if version == 4 {
            if n < 20 {
                return None;
            }
            let ihl = v[0] % 16;
            let hlen = (ihl as usize) * 4;
            let total = be16_exec(v[2], v[3]) as usize;
            if ihl < 5 || total < hlen || total > n {
                return None;
            }
            let header = IpHeader::V4 {
                source: vec_range(&v, 12, 16),
                destination: vec_range(&v, 16, 20),
                time_to_live: v[8],
                identification: be16_exec(v[4], v[5]),
            };
            let fragmented = (v[6] / 32) % 2 == 1 || v[6] % 32 != 0 || v[7] != 0;
            if v[9] == UDP_PROTOCOL && !fragmented {
                let seg = vec_range(&v, hlen, total);
                match parse_udp(&seg) {
                    Some(u) => Some(GenericIpPacket { header, udp: Some(u) }),
                    None => None,
                }
            } else {
                Some(GenericIpPacket { header, udp: None })
            }
        } else if version == 6 {
            if n < 40 {
                return None;
            }
            let plen = be16_exec(v[4], v[5]) as usize;
            if 40 + plen > n {
                return None;
            }
            let header = IpHeader::V6 {
                source: vec_range(&v, 8, 24),
                destination: vec_range(&v, 24, 40),
                traffic_class: (v[0] % 16) * 16 + v[1] / 16,
                flow_label: ((v[1] % 16) as u32) * 65536 + (v[2] as u32) * 256 + (v[3] as u32),
                hop_limit: v[7],
            };
            if v[6] == UDP_PROTOCOL {
                let seg = vec_range(&v, 40, 40 + plen);
                match parse_udp(&seg) {
                    Some(u) => Some(GenericIpPacket { header, udp: Some(u) }),
                    None => None,
                }
            } else {
                Some(GenericIpPacket { header, udp: None })
            }
        } else {
            None
        }
    }

    /// The raw destination address of the packet: 4 or 16 bytes by IP
    /// version.
    pub fn get_destination_address(&self) -> (r: Option<Vec<u8>>)
        ensures
            match r {
                Some(d) => match self@.header {
                    HeaderModel::V4 { destination, .. } => d@ == destination,
                    HeaderModel::V6 { destination, .. } => d@ == destination,
                },
                None => false,
            },
    {
        match &self.header {
            IpHeader::V4 { destination, .. } => Some(clone_bytes(destination)),
            IpHeader::V6 { destination, .. } => Some(clone_bytes(destination)),
        }
    }

    /// The UDP datagram the packet carries, if any.
    pub fn get_udp_packet(&self) -> (r: Option<&UdpDatagram>)
        ensures
            match r {
                Some(u) => self@.udp == Some(u@),
                None => self@.udp is None,
            },
    {
        match &self.udp {
            Some(u) => Some(u),
            None => None,
        }
    }
}

/// A copy of a byte vector.
fn clone_bytes(v: &Vec<u8>) -> (r: Vec<u8>)
    ensures
        r@ == v@,
{
    let mut out: Vec<u8> = Vec::new();
    let mut j: usize = 0;
    let n = v.len();
    while j < n
        invariant
            j <= n,
            n == v@.len(),
            out@ == v@.take(j as int),
        decreases n - j,
    {
        out.push(v[j]);
        proof {
            assert(v@.take(j + 1) =~= v@.take(j as int).push(v@[j as int]));
        }
        j += 1;
    }
    proof {
        assert(v@.take(n as int) =~= v@);
    }
    out
}

/// The RFC 1071 sum of 16-bit big-endian words, an odd trailing byte padded
/// with zero.
pub open spec fn spec_sum_words(b: Seq<u8>) -> int
    decreases b.len(),
{
    if b.len() == 0 {
        0
    } else if b.len() == 1 {
        (b[0] as int) * 256
    } else {
        (b[0] as int) * 256 + (b[1] as int) + spec_sum_words(b.subrange(2, b.len() as int))
    }
}

/// End-around carry folding of a non-negative sum into 16 bits.
pub open spec fn spec_fold16(n: int) -> int
    decreases n,
    via spec_fold16_dec
{
    if n < 65536 {
        n
    } else {
        spec_fold16(n % 65536 + n / 65536)
    }
}

#[via_fn]
proof fn spec_fold16_dec(n: int) {
    if n >= 65536 {
        assert(n / 65536 >= 1) by (nonlinear_arith)
            requires
                n >= 65536,
        ;
        vstd::arithmetic::div_mod::lemma_fundamental_div_mod(n, 65536);
    }
}

proof fn lemma_fold16_bounds(n: int)
    requires
        n >= 0,
    ensures
        0 <= spec_fold16(n) < 65536,
    decreases n,
{
    if n >= 65536 {
        assert(n / 65536 >= 1) by (nonlinear_arith)
            requires
                n >= 65536,
        ;
        vstd::arithmetic::div_mod::lemma_fundamental_div_mod(n, 65536);
        lemma_fold16_bounds(n % 65536 + n / 65536);
    }
}

proof fn lemma_sum_words_bounds(b: Seq<u8>)
    ensures
        0 <= spec_sum_words(b) <= 65535 * b.len(),
    decreases b.len(),
{
    if b.len() >= 2 {
        lemma_sum_words_bounds(b.subrange(2, b.len() as int));
    }
}

/// The Internet checksum of `b`: the ones' complement of the folded word
/// sum.
pub open spec fn spec_checksum(b: Seq<u8>) -> u16 {
    (65535 - spec_fold16(spec_sum_words(b))) as u16
}

/// The Internet checksum, computed.
pub fn checksum_of(b: &Vec<u8>) -> (r: u16)
    requires
        b@.len() <= 65600,
    ensures
        r == spec_checksum(b@),
{
    let n = b.len();
    proof {
        assert(b@.subrange(0, n as int) =~= b@);
    }
    let mut sum: u64 = 0;
    let mut i: usize = 0;
    while i + 2 <= n
        invariant
            i <= n,
            n == b@.len(),
            n <= 65600,
            sum as int <= 65535 * (i as int),
            sum as int + spec_sum_words(b@.subrange(i as int, n as int)) == spec_sum_words(b@),
        decreases n - i,
    {
        proof {
            assert(b@.subrange(i as int, n as int).subrange(2, (n - i) as int) =~= b@.subrange(
                i + 2,
                n as int,
            ));
            assert(b@.subrange(i as int, n as int)[0] == b@[i as int]);
            assert(b@.subrange(i as int, n as int)[1] == b@[i + 1]);
        }
        sum = sum + be16_exec(b[i], b[i + 1]) as u64;
        i = i + 2;
    }
    if i < n {
        proof {
            assert(b@.subrange(i as int, n as int).len() == 1);
            assert(b@.subrange(i as int, n as int)[0] == b@[i as int]);
        }
        sum = sum + (b[i] as u64) * 256;
        i = n;
    }
    proof {
        assert(b@.subrange(n as int, n as int).len() == 0);
        assert(sum as int == spec_sum_words(b@));
        lemma_sum_words_bounds(b@);
    }
    let ghost total = sum as int;
    while sum > 65535
        invariant
            spec_fold16(sum as int) == spec_fold16(total),
        decreases sum,
    {
        let hi = sum / 65536;
        let lo = sum % 65536;
        proof {
            assert(hi >= 1) by (nonlinear_arith)
                requires
                    hi == sum / 65536,
                    sum >= 65536,
            ;
            vstd::arithmetic::div_mod::lemma_fundamental_div_mod(sum as int, 65536);
        }
        sum = lo + hi;
    }
    proof {
        lemma_fold16_bounds(total);
        assert(spec_fold16(sum as int) == sum as int);
    }
    65535u16 - (sum as u16)
}

/// The eight UDP header bytes.
pub open spec fn spec_udp_header(sp: u16, dp: u16, length: u16, checksum: u16) -> Seq<u8> {
    seq![
        u16_hi(sp),
        u16_lo(sp),
        u16_hi(dp),
        u16_lo(dp),
        u16_hi(length),
        u16_lo(length),
        u16_hi(checksum),
        u16_lo(checksum),
    ]
}

/// The material the IPv4 UDP checksum covers: the pseudo-header, the UDP
/// header with a zero checksum field, and the payload.
pub open spec fn spec_udp_pseudo_v4(
    src: Seq<u8>,
    dst: Seq<u8>,
    sp: u16,
    dp: u16,
    ulen: u16,
    payload: Seq<u8>,
) -> Seq<u8> {
    src + dst + seq![0u8, UDP_PROTOCOL, u16_hi(ulen), u16_lo(ulen)] + spec_udp_header(
        sp,
        dp,
        ulen,
        0,
    ) + payload
}

/// The material the IPv6 UDP checksum covers.
pub open spec fn spec_udp_pseudo_v6(
    src: Seq<u8>,
    dst: Seq<u8>,
    sp: u16,
    dp: u16,
    ulen: u16,
    payload: Seq<u8>,
) -> Seq<u8> {
    src + dst + seq![0u8, 0u8, u16_hi(ulen), u16_lo(ulen), 0u8, 0u8, 0u8, UDP_PROTOCOL]
        + spec_udp_header(sp, dp, ulen, 0) + payload
}

/// A transmitted UDP checksum: zero is reserved for "no checksum", so a
/// computed zero goes out as all-ones.
pub open spec fn spec_udp_checksum(pseudo: Seq<u8>) -> u16 {
    if spec_checksum(pseudo) == 0 {
        0xFFFF
    } else {
        spec_checksum(pseudo)
    }
}

/// The twenty IPv4 header bytes this engine emits: version 4, no options,
/// zero DSCP/ECN, the don't-fragment flag set and no fragmentation,
/// protocol UDP.
pub open spec fn spec_ipv4_header_bytes(
    total_len: u16,
    identification: u16,
    ttl: u8,
    src: Seq<u8>,
    dst: Seq<u8>,
    hck: u16,
) -> Seq<u8> {
    seq![
        0x45u8,
        0u8,
        u16_hi(total_len),
        u16_lo(total_len),
        u16_hi(identification),
        u16_lo(identification),
        64u8,
        0u8,
        ttl,
        UDP_PROTOCOL,
        u16_hi(hck),
        u16_lo(hck),
    ] + src + dst
}

/// The forty IPv6 header bytes this engine emits: version 6, next header
/// UDP.
pub open spec fn spec_ipv6_header_bytes(
    traffic_class: u8,
    flow_label: u32,
    payload_len: u16,
    hop_limit: u8,
    src: Seq<u8>,
    dst: Seq<u8>,
) -> Seq<u8> {
    seq![
        (96 + traffic_class / 16) as u8,
        ((traffic_class % 16) * 16 + ((flow_label / 65536) % 16) as u8) as u8,
        ((flow_label / 256) % 256) as u8,
        (flow_label % 256) as u8,
        u16_hi(payload_len),
        u16_lo(payload_len),
        UDP_PROTOCOL,
        hop_limit,
    ] + src + dst
}

/// The complete IPv4/UDP datagram for a payload, or nothing if the total
/// length cannot be carried in the 16-bit length field.
pub open spec fn spec_build_ipv4(
    src: Seq<u8>,
    sp: u16,
    dst: Seq<u8>,
    dp: u16,
    ttl: u8,
    identification: u16,
    payload: Seq<u8>,
) -> Option<Seq<u8>> {
    if src.len() == 4 && dst.len() == 4 && payload.len() + 28 <= 65535 {
        let total = (payload.len() + 28) as u16;
        let ulen = (payload.len() + 8) as u16;
        let hck = spec_checksum(spec_ipv4_header_bytes(total, identification, ttl, src, dst, 0));
        let uck = spec_udp_checksum(spec_udp_pseudo_v4(src, dst, sp, dp, ulen, payload));
        Some(
            spec_ipv4_header_bytes(total, identification, ttl, src, dst, hck) + spec_udp_header(
                sp,
                dp,
                ulen,
                uck,
            ) + payload,
        )
    } else {
        None
    }
}

/// The complete IPv6/UDP datagram for a payload, or nothing if the UDP
/// length cannot be carried in its 16-bit field.
pub open spec fn spec_build_ipv6(
    src: Seq<u8>,
    sp: u16,
    dst: Seq<u8>,
    dp: u16,
    traffic_class: u8,
    flow_label: u32,
    hop_limit: u8,
    payload: Seq<u8>,
) -> Option<Seq<u8>> {
    if src.len() == 16 && dst.len() == 16 && payload.len() + 8 <= 65535 {
        let ulen = (payload.len() + 8) as u16;
        let uck = spec_udp_checksum(spec_udp_pseudo_v6(src, dst, sp, dp, ulen, payload));
        Some(
            spec_ipv6_header_bytes(traffic_class, flow_label, ulen, hop_limit, src, dst)
                + spec_udp_header(sp, dp, ulen, uck) + payload,
        )
    } else {
        None
    }
}

pub(crate) fn push_u16(out: &mut Vec<u8>, x: u16)
    ensures
        final(out)@ == old(out)@ + seq![u16_hi(x), u16_lo(x)],
{
    out.push((x / 256) as u8);
    out.push((x % 256) as u8);
    proof {
        assert(out@ =~= old(out)@ + seq![u16_hi(x), u16_lo(x)]);
    }
}

pub(crate) fn append_bytes(out: &mut Vec<u8>, v: &Vec<u8>)
    ensures
        final(out)@ == old(out)@ + v@,
{
    let n = v.len();
    let mut j: usize = 0;
    while j < n
        invariant
            j <= n,
            n == v@.len(),
            out@ == old(out)@ + v@.take(j as int),
        decreases n - j,
    {
        out.push(v[j]);
        proof {
            assert(old(out)@ + v@.take(j + 1) =~= (old(out)@ + v@.take(j as int)).push(
                v@[j as int],
            ));
        }
        j += 1;
    }
    proof {
        assert(v@.take(n as int) =~= v@);
    }
}

/// The UDP header and payload, appended to `out`.
fn append_udp(out: &mut Vec<u8>, sp: u16, dp: u16, ulen: u16, uck: u16, payload: &Vec<u8>)
    ensures
        final(out)@ == old(out)@ + spec_udp_header(sp, dp, ulen, uck) + payload@,
{
    push_u16(out, sp);
    push_u16(out, dp);
    push_u16(out, ulen);
    push_u16(out, uck);
    proof {
        assert(out@ =~= old(out)@ + spec_udp_header(sp, dp, ulen, uck));
    }
    append_bytes(out, payload);
}

/// The twenty IPv4 header bytes, as a vector.
fn ipv4_header_vec(
    total: u16,
    identification: u16,
    ttl: u8,
    src: &Vec<u8>,
    dst: &Vec<u8>,
    hck: u16,
) -> (r: Vec<u8>)
    requires
        src@.len() == 4,
        dst@.len() == 4,
    ensures
        r@ == spec_ipv4_header_bytes(total, identification, ttl, src@, dst@, hck),
{
    let mut out: Vec<u8> = Vec::new();
    out.push(0x45);
    out.push(0);
    push_u16(&mut out, total);
    push_u16(&mut out, identification);
    out.push(64);
    out.push(0);
    out.push(ttl);
    out.push(UDP_PROTOCOL);
    push_u16(&mut out, hck);
    append_bytes(&mut out, src);
    append_bytes(&mut out, dst);
    proof {
        assert(out@ =~= spec_ipv4_header_bytes(total, identification, ttl, src@, dst@, hck));
    }
    out
}

/// Builds a complete IPv4 datagram around a UDP payload; see
/// `spec_build_ipv4`.
pub fn build_ipv4_packet_with_udp_payload(
    source_address: &Vec<u8>,
    source_port: u16,
    destination_address: &Vec<u8>,
    destination_port: u16,
    time_to_live: u8,
    identification: u16,
    udp_payload: &Vec<u8>,
) -> (r: Option<Vec<u8>>)
    ensures
        match r {
            Some(v) => spec_build_ipv4(
                source_address@,
                source_port,
                destination_address@,
                destination_port,
                time_to_live,
                identification,
                udp_payload@,
            ) == Some(v@),
            None => spec_build_ipv4(
                source_address@,
                source_port,
                destination_address@,
                destination_port,
                time_to_live,
                identification,
                udp_payload@,
            ) is None,
        },
{
    if !(source_address.len() == 4 && destination_address.len() == 4 && udp_payload.len()
        <= 65507) {
        return None;
    }
    let total: u16 = (udp_payload.len() + 28) as u16;
    let ulen: u16 = (udp_payload.len() + 8) as u16;
    let zeroed = ipv4_header_vec(
        total,
        identification,
        time_to_live,
        source_address,
        destination_address,
        0,
    );
    let hck = checksum_of(&zeroed);
    let mut pseudo: Vec<u8> = Vec::new();
    append_bytes(&mut pseudo, source_address);
    append_bytes(&mut pseudo, destination_address);
    pseudo.push(0);
    pseudo.push(UDP_PROTOCOL);
    push_u16(&mut pseudo, ulen);
    proof {
        assert(pseudo@ =~= source_address@ + destination_address@ + seq![
            0u8,
            UDP_PROTOCOL,
            u16_hi(ulen),
            u16_lo(ulen),
        ]);
    }
    append_udp(&mut pseudo, source_port, destination_port, ulen, 0, udp_payload);
    proof {
        assert(pseudo@ =~= spec_udp_pseudo_v4(
            source_address@,
            destination_address@,
            source_port,
            destination_port,
            ulen,
            udp_payload@,
        ));
    }
    let c0 = checksum_of(&pseudo);
    let uck: u16 = if c0 == 0 {
        0xFFFF
    } else {
        c0
    };
    let mut out = ipv4_header_vec(
        total,
        identification,
        time_to_live,
        source_address,
        destination_address,
        hck,
    );
    append_udp(&mut out, source_port, destination_port, ulen, uck, udp_payload);
    proof {
        assert(out@ =~= spec_ipv4_header_bytes(
            total,
            identification,
            time_to_live,
            source_address@,
            destination_address@,
            hck,
        ) + spec_udp_header(source_port, destination_port, ulen, uck) + udp_payload@);
    }
    Some(out)
}

/// The forty IPv6 header bytes, as a vector.
fn ipv6_header_vec(
    traffic_class: u8,
    flow_label: u32,
    payload_len: u16,
    hop_limit: u8,
    src: &Vec<u8>,
    dst: &Vec<u8>,
) -> (r: Vec<u8>)
    requires
        src@.len() == 16,
        dst@.len() == 16,
    ensures
        r@ == spec_ipv6_header_bytes(traffic_class, flow_label, payload_len, hop_limit, src@, dst@),
{
    let mut out: Vec<u8> = Vec::new();
    out.push(96 + traffic_class / 16);
    out.push((traffic_class % 16) * 16 + ((flow_label / 65536) % 16) as u8);
    out.push(((flow_label / 256) % 256) as u8);
    out.push((flow_label % 256) as u8);
    push_u16(&mut out, payload_len);
    out.push(UDP_PROTOCOL);
    out.push(hop_limit);
    append_bytes(&mut out, src);
    append_bytes(&mut out, dst);
    proof {
        assert(out@ =~= spec_ipv6_header_bytes(
            traffic_class,
            flow_label,
            payload_len,
            hop_limit,
            src@,
            dst@,
        ));
    }
    out
}

/// Builds a complete IPv6 datagram around a UDP payload; see
/// `spec_build_ipv6`.
pub fn build_ipv6_packet_with_udp_payload(
    source_address: &Vec<u8>,
    source_port: u16,
    destination_address: &Vec<u8>,
    destination_port: u16,
    traffic_class: u8,
    flow_label: u32,
    hop_limit: u8,
    udp_payload: &Vec<u8>,
) -> (r: Option<Vec<u8>>)
    ensures
        match r {
            Some(v) => spec_build_ipv6(
                source_address@,
                source_port,
                destination_address@,
                destination_port,
                traffic_class,
                flow_label,
                hop_limit,
                udp_payload@,
            ) == Some(v@),
            None => spec_build_ipv6(
                source_address@,
                source_port,
                destination_address@,
                destination_port,
                traffic_class,
                flow_label,
                hop_limit,
                udp_payload@,
            ) is None,
        },
{
    if !(source_address.len() == 16 && destination_address.len() == 16 && udp_payload.len()
        <= 65527) {
        return None;
    }
    let ulen: u16 = (udp_payload.len() + 8) as u16;
    let mut pseudo: Vec<u8> = Vec::new();
    append_bytes(&mut pseudo, source_address);
    append_bytes(&mut pseudo, destination_address);
    pseudo.push(0);
    pseudo.push(0);
    push_u16(&mut pseudo, ulen);
    pseudo.push(0);
    pseudo.push(0);
    pseudo.push(0);
    pseudo.push(UDP_PROTOCOL);
    proof {
        assert(pseudo@ =~= source_address@ + destination_address@ + seq![
            0u8,
            0u8,
            u16_hi(ulen),
            u16_lo(ulen),
            0u8,
            0u8,
            0u8,
            UDP_PROTOCOL,
        ]);
    }
    append_udp(&mut pseudo, source_port, destination_port, ulen, 0, udp_payload);
    proof {
        assert(pseudo@ =~= spec_udp_pseudo_v6(
            source_address@,
            destination_address@,
            source_port,
            destination_port,
            ulen,
            udp_payload@,
        ));
    }
    let c0 = checksum_of(&pseudo);
    let uck: u16 = if c0 == 0 {
        0xFFFF
    } else {
        c0
    };
    let mut out = ipv6_header_vec(
        traffic_class,
        flow_label,
        ulen,
        hop_limit,
        source_address,
        destination_address,
    );
    append_udp(&mut out, source_port, destination_port, ulen, uck, udp_payload);
    proof {
        assert(out@ =~= spec_ipv6_header_bytes(
            traffic_class,
            flow_label,
            ulen,
            hop_limit,
            source_address@,
            destination_address@,
        ) + spec_udp_header(source_port, destination_port, ulen, uck) + udp_payload@);
    }
    Some(out)
}

/// The reply datagram for a request: the request is re-parsed, and a new
/// packet is built whose addresses and ports are the request's swapped,
/// whose TTL/hop-limit and the other preserved header fields are the
/// request's, and whose payload is `response_payload`. Nothing comes out if
/// the request does not parse as an IP/UDP packet or the response cannot be
/// framed.
pub open spec fn spec_build_response(request: Seq<u8>, response_payload: Seq<u8>) -> Option<
    Seq<u8>,
> {
    match spec_parse_ip(request) {
        None => None,
        Some(p) => match p.udp {
            None => None,
            Some(u) => match p.header {
                HeaderModel::V4 { source, destination, time_to_live, identification } =>
                    spec_build_ipv4(
                    destination,
                    u.destination_port,
                    source,
                    u.source_port,
                    time_to_live,
                    identification,
                    response_payload,
                ),
                HeaderModel::V6 {
                    source,
                    destination,
                    traffic_class,
                    flow_label,
                    hop_limit,
                } => spec_build_ipv6(
                    destination,
                    u.destination_port,
                    source,
                    u.source_port,
                    traffic_class,
                    flow_label,
                    hop_limit,
                    response_payload,
                ),
            },
        },
    }
}

/// Rebuilds a tunnel-bound reply from the original request packet and a
/// response payload; see `spec_build_response`.
pub fn build_response_packet(request_packet: &[u8], response_payload: &[u8]) -> (r: Option<
    Vec<u8>,
>)
    ensures
        match r {
            Some(v) => spec_build_response(request_packet@, response_payload@) == Some(v@),
            None => spec_build_response(request_packet@, response_payload@) is None,
        },
{
    let packet = match GenericIpPacket::from_ip_packet(request_packet) {
        Some(value) => value,
        None => {
            return None;
        },
    };
    let resp = slice_to_vec(response_payload);
    match packet.udp {
        Some(u) => match packet.header {
            IpHeader::V4 { source, destination, time_to_live, identification } =>
                build_ipv4_packet_with_udp_payload(
                &destination,
                u.destination_port,
                &source,
                u.source_port,
                time_to_live,
                identification,
                &resp,
            ),
            IpHeader::V6 { source, destination, traffic_class, flow_label, hop_limit } =>
                build_ipv6_packet_with_udp_payload(
                &destination,
                u.destination_port,
                &source,
                u.source_port,
                traffic_class,
                flow_label,
                hop_limit,
                &resp,
            ),
        },
        None => None,
    }
}

/// Reading back two big-endian bytes gives the value they were made from.
proof fn lemma_be16_roundtrip(x: u16)
    ensures
        be16(u16_hi(x), u16_lo(x)) == x,
{
    vstd::arithmetic::div_mod::lemma_fundamental_div_mod(x as int, 256);
}

/// Parsing a datagram built for IPv4 recovers exactly the fields it was
/// built from.
pub proof fn lemma_parse_built_ipv4(
    src: Seq<u8>,
    sp: u16,
    dst: Seq<u8>,
    dp: u16,
    ttl: u8,
    identification: u16,
    payload: Seq<u8>,
)
    requires
        src.len() == 4,
        dst.len() == 4,
        payload.len() + 28 <= 65535,
    ensures
        spec_build_ipv4(src, sp, dst, dp, ttl, identification, payload) is Some,
        spec_parse_ip(spec_build_ipv4(src, sp, dst, dp, ttl, identification, payload).unwrap())
            == Some(
            PacketModel {
                header: HeaderModel::V4 {
                    source: src,
                    destination: dst,
                    time_to_live: ttl,
                    identification,
                },
                udp: Some(UdpModel { source_port: sp, destination_port: dp, payload }),
            },
        ),
{
    let total = (payload.len() + 28) as u16;
    let ulen = (payload.len() + 8) as u16;
    let hck = spec_checksum(spec_ipv4_header_bytes(total, identification, ttl, src, dst, 0));
    let uck = spec_udp_checksum(spec_udp_pseudo_v4(src, dst, sp, dp, ulen, payload));
    let hdr = spec_ipv4_header_bytes(total, identification, ttl, src, dst, hck);
    let uh = spec_udp_header(sp, dp, ulen, uck);
    let b = hdr + uh + payload;
    assert(spec_build_ipv4(src, sp, dst, dp, ttl, identification, payload) == Some(b));
    assert(hdr.len() == 20);
    assert(b.len() == total as int);
    assert(b[0] == 0x45u8);
    assert(b[2] == u16_hi(total) && b[3] == u16_lo(total));
    assert(b[4] == u16_hi(identification) && b[5] == u16_lo(identification));
    assert(b[6] == 64u8 && b[7] == 0u8);
    assert(b[8] == ttl && b[9] == UDP_PROTOCOL);
    lemma_be16_roundtrip(total);
    lemma_be16_roundtrip(identification);
    lemma_be16_roundtrip(ulen);
    lemma_be16_roundtrip(sp);
    lemma_be16_roundtrip(dp);
    assert(b.subrange(12, 16) =~= src);
    assert(b.subrange(16, 20) =~= dst);
    let seg = b.subrange(20, total as int);
    assert(seg =~= uh + payload);
    assert(seg[0] == u16_hi(sp) && seg[1] == u16_lo(sp));
    assert(seg[2] == u16_hi(dp) && seg[3] == u16_lo(dp));
    assert(seg[4] == u16_hi(ulen) && seg[5] == u16_lo(ulen));
    assert(seg.subrange(8, ulen as int) =~= payload);
    assert(spec_parse_udp(seg) == Some(
        UdpModel { source_port: sp, destination_port: dp, payload },
    ));
}

/// Parsing a datagram built for IPv6 recovers exactly the fields it was
/// built from, for any flow label that fits its 20-bit field.
pub proof fn lemma_parse_built_ipv6(
    src: Seq<u8>,
    sp: u16,
    dst: Seq<u8>,
    dp: u16,
    traffic_class: u8,
    flow_label: u32,
    hop_limit: u8,
    payload: Seq<u8>,
)
    requires
        src.len() == 16,
        dst.len() == 16,
        payload.len() + 8 <= 65535,
        flow_label < 1048576,
    ensures
        spec_build_ipv6(src, sp, dst, dp, traffic_class, flow_label, hop_limit, payload)
            is Some,
        spec_parse_ip(
            spec_build_ipv6(
                src,
                sp,
                dst,
                dp,
                traffic_class,
                flow_label,
                hop_limit,
                payload,
            ).unwrap(),
        ) == Some(
            PacketModel {
                header: HeaderModel::V6 {
                    source: src,
                    destination: dst,
                    traffic_class,
                    flow_label,
                    hop_limit,
                },
                udp: Some(UdpModel { source_port: sp, destination_port: dp, payload }),
            },
        ),
{
    let ulen = (payload.len() + 8) as u16;
    let uck = spec_udp_checksum(spec_udp_pseudo_v6(src, dst, sp, dp, ulen, payload));
    let hdr = spec_ipv6_header_bytes(traffic_class, flow_label, ulen, hop_limit, src, dst);
    let uh = spec_udp_header(sp, dp, ulen, uck);
    let b = hdr + uh + payload;
    assert(spec_build_ipv6(src, sp, dst, dp, traffic_class, flow_label, hop_limit, payload)
        == Some(b));
    assert(hdr.len() == 40);
    assert(b.len() == 40 + 8 + payload.len());
    let tc = traffic_class as int;
    let fl = flow_label as int;
    let b0 = b[0] as int;
    let b1 = b[1] as int;
    let b2 = b[2] as int;
    let b3 = b[3] as int;
    assert(b[0] == (96 + traffic_class / 16) as u8);
    assert(b[1] == ((traffic_class % 16) * 16 + ((flow_label / 65536) % 16) as u8) as u8);
    assert(b[2] == ((flow_label / 256) % 256) as u8);
    assert(b[3] == (flow_label % 256) as u8);
    assert(b0 / 16 == 6 && b0 % 16 == tc / 16) by (nonlinear_arith)
        requires
            b0 == 96 + tc / 16,
            0 <= tc < 256,
    ;
    assert(b1 / 16 == tc % 16 && b1 % 16 == (fl / 65536) % 16) by (nonlinear_arith)
        requires
            b1 == (tc % 16) * 16 + (fl / 65536) % 16,
            0 <= tc < 256,
            0 <= fl,
    ;
    assert((b0 % 16) * 16 + b1 / 16 == tc) by (nonlinear_arith)
        requires
            b0 % 16 == tc / 16,
            b1 / 16 == tc % 16,
            0 <= tc < 256,
    ;
    assert((fl / 65536) % 16 == fl / 65536) by (nonlinear_arith)
        requires
            0 <= fl < 1048576,
    ;
    assert((b1 % 16) * 65536 + b2 * 256 + b3 == fl) by (nonlinear_arith)
        requires
            b1 % 16 == fl / 65536,
            b2 == (fl / 256) % 256,
            b3 == fl % 256,
            0 <= fl < 1048576,
    ;
    assert(b[4] == u16_hi(ulen) && b[5] == u16_lo(ulen));
    assert(b[6] == UDP_PROTOCOL && b[7] == hop_limit);
    lemma_be16_roundtrip(ulen);
    lemma_be16_roundtrip(sp);
    lemma_be16_roundtrip(dp);
    assert(b.subrange(8, 24) =~= src);
    assert(b.subrange(24, 40) =~= dst);
    let seg = b.subrange(40, 40 + ulen as int);
    assert(seg =~= uh + payload);
    assert(seg[0] == u16_hi(sp) && seg[1] == u16_lo(sp));
    assert(seg[2] == u16_hi(dp) && seg[3] == u16_lo(dp));
    assert(seg[4] == u16_hi(ulen) && seg[5] == u16_lo(ulen));
    assert(seg.subrange(8, ulen as int) =~= payload);
    assert(spec_parse_udp(seg) == Some(
        UdpModel { source_port: sp, destination_port: dp, payload },
    ));
}

/// Round-trip addressing, IPv4: build a request from A:pa to B:pb with
/// payload P, answer it with payload R, and the answer is a packet from
/// B:pb to A:pa carrying exactly R, with the request's TTL and
/// identification preserved.
pub proof fn lemma_response_round_trip_v4(
    a: Seq<u8>,
    pa: u16,
    b: Seq<u8>,
    pb: u16,
    ttl: u8,
    identification: u16,
    p: Seq<u8>,
    r: Seq<u8>,
)
    requires
        a.len() == 4,
        b.len() == 4,
        p.len() + 28 <= 65535,
        r.len() + 28 <= 65535,
    ensures
        ({
            let request = spec_build_ipv4(a, pa, b, pb, ttl, identification, p).unwrap();
            let response = spec_build_response(request, r);
            response == spec_build_ipv4(b, pb, a, pa, ttl, identification, r)
                && response is Some && spec_parse_ip(response.unwrap()) == Some(
                PacketModel {
                    header: HeaderModel::V4 {
                        source: b,
                        destination: a,
                        time_to_live: ttl,
                        identification,
                    },
                    udp: Some(UdpModel { source_port: pb, destination_port: pa, payload: r }),
                },
            )
        }),
{
    lemma_parse_built_ipv4(a, pa, b, pb, ttl, identification, p);
    lemma_parse_built_ipv4(b, pb, a, pa, ttl, identification, r);
}

/// Round-trip addressing, IPv6: the same swap, with traffic class, flow
/// label and hop limit preserved.
pub proof fn lemma_response_round_trip_v6(
    a: Seq<u8>,
    pa: u16,
    b: Seq<u8>,
    pb: u16,
    traffic_class: u8,
    flow_label: u32,
    hop_limit: u8,
    p: Seq<u8>,
    r: Seq<u8>,
)
    requires
        a.len() == 16,
        b.len() == 16,
        p.len() + 8 <= 65535,
        r.len() + 8 <= 65535,
        flow_label < 1048576,
    ensures
        ({
            let request = spec_build_ipv6(
                a,
                pa,
                b,
                pb,
                traffic_class,
                flow_label,
                hop_limit,
                p,
            ).unwrap();
            let response = spec_build_response(request, r);
            response == spec_build_ipv6(
                b,
                pb,
                a,
                pa,
                traffic_class,
                flow_label,
                hop_limit,
                r,
            ) && response is Some && spec_parse_ip(response.unwrap()) == Some(
                PacketModel {
                    header: HeaderModel::V6 {
                        source: b,
                        destination: a,
                        traffic_class,
                        flow_label,
                        hop_limit,
                    },
                    udp: Some(UdpModel { source_port: pb, destination_port: pa, payload: r }),
                },
            )
        }),
{
    lemma_parse_built_ipv6(a, pa, b, pb, traffic_class, flow_label, hop_limit, p);
    lemma_parse_built_ipv6(b, pb, a, pa, traffic_class, flow_label, hop_limit, r);
}

} // verus!
