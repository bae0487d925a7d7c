//! The receive-side scaling hash.
//!
//! The device computes a Toeplitz hash over each received packet's flow tuple under a 40-byte key
//! that the driver supplies, and reports it in the receive completion: the kind of the hash for
//! the whole completion and its value per packet. The guest steers receives across processors by
//! it.

use crate::bytes::zero_bytes;
use vstd::prelude::*;

verus! {

/// The length of the hash key in bytes. A 40-byte key covers Toeplitz inputs up to 36 bytes (the
/// IPv6 TCP/UDP 4-tuple: two 16-byte addresses plus two ports).
pub const MANA_HASH_KEY_SIZE: usize = 40;

/// Hashed over the IPv4 addresses.
pub const MANA_HASH_IPV4: u16 = 0x01;

/// Hashed over the IPv4 addresses and the TCP ports.
pub const MANA_HASH_TCP_IPV4: u16 = 0x02;

/// Hashed over the IPv4 addresses and the UDP ports.
pub const MANA_HASH_UDP_IPV4: u16 = 0x04;

/// Hashed over the IPv6 addresses.
pub const MANA_HASH_IPV6: u16 = 0x08;

/// Hashed over the IPv6 addresses and the TCP ports.
pub const MANA_HASH_TCP_IPV6: u16 = 0x10;

/// Hashed over the IPv6 addresses and the UDP ports.
pub const MANA_HASH_UDP_IPV6: u16 = 0x20;

pub const ETHERTYPE_IPV4: u16 = 0x0800;

pub const ETHERTYPE_IPV6: u16 = 0x86dd;

pub const ETHERTYPE_VLAN: u16 = 0x8100;

pub const IPPROTO_TCP: u8 = 6;

pub const IPPROTO_UDP: u8 = 17;

/// The bit at position `i` of a byte string, the most significant bit of the first byte being at
/// position 0. The bits past the end are 0.
pub open spec fn bit_at(bytes: Seq<u8>, i: nat) -> u32 {
    if i / 8 < bytes.len() {
        ((bytes[(i / 8) as int] >> ((7 - i % 8) as u8)) & 1) as u32
    } else {
        0
    }
}

/// The number whose binary digits are the `n` bits from position `i` on.
pub open spec fn bits_from(bytes: Seq<u8>, i: nat, n: nat) -> u32
    decreases n,
{
    if n == 0 {
        0
    } else {
        (bits_from(bytes, i, (n - 1) as nat) << 1u32) | bit_at(bytes, (i + n - 1) as nat)
    }
}

/// The sum, without carries, of the 32-bit windows of the key at the positions of the 1 bits among
/// the first `n` bits of the input.
pub open spec fn toeplitz_bits(key: Seq<u8>, input: Seq<u8>, n: nat) -> u32
    decreases n,
{
    if n == 0 {
        0
    } else {
        let before = toeplitz_bits(key, input, (n - 1) as nat);
        if bit_at(input, (n - 1) as nat) == 1 {
            before ^ bits_from(key, (n - 1) as nat, 32)
        } else {
            before
        }
    }
}

/// The Toeplitz hash of `input` under `key`.
pub open spec fn toeplitz(key: Seq<u8>, input: Seq<u8>) -> u32 {
    toeplitz_bits(key, input, 8 * input.len())
}

proof fn bit_is_zero_or_one(bytes: Seq<u8>, i: nat)
    ensures
        bit_at(bytes, i) == 0 || bit_at(bytes, i) == 1,
{
    if i / 8 < bytes.len() {
        let byte = bytes[(i / 8) as int];
        let shift = (7 - i % 8) as u8;
        assert((byte >> shift) & 1 == 0 || (byte >> shift) & 1 == 1) by (bit_vector);
    }
}

/// Taking the first bit off the front of a window.
proof fn window_without_its_first_bit(bytes: Seq<u8>, i: nat, n: nat)
    requires
        n < 32,
    ensures
        bits_from(bytes, i, n + 1) == (bit_at(bytes, i) << (n as u32)) | bits_from(
            bytes,
            i + 1,
            n,
        ),
    decreases n,
{
    let first = bit_at(bytes, i);
    if n == 0 {
        assert(bits_from(bytes, i, 1) == (bits_from(bytes, i, 0) << 1u32) | first);
        assert(bits_from(bytes, i + 1, 0) == 0);
        assert((0u32 << 1u32) | first == (first << 0u32) | 0) by (bit_vector);
    } else {
        window_without_its_first_bit(bytes, i, (n - 1) as nat);
        let rest = bits_from(bytes, i + 1, (n - 1) as nat);
        let last = bit_at(bytes, i + n);
        let m = n as u32;
        let k = (n - 1) as u32;
        assert((((first << k) | rest) << 1u32) | last == (first << m) | ((rest << 1u32) | last))
            by (bit_vector)
            requires
                m == k + 1,
                m < 32,
        ;
        assert(bits_from(bytes, i, n + 1) == (bits_from(bytes, i, n) << 1u32) | last);
        assert(bits_from(bytes, i + 1, n) == (rest << 1u32) | last);
    }
}

/// The window one position further on.
proof fn window_slides(bytes: Seq<u8>, i: nat)
    ensures
        bits_from(bytes, i + 1, 32) == (bits_from(bytes, i, 32) << 1u32) | bit_at(bytes, i + 32),
{
    window_without_its_first_bit(bytes, i, 31);
    bit_is_zero_or_one(bytes, i);
    let first = bit_at(bytes, i);
    let rest = bits_from(bytes, i + 1, 31);
    let last = bit_at(bytes, i + 32);
    assert(bits_from(bytes, i + 1, 32) == (rest << 1u32) | last);
    assert((((first << 31u32) | rest) << 1u32) | last == (rest << 1u32) | last) by (bit_vector);
}

/// A number with one bit of a byte appended.
spec fn with_bit(w: u32, byte: u8, shift: u8) -> u32 {
    (w << 1u32) | (((byte >> shift) & 1) as u32)
}

/// Eight bits that start at a byte boundary append that byte.
proof fn window_takes_a_byte(bytes: Seq<u8>, n: nat)
    requires
        n % 8 == 0,
        n / 8 < bytes.len(),
    ensures
        bits_from(bytes, 0, n + 8) == (bits_from(bytes, 0, n) << 8u32) | (bytes[(n / 8) as int]
            as u32),
{
    let w = bits_from(bytes, 0, n);
    let b = bytes[(n / 8) as int];
    reveal_with_fuel(bits_from, 9);
    assert(with_bit(
        with_bit(
            with_bit(
                with_bit(with_bit(with_bit(with_bit(with_bit(w, b, 7), b, 6), b, 5), b, 4), b, 3),
                b,
                2,
            ),
            b,
            1,
        ),
        b,
        0,
    ) == (w << 8u32) | (b as u32)) by (bit_vector);
}

/// The first window is the first four bytes, most significant first.
proof fn first_window(bytes: Seq<u8>)
    requires
        bytes.len() >= 4,
    ensures
        bits_from(bytes, 0, 32) == bytes[0] as u32 * 0x100_0000 + bytes[1] as u32 * 0x1_0000
            + bytes[2] as u32 * 0x100 + bytes[3] as u32,
{
    window_takes_a_byte(bytes, 0);
    window_takes_a_byte(bytes, 8);
    window_takes_a_byte(bytes, 16);
    window_takes_a_byte(bytes, 24);
    let b0 = bytes[0] as u32;
    let b1 = bytes[1] as u32;
    let b2 = bytes[2] as u32;
    let b3 = bytes[3] as u32;
    assert((((((((0u32 << 8u32) | b0) << 8u32) | b1) << 8u32) | b2) << 8u32) | b3 == b0
        * 0x100_0000 + b1 * 0x1_0000 + b2 * 0x100 + b3) by (bit_vector)
        requires
            b0 < 256,
            b1 < 256,
            b2 < 256,
            b3 < 256,
    ;
}

/// Computes the Toeplitz hash of `input` under `key`.
///
/// The key is treated as a big-endian bit stream. Processing the input most significant bit first,
/// for every 1 bit the 32-bit key window aligned to that bit position is XORed into the running
/// result.
pub fn toeplitz_hash(key: &[u8], input: &[u8]) -> (ret: u32)
    requires
        key@.len() >= 4,
        8 * input@.len() + 32 <= usize::MAX,
    ensures
        ret == toeplitz(key@, input@),
{
    // The 32 key bits aligned with the current input bit, which starts as key bits 0..32.
    let mut window: u32 = key[0] as u32 * 0x100_0000 + key[1] as u32 * 0x1_0000 + key[2] as u32
        * 0x100 + key[3] as u32;
    proof {
        first_window(key@);
    }
    let mut result: u32 = 0;
    let mut byte_index: usize = 0;
    while byte_index < input.len()
        invariant
            byte_index <= input@.len(),
            key@.len() >= 4,
            8 * input@.len() + 32 <= usize::MAX,
            window == bits_from(key@, 8 * byte_index as nat, 32),
            result == toeplitz_bits(key@, input@, 8 * byte_index as nat),
        decreases input@.len() - byte_index,
    {
        let byte: u8 = input[byte_index];
        let mut bit: usize = 0;
        while bit < 8
            invariant
                bit <= 8,
                byte_index < input@.len(),
                byte == input@[byte_index as int],
                8 * input@.len() + 32 <= usize::MAX,
                window == bits_from(key@, (8 * byte_index + bit) as nat, 32),
                result == toeplitz_bits(key@, input@, (8 * byte_index + bit) as nat),
            decreases 8 - bit,
        {
            let ghost at = (8 * byte_index + bit) as nat;
            let shift: u8 = (7 - bit) as u8;
            proof {
                assert(at / 8 == byte_index && at % 8 == bit);
                bit_is_zero_or_one(input@, at);
            }
            if (byte >> shift) & 1 == 1 {
                result = result ^ window;
            }
            // Shift the window left by one, bringing in the key bit that follows it. Bits past
            // the end of the key are 0.
            let next_index: usize = byte_index * 8 + bit + 32;
            let next_bit: u8 = if next_index / 8 < key.len() {
                let next_shift: u8 = (7 - next_index % 8) as u8;
                (key[next_index / 8] >> next_shift) & 1
            } else {
                0
            };
            proof {
                window_slides(key@, at);
                assert(next_bit as u32 == bit_at(key@, at + 32));
            }
            window = (window << 1u32) | next_bit as u32;
            bit = bit + 1;
        }
        byte_index = byte_index + 1;
    }
    result
}

/// The 16-bit number at position `i`, most significant byte first.
pub open spec fn be16_at(bytes: Seq<u8>, i: int) -> int {
    bytes[i] as int * 256 + bytes[i + 1] as int
}

/// Where the network header of a frame starts, and its type: behind the Ethernet header, and
/// behind one VLAN tag where there is one.
pub open spec fn network_header(frame: Seq<u8>) -> Option<(int, int)> {
    if frame.len() < 14 {
        None
    } else if be16_at(frame, 12) != ETHERTYPE_VLAN {
        Some((be16_at(frame, 12), 14))
    } else if frame.len() < 18 {
        None
    } else {
        Some((be16_at(frame, 16), 18))
    }
}

/// The kind of hash that a protocol's ports take part in.
pub open spec fn l4_hashtype(protocol: u8, tcp_type: u16, udp_type: u16) -> Option<u16> {
    if protocol == IPPROTO_TCP {
        Some(tcp_type)
    } else if protocol == IPPROTO_UDP {
        Some(udp_type)
    } else {
        None
    }
}

/// The kind of hash of a flow, and the bytes that are hashed: the addresses, and the ports that
/// follow at `l4` for TCP and UDP if the frame reaches that far.
pub open spec fn flow(
    frame: Seq<u8>,
    addresses: Seq<u8>,
    l3_type: u16,
    l4: int,
    l4_type: Option<u16>,
) -> (u16, Seq<u8>) {
    if l4_type is Some && l4 + 4 <= frame.len() {
        (l4_type->0, addresses + frame.subrange(l4, l4 + 4))
    } else {
        (l3_type, addresses)
    }
}

/// The flow of an IPv4 packet whose header starts at `off`. A fragment (nonzero fragment offset,
/// or more fragments to come) is hashed on the addresses alone, because the ports live in the
/// first fragment only.
pub open spec fn ipv4_flow(frame: Seq<u8>, off: int) -> Option<(u16, Seq<u8>)> {
    if frame.len() <= off {
        None
    } else {
        let ihl = (frame[off] % 16) * 4;
        if ihl < 20 || frame.len() < off + ihl {
            None
        } else {
            let fragment = be16_at(frame, off + 6) % 0x4000 != 0;
            let l4_type = if fragment {
                None
            } else {
                l4_hashtype(frame[off + 9], MANA_HASH_TCP_IPV4, MANA_HASH_UDP_IPV4)
            };
            Some(
                flow(
                    frame,
                    frame.subrange(off + 12, off + 20),
                    MANA_HASH_IPV4,
                    off + ihl,
                    l4_type,
                ),
            )
        }
    }
}

/// The flow of an IPv6 packet whose header starts at `off`. Ports take part only where the fixed
/// header is immediately followed by a TCP or UDP header.
pub open spec fn ipv6_flow(frame: Seq<u8>, off: int) -> Option<(u16, Seq<u8>)> {
    if frame.len() < off + 40 {
        None
    } else {
        Some(
            flow(
                frame,
                frame.subrange(off + 8, off + 40),
                MANA_HASH_IPV6,
                off + 40,
                l4_hashtype(frame[off + 6], MANA_HASH_TCP_IPV6, MANA_HASH_UDP_IPV6),
            ),
        )
    }
}

/// The kind of hash of a frame and the bytes that are hashed; `None` for a frame that is not IP or
/// whose headers are malformed or cut short.
pub open spec fn frame_flow(frame: Seq<u8>) -> Option<(u16, Seq<u8>)> {
    match network_header(frame) {
        None => None,
        Some((ethertype, off)) => if ethertype == ETHERTYPE_IPV4 {
            ipv4_flow(frame, off)
        } else if ethertype == ETHERTYPE_IPV6 {
            ipv6_flow(frame, off)
        } else {
            None
        },
    }
}

/// What the device reports of a frame: the kind of its hash and the hash value.
pub open spec fn rx_hash(frame: Seq<u8>, key: Seq<u8>) -> Option<(u16, u32)> {
    match frame_flow(frame) {
        None => None,
        Some((hashtype, input)) => Some((hashtype, toeplitz(key, input))),
    }
}

/// Appends the bytes `from .. to` of a packet.
fn append_bytes(input: &mut Vec<u8>, packet: &[u8], from: usize, to: usize)
    requires
        from <= to <= packet@.len(),
    ensures
        final(input)@ == old(input)@ + packet@.subrange(from as int, to as int),
{
    let mut i: usize = from;
    while i < to
        invariant
            from <= i <= to <= packet@.len(),
            input@ =~= old(input)@ + packet@.subrange(from as int, i as int),
        decreases to - i,
    {
        input.push(packet[i]);
        i = i + 1;
    }
}

/// Hashes the addresses, and the ports that follow at `l4` where they take part.
fn hash_flow(
    packet: &[u8],
    addresses: usize,
    addresses_end: usize,
    l3_type: u16,
    l4: usize,
    l4_type: Option<u16>,
    key: &[u8],
) -> (ret: (u16, u32))
    requires
        key@.len() >= 4,
        addresses <= addresses_end <= packet@.len(),
        addresses_end - addresses <= 32,
        l4 <= packet@.len(),
    ensures
        ({
            let (hashtype, input) = flow(
                packet@,
                packet@.subrange(addresses as int, addresses_end as int),
                l3_type,
                l4 as int,
                l4_type,
            );
            ret == (hashtype, toeplitz(key@, input))
        }),
{
    let mut input: Vec<u8> = Vec::new();
    append_bytes(&mut input, packet, addresses, addresses_end);
    assert(input@ =~= packet@.subrange(addresses as int, addresses_end as int));
    if let Some(hashtype) = l4_type {
        if packet.len() - l4 >= 4 {
            append_bytes(&mut input, packet, l4, l4 + 4);
            return (hashtype, toeplitz_hash(key, input.as_slice()));
        }
    }
    (l3_type, toeplitz_hash(key, input.as_slice()))
}

fn l4_ports(protocol: u8, tcp_type: u16, udp_type: u16) -> (ret: Option<u16>)
    ensures
        ret == l4_hashtype(protocol, tcp_type, udp_type),
{
    if protocol == IPPROTO_TCP {
        Some(tcp_type)
    } else if protocol == IPPROTO_UDP {
        Some(udp_type)
    } else {
        None
    }
}

fn be16(bytes: &[u8], i: usize) -> (ret: u16)
    requires
        i + 1 < bytes@.len(),
    ensures
        ret == be16_at(bytes@, i as int),
{
    bytes[i] as u16 * 256 + bytes[i + 1] as u16
}

fn hash_ipv4(packet: &[u8], off: usize, key: &[u8]) -> (ret: Option<(u16, u32)>)
    requires
        key@.len() >= 4,
    ensures
        ret == match ipv4_flow(packet@, off as int) {
            None => None,
            Some((hashtype, input)) => Some((hashtype, toeplitz(key@, input))),
        },
{
    if packet.len() <= off {
        return None;
    }
    let ihl: usize = (packet[off] % 16) as usize * 4;
    if ihl < 20 || packet.len() - off < ihl {
        return None;
    }
    let protocol: u8 = packet[off + 9];
    let is_fragment = be16(packet, off + 6) % 0x4000 != 0;
    let l4_type = if is_fragment {
        None
    } else {
        l4_ports(protocol, MANA_HASH_TCP_IPV4, MANA_HASH_UDP_IPV4)
    };
    Some(hash_flow(packet, off + 12, off + 20, MANA_HASH_IPV4, off + ihl, l4_type, key))
}

fn hash_ipv6(packet: &[u8], off: usize, key: &[u8]) -> (ret: Option<(u16, u32)>)
    requires
        key@.len() >= 4,
    ensures
        ret == match ipv6_flow(packet@, off as int) {
            None => None,
            Some((hashtype, input)) => Some((hashtype, toeplitz(key@, input))),
        },
{
    if packet.len() <= off || packet.len() - off < 40 {
        return None;
    }
    let l4_type = l4_ports(packet[off + 6], MANA_HASH_TCP_IPV6, MANA_HASH_UDP_IPV6);
    Some(hash_flow(packet, off + 8, off + 40, MANA_HASH_IPV6, off + 40, l4_type, key))
}

/// Parses `packet` (a full Ethernet frame) and computes its hash under `key`, returning the kind
/// and the value that the device reports in the receive completion.
///
/// Returns `None` for packets the device does not hash (non-IP frames, or frames whose headers are
/// malformed or truncated), of which the completion reports a zero kind.
pub fn compute_rx_hash(packet: &[u8], key: &[u8; MANA_HASH_KEY_SIZE]) -> (ret: Option<(u16, u32)>)
    ensures
        ret == rx_hash(packet@, key@),
{
    if packet.len() < 14 {
        return None;
    }
    // Ethernet header: destination address (6) + source address (6) + ethertype (2).
    let mut off: usize = 14;
    let mut ethertype: u16 = be16(packet, 12);
    // Skip a single VLAN tag if present.
    if ethertype == ETHERTYPE_VLAN {
        if packet.len() < 18 {
            return None;
        }
        ethertype = be16(packet, 16);
        off = 18;
    }
    if ethertype == ETHERTYPE_IPV4 {
        hash_ipv4(packet, off, key.as_slice())
    } else if ethertype == ETHERTYPE_IPV6 {
        hash_ipv6(packet, off, key.as_slice())
    } else {
        None
    }
}

/// A frame with a VLAN tag put in behind its addresses.
pub open spec fn with_vlan_tag(frame: Seq<u8>, tci: (u8, u8)) -> Seq<u8> {
    frame.subrange(0, 12) + seq![0x81u8, 0x00u8, tci.0, tci.1] + frame.subrange(
        12,
        frame.len() as int,
    )
}

/// A VLAN tag does not change the hash of a frame that had none.
pub proof fn vlan_tag_does_not_change_the_hash(frame: Seq<u8>, tci: (u8, u8), key: Seq<u8>)
    requires
        frame.len() >= 14,
        be16_at(frame, 12) != ETHERTYPE_VLAN,
    ensures
        rx_hash(with_vlan_tag(frame, tci), key) == rx_hash(frame, key),
{
    let tagged = with_vlan_tag(frame, tci);
    assert(be16_at(tagged, 12) == ETHERTYPE_VLAN);
    assert(be16_at(tagged, 16) == be16_at(frame, 12));
    assert forall|from: int, to: int| 14 <= from <= to <= frame.len() implies #[trigger]
        frame.subrange(from, to) =~= tagged.subrange(from + 4, to + 4) by {}
    assert forall|i: int| 14 <= i < frame.len() implies #[trigger] frame[i] == tagged[i + 4] by {}
}

/// Two inputs of one length, added without carries.
pub open spec fn xor_bytes(a: Seq<u8>, b: Seq<u8>) -> Seq<u8> {
    Seq::new(a.len(), |i: int| a[i] ^ b[i])
}

/// The bits of two inputs add up.
proof fn bits_add_up(a: Seq<u8>, b: Seq<u8>, i: nat)
    requires
        a.len() == b.len(),
    ensures
        bit_at(xor_bytes(a, b), i) == bit_at(a, i) ^ bit_at(b, i),
{
    if i / 8 < a.len() {
        let x = a[(i / 8) as int];
        let y = b[(i / 8) as int];
        let shift = (7 - i % 8) as u8;
        assert((((x ^ y) >> shift) & 1) as u32 == (((x >> shift) & 1) as u32) ^ (((y >> shift) & 1)
            as u32)) by (bit_vector);
    } else {
        assert(0u32 ^ 0u32 == 0) by (bit_vector);
    }
}

/// The windows of the first `n` bits of two inputs add up.
proof fn toeplitz_bits_add_up(key: Seq<u8>, a: Seq<u8>, b: Seq<u8>, n: nat)
    requires
        a.len() == b.len(),
    ensures
        toeplitz_bits(key, xor_bytes(a, b), n) == toeplitz_bits(key, a, n) ^ toeplitz_bits(
            key,
            b,
            n,
        ),
    decreases n,
{
    if n == 0 {
        assert(0u32 ^ 0u32 == 0) by (bit_vector);
    } else {
        let last = (n - 1) as nat;
        toeplitz_bits_add_up(key, a, b, last);
        bits_add_up(a, b, last);
        bit_is_zero_or_one(a, last);
        bit_is_zero_or_one(b, last);
        let p = toeplitz_bits(key, a, last);
        let q = toeplitz_bits(key, b, last);
        let w = bits_from(key, last, 32);
        assert(0u32 ^ 0u32 == 0 && 1u32 ^ 0u32 == 1 && 0u32 ^ 1u32 == 1 && 1u32 ^ 1u32 == 0)
            by (bit_vector);
        assert((p ^ q) ^ w == (p ^ w) ^ q && (p ^ q) ^ w == p ^ (q ^ w) && p ^ q == (p ^ w) ^ (q
            ^ w)) by (bit_vector);
    }
}

/// The hash is linear in its input: the hash of two inputs of one length, added without carries,
/// is the sum without carries of their hashes.
pub proof fn toeplitz_is_linear(key: Seq<u8>, a: Seq<u8>, b: Seq<u8>)
    requires
        a.len() == b.len(),
    ensures
        toeplitz(key, xor_bytes(a, b)) == toeplitz(key, a) ^ toeplitz(key, b),
{
    toeplitz_bits_add_up(key, a, b, 8 * a.len());
}

/// Zero bytes behind an input leave the windows that are added as they are.
proof fn toeplitz_bits_without_zeroes(key: Seq<u8>, a: Seq<u8>, zeroes: nat, n: nat)
    ensures
        toeplitz_bits(key, a + zero_bytes(zeroes), n) == toeplitz_bits(
            key,
            a,
            if n <= 8 * a.len() {
                n
            } else {
                8 * a.len()
            },
        ),
    decreases n,
{
    if n > 0 {
        let last = (n - 1) as nat;
        toeplitz_bits_without_zeroes(key, a, zeroes, last);
        let shift = (7 - last % 8) as u8;
        assert((0u8 >> shift) & 1 == 0) by (bit_vector);
    }
}

/// Zero bytes behind an input do not change its hash.
pub proof fn trailing_zeroes_do_not_change_the_hash(key: Seq<u8>, a: Seq<u8>, zeroes: nat)
    ensures
        toeplitz(key, a + zero_bytes(zeroes)) == toeplitz(key, a),
{
    toeplitz_bits_without_zeroes(key, a, zeroes, 8 * (a.len() + zeroes));
}

/// Two frames of one flow have one hash: the value depends on the addresses, the ports and the
/// kind of hash alone, and not on the rest of the frame.
pub proof fn one_flow_has_one_hash(a: Seq<u8>, b: Seq<u8>, key: Seq<u8>)
    requires
        frame_flow(a) == frame_flow(b),
    ensures
        rx_hash(a, key) == rx_hash(b, key),
{
}

/// Where an IPv6 packet starts in a frame, and what is hashed of it: behind an Ethernet header
/// without a tag, a TCP or UDP packet with its ports is hashed on the bytes of the two addresses
/// and on the four bytes behind the fixed header, and any other packet on the addresses alone. A
/// packet without its fixed header is not hashed.
pub proof fn ipv6_frames_are_hashed_on_their_flow(frame: Seq<u8>)
    requires
        frame.len() >= 14,
        frame[12] == 0x86 && frame[13] == 0xdd,
    ensures
        ({
            let tcp = frame[20] == 6;
            let udp = frame[20] == 17;
            &&& frame.len() < 54 ==> frame_flow(frame) is None
            &&& frame.len() >= 58 && tcp ==> frame_flow(frame) == Some(
                (0x10u16, frame.subrange(22, 58)),
            )
            &&& frame.len() >= 58 && udp ==> frame_flow(frame) == Some(
                (0x20u16, frame.subrange(22, 58)),
            )
            &&& frame.len() >= 54 && (frame.len() < 58 || !tcp && !udp) ==> frame_flow(frame)
                == Some((0x08u16, frame.subrange(22, 54)))
        }),
{
    if frame.len() >= 58 {
        assert(frame.subrange(22, 54) + frame.subrange(54, 58) =~= frame.subrange(22, 58));
    }
}

/// The same of a packet whose fixed header starts at any offset of a frame.
pub proof fn ipv6_packet_is_hashed_on_its_flow(frame: Seq<u8>, off: int)
    requires
        0 <= off,
        off + 44 <= frame.len(),
        frame[off + 6] == 6 || frame[off + 6] == 17,
    ensures
        ipv6_flow(frame, off) matches Some((hashtype, input)) && input == frame.subrange(
            off + 8,
            off + 44,
        ) && hashtype == if frame[off + 6] == 6 {
            0x10int
        } else {
            0x20
        },
{
    assert(frame.subrange(off + 8, off + 40) + frame.subrange(off + 40, off + 44)
        =~= frame.subrange(off + 8, off + 44));
}

/// What is hashed of an IPv4 packet behind an Ethernet header without a tag: the two addresses,
/// and, for a TCP or UDP packet that is no fragment, the four bytes behind its header, options
/// included, where the frame has them. A packet whose header is shorter than 20 bytes, or is not
/// all there, is not hashed.
pub proof fn ipv4_frames_are_hashed_on_their_flow(frame: Seq<u8>)
    requires
        frame.len() >= 14,
        frame[12] == 0x08 && frame[13] == 0x00,
    ensures
        ({
            let header = 4 * (frame[14] % 16);
            let whole = frame.len() > 14 && header >= 20 && 14 + header <= frame.len();
            let fragment = frame[20] % 64 != 0 || frame[21] != 0;
            let ports = !fragment && 14 + header + 4 <= frame.len();
            let tcp = frame[23] == 6;
            let udp = frame[23] == 17;
            let addresses = frame.subrange(26, 34);
            let behind = frame.subrange(14 + header, 14 + header + 4);
            &&& !whole ==> frame_flow(frame) is None
            &&& whole && ports && tcp ==> frame_flow(frame) == Some((0x02u16, addresses + behind))
            &&& whole && ports && udp ==> frame_flow(frame) == Some((0x04u16, addresses + behind))
            &&& whole && (!ports || !tcp && !udp) ==> frame_flow(frame) == Some(
                (0x01u16, addresses),
            )
        }),
{
}

/// Nothing but IP is hashed.
pub proof fn other_frames_are_not_hashed(frame: Seq<u8>)
    requires
        frame.len() < 14 || !(frame[12] == 0x08 && frame[13] == 0x00 || frame[12] == 0x86
            && frame[13] == 0xdd || frame[12] == 0x81 && frame[13] == 0x00),
    ensures
        frame_flow(frame) is None,
{
}

/// What a frame is hashed on is what the reported value is the hash of.
pub proof fn reported_hash_is_that_of_the_flow(frame: Seq<u8>, key: Seq<u8>)
    ensures
        rx_hash(frame, key) is Some <==> frame_flow(frame) is Some,
        frame_flow(frame) matches Some((hashtype, input)) ==> rx_hash(frame, key) == Some(
            (hashtype, toeplitz(key, input)),
        ),
{
}

/// Two IPv6 TCP or UDP frames that agree on the protocol, the addresses and the ports have one
/// hash, whatever their lengths, hop limits and payloads.
pub proof fn ipv6_flow_has_one_hash(a: Seq<u8>, b: Seq<u8>, key: Seq<u8>)
    requires
        a.len() >= 58,
        b.len() >= 58,
        a[12] == 0x86 && a[13] == 0xdd && b[12] == 0x86 && b[13] == 0xdd,
        a[20] == b[20],
        a[20] == 6 || a[20] == 17,
        a.subrange(22, 58) == b.subrange(22, 58),
    ensures
        rx_hash(a, key) is Some,
        rx_hash(a, key) == rx_hash(b, key),
{
    ipv6_frames_are_hashed_on_their_flow(a);
    ipv6_frames_are_hashed_on_their_flow(b);
}

/// Two IPv4 TCP or UDP frames without options that are no fragments and agree on the protocol, the
/// addresses and the ports have one hash, whatever their lengths, times to live and payloads.
pub proof fn ipv4_flow_has_one_hash(a: Seq<u8>, b: Seq<u8>, key: Seq<u8>)
    requires
        a.len() >= 38,
        b.len() >= 38,
        a[12] == 0x08 && a[13] == 0x00 && b[12] == 0x08 && b[13] == 0x00,
        a[14] == 0x45 && b[14] == 0x45,
        a[20] % 64 == 0 && a[21] == 0 && b[20] % 64 == 0 && b[21] == 0,
        a[23] == b[23],
        a[23] == 6 || a[23] == 17,
        a.subrange(26, 38) == b.subrange(26, 38),
    ensures
        rx_hash(a, key) is Some,
        rx_hash(a, key) == rx_hash(b, key),
{
    ipv4_frames_are_hashed_on_their_flow(a);
    ipv4_frames_are_hashed_on_their_flow(b);
    assert(a.subrange(26, 34) =~= a.subrange(26, 38).take(8));
    assert(b.subrange(26, 34) =~= b.subrange(26, 38).take(8));
    assert(a.subrange(34, 38) =~= a.subrange(26, 38).skip(8));
    assert(b.subrange(34, 38) =~= b.subrange(26, 38).skip(8));
}

/// The bits of a byte string are the binary digits of its bytes, the most significant one of the
/// first byte first, with nothing but zeroes behind them.
pub proof fn bits_are_the_digits_of_the_bytes(bytes: Seq<u8>, k: nat)
    ensures
        k < bytes.len() ==> bytes[k as int] == 128 * bit_at(bytes, 8 * k) + 64 * bit_at(
            bytes,
            8 * k + 1,
        ) + 32 * bit_at(bytes, 8 * k + 2) + 16 * bit_at(bytes, 8 * k + 3) + 8 * bit_at(
            bytes,
            8 * k + 4,
        ) + 4 * bit_at(bytes, 8 * k + 5) + 2 * bit_at(bytes, 8 * k + 6) + bit_at(bytes, 8 * k + 7),
        k >= bytes.len() ==> bit_at(bytes, 8 * k) == 0 && bit_at(bytes, 8 * k + 7) == 0,
        bit_at(bytes, k) <= 1,
{
    bit_is_zero_or_one(bytes, k);
    if k < bytes.len() {
        let b = bytes[k as int];
        assert(b == 128 * ((b >> 7u8) & 1) + 64 * ((b >> 6u8) & 1) + 32 * ((b >> 5u8) & 1) + 16 * ((b
            >> 4u8) & 1) + 8 * ((b >> 3u8) & 1) + 4 * ((b >> 2u8) & 1) + 2 * ((b >> 1u8) & 1) + ((b
            >> 0u8) & 1)) by (bit_vector);
        assert((8 * k + 1) / 8 == k && (8 * k + 7) / 8 == k && (8 * k) / 8 == k);
    }
}

/// A byte string that is zero but for the bit at one position.
pub open spec fn one_bit(len: nat, i: nat) -> Seq<u8> {
    Seq::new(
        len,
        |k: int|
            if k == i / 8 {
                (0x80u8 >> ((i % 8) as u8))
            } else {
                0
            },
    )
}

proof fn one_bit_is_alone(len: nat, i: nat, k: nat)
    requires
        i < 8 * len,
    ensures
        bit_at(one_bit(len, i), k) == if k == i {
            1u32
        } else {
            0
        },
{
    let at = (i % 8) as u8;
    let shift = (7 - k % 8) as u8;
    assert(((0x80u8 >> at) >> shift) & 1 == if shift == 7 - at {
        1u8
    } else {
        0
    }) by (bit_vector)
        requires
            at < 8,
            shift < 8,
    ;
    assert((0u8 >> shift) & 1 == 0) by (bit_vector);
}

proof fn one_bit_adds_one_window(key: Seq<u8>, len: nat, i: nat, n: nat)
    requires
        i < 8 * len,
    ensures
        toeplitz_bits(key, one_bit(len, i), n) == if n > i {
            bits_from(key, i, 32)
        } else {
            0
        },
    decreases n,
{
    if n > 0 {
        one_bit_adds_one_window(key, len, i, (n - 1) as nat);
        one_bit_is_alone(len, i, (n - 1) as nat);
        let w = bits_from(key, (n - 1) as nat, 32);
        assert(0u32 ^ w == w) by (bit_vector);
    }
}

proof fn digit_of_a_window(bytes: Seq<u8>, i: nat, n: nat, j: nat)
    requires
        j < n <= 32,
    ensures
        (bits_from(bytes, i, n) >> ((n - 1 - j) as u32)) & 1 == bit_at(bytes, i + j),
    decreases n,
{
    let before = bits_from(bytes, i, (n - 1) as nat);
    let last = bit_at(bytes, (i + n - 1) as nat);
    bit_is_zero_or_one(bytes, (i + n - 1) as nat);
    let shift = (n - 1 - j) as u32;
    if j == n - 1 {
        assert((((before << 1u32) | last) >> 0u32) & 1 == last) by (bit_vector)
            requires
                last <= 1,
        ;
    } else {
        digit_of_a_window(bytes, i, (n - 1) as nat, j);
        let less = (n - 2 - j) as u32;
        assert((((before << 1u32) | last) >> shift) & 1 == (before >> less) & 1) by (bit_vector)
            requires
                last <= 1,
                shift == less + 1,
                shift < 32,
        ;
    }
}

/// An input with a single bit has the 32 bits of the key from that bit's position on as its hash:
/// digit `j` of the hash, counted from the most significant one, is bit `i + j` of the key. As the
/// hash is linear, this says what the hash of any input is.
pub proof fn one_bit_hashes_to_its_window(key: Seq<u8>, len: nat, i: nat, j: nat)
    requires
        i < 8 * len,
        j < 32,
    ensures
        (toeplitz(key, one_bit(len, i)) >> ((31 - j) as u32)) & 1 == bit_at(key, i + j),
{
    one_bit_adds_one_window(key, len, i, 8 * len);
    digit_of_a_window(key, i, 32, j);
}

} // verus!
