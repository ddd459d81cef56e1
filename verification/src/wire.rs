//! The packet as the 80 bytes that cross into the driver.
//!
//! The layout is that of a C structure on a little-endian machine: each field is aligned to its
//! size, and the gaps before a field are padding.

use vstd::prelude::*;

use crate::packet::{Packet, SmcKeyData, SmcKeyInfo, SmcPLimitData, SmcVersion};

verus! {

/// The length of a packet in bytes.
pub const PACKET_LEN: usize = 80;

/// The bytes of a 16-bit number, least significant first.
pub open spec fn le2(x: u16) -> Seq<u8> {
    seq![(x % 0x100) as u8, (x / 0x100) as u8]
}

/// The bytes of a 32-bit number, least significant first.
pub open spec fn le4(x: u32) -> Seq<u8> {
    seq![
        (x % 0x100) as u8,
        (x / 0x100 % 0x100) as u8,
        (x / 0x10000 % 0x100) as u8,
        (x / 0x1000000) as u8,
    ]
}

/// The 16-bit number at `at`.
pub open spec fn u16_at(s: Seq<u8>, at: int) -> u16 {
    (s[at] + s[at + 1] * 0x100) as u16
}

/// The 32-bit number at `at`.
pub open spec fn u32_at(s: Seq<u8>, at: int) -> u32 {
    (s[at] + s[at + 1] * 0x100 + s[at + 2] * 0x10000 + s[at + 3] * 0x1000000) as u32
}

/// The bytes of a packet, padding being zero.
pub open spec fn wire(p: Packet) -> Seq<u8> {
    le4(p.key) + seq![p.vers.major, p.vers.minor, p.vers.build, p.vers.reserved] + le2(
        p.vers.release,
    ) + seq![0u8, 0u8] + le2(p.plimit.version) + le2(p.plimit.length) + le4(p.plimit.cpu_plimit)
        + le4(p.plimit.gpu_plimit) + le4(p.plimit.mem_plimit) + le4(p.key_info.data_size) + le4(
        p.key_info.data_type,
    ) + seq![p.key_info.data_attributes, 0u8, 0u8, 0u8] + seq![p.result, p.status, p.data8, 0u8]
        + le4(p.data32) + p.bytes
}

/// The packet that the bytes hold, whatever the padding.
pub open spec fn unwire(s: Seq<u8>) -> Packet {
    Packet {
        key: u32_at(s, 0),
        vers: SmcVersion {
            major: s[4],
            minor: s[5],
            build: s[6],
            reserved: s[7],
            release: u16_at(s, 8),
        },
        plimit: SmcPLimitData {
            version: u16_at(s, 12),
            length: u16_at(s, 14),
            cpu_plimit: u32_at(s, 16),
            gpu_plimit: u32_at(s, 20),
            mem_plimit: u32_at(s, 24),
        },
        key_info: SmcKeyInfo {
            data_size: u32_at(s, 28),
            data_type: u32_at(s, 32),
            data_attributes: s[36],
        },
        result: s[40],
        status: s[41],
        data8: s[42],
        data32: u32_at(s, 44),
        bytes: s.subrange(48, 80),
    }
}

fn push_u16(out: &mut Vec<u8>, x: u16)
    ensures
        final(out)@ == old(out)@ + le2(x),
{
    out.push((x % 0x100) as u8);
    out.push((x / 0x100) as u8);
    assert(out@ =~= old(out)@ + le2(x));
}

fn push_u32(out: &mut Vec<u8>, x: u32)
    ensures
        final(out)@ == old(out)@ + le4(x),
{
    out.push((x % 0x100) as u8);
    out.push((x / 0x100 % 0x100) as u8);
    out.push((x / 0x10000 % 0x100) as u8);
    out.push((x / 0x1000000) as u8);
    assert(out@ =~= old(out)@ + le4(x));
}

fn push_4(out: &mut Vec<u8>, a: u8, b: u8, c: u8, d: u8)
    ensures
        final(out)@ == old(out)@ + seq![a, b, c, d],
{
    out.push(a);
    out.push(b);
    out.push(c);
    out.push(d);
    assert(out@ =~= old(out)@ + seq![a, b, c, d]);
}

fn get_u16(s: &[u8], at: usize) -> (r: u16)
    requires
        at + 2 <= s@.len(),
    ensures
        r == u16_at(s@, at as int),
{
    s[at] as u16 + s[at + 1] as u16 * 0x100
}

fn get_u32(s: &[u8], at: usize) -> (r: u32)
    requires
        at + 4 <= s@.len(),
    ensures
        r == u32_at(s@, at as int),
{
    s[at] as u32 + s[at + 1] as u32 * 0x100 + s[at + 2] as u32 * 0x10000 + s[at + 3] as u32
        * 0x1000000
}

/// The bytes of a packet.
pub fn to_wire(p: &SmcKeyData) -> (r: Vec<u8>)
    ensures
        r@ == wire(p@),
        r@.len() == PACKET_LEN,
{
    let mut out: Vec<u8> = Vec::new();
    push_u32(&mut out, p.key);
    push_4(&mut out, p.vers.major, p.vers.minor, p.vers.build, p.vers.reserved);
    push_u16(&mut out, p.vers.release);
    out.push(0);
    out.push(0);
    push_u16(&mut out, p.plimit.version);
    push_u16(&mut out, p.plimit.length);
    push_u32(&mut out, p.plimit.cpu_plimit);
    push_u32(&mut out, p.plimit.gpu_plimit);
    push_u32(&mut out, p.plimit.mem_plimit);
    push_u32(&mut out, p.key_info.data_size);
    push_u32(&mut out, p.key_info.data_type);
    push_4(&mut out, p.key_info.data_attributes, 0, 0, 0);
    push_4(&mut out, p.result, p.status, p.data8, 0);
    push_u32(&mut out, p.data32);
    let ghost head = out@;
    let mut i: usize = 0;
    while i < 32
        invariant
            i <= 32,
            out@ == head + p.bytes@.take(i as int),
        decreases 32 - i,
    {
        out.push(p.bytes[i]);
        assert(out@ =~= head + p.bytes@.take(i + 1));
        i = i + 1;
    }
    assert(p.bytes@.take(32) =~= p.bytes@);
    assert(out@ =~= wire(p@));
    out
}

/// The packet that the bytes hold.
pub fn from_wire(s: &[u8]) -> (r: SmcKeyData)
    requires
        s@.len() == PACKET_LEN,
    ensures
        r@ == unwire(s@),
{
    let mut bytes: [u8; 32] = [0u8; 32];
    let mut i: usize = 0;
    while i < 32
        invariant
            i <= 32,
            s@.len() == 80,
            forall|j: int| 0 <= j < i ==> bytes@[j] == s@[48 + j],
        decreases 32 - i,
    {
        bytes[i] = s[48 + i];
        i = i + 1;
    }
    assert(bytes@ =~= s@.subrange(48, 80));
    SmcKeyData {
        key: get_u32(s, 0),
        vers: SmcVersion {
            major: s[4],
            minor: s[5],
            build: s[6],
            reserved: s[7],
            release: get_u16(s, 8),
        },
        plimit: SmcPLimitData {
            version: get_u16(s, 12),
            length: get_u16(s, 14),
            cpu_plimit: get_u32(s, 16),
            gpu_plimit: get_u32(s, 20),
            mem_plimit: get_u32(s, 24),
        },
        key_info: SmcKeyInfo {
            data_size: get_u32(s, 28),
            data_type: get_u32(s, 32),
            data_attributes: s[36],
        },
        result: s[40],
        status: s[41],
        data8: s[42],
        data32: get_u32(s, 44),
        bytes,
    }
}

proof fn lemma_u16_at(s: Seq<u8>, at: int, x: u16)
    requires
        s.subrange(at, at + 2) == le2(x),
        0 <= at,
        at + 2 <= s.len(),
    ensures
        u16_at(s, at) == x,
{
    assert(s[at] == s.subrange(at, at + 2)[0]);
    assert(s[at + 1] == s.subrange(at, at + 2)[1]);
}

proof fn lemma_u32_at(s: Seq<u8>, at: int, x: u32)
    requires
        s.subrange(at, at + 4) == le4(x),
        0 <= at,
        at + 4 <= s.len(),
    ensures
        u32_at(s, at) == x,
{
    assert(s[at] == s.subrange(at, at + 4)[0]);
    assert(s[at + 1] == s.subrange(at, at + 4)[1]);
    assert(s[at + 2] == s.subrange(at, at + 4)[2]);
    assert(s[at + 3] == s.subrange(at, at + 4)[3]);
}

/// A packet is exactly 80 bytes long, and reading its bytes gives it back.
pub proof fn wire_round_trip(p: Packet)
    requires
        p.bytes.len() == 32,
    ensures
        wire(p).len() == PACKET_LEN,
        unwire(wire(p)) == p,
{
    let s = wire(p);
    assert(s.subrange(0, 4) =~= le4(p.key));
    lemma_u32_at(s, 0, p.key);
    assert(s.subrange(8, 10) =~= le2(p.vers.release));
    lemma_u16_at(s, 8, p.vers.release);
    assert(s.subrange(12, 14) =~= le2(p.plimit.version));
    lemma_u16_at(s, 12, p.plimit.version);
    assert(s.subrange(14, 16) =~= le2(p.plimit.length));
    lemma_u16_at(s, 14, p.plimit.length);
    assert(s.subrange(16, 20) =~= le4(p.plimit.cpu_plimit));
    lemma_u32_at(s, 16, p.plimit.cpu_plimit);
    assert(s.subrange(20, 24) =~= le4(p.plimit.gpu_plimit));
    lemma_u32_at(s, 20, p.plimit.gpu_plimit);
    assert(s.subrange(24, 28) =~= le4(p.plimit.mem_plimit));
    lemma_u32_at(s, 24, p.plimit.mem_plimit);
    assert(s.subrange(28, 32) =~= le4(p.key_info.data_size));
    lemma_u32_at(s, 28, p.key_info.data_size);
    assert(s.subrange(32, 36) =~= le4(p.key_info.data_type));
    lemma_u32_at(s, 32, p.key_info.data_type);
    assert(s.subrange(44, 48) =~= le4(p.data32));
    lemma_u32_at(s, 44, p.data32);
    assert(s.subrange(48, 80) =~= p.bytes);
}

/// Where each field of a packet stands in its bytes: numbers have their least significant byte
/// first, and the padding is zero.
pub proof fn wire_layout(p: Packet)
    requires
        p.bytes.len() == 32,
    ensures
        wire(p).len() == 80,
        ({
            let s = wire(p);
            &&& s[0] + s[1] * 0x100 + s[2] * 0x10000 + s[3] * 0x1000000 == p.key
            &&& s[4] == p.vers.major
            &&& s[5] == p.vers.minor
            &&& s[6] == p.vers.build
            &&& s[7] == p.vers.reserved
            &&& s[8] + s[9] * 0x100 == p.vers.release
            &&& s[12] + s[13] * 0x100 == p.plimit.version
            &&& s[14] + s[15] * 0x100 == p.plimit.length
            &&& s[16] + s[17] * 0x100 + s[18] * 0x10000 + s[19] * 0x1000000 == p.plimit.cpu_plimit
            &&& s[20] + s[21] * 0x100 + s[22] * 0x10000 + s[23] * 0x1000000 == p.plimit.gpu_plimit
            &&& s[24] + s[25] * 0x100 + s[26] * 0x10000 + s[27] * 0x1000000 == p.plimit.mem_plimit
            &&& s[28] + s[29] * 0x100 + s[30] * 0x10000 + s[31] * 0x1000000 == p.key_info.data_size
            &&& s[32] + s[33] * 0x100 + s[34] * 0x10000 + s[35] * 0x1000000 == p.key_info.data_type
            &&& s[36] == p.key_info.data_attributes
            &&& s[40] == p.result
            &&& s[41] == p.status
            &&& s[42] == p.data8
            &&& s[44] + s[45] * 0x100 + s[46] * 0x10000 + s[47] * 0x1000000 == p.data32
            &&& s[10] == 0 && s[11] == 0
            &&& s[37] == 0 && s[38] == 0 && s[39] == 0 && s[43] == 0
            &&& forall|i: int| 0 <= i < 32 ==> #[trigger] s[48 + i] == p.bytes[i]
        }),
{
    wire_round_trip(p);
    unwire_layout(wire(p));
    let s = wire(p);
    assert forall|i: int| 0 <= i < 32 implies #[trigger] s[48 + i] == p.bytes[i] by {
        assert(s.subrange(48, 80)[i] == s[48 + i]);
    }
}

/// Where each field is read from, whatever the padding.
pub proof fn unwire_layout(s: Seq<u8>)
    requires
        s.len() == 80,
    ensures
        ({
            let p = unwire(s);
            &&& p.key == s[0] + s[1] * 0x100 + s[2] * 0x10000 + s[3] * 0x1000000
            &&& p.vers.major == s[4]
            &&& p.vers.minor == s[5]
            &&& p.vers.build == s[6]
            &&& p.vers.reserved == s[7]
            &&& p.vers.release == s[8] + s[9] * 0x100
            &&& p.plimit.version == s[12] + s[13] * 0x100
            &&& p.plimit.length == s[14] + s[15] * 0x100
            &&& p.plimit.cpu_plimit == s[16] + s[17] * 0x100 + s[18] * 0x10000 + s[19] * 0x1000000
            &&& p.plimit.gpu_plimit == s[20] + s[21] * 0x100 + s[22] * 0x10000 + s[23] * 0x1000000
            &&& p.plimit.mem_plimit == s[24] + s[25] * 0x100 + s[26] * 0x10000 + s[27] * 0x1000000
            &&& p.key_info.data_size == s[28] + s[29] * 0x100 + s[30] * 0x10000 + s[31] * 0x1000000
            &&& p.key_info.data_type == s[32] + s[33] * 0x100 + s[34] * 0x10000 + s[35] * 0x1000000
            &&& p.key_info.data_attributes == s[36]
            &&& p.result == s[40]
            &&& p.status == s[41]
            &&& p.data8 == s[42]
            &&& p.data32 == s[44] + s[45] * 0x100 + s[46] * 0x10000 + s[47] * 0x1000000
            &&& p.bytes.len() == 32
            &&& forall|i: int| 0 <= i < 32 ==> #[trigger] p.bytes[i] == s[48 + i]
        }),
{
}

} // verus!
