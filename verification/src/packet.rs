//! The request and response packet of the SMC driver.

use vstd::prelude::*;

verus! {

/// Selector of the user-client method that carries a packet.
pub const KERNEL_INDEX_SMC: u32 = 2;

/// Command: read the bytes of a key.
pub const SMC_CMD_READ_BYTES: u8 = 5;

/// Command: read the key at an index.
pub const SMC_CMD_READ_INDEX: u8 = 8;

/// Command: read the size and type of a key.
pub const SMC_CMD_READ_KEYINFO: u8 = 9;

/// Version field of a packet.
#[derive(Clone, Copy, Debug, PartialEq, Eq)]
pub struct SmcVersion {
    pub major: u8,
    pub minor: u8,
    pub build: u8,
    pub reserved: u8,
    pub release: u16,
}

/// Power-limit field of a packet.
#[derive(Clone, Copy, Debug, PartialEq, Eq)]
pub struct SmcPLimitData {
    pub version: u16,
    pub length: u16,
    pub cpu_plimit: u32,
    pub gpu_plimit: u32,
    pub mem_plimit: u32,
}

/// Size, type and attributes of a key's value.
#[derive(Clone, Copy, Debug, PartialEq, Eq)]
pub struct SmcKeyInfo {
    pub data_size: u32,
    pub data_type: u32,
    pub data_attributes: u8,
}

/// The packet that the SMC driver takes and gives back.
#[derive(Clone, Copy, Debug, PartialEq, Eq)]
pub struct SmcKeyData {
    pub key: u32,
    pub vers: SmcVersion,
    pub plimit: SmcPLimitData,
    pub key_info: SmcKeyInfo,
    pub result: u8,
    pub status: u8,
    pub data8: u8,
    pub data32: u32,
    pub bytes: [u8; 32],
}

/// A packet with its payload as a sequence.
#[verifier::ext_equal]
pub struct Packet {
    pub key: u32,
    pub vers: SmcVersion,
    pub plimit: SmcPLimitData,
    pub key_info: SmcKeyInfo,
    pub result: u8,
    pub status: u8,
    pub data8: u8,
    pub data32: u32,
    pub bytes: Seq<u8>,
}

impl View for SmcKeyData {
    type V = Packet;

    open spec fn view(&self) -> Packet {
        Packet {
            key: self.key,
            vers: self.vers,
            plimit: self.plimit,
            key_info: self.key_info,
            result: self.result,
            status: self.status,
            data8: self.data8,
            data32: self.data32,
            bytes: self.bytes@,
        }
    }
}

/// The packet in which every field is zero.
pub open spec fn zero_packet() -> Packet {
    Packet {
        key: 0,
        vers: SmcVersion { major: 0, minor: 0, build: 0, reserved: 0, release: 0 },
        plimit: SmcPLimitData {
            version: 0,
            length: 0,
            cpu_plimit: 0,
            gpu_plimit: 0,
            mem_plimit: 0,
        },
        key_info: SmcKeyInfo { data_size: 0, data_type: 0, data_attributes: 0 },
        result: 0,
        status: 0,
        data8: 0,
        data32: 0,
        bytes: Seq::new(32, |i: int| 0u8),
    }
}

impl Default for SmcKeyData {
    fn default() -> (r: Self)
        ensures
            r@ == zero_packet(),
            r.key == 0,
            r.vers.major == 0 && r.vers.minor == 0 && r.vers.build == 0,
            r.vers.reserved == 0 && r.vers.release == 0,
            r.plimit.version == 0 && r.plimit.length == 0,
            r.plimit.cpu_plimit == 0 && r.plimit.gpu_plimit == 0 && r.plimit.mem_plimit == 0,
            r.key_info.data_size == 0,
            r.key_info.data_type == 0 && r.key_info.data_attributes == 0,
            r.result == 0 && r.status == 0,
            r.data8 == 0,
            r.data32 == 0,
            forall|i: int| 0 <= i < 32 ==> #[trigger] r.bytes@[i] == 0,
    {
        let r = SmcKeyData {
            key: 0,
            vers: SmcVersion { major: 0, minor: 0, build: 0, reserved: 0, release: 0 },
            plimit: SmcPLimitData {
                version: 0,
                length: 0,
                cpu_plimit: 0,
                gpu_plimit: 0,
                mem_plimit: 0,
            },
            key_info: SmcKeyInfo { data_size: 0, data_type: 0, data_attributes: 0 },
            result: 0,
            status: 0,
            data8: 0,
            data32: 0,
            bytes: [0u8; 32],
        };
        assert(r@ =~= zero_packet());
        r
    }
}

/// What one exchange with the driver gave back: the kernel's return code and the packet that
/// the driver filled in.
#[derive(Clone, Copy, Debug, PartialEq, Eq)]
pub struct SmcReply {
    pub kr: i32,
    pub output: SmcKeyData,
}

/// A reply with its packet as a [`Packet`].
pub struct Reply {
    pub kr: i32,
    pub output: Packet,
}

impl View for SmcReply {
    type V = Reply;

    open spec fn view(&self) -> Reply {
        Reply { kr: self.kr, output: self.output@ }
    }
}

/// The outcome of an exchange: the kernel's error if it has one, else the SMC's own error if it
/// has one, else the packet.
pub open spec fn outcome(reply: Reply) -> Result<Packet, i32> {
    if reply.kr != 0 {
        Err(reply.kr)
    } else if reply.output.result != 0 {
        Err(reply.output.result as i32)
    } else {
        Ok(reply.output)
    }
}

/// The request for the key at `index`.
pub open spec fn index_request(index: u32) -> Packet {
    Packet { data8: SMC_CMD_READ_INDEX, data32: index, ..zero_packet() }
}

/// The request for the size and type of `key`.
pub open spec fn info_request(key: u32) -> Packet {
    Packet { key, data8: SMC_CMD_READ_KEYINFO, ..zero_packet() }
}

/// The request for the `size` bytes of `key`.
pub open spec fn bytes_request(key: u32, size: u32) -> Packet {
    Packet {
        key,
        data8: SMC_CMD_READ_BYTES,
        key_info: SmcKeyInfo { data_size: size, ..zero_packet().key_info },
        ..zero_packet()
    }
}

/// The request for the key at an index is command 8 and carries the whole index; every other
/// field is zero. So different indices have different requests.
pub proof fn index_requests(index: u32, other: u32)
    ensures
        ({
            let p = index_request(index);
            &&& p.data8 == 8
            &&& p.data32 == index
            &&& p.key == 0
            &&& p.vers.major == 0 && p.vers.minor == 0 && p.vers.build == 0
            &&& p.vers.reserved == 0 && p.vers.release == 0
            &&& p.plimit.version == 0 && p.plimit.length == 0
            &&& p.plimit.cpu_plimit == 0 && p.plimit.gpu_plimit == 0 && p.plimit.mem_plimit == 0
            &&& p.key_info.data_size == 0
            &&& p.key_info.data_type == 0 && p.key_info.data_attributes == 0
            &&& p.result == 0 && p.status == 0
            &&& p.bytes.len() == 32
            &&& forall|i: int| 0 <= i < 32 ==> #[trigger] p.bytes[i] == 0
        }),
        index != other ==> index_request(index) != index_request(other),
{
}

/// The request for the size and type of a key is command 9 and carries the key; every other field
/// is zero. So different keys have different requests.
pub proof fn info_requests(key: u32, other: u32)
    ensures
        ({
            let p = info_request(key);
            &&& p.data8 == 9
            &&& p.key == key
            &&& p.vers.major == 0 && p.vers.minor == 0 && p.vers.build == 0
            &&& p.vers.reserved == 0 && p.vers.release == 0
            &&& p.plimit.version == 0 && p.plimit.length == 0
            &&& p.plimit.cpu_plimit == 0 && p.plimit.gpu_plimit == 0 && p.plimit.mem_plimit == 0
            &&& p.key_info.data_size == 0
            &&& p.key_info.data_type == 0 && p.key_info.data_attributes == 0
            &&& p.result == 0 && p.status == 0
            &&& p.data32 == 0
            &&& p.bytes.len() == 32
            &&& forall|i: int| 0 <= i < 32 ==> #[trigger] p.bytes[i] == 0
        }),
        key != other ==> info_request(key) != info_request(other),
{
}

/// The request for the bytes of a key is command 5 and carries the key and the size; every other
/// field is zero. So different keys or sizes have different requests.
pub proof fn bytes_requests(key: u32, size: u32, other: u32, other_size: u32)
    ensures
        ({
            let p = bytes_request(key, size);
            &&& p.data8 == 5
            &&& p.key == key
            &&& p.key_info.data_size == size
            &&& p.vers.major == 0 && p.vers.minor == 0 && p.vers.build == 0
            &&& p.vers.reserved == 0 && p.vers.release == 0
            &&& p.plimit.version == 0 && p.plimit.length == 0
            &&& p.plimit.cpu_plimit == 0 && p.plimit.gpu_plimit == 0 && p.plimit.mem_plimit == 0
            &&& p.key_info.data_type == 0 && p.key_info.data_attributes == 0
            &&& p.result == 0 && p.status == 0
            &&& p.data32 == 0
            &&& p.bytes.len() == 32
            &&& forall|i: int| 0 <= i < 32 ==> #[trigger] p.bytes[i] == 0
        }),
        (key, size) != (other, other_size) ==> bytes_request(key, size) != bytes_request(
            other,
            other_size,
        ),
{
}

/// An exchange succeeds exactly if neither the kernel nor the SMC reports an error, and then it
/// gives the packet as it came. An error is never zero; it is the kernel's if there is one, else
/// the SMC's, which lies below 256.
pub proof fn outcomes(reply: Reply)
    ensures
        outcome(reply) is Ok <==> reply.kr == 0 && reply.output.result == 0,
        outcome(reply) matches Ok(output) ==> output == reply.output,
        reply.kr != 0 ==> outcome(reply) == Err::<Packet, i32>(reply.kr),
        reply.kr == 0 && reply.output.result != 0 ==> (outcome(reply) matches Err(e) && 0 < e
            < 0x100 && e == reply.output.result),
{
}

/// A packet and a reply are taken over field by field.
pub proof fn fields_are_kept(p: SmcKeyData, r: SmcReply)
    ensures
        p@.key == p.key,
        p@.vers == p.vers,
        p@.plimit == p.plimit,
        p@.key_info == p.key_info,
        p@.result == p.result,
        p@.status == p.status,
        p@.data8 == p.data8,
        p@.data32 == p.data32,
        p@.bytes == p.bytes@,
        p@.bytes.len() == 32,
        r@.kr == r.kr,
        r@.output == r.output@,
{
}

/// The numbers that the driver knows its method and its commands by.
pub proof fn protocol_numbers()
    ensures
        KERNEL_INDEX_SMC == 2,
        SMC_CMD_READ_BYTES == 5,
        SMC_CMD_READ_INDEX == 8,
        SMC_CMD_READ_KEYINFO == 9,
{
}

} // verus!
