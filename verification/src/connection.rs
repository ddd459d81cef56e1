//! The connection to the SMC: how it is opened, and how a key is read over it.
//!
//! Every procedure here is a state that names the next exchange with the kernel and a
//! transition on what the exchange gave back. Whoever performs the exchanges runs the
//! procedure.

use vstd::prelude::*;

use crate::fourcc;
use crate::fourcc::decode_be_uint;
use crate::numeric;
use crate::numeric::{decode_f32, has_enough, Numeric};
use crate::packet;
use crate::packet::{
    Packet, Reply, SmcKeyData, SmcKeyInfo, SmcReply, SMC_CMD_READ_BYTES, SMC_CMD_READ_INDEX,
    SMC_CMD_READ_KEYINFO,
};

verus! {

/// The IOKit service that is opened.
pub const SERVICE_NAME: &'static str = "AppleSMC";

/// The port on which the service is looked up.
pub const MAIN_PORT: u32 = 0;

/// The type of user client that is opened.
pub const USER_CLIENT_TYPE: u32 = 0;

/// An open connection to the `AppleSMC` user client, by its port.
#[derive(Debug, PartialEq, Eq)]
pub struct SmcConnection {
    pub conn: u32,
}

/// Where the opening of a connection stands: the next thing to do, or the result.
#[derive(Debug, PartialEq, Eq)]
pub enum OpenStep {
    /// Make a matching dictionary for [`SERVICE_NAME`].
    Match,
    /// Look the service up on [`MAIN_PORT`].
    Find,
    /// Open a user client of type [`USER_CLIENT_TYPE`] on the service.
    Open { service: u32 },
    /// Release the service; opening the user client gave `kr` and `conn`.
    Release { service: u32, kr: i32, conn: u32 },
    /// Nothing is left to do.
    Done { result: Result<SmcConnection, i32> },
}

/// What came of a step of [`OpenStep`].
#[derive(Clone, Copy, Debug, PartialEq, Eq)]
pub enum OpenEvent {
    /// Whether there is a matching dictionary.
    Matched { found: bool },
    /// The service, zero if there is none.
    Found { service: u32 },
    /// The return code and the port of the user client.
    Opened { kr: i32, conn: u32 },
    /// The service has been released.
    Released,
}

impl OpenStep {
    /// `event` is what can come of this step.
    pub open spec fn expects(self, event: OpenEvent) -> bool {
        match self {
            OpenStep::Match => event is Matched,
            OpenStep::Find => event is Found,
            OpenStep::Open { .. } => event is Opened,
            OpenStep::Release { .. } => event is Released,
            OpenStep::Done { .. } => false,
        }
    }

    /// The step after `event`.
    pub open spec fn after(self, event: OpenEvent) -> OpenStep {
        match (self, event) {
            (OpenStep::Match, OpenEvent::Matched { found }) => if found {
                OpenStep::Find
            } else {
                OpenStep::Done { result: Err(-1i32) }
            },
            (OpenStep::Find, OpenEvent::Found { service }) => if service != 0 {
                OpenStep::Open { service }
            } else {
                OpenStep::Done { result: Err(-2i32) }
            },
            (OpenStep::Open { service }, OpenEvent::Opened { kr, conn }) => OpenStep::Release {
                service,
                kr,
                conn,
            },
            (OpenStep::Release { service, kr, conn }, OpenEvent::Released) => OpenStep::Done {
                result: if kr != 0 {
                    Err(kr)
                } else {
                    Ok(SmcConnection { conn })
                },
            },
            _ => self,
        }
    }

    /// Takes what came of this step and gives the next one.
    pub fn next(self, event: OpenEvent) -> (r: OpenStep)
        requires
            self.expects(event),
        ensures
            r == self.after(event),
    {
        match (self, event) {
            (OpenStep::Match, OpenEvent::Matched { found }) => if found {
                OpenStep::Find
            } else {
                OpenStep::Done { result: Err(-1i32) }
            },
            (OpenStep::Find, OpenEvent::Found { service }) => if service != 0 {
                OpenStep::Open { service }
            } else {
                OpenStep::Done { result: Err(-2i32) }
            },
            (OpenStep::Open { service }, OpenEvent::Opened { kr, conn }) => {
                OpenStep::Release { service, kr, conn }
            },
            (OpenStep::Release { service: _, kr, conn }, OpenEvent::Released) => {
                if kr != 0 {
                    OpenStep::Done { result: Err(kr) }
                } else {
                    OpenStep::Done { result: Ok(SmcConnection { conn }) }
                }
            },
            (step, _) => step,
        }
    }
}

/// What reading a key gives: its type and bytes, or an error.
pub type KeyOutcome = Result<(SmcKeyInfo, Seq<u8>), i32>;

/// Where the reading of a key stands: its info is asked for first, its bytes second.
#[derive(Clone, Copy, Debug, PartialEq, Eq)]
pub enum KeyRead {
    Info { key: u32 },
    Bytes { key: u32, info: SmcKeyInfo },
}

/// What a reply does to the reading of a key: one more exchange, or the outcome.
#[derive(Debug, PartialEq, Eq)]
pub enum KeyStep {
    Again { read: KeyRead },
    Finished { outcome: Result<(SmcKeyInfo, [u8; 32]), i32> },
}

/// A [`KeyStep`] with the bytes as a sequence.
pub enum KeyStepView {
    Again { read: KeyRead },
    Finished { outcome: KeyOutcome },
}

/// An outcome with the bytes as a sequence.
pub open spec fn outcome_view(outcome: Result<(SmcKeyInfo, [u8; 32]), i32>) -> KeyOutcome {
    match outcome {
        Ok((info, bytes)) => Ok((info, bytes@)),
        Err(e) => Err(e),
    }
}

impl View for KeyStep {
    type V = KeyStepView;

    open spec fn view(&self) -> KeyStepView {
        match self {
            KeyStep::Again { read } => KeyStepView::Again { read: *read },
            KeyStep::Finished { outcome } => KeyStepView::Finished {
                outcome: outcome_view(*outcome),
            },
        }
    }
}

impl KeyRead {
    /// The packet to send next.
    pub open spec fn packet(self) -> Packet {
        match self {
            KeyRead::Info { key } => packet::info_request(key),
            KeyRead::Bytes { key, info } => packet::bytes_request(key, info.data_size),
        }
    }

    /// What `reply` does.
    pub open spec fn after(self, reply: Reply) -> KeyStepView {
        match packet::outcome(reply) {
            Err(e) => KeyStepView::Finished { outcome: Err(e) },
            Ok(output) => match self {
                KeyRead::Info { key } => KeyStepView::Again {
                    read: KeyRead::Bytes { key, info: output.key_info },
                },
                KeyRead::Bytes { key, info } => KeyStepView::Finished {
                    outcome: Ok((info, output.bytes)),
                },
            },
        }
    }

    /// The packet to send next.
    pub fn request(&self) -> (r: SmcKeyData)
        ensures
            r@ == self.packet(),
            *self matches KeyRead::Info { key } ==> r.key == key && r.data8 == 9
                && r.key_info.data_size == 0,
            *self matches KeyRead::Bytes { key, info } ==> r.key == key && r.data8 == 5
                && r.key_info.data_size == info.data_size,
            r.vers.major == 0 && r.vers.minor == 0 && r.vers.build == 0,
            r.vers.reserved == 0 && r.vers.release == 0,
            r.plimit.version == 0 && r.plimit.length == 0,
            r.plimit.cpu_plimit == 0 && r.plimit.gpu_plimit == 0 && r.plimit.mem_plimit == 0,
            r.key_info.data_type == 0 && r.key_info.data_attributes == 0,
            r.result == 0 && r.status == 0,
            r.data32 == 0,
            forall|i: int| 0 <= i < 32 ==> #[trigger] r.bytes@[i] == 0,
    {
        let mut r: SmcKeyData = SmcKeyData::default();
        match self {
            KeyRead::Info { key } => {
                r.key = *key;
                r.data8 = SMC_CMD_READ_KEYINFO;
            },
            KeyRead::Bytes { key, info } => {
                r.key = *key;
                r.data8 = SMC_CMD_READ_BYTES;
                r.key_info.data_size = info.data_size;
            },
        }
        r
    }

    /// Takes the reply to the packet.
    pub fn reply(self, reply: &SmcReply) -> (r: KeyStep)
        ensures
            r@ == self.after(reply@),
            r is Again <==> self is Info && reply.kr == 0 && reply.output.result == 0,
            r matches KeyStep::Again { read: KeyRead::Bytes { key, info } } ==> self
                == (KeyRead::Info { key }) && info == reply.output.key_info,
            !(r matches KeyStep::Again { read: KeyRead::Info { .. } }),
            r matches KeyStep::Finished { outcome: Ok((info, bytes)) } ==> reply.kr == 0
                && reply.output.result == 0 && self is Bytes && info == self->Bytes_info && bytes@
                == reply.output.bytes@,
            r matches KeyStep::Finished { outcome: Err(e) } ==> e != 0 && e == (if reply.kr != 0 {
                reply.kr as int
            } else {
                reply.output.result as int
            }),
    {
        match SmcConnection::call(reply) {
            Err(e) => KeyStep::Finished { outcome: Err(e) },
            Ok(output) => match self {
                KeyRead::Info { key } => KeyStep::Again {
                    read: KeyRead::Bytes { key, info: output.key_info },
                },
                KeyRead::Bytes { key: _, info } => KeyStep::Finished {
                    outcome: Ok((info, output.bytes)),
                },
            },
        }
    }
}

/// The number of keys that the value of `#KEY` tells: the low 32 bits of a big-endian number.
pub open spec fn counted(outcome: KeyOutcome) -> Result<u32, i32> {
    match outcome {
        Ok((info, bytes)) => Ok(
            (fourcc::be_value(bytes.take(info.data_size as int)) % 0x1_0000_0000) as u32,
        ),
        Err(e) => Err(e),
    }
}

/// The number of keys, if reading `#KEY` gave a value and all of its bytes.
pub open spec fn total(outcome: KeyOutcome) -> Option<u32> {
    match outcome {
        Ok((info, bytes)) => if info.data_size <= bytes.len() {
            Some(counted(outcome)->Ok_0)
        } else {
            None
        },
        Err(_) => None,
    }
}

/// The numeric value that reading a key gave, if it gave one and all of its bytes.
pub open spec fn number(outcome: KeyOutcome) -> Option<Numeric> {
    match outcome {
        Ok((info, bytes)) => if numeric::enough(info, bytes.len()) {
            numeric::decoded(info, bytes)
        } else {
            None
        },
        Err(_) => None,
    }
}

impl SmcConnection {
    /// Begins to open a connection.
    pub fn open() -> (r: OpenStep)
        ensures
            r == OpenStep::Match,
    {
        OpenStep::Match
    }

    /// What an exchange comes to: the kernel's error, the SMC's error, or the packet.
    pub fn call(reply: &SmcReply) -> (r: Result<SmcKeyData, i32>)
        ensures
            match r {
                Ok(output) => packet::outcome(reply@) == Ok::<Packet, i32>(output@),
                Err(e) => packet::outcome(reply@) == Err::<Packet, i32>(e),
            },
            r is Ok <==> reply.kr == 0 && reply.output.result == 0,
            r matches Ok(output) ==> output == reply.output,
            r matches Err(e) ==> e == (if reply.kr != 0 {
                reply.kr as int
            } else {
                reply.output.result as int
            }),
    {
        if reply.kr != 0 {
            return Err(reply.kr);
        }
        if reply.output.result != 0 {
            return Err(reply.output.result as i32);
        }
        Ok(reply.output)
    }

    /// The number of keys, from what reading `#KEY` gave.
    pub fn key_count(outcome: &Result<(SmcKeyInfo, [u8; 32]), i32>) -> (r: Result<u32, i32>)
        requires
            outcome matches Ok(value) ==> value.0.data_size <= 32,
        ensures
            r == counted(outcome_view(*outcome)),
    {
        match outcome {
            Ok((info, bytes)) => {
                let n: u64 = decode_be_uint(bytes, info.data_size as usize);
                let low: u32 = (n % 0x1_0000_0000) as u32;
                proof {
                    let v = fourcc::be_value(bytes@.take(info.data_size as int)) as int;
                    vstd::arithmetic::div_mod::lemma_mod_mod(v, 0x1_0000_0000, 0x1_0000_0000);
                }
                Ok(low)
            },
            Err(e) => Err(*e),
        }
    }

    /// The number of keys, from what reading `#KEY` gave, if it can be known.
    pub fn key_total(outcome: &Result<(SmcKeyInfo, [u8; 32]), i32>) -> (r: Option<u32>)
        ensures
            r == total(outcome_view(*outcome)),
    {
        if let Ok((info, _)) = outcome {
            if info.data_size > 32 {
                return None;
            }
        }
        match SmcConnection::key_count(outcome) {
            Ok(count) => Some(count),
            Err(_) => None,
        }
    }

    /// The packet that asks for the key at `index`.
    pub fn index_packet(index: u32) -> (r: SmcKeyData)
        ensures
            r@ == packet::index_request(index),
            r.data8 == 8,
            r.data32 == index,
            r.key == 0,
            r.vers.major == 0 && r.vers.minor == 0 && r.vers.build == 0,
            r.vers.reserved == 0 && r.vers.release == 0,
            r.plimit.version == 0 && r.plimit.length == 0,
            r.plimit.cpu_plimit == 0 && r.plimit.gpu_plimit == 0 && r.plimit.mem_plimit == 0,
            r.key_info.data_size == 0,
            r.key_info.data_type == 0 && r.key_info.data_attributes == 0,
            r.result == 0 && r.status == 0,
            forall|i: int| 0 <= i < 32 ==> #[trigger] r.bytes@[i] == 0,
    {
        let mut r: SmcKeyData = SmcKeyData::default();
        r.data8 = SMC_CMD_READ_INDEX;
        r.data32 = index;
        r
    }

    /// The key at an index, from the reply to [`SmcConnection::index_packet`].
    pub fn key_at_index(reply: &SmcReply) -> (r: Result<u32, i32>)
        ensures
            r == (match packet::outcome(reply@) {
                Ok(output) => Ok::<u32, i32>(output.key),
                Err(e) => Err(e),
            }),
            r is Ok <==> reply.kr == 0 && reply.output.result == 0,
            r matches Ok(key) ==> key == reply.output.key,
    {
        match SmcConnection::call(reply) {
            Ok(output) => Ok(output.key),
            Err(e) => Err(e),
        }
    }

    /// Begins to read a key.
    pub fn read_key(key: u32) -> (r: KeyRead)
        ensures
            r == (KeyRead::Info { key }),
    {
        KeyRead::Info { key }
    }

    /// The numeric value of a key, from what reading it gave. A value that claims more bytes
    /// than a packet carries is unreadable.
    pub fn read_numeric(outcome: &Result<(SmcKeyInfo, [u8; 32]), i32>) -> (r: Option<Numeric>)
        ensures
            r == number(outcome_view(*outcome)),
    {
        match outcome {
            Ok((info, bytes)) => if has_enough(info, 32) {
                decode_f32(info, bytes)
            } else {
                None
            },
            Err(_) => None,
        }
    }
}

/// An outcome is taken over as it is.
pub proof fn outcomes_are_kept(info: SmcKeyInfo, bytes: [u8; 32], e: i32)
    ensures
        outcome_view(Ok((info, bytes))) == Ok::<(SmcKeyInfo, Seq<u8>), i32>((info, bytes@)),
        outcome_view(Err(e)) == Err::<(SmcKeyInfo, Seq<u8>), i32>(e),
{
}

/// The number of keys is a big-endian number of as many bytes as the size tells, of which the
/// last four count. It is known exactly if the value could be read and all of its bytes are
/// there.
pub proof fn key_counts(info: SmcKeyInfo, bytes: Seq<u8>, e: i32)
    ensures
        total(Err(e)) is None,
        counted(Err(e)) == Err::<u32, i32>(e),
        total(Ok((info, bytes))) is Some <==> info.data_size <= bytes.len(),
        info.data_size <= bytes.len() ==> counted(Ok((info, bytes))) == Ok::<u32, i32>(
            total(Ok((info, bytes)))->0,
        ),
        info.data_size <= bytes.len() ==> ({
            let count = total(Ok((info, bytes)))->0;
            let n = info.data_size as int;
            &&& n == 4 ==> count == bytes[0] * 0x1000000 + bytes[1] * 0x10000 + bytes[2] * 0x100
                + bytes[3]
            &&& n < 4 ==> count == fourcc::be_value(bytes.take(n))
            &&& n > 4 ==> count == fourcc::be_value(bytes.subrange(n - 4, n))
        }),
{
    let n = info.data_size as int;
    if n <= bytes.len() {
        if n <= 4 {
            fourcc::short_values_are_exact(bytes.take(n));
        } else {
            assert(bytes.take(n) =~= bytes.take(n - 4) + bytes.subrange(n - 4, n));
            fourcc::low_four_bytes(bytes.take(n - 4), bytes.subrange(n - 4, n));
        }
        if n == 4 {
            fourcc::lemma_be_value_4(bytes.take(4));
        }
    }
}

/// Reading a key gave a number exactly if it could be read, has a numeric type, and all bytes of
/// the number are there; then it is the number that the bytes decode to.
pub proof fn numbers_read(info: SmcKeyInfo, bytes: Seq<u8>, e: i32)
    ensures
        number(Err(e)) is None,
        number(Ok((info, bytes))) is Some <==> (numeric::decoded(info, bytes) matches Some(v) && (
        v is Float ==> bytes.len() >= 4) && (v is Integer ==> bytes.len() >= info.data_size) && (
        v is Fixed ==> bytes.len() >= 2)),
        number(Ok((info, bytes))) is Some ==> number(Ok((info, bytes))) == numeric::decoded(
            info,
            bytes,
        ),
{
    numeric::bytes_needed(info, bytes, bytes.len());
}

/// The reading of a key asks for its info, then for as many bytes as the info tells, and gives
/// that info with the bytes of the second reply. The first error ends it.
pub proof fn key_read_steps(key: u32, info: SmcKeyInfo, reply: Reply)
    ensures
        (KeyRead::Info { key }).packet() == packet::info_request(key),
        (KeyRead::Bytes { key, info }).packet() == packet::bytes_request(key, info.data_size),
        reply.kr == 0 && reply.output.result == 0 ==> (KeyRead::Info { key }).after(reply) == (
        KeyStepView::Again { read: KeyRead::Bytes { key, info: reply.output.key_info } }),
        reply.kr == 0 && reply.output.result == 0 ==> (KeyRead::Bytes { key, info }).after(reply)
            == (KeyStepView::Finished { outcome: Ok((info, reply.output.bytes)) }),
        reply.kr != 0 ==> (KeyRead::Info { key }).after(reply) == (KeyStepView::Finished {
            outcome: Err(reply.kr),
        }),
        reply.kr != 0 ==> (KeyRead::Bytes { key, info }).after(reply) == (KeyStepView::Finished {
            outcome: Err(reply.kr),
        }),
        reply.kr == 0 && reply.output.result != 0 ==> (KeyRead::Info { key }).after(reply) == (
        KeyStepView::Finished { outcome: Err(reply.output.result as i32) }),
        reply.kr == 0 && reply.output.result != 0 ==> (KeyRead::Bytes { key, info }).after(reply)
            == (KeyStepView::Finished { outcome: Err(reply.output.result as i32) }),
{
}

/// The service that is opened is the one that was found, and it is the one that is released;
/// what opening it gave is kept until then. Every step takes what can come of it.
pub proof fn opening_steps(found: bool, service: u32, kr: i32, conn: u32)
    ensures
        service != 0 ==> OpenStep::Find.after(OpenEvent::Found { service }) == (OpenStep::Open {
            service,
        }),
        (OpenStep::Open { service }).after(OpenEvent::Opened { kr, conn }) == (OpenStep::Release {
            service,
            kr,
            conn,
        }),
        OpenStep::Match.expects(OpenEvent::Matched { found }),
        OpenStep::Find.expects(OpenEvent::Found { service }),
        (OpenStep::Open { service }).expects(OpenEvent::Opened { kr, conn }),
        (OpenStep::Release { service, kr, conn }).expects(OpenEvent::Released),
        SERVICE_NAME@ == "AppleSMC"@,
        MAIN_PORT == 0,
        USER_CLIENT_TYPE == 0,
{
}

} // verus!
