//! The Apple SMC sensor backend: listing the machine's numeric keys and reading a set of them.
//!
//! Both are procedures over the key protocol. Each names the next packet to send and takes the
//! reply, until no packet is left.

use vstd::hash_map::StringHashMap;
use vstd::prelude::*;

use crate::connection;
use crate::connection::{KeyOutcome, KeyRead, KeyStep, KeyStepView, SmcConnection};
use crate::fourcc;
use crate::fourcc::{fourcc, fourcc_to_string, names_a_key};
use crate::numeric;
use crate::numeric::{data_type_tag, Numeric};
use crate::options;
use crate::packet;
use crate::packet::{Packet, Reply, SmcKeyData, SmcKeyInfo, SmcReply};
use crate::text;

verus! {

/// The key whose value is the number of keys.
pub const COUNT_KEY: &'static str = "#KEY";

/// The Apple SMC sensor backend.
#[derive(Debug, PartialEq, Eq)]
pub struct AppleSmc {
    pub conn: SmcConnection,
}

/// The schema entry of a key, if reading it gave a number: the name and the type tag.
pub open spec fn entry(code: u32, outcome: KeyOutcome) -> Option<(Seq<char>, Seq<char>)> {
    if connection::number(outcome) is Some {
        Some((fourcc::code_text(code), numeric::type_tag(outcome->Ok_0.0.data_type)))
    } else {
        None
    }
}

/// The code of [`COUNT_KEY`].
pub open spec fn count_code() -> u32 {
    fourcc::packed(COUNT_KEY@) as u32
}

/// Where the listing of keys stands.
#[derive(Clone, Copy, Debug, PartialEq, Eq)]
pub enum SchemaPhase {
    /// Reading the number of keys.
    Counting { read: KeyRead },
    /// Asking for the key at `index`.
    Indexing { index: u32, count: u32 },
    /// Reading the key `code`, which is at `index`.
    Reading { index: u32, count: u32, code: u32, read: KeyRead },
    /// All keys have been visited, or there is no number of keys.
    Done,
}

impl SchemaPhase {
    /// The phase that visits `index` of `count` keys.
    pub open spec fn at(index: int, count: u32) -> SchemaPhase {
        if index < count {
            SchemaPhase::Indexing { index: index as u32, count }
        } else {
            SchemaPhase::Done
        }
    }

    /// The index is one of the keys.
    pub open spec fn wf(self) -> bool {
        match self {
            SchemaPhase::Indexing { index, count } => index < count,
            SchemaPhase::Reading { index, count, .. } => index < count,
            _ => true,
        }
    }
}

/// The phase that visits `index` of `count` keys.
fn visit(index: u32, count: u32) -> (r: SchemaPhase)
    ensures
        r == SchemaPhase::at(index as int, count),
{
    if index < count {
        SchemaPhase::Indexing { index, count }
    } else {
        SchemaPhase::Done
    }
}

/// The schema entry of a key, from what reading it gave.
pub fn schema_entry(code: u32, outcome: &Result<(SmcKeyInfo, [u8; 32]), i32>) -> (r: Option<
    (String, String),
>)
    ensures
        match r {
            Some(e) => entry(code, connection::outcome_view(*outcome)) == Some((e.0@, e.1@)),
            None => entry(code, connection::outcome_view(*outcome)) is None,
        },
{
    if SmcConnection::read_numeric(outcome).is_none() {
        return None;
    }
    match outcome {
        Ok((info, _)) => Some((fourcc_to_string(code), data_type_tag(info.data_type))),
        Err(_) => None,
    }
}

/// A listing as it stands: the phase and the entries so far.
#[verifier::ext_equal]
pub struct Listing {
    pub phase: SchemaPhase,
    pub entries: Seq<(Seq<char>, Seq<char>)>,
}

impl Listing {
    /// A listing that has not begun.
    pub open spec fn start() -> Listing {
        Listing {
            phase: SchemaPhase::Counting { read: KeyRead::Info { key: count_code() } },
            entries: Seq::empty(),
        }
    }

    /// The packet to send next.
    pub open spec fn packet(self) -> Option<Packet> {
        match self.phase {
            SchemaPhase::Counting { read } => Some(read.packet()),
            SchemaPhase::Indexing { index, .. } => Some(packet::index_request(index)),
            SchemaPhase::Reading { read, .. } => Some(read.packet()),
            SchemaPhase::Done => None,
        }
    }

    /// The listing after `reply`.
    pub open spec fn after(self, reply: Reply) -> Listing {
        match self.phase {
            SchemaPhase::Counting { read } => match read.after(reply) {
                KeyStepView::Again { read } => Listing {
                    phase: SchemaPhase::Counting { read },
                    ..self
                },
                KeyStepView::Finished { outcome } => match connection::total(outcome) {
                    Some(count) => Listing { phase: SchemaPhase::at(0, count), ..self },
                    None => Listing { phase: SchemaPhase::Done, ..self },
                },
            },
            SchemaPhase::Indexing { index, count } => match packet::outcome(reply) {
                Ok(output) => Listing {
                    phase: SchemaPhase::Reading {
                        index,
                        count,
                        code: output.key,
                        read: KeyRead::Info { key: output.key },
                    },
                    ..self
                },
                Err(_) => Listing { phase: SchemaPhase::at(index + 1, count), ..self },
            },
            SchemaPhase::Reading { index, count, code, read } => match read.after(reply) {
                KeyStepView::Again { read } => Listing {
                    phase: SchemaPhase::Reading { index, count, code, read },
                    ..self
                },
                KeyStepView::Finished { outcome } => Listing {
                    phase: SchemaPhase::at(index + 1, count),
                    entries: options::with_option(self.entries, entry(code, outcome)),
                },
            },
            SchemaPhase::Done => self,
        }
    }
}

/// The listing of the machine's numeric keys, under way.
pub struct SchemaRun {
    phase: SchemaPhase,
    entries: Vec<(String, String)>,
}

/// Pairs of strings as pairs of character sequences.
pub open spec fn pairs_view(pairs: Seq<(String, String)>) -> Seq<(Seq<char>, Seq<char>)> {
    pairs.map_values(|p: (String, String)| (p.0@, p.1@))
}

impl View for SchemaRun {
    type V = Listing;

    closed spec fn view(&self) -> Listing {
        Listing { phase: self.phase, entries: pairs_view(self.entries@) }
    }
}

impl SchemaRun {
    #[verifier::type_invariant]
    closed spec fn inv(self) -> bool {
        self.phase.wf()
    }

    /// The packet to send next, if one is left.
    pub fn request(&self) -> (r: Option<SmcKeyData>)
        ensures
            match r {
                Some(p) => self@.packet() == Some(p@),
                None => self@.packet() is None,
            },
    {
        match self.phase {
            SchemaPhase::Counting { read } => Some(read.request()),
            SchemaPhase::Indexing { index, .. } => Some(SmcConnection::index_packet(index)),
            SchemaPhase::Reading { read, .. } => Some(read.request()),
            SchemaPhase::Done => None,
        }
    }

    /// Takes the reply to the packet.
    pub fn reply(self, reply: &SmcReply) -> (r: SchemaRun)
        ensures
            r@ == self@.after(reply@),
    {
        proof {
            use_type_invariant(&self);
        }
        let SchemaRun { phase, mut entries } = self;
        match phase {
            SchemaPhase::Counting { read } => match read.reply(reply) {
                KeyStep::Again { read } => SchemaRun {
                    phase: SchemaPhase::Counting { read },
                    entries,
                },
                KeyStep::Finished { outcome } => match SmcConnection::key_total(&outcome) {
                    Some(count) => SchemaRun { phase: visit(0, count), entries },
                    None => SchemaRun { phase: SchemaPhase::Done, entries },
                },
            },
            SchemaPhase::Indexing { index, count } => match SmcConnection::key_at_index(reply) {
                Ok(code) => SchemaRun {
                    phase: SchemaPhase::Reading {
                        index,
                        count,
                        code,
                        read: SmcConnection::read_key(code),
                    },
                    entries,
                },
                Err(_) => SchemaRun { phase: visit(index + 1, count), entries },
            },
            SchemaPhase::Reading { index, count, code, read } => match read.reply(reply) {
                KeyStep::Again { read } => SchemaRun {
                    phase: SchemaPhase::Reading { index, count, code, read },
                    entries,
                },
                KeyStep::Finished { outcome } => {
                    let ghost before = pairs_view(entries@);
                    if let Some(e) = schema_entry(code, &outcome) {
                        entries.push(e);
                        assert(pairs_view(entries@) =~= before.push((e.0@, e.1@)));
                    }
                    SchemaRun { phase: visit(index + 1, count), entries }
                },
            },
            SchemaPhase::Done => SchemaRun { phase, entries },
        }
    }

    /// The entries found so far; once no packet is left, all of them.
    pub fn into_schema(self) -> (r: Vec<(String, String)>)
        ensures
            pairs_view(r@) == self@.entries,
    {
        self.entries
    }
}

/// A readout as it stands: the keys asked for, the one that is being read, and the values so
/// far.
#[verifier::ext_equal]
pub struct Readout {
    pub keys: Seq<Seq<char>>,
    pub index: int,
    pub read: Option<KeyRead>,
    pub values: Map<Seq<char>, Numeric>,
}

/// The values with the value of one more key: kept if it is a finite number, else as they were.
pub open spec fn with_value(
    values: Map<Seq<char>, Numeric>,
    key: Seq<char>,
    outcome: KeyOutcome,
) -> Map<Seq<char>, Numeric> {
    match connection::number(outcome) {
        Some(v) => if v.finite() {
            values.insert(key, v)
        } else {
            values
        },
        None => values,
    }
}

/// The first index from `from` on whose name can be that of a key; the number of names if there
/// is none.
pub open spec fn next_key(keys: Seq<Seq<char>>, from: int) -> int
    decreases keys.len() - from,
{
    if from >= keys.len() {
        keys.len() as int
    } else if fourcc::is_key(keys[from]) {
        from
    } else {
        next_key(keys, from + 1)
    }
}

/// The reading of the key at `index`, if there is one.
pub open spec fn key_read_at(keys: Seq<Seq<char>>, index: int) -> Option<KeyRead> {
    if index < keys.len() {
        Some(KeyRead::Info { key: fourcc::packed(keys[index]) as u32 })
    } else {
        None
    }
}

impl Readout {
    /// A readout that goes on with the first key from `from` on.
    pub open spec fn at(
        keys: Seq<Seq<char>>,
        from: int,
        values: Map<Seq<char>, Numeric>,
    ) -> Readout {
        let index = next_key(keys, from);
        Readout { keys, index, read: key_read_at(keys, index), values }
    }

    /// A readout that has not begun.
    pub open spec fn start(keys: Seq<Seq<char>>) -> Readout {
        Readout::at(keys, 0, Map::empty())
    }

    /// The packet to send next.
    pub open spec fn packet(self) -> Option<Packet> {
        match self.read {
            Some(read) => Some(read.packet()),
            None => None,
        }
    }

    /// The readout after `reply`.
    pub open spec fn after(self, reply: Reply) -> Readout {
        match self.read {
            Some(read) => match read.after(reply) {
                KeyStepView::Again { read } => Readout { read: Some(read), ..self },
                KeyStepView::Finished { outcome } => Readout::at(
                    self.keys,
                    self.index + 1,
                    with_value(self.values, self.keys[self.index], outcome),
                ),
            },
            None => self,
        }
    }
}

/// The readout of a set of keys, under way.
pub struct ReadRun {
    keys: Vec<String>,
    index: usize,
    read: Option<KeyRead>,
    values: StringHashMap<Numeric>,
}

impl View for ReadRun {
    type V = Readout;

    closed spec fn view(&self) -> Readout {
        Readout {
            keys: text::texts(self.keys@),
            index: self.index as int,
            read: self.read,
            values: self.values@,
        }
    }
}

/// The first index from `from` on whose name can be that of a key.
fn find_key(keys: &Vec<String>, from: usize) -> (r: usize)
    requires
        from <= keys@.len(),
    ensures
        r == next_key(text::texts(keys@), from as int),
        r <= keys@.len(),
        r < keys@.len() ==> fourcc::is_key(keys@[r as int]@),
{
    let mut i: usize = from;
    while i < keys.len()
        invariant
            i <= keys@.len(),
            next_key(text::texts(keys@), i as int) == next_key(text::texts(keys@), from as int),
        decreases keys@.len() - i,
    {
        assert(text::texts(keys@)[i as int] == keys@[i as int]@);
        if names_a_key(keys[i].as_str()) {
            return i;
        }
        i = i + 1;
    }
    i
}

/// A readout that goes on with the first key from `from` on.
fn read_from(keys: Vec<String>, from: usize, values: StringHashMap<Numeric>) -> (r: ReadRun)
    requires
        from <= keys@.len(),
    ensures
        r@ == Readout::at(text::texts(keys@), from as int, values@),
{
    let index: usize = find_key(&keys, from);
    let read: Option<KeyRead> = if index < keys.len() {
        assert(text::texts(keys@)[index as int] == keys@[index as int]@);
        Some(SmcConnection::read_key(fourcc(keys[index].as_str())))
    } else {
        None
    };
    ReadRun { keys, index, read, values }
}

impl ReadRun {
    #[verifier::type_invariant]
    closed spec fn inv(self) -> bool {
        self.read is Some ==> self.index < self.keys@.len()
    }

    /// The packet to send next, if one is left.
    pub fn request(&self) -> (r: Option<SmcKeyData>)
        ensures
            match r {
                Some(p) => self@.packet() == Some(p@),
                None => self@.packet() is None,
            },
    {
        match self.read {
            Some(read) => Some(read.request()),
            None => None,
        }
    }

    /// Takes the reply to the packet.
    pub fn reply(self, reply: &SmcReply) -> (r: ReadRun)
        ensures
            r@ == self@.after(reply@),
    {
        proof {
            use_type_invariant(&self);
        }
        let ReadRun { keys, index, read, mut values } = self;
        match read {
            Some(read) => match read.reply(reply) {
                KeyStep::Again { read } => ReadRun { keys, index, read: Some(read), values },
                KeyStep::Finished { outcome } => {
                    assert(text::texts(keys@)[index as int] == keys@[index as int]@);
                    assert(index < keys.len());
                    if let Some(v) = SmcConnection::read_numeric(&outcome) {
                        if v.is_finite() {
                            values.insert(keys[index].clone(), v);
                        }
                    }
                    read_from(keys, index + 1, values)
                },
            },
            None => ReadRun { keys, index, read, values },
        }
    }

    /// The values found so far; once no packet is left, all of them.
    pub fn into_values(self) -> (r: StringHashMap<Numeric>)
        ensures
            r@ == self@.values,
    {
        self.values
    }
}

impl AppleSmc {
    /// The backend over a connection, or the error code with which there is none.
    pub fn open(connection: Result<SmcConnection, i32>) -> (r: Result<AppleSmc, i32>)
        ensures
            match connection {
                Ok(conn) => r == Ok::<AppleSmc, i32>(AppleSmc { conn }),
                Err(e) => r == Err::<AppleSmc, i32>(e),
            },
    {
        match connection {
            Ok(conn) => Ok(AppleSmc { conn }),
            Err(e) => Err(e),
        }
    }

    /// Begins to list every readable numeric key paired with its type tag.
    pub fn schema(&self) -> (r: SchemaRun)
        ensures
            r@ == Listing::start(),
    {
        proof {
            reveal_strlit("#KEY");
            vstd::utf8::is_ascii_chars_encode_utf8(COUNT_KEY@);
        }
        let entries: Vec<(String, String)> = Vec::new();
        let key: u32 = fourcc(COUNT_KEY);
        let r = SchemaRun {
            phase: SchemaPhase::Counting { read: SmcConnection::read_key(key) },
            entries,
        };
        assert(r@.entries =~= Seq::<(Seq<char>, Seq<char>)>::empty());
        r
    }

    /// Begins to read the current values of the given keys. A name that can be no key's is
    /// passed over.
    pub fn read(&self, keys: Vec<String>) -> (r: ReadRun)
        ensures
            r@ == Readout::start(text::texts(keys@)),
    {
        read_from(keys, 0, StringHashMap::new())
    }
}

/// The key that is read for the number of keys is `#KEY`, by its code.
pub proof fn count_key()
    ensures
        COUNT_KEY@ == "#KEY"@,
        count_code() == 0x234b4559,
{
    reveal_strlit("#KEY");
    fourcc::ascii_codes(COUNT_KEY@);
}

/// A key has an entry exactly if reading it gave a number: its four characters and its type tag.
pub proof fn entries_of_keys(code: u32, info: SmcKeyInfo, bytes: Seq<u8>, e: i32)
    ensures
        entry(code, Err(e)) is None,
        entry(code, Ok((info, bytes))) is Some <==> connection::number(Ok((info, bytes))) is Some,
        entry(code, Ok((info, bytes))) matches Some(found) ==> found.0 == fourcc::code_text(code)
            && found.1 == numeric::type_tag(info.data_type),
{
}

/// A listing begins without entries and reads `#KEY`. If that fails, or tells that there are no
/// keys, it ends without entries; else it goes on with the first key.
pub proof fn beginning_a_listing(first: Reply, second: Reply)
    ensures
        ({
            let l0 = Listing::start();
            let l1 = l0.after(first);
            let l2 = l1.after(second);
            let read = first.kr == 0 && first.output.result == 0;
            let told = second.kr == 0 && second.output.result == 0;
            let size = first.output.key_info.data_size;
            let count = connection::total(Ok((first.output.key_info, second.output.bytes)));
            &&& l0.entries.len() == 0
            &&& l0.packet() == Some(packet::info_request(0x234b4559))
            &&& l1.entries.len() == 0
            &&& !read ==> l1.packet() is None
            &&& read ==> l1.packet() == Some(packet::bytes_request(0x234b4559, size))
            &&& read ==> l2.entries.len() == 0
            &&& read && (!told || count is None) ==> l2.packet() is None
            &&& read && told && count == Some(0u32) ==> l2.packet() is None
            &&& read && told && count is Some && count->0 > 0 ==> l2.phase == (
            SchemaPhase::Indexing { index: 0, count: count->0 })
        }),
{
    count_key();
}

/// A listing asks for the key at its index, then for that key's info, then for its bytes. If any
/// of these fails, or the bytes are no number, it goes on to the next index as it was; else with
/// one more entry, that of the key, at the end.
pub proof fn visiting_a_key(
    index: u32,
    count: u32,
    entries: Seq<(Seq<char>, Seq<char>)>,
    first: Reply,
    second: Reply,
    third: Reply,
)
    requires
        index < count,
    ensures
        ({
            let l0 = Listing { phase: SchemaPhase::Indexing { index, count }, entries };
            let l1 = l0.after(first);
            let l2 = l1.after(second);
            let l3 = l2.after(third);
            let next = if index + 1 < count {
                SchemaPhase::Indexing { index: (index + 1) as u32, count }
            } else {
                SchemaPhase::Done
            };
            let found = first.kr == 0 && first.output.result == 0;
            let known = second.kr == 0 && second.output.result == 0;
            let read = third.kr == 0 && third.output.result == 0;
            let key = first.output.key;
            let info = second.output.key_info;
            let numeric = connection::number(Ok((info, third.output.bytes))) is Some;
            &&& l0.packet() == Some(packet::index_request(index))
            &&& !found ==> l1 == (Listing { phase: next, entries })
            &&& found ==> l1.packet() == Some(packet::info_request(key)) && l1.entries == entries
            &&& found && !known ==> l2 == (Listing { phase: next, entries })
            &&& found && known ==> l2.packet() == Some(packet::bytes_request(key, info.data_size))
                && l2.entries == entries
            &&& found && known ==> l3.phase == next
            &&& found && known && read && numeric ==> l3.entries == entries.push(
                (fourcc::code_text(key), numeric::type_tag(info.data_type)),
            )
            &&& found && known && !(read && numeric) ==> l3.entries == entries
        }),
{
}

/// Pairs are taken over one by one.
pub proof fn pairs_in_order(pairs: Seq<(String, String)>)
    ensures
        pairs_view(pairs).len() == pairs.len(),
        forall|i: int|
            0 <= i < pairs.len() ==> (#[trigger] pairs_view(pairs)[i]).0 == pairs[i].0@
                && pairs_view(pairs)[i].1 == pairs[i].1@,
{
}

/// The next key is the first name that has four bytes: no name before it has, and there is none
/// exactly if it is the end.
pub proof fn the_next_key(keys: Seq<Seq<char>>, from: int)
    requires
        0 <= from <= keys.len(),
    ensures
        from <= next_key(keys, from) <= keys.len(),
        forall|i: int|
            from <= i < next_key(keys, from) ==> vstd::utf8::encode_utf8(#[trigger] keys[i]).len()
                != 4,
        next_key(keys, from) < keys.len() ==> vstd::utf8::encode_utf8(
            keys[next_key(keys, from)],
        ).len() == 4,
    decreases keys.len() - from,
{
    if from < keys.len() && !fourcc::is_key(keys[from]) {
        the_next_key(keys, from + 1);
    }
}

} // verus!
