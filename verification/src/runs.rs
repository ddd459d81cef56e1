//! What the procedures come to when they are run to their end.
//!
//! A driver is any function from the number of exchanges made before and the packet sent to
//! the reply; what it answers may change from one exchange to the next. A steady driver
//! answers by the packet alone.

use vstd::prelude::*;

use crate::connection;
use crate::connection::{KeyOutcome, KeyRead, KeyStepView, OpenEvent, OpenStep, SmcConnection};
use crate::fourcc;
use crate::numeric;
use crate::numeric::Numeric;
use crate::options;
use crate::packet;
use crate::packet::{Packet, Reply};
use crate::sensors;
use crate::sensors::{Listing, Readout, SchemaPhase};

verus! {

/// Answers a packet at a time, the time being the number of exchanges made before.
pub type Driver = spec_fn(nat, Packet) -> Reply;

/// What reading `key` gives when it begins at time `t`, and the time at which it ends.
pub open spec fn key_reading(driver: Driver, t: nat, key: u32) -> (KeyOutcome, nat) {
    match packet::outcome(driver(t, packet::info_request(key))) {
        Err(e) => (Err(e), t + 1),
        Ok(first) => match packet::outcome(
            driver(t + 1, packet::bytes_request(key, first.key_info.data_size)),
        ) {
            Err(e) => (Err(e), t + 2),
            Ok(second) => (Ok((first.key_info, second.bytes)), t + 2),
        },
    }
}

/// The entries of the keys from `index` on, visited in order from time `t`.
pub open spec fn entries_from(driver: Driver, t: nat, index: int, count: int) -> Seq<
    (Seq<char>, Seq<char>),
>
    decreases count - index,
{
    if index >= count {
        Seq::empty()
    } else {
        match packet::outcome(driver(t, packet::index_request(index as u32))) {
            Err(_) => entries_from(driver, t + 1, index + 1, count),
            Ok(output) => {
                let (outcome, end) = key_reading(driver, t + 1, output.key);
                options::with_option(Seq::empty(), sensors::entry(output.key, outcome))
                    + entries_from(driver, end, index + 1, count)
            },
        }
    }
}

/// The schema: no entries without a number of keys, else the entries of all keys.
pub open spec fn schema_of(driver: Driver, t: nat) -> Seq<(Seq<char>, Seq<char>)> {
    let (outcome, end) = key_reading(driver, t, sensors::count_code());
    match connection::total(outcome) {
        Some(count) => entries_from(driver, end, 0, count as int),
        None => Seq::empty(),
    }
}

/// The values once the keys from `index` on have been read, in order from time `t`. A name that
/// can be no key's is passed over.
pub open spec fn values_from(
    driver: Driver,
    t: nat,
    keys: Seq<Seq<char>>,
    index: int,
    values: Map<Seq<char>, Numeric>,
) -> Map<Seq<char>, Numeric>
    decreases keys.len() - index,
{
    if index >= keys.len() {
        values
    } else if !fourcc::is_key(keys[index]) {
        values_from(driver, t, keys, index + 1, values)
    } else {
        let (outcome, end) = key_reading(driver, t, fourcc::packed(keys[index]) as u32);
        values_from(
            driver,
            end,
            keys,
            index + 1,
            sensors::with_value(values, keys[index], outcome),
        )
    }
}

/// A bound on the exchanges that a key reading still makes.
pub open spec fn reads_left(read: KeyRead) -> int {
    match read {
        KeyRead::Info { .. } => 2,
        KeyRead::Bytes { .. } => 1,
    }
}

/// A bound on the exchanges that a listing still makes.
pub open spec fn listing_left(listing: Listing) -> int {
    match listing.phase {
        SchemaPhase::Counting { read } => reads_left(read) + 3 * 0x1_0000_0000,
        SchemaPhase::Indexing { index, count } => if index < count {
            3 * (count - index)
        } else {
            3
        },
        SchemaPhase::Reading { index, count, read, .. } => if index < count {
            3 * (count - index - 1) + reads_left(read)
        } else {
            reads_left(read)
        },
        SchemaPhase::Done => 0,
    }
}

/// A bound on the exchanges that a readout still makes.
pub open spec fn readout_left(readout: Readout) -> int {
    match readout.read {
        Some(read) => if readout.index < readout.keys.len() {
            2 * (readout.keys.len() - readout.index - 1) + reads_left(read)
        } else {
            reads_left(read)
        },
        None => 0,
    }
}

/// The search for the next key never goes back and ends with the names.
pub proof fn next_key_is_ahead(keys: Seq<Seq<char>>, from: int)
    ensures
        from <= keys.len() ==> from <= sensors::next_key(keys, from) <= keys.len(),
        from > keys.len() ==> sensors::next_key(keys, from) == keys.len(),
    decreases keys.len() - from,
{
    if from < keys.len() && !fourcc::is_key(keys[from]) {
        next_key_is_ahead(keys, from + 1);
    }
}

/// A listing run to its end from time `t`, with the time at which it ends.
pub open spec fn run_listing(listing: Listing, driver: Driver, t: nat) -> (Listing, nat)
    decreases listing_left(listing),
{
    match listing.packet() {
        Some(p) => run_listing(listing.after(driver(t, p)), driver, t + 1),
        None => (listing, t),
    }
}

/// A readout run to its end from time `t`, with the time at which it ends.
pub open spec fn run_readout(readout: Readout, driver: Driver, t: nat) -> (Readout, nat)
    decreases readout_left(readout),
{
    proof {
        next_key_is_ahead(readout.keys, readout.index + 1);
    }
    match readout.packet() {
        Some(p) => run_readout(readout.after(driver(t, p)), driver, t + 1),
        None => (readout, t),
    }
}

/// The reading of a key run to its end from time `t`, with the time at which it ends.
pub open spec fn run_key(read: KeyRead, driver: Driver, t: nat) -> (KeyOutcome, nat)
    decreases reads_left(read),
{
    match read.after(driver(t, read.packet())) {
        KeyStepView::Again { read: next } => run_key(next, driver, t + 1),
        KeyStepView::Finished { outcome } => (outcome, t + 1),
    }
}

/// Reading a key asks for its info and, if that succeeds, for as many bytes as the info tells;
/// it gives the info and the bytes, or the first error.
pub proof fn reading_a_key(driver: Driver, t: nat, key: u32)
    ensures
        run_key(KeyRead::Info { key }, driver, t) == key_reading(driver, t, key),
{
    reveal_with_fuel(run_key, 2);
}

proof fn lemma_entries_run(
    entries: Seq<(Seq<char>, Seq<char>)>,
    driver: Driver,
    t: nat,
    index: int,
    count: u32,
)
    requires
        0 <= index <= count,
    ensures
        ({
            let (end, n) = run_listing(
                Listing { phase: SchemaPhase::at(index, count), entries },
                driver,
                t,
            );
            &&& end.phase is Done
            &&& end.entries == entries + entries_from(driver, t, index, count as int)
            &&& n <= t + 3 * (count - index)
        }),
    decreases count - index,
{
    reveal_with_fuel(run_listing, 4);
    if index == count {
        assert(entries + entries_from(driver, t, index, count as int) =~= entries);
    } else {
        match packet::outcome(driver(t, packet::index_request(index as u32))) {
            Err(_) => {
                lemma_entries_run(entries, driver, t + 1, index + 1, count);
            },
            Ok(output) => {
                let (outcome, end) = key_reading(driver, t + 1, output.key);
                let found = options::with_option(
                    Seq::empty(),
                    sensors::entry(output.key, outcome),
                );
                let next = options::with_option(entries, sensors::entry(output.key, outcome));
                assert(next =~= entries + found);
                lemma_entries_run(next, driver, end, index + 1, count);
                assert(next + entries_from(driver, end, index + 1, count as int) =~= entries + (
                found + entries_from(driver, end, index + 1, count as int)));
            },
        }
    }
}

/// The number of keys that a listing begun at time `t` visits.
pub open spec fn keys_visited(driver: Driver, t: nat) -> nat {
    match connection::total(key_reading(driver, t, sensors::count_code()).0) {
        Some(count) => count as nat,
        None => 0,
    }
}

/// Run to its end, a listing gives the schema, whatever the driver answers. It makes at most
/// two exchanges for the number of keys and three for each key.
pub proof fn listing_gives_schema(driver: Driver, t: nat)
    ensures
        ({
            let (end, n) = run_listing(Listing::start(), driver, t);
            &&& end.packet() is None
            &&& end.entries == schema_of(driver, t)
            &&& n <= t + 2 + 3 * keys_visited(driver, t)
        }),
{
    reveal_with_fuel(run_listing, 3);
    let (outcome, end) = key_reading(driver, t, sensors::count_code());
    match connection::total(outcome) {
        Some(count) => {
            lemma_entries_run(Seq::empty(), driver, end, 0, count);
            assert(Seq::<(Seq<char>, Seq<char>)>::empty() + schema_of(driver, t) =~= schema_of(
                driver,
                t,
            ));
        },
        None => {},
    }
}

proof fn lemma_values_run(
    keys: Seq<Seq<char>>,
    index: int,
    values: Map<Seq<char>, Numeric>,
    driver: Driver,
    t: nat,
)
    requires
        0 <= index <= keys.len(),
    ensures
        ({
            let (end, n) = run_readout(
                Readout::at(keys, index, values),
                driver,
                t,
            );
            &&& end.read is None
            &&& end.values == values_from(driver, t, keys, index, values)
            &&& n <= t + 2 * (keys.len() - index)
        }),
    decreases keys.len() - index,
{
    reveal_with_fuel(run_readout, 3);
    if index < keys.len() && !fourcc::is_key(keys[index]) {
        lemma_values_run(keys, index + 1, values, driver, t);
    } else if index < keys.len() {
        let (outcome, end) = key_reading(driver, t, fourcc::packed(keys[index]) as u32);
        lemma_values_run(
            keys,
            index + 1,
            sensors::with_value(values, keys[index], outcome),
            driver,
            end,
        );
    }
}

/// The values of `keys`, read in order from time `t`.
pub open spec fn values_of(driver: Driver, t: nat, keys: Seq<Seq<char>>) -> Map<
    Seq<char>,
    Numeric,
> {
    values_from(driver, t, keys, 0, Map::empty())
}

/// Run to its end, a readout gives the values of its keys, whatever the driver answers. It
/// makes at most two exchanges for each key.
pub proof fn readout_gives_values(driver: Driver, t: nat, keys: Seq<Seq<char>>)
    ensures
        ({
            let (end, n) = run_readout(Readout::start(keys), driver, t);
            &&& end.packet() is None
            &&& end.values == values_of(driver, t, keys)
            &&& n <= t + 2 * keys.len()
        }),
{
    lemma_values_run(keys, 0, Map::empty(), driver, t);
}

/// Every entry is the entry of some key that could be read.
proof fn lemma_entries_are_entries(driver: Driver, t: nat, index: int, count: int, i: int)
    requires
        0 <= i < entries_from(driver, t, index, count).len(),
    ensures
        exists|code: u32, outcome: KeyOutcome|
            sensors::entry(code, outcome) == Some(entries_from(driver, t, index, count)[i]),
    decreases count - index,
{
    match packet::outcome(driver(t, packet::index_request(index as u32))) {
        Err(_) => {
            lemma_entries_are_entries(driver, t + 1, index + 1, count, i);
        },
        Ok(output) => {
            let (outcome, end) = key_reading(driver, t + 1, output.key);
            let found = options::with_option(Seq::empty(), sensors::entry(output.key, outcome));
            if i < found.len() {
                assert(sensors::entry(output.key, outcome) == Some(
                    entries_from(driver, t, index, count)[i],
                ));
            } else {
                lemma_entries_are_entries(driver, end, index + 1, count, i - found.len());
            }
        },
    }
}

/// Every entry of a schema names a key by four characters and gives one of the numeric type
/// tags. A readout can ask for the name exactly if its characters are ASCII.
pub proof fn schema_entries_are_well_formed(driver: Driver, t: nat, i: int)
    requires
        0 <= i < schema_of(driver, t).len(),
    ensures
        schema_of(driver, t)[i].0.len() == 4,
        fourcc::is_key(schema_of(driver, t)[i].0) <==> vstd::utf8::is_ascii_chars(
            schema_of(driver, t)[i].0,
        ),
        numeric::numeric_tag(schema_of(driver, t)[i].1),
{
    let (first, end) = key_reading(driver, t, sensors::count_code());
    let count = connection::total(first)->0;
    lemma_entries_are_entries(driver, end, 0, count as int, i);
    let (code, outcome) = choose|code: u32, outcome: KeyOutcome|
        sensors::entry(code, outcome) == Some(schema_of(driver, t)[i]);
    fourcc::utf8_length(fourcc::code_text(code));
}

proof fn lemma_values_kept(
    driver: Driver,
    t: nat,
    keys: Seq<Seq<char>>,
    index: int,
    values: Map<Seq<char>, Numeric>,
    key: Seq<char>,
)
    requires
        0 <= index <= keys.len(),
        values.contains_key(key) ==> keys.contains(key) && fourcc::is_key(key)
            && values[key].finite(),
    ensures
        ({
            let end = values_from(driver, t, keys, index, values);
            end.contains_key(key) ==> keys.contains(key) && fourcc::is_key(key)
                && end[key].finite()
        }),
    decreases keys.len() - index,
{
    if index < keys.len() && !fourcc::is_key(keys[index]) {
        lemma_values_kept(driver, t, keys, index + 1, values, key);
    } else if index < keys.len() {
        let (outcome, end) = key_reading(driver, t, fourcc::packed(keys[index]) as u32);
        assert(keys.contains(keys[index]));
        lemma_values_kept(
            driver,
            end,
            keys,
            index + 1,
            sensors::with_value(values, keys[index], outcome),
            key,
        );
    }
}

/// Whatever the driver answers, a readout gives values for requested names only, only for names
/// of four bytes, which a key has, and only finite values.
pub proof fn values_are_requested_and_finite(
    driver: Driver,
    t: nat,
    keys: Seq<Seq<char>>,
    key: Seq<char>,
)
    requires
        values_of(driver, t, keys).contains_key(key),
    ensures
        keys.contains(key),
        fourcc::is_key(key),
        values_of(driver, t, keys)[key].finite(),
{
    lemma_values_kept(driver, t, keys, 0, Map::empty(), key);
}

/// The driver that answers by the packet alone.
pub open spec fn steady(answer: spec_fn(Packet) -> Reply) -> Driver {
    |t: nat, p: Packet| answer(p)
}

/// What reading `key` gives under a steady driver.
pub open spec fn reading(answer: spec_fn(Packet) -> Reply, key: u32) -> KeyOutcome {
    key_reading(steady(answer), 0, key).0
}

/// The entry of the key at `index` under a steady driver, if it has one.
pub open spec fn entry_at(answer: spec_fn(Packet) -> Reply, index: int) -> Option<
    (Seq<char>, Seq<char>),
> {
    match packet::outcome(answer(packet::index_request(index as u32))) {
        Ok(output) => sensors::entry(output.key, reading(answer, output.key)),
        Err(_) => None,
    }
}

/// The finite number that a key holds under a steady driver, if it holds one. A name that is not
/// four bytes long is no key's and has none.
pub open spec fn sensor(answer: spec_fn(Packet) -> Reply, key: Seq<char>) -> Option<Numeric> {
    if !fourcc::is_key(key) {
        None
    } else {
        match connection::number(reading(answer, fourcc::packed(key) as u32)) {
            Some(v) => if v.finite() {
                Some(v)
            } else {
                None
            },
            None => None,
        }
    }
}

proof fn lemma_steady_entries(
    answer: spec_fn(Packet) -> Reply,
    t: nat,
    index: int,
    count: int,
)
    requires
        0 <= index <= count,
    ensures
        entries_from(steady(answer), t, index, count) == options::present(
            Seq::new((count - index) as nat, |i: int| entry_at(answer, index + i)),
        ),
    decreases count - index,
{
    let all = Seq::new((count - index) as nat, |i: int| entry_at(answer, index + i));
    if index < count {
        let rest = Seq::new((count - index - 1) as nat, |i: int| entry_at(answer, index + 1 + i));
        assert(all.drop_first() =~= rest);
        match packet::outcome(answer(packet::index_request(index as u32))) {
            Err(_) => {
                lemma_steady_entries(answer, t + 1, index + 1, count);
                assert(options::present(all) =~= options::present(rest));
            },
            Ok(output) => {
                let (outcome, end) = key_reading(steady(answer), t + 1, output.key);
                lemma_steady_entries(answer, end, index + 1, count);
            },
        }
    }
}

/// Under a steady driver the schema is the entries of all indices, in order.
pub proof fn steady_schema(answer: spec_fn(Packet) -> Reply, t: nat)
    ensures
        schema_of(steady(answer), t) == options::present(
            Seq::new(keys_visited(steady(answer), t), |i: int| entry_at(answer, i)),
        ),
{
    let (outcome, end) = key_reading(steady(answer), t, sensors::count_code());
    match connection::total(outcome) {
        Some(count) => {
            lemma_steady_entries(answer, end, 0, count as int);
            assert(Seq::new(count as nat, |i: int| entry_at(answer, 0 + i)) =~= Seq::new(
                count as nat,
                |i: int| entry_at(answer, i),
            ));
        },
        None => {},
    }
}

proof fn lemma_steady_values(
    answer: spec_fn(Packet) -> Reply,
    t: nat,
    keys: Seq<Seq<char>>,
    index: int,
    values: Map<Seq<char>, Numeric>,
    key: Seq<char>,
)
    requires
        0 <= index <= keys.len(),
    ensures
        ({
            let end = values_from(steady(answer), t, keys, index, values);
            if keys.skip(index).contains(key) && sensor(answer, key) is Some {
                end.contains_key(key) && end[key] == sensor(answer, key)->0
            } else {
                &&& end.contains_key(key) == values.contains_key(key)
                &&& end.contains_key(key) ==> end[key] == values[key]
            }
        }),
    decreases keys.len() - index,
{
    if index < keys.len() {
        if fourcc::is_key(keys[index]) {
            let (outcome, end) = key_reading(
                steady(answer),
                t,
                fourcc::packed(keys[index]) as u32,
            );
            let next = sensors::with_value(values, keys[index], outcome);
            lemma_steady_values(answer, end, keys, index + 1, next, key);
        } else {
            lemma_steady_values(answer, t, keys, index + 1, values, key);
        }
        let here = keys.skip(index);
        let rest = keys.skip(index + 1);
        assert(here.drop_first() =~= rest);
        if here.contains(key) {
            let i = choose|i: int| 0 <= i < here.len() && here[i] == key;
            if i > 0 {
                assert(rest[i - 1] == key);
            }
        }
        if rest.contains(key) {
            let i = choose|i: int| 0 <= i < rest.len() && rest[i] == key;
            assert(here[i + 1] == key);
        }
        if key == keys[index] {
            assert(here[0] == key);
        }
    }
}

/// Under a steady driver a readout gives the value of each requested key that holds a finite
/// number, and nothing else: absent and unreadable keys are left out.
pub proof fn steady_values(
    answer: spec_fn(Packet) -> Reply,
    t: nat,
    keys: Seq<Seq<char>>,
    key: Seq<char>,
)
    ensures
        values_of(steady(answer), t, keys).contains_key(key) <==> keys.contains(key) && sensor(
            answer,
            key,
        ) is Some,
        values_of(steady(answer), t, keys).contains_key(key) ==> values_of(
            steady(answer),
            t,
            keys,
        )[key] == sensor(answer, key)->0,
{
    lemma_steady_values(answer, t, keys, 0, Map::empty(), key);
    assert(keys.skip(0) =~= keys);
}

/// Under a steady driver the schema holds exactly the entries that the indices have.
pub proof fn steady_schema_members(
    answer: spec_fn(Packet) -> Reply,
    t: nat,
    e: (Seq<char>, Seq<char>),
)
    ensures
        schema_of(steady(answer), t).contains(e) <==> exists|i: int|
            0 <= i < keys_visited(steady(answer), t) && #[trigger] entry_at(answer, i) == Some(e),
{
    let n = keys_visited(steady(answer), t);
    let all = Seq::new(n, |i: int| entry_at(answer, i));
    steady_schema(answer, t);
    options::present_members(all, e);
    if all.contains(Some(e)) {
        let i = choose|i: int| 0 <= i < all.len() && all[i] == Some(e);
        assert(entry_at(answer, i) == Some(e));
    }
    if exists|i: int| 0 <= i < n && #[trigger] entry_at(answer, i) == Some(e) {
        let i = choose|i: int| 0 <= i < n && #[trigger] entry_at(answer, i) == Some(e);
        assert(all[i] == Some(e));
    }
}

/// Under a steady driver a key that the schema lists by an ASCII name holds a number, and a
/// readout that asks for it gives that number exactly if it is finite. The name of a code with
/// a byte of 0x80 or more is longer than four bytes in UTF-8 and cannot be read back.
pub proof fn listed_keys_are_read(
    answer: spec_fn(Packet) -> Reply,
    t: nat,
    u: nat,
    e: (Seq<char>, Seq<char>),
    keys: Seq<Seq<char>>,
)
    requires
        schema_of(steady(answer), t).contains(e),
        fourcc::is_key(e.0),
        keys.contains(e.0),
    ensures
        connection::number(reading(answer, fourcc::packed(e.0) as u32)) is Some,
        ({
            let v = connection::number(reading(answer, fourcc::packed(e.0) as u32))->0;
            let values = values_of(steady(answer), u, keys);
            &&& values.contains_key(e.0) <==> v.finite()
            &&& values.contains_key(e.0) ==> values[e.0] == v
        }),
{
    steady_schema_members(answer, t, e);
    let i = choose|i: int|
        0 <= i < keys_visited(steady(answer), t) && #[trigger] entry_at(answer, i) == Some(e);
    let code = packet::outcome(answer(packet::index_request(i as u32)))->Ok_0.key;
    fourcc::unpack_pack(code);
    steady_values(answer, u, keys, e.0);
}

/// Under a steady driver every key that holds a number is listed with its type tag.
pub proof fn readable_keys_are_listed(answer: spec_fn(Packet) -> Reply, t: nat, i: int)
    requires
        0 <= i < keys_visited(steady(answer), t),
        packet::outcome(answer(packet::index_request(i as u32))) matches Ok(output)
            && connection::number(reading(answer, output.key)) is Some,
    ensures
        ({
            let code = packet::outcome(answer(packet::index_request(i as u32)))->Ok_0.key;
            let info = reading(answer, code)->Ok_0.0;
            schema_of(steady(answer), t).contains(
                (fourcc::code_text(code), numeric::type_tag(info.data_type)),
            )
        }),
{
    let code = packet::outcome(answer(packet::index_request(i as u32)))->Ok_0.key;
    let e = (fourcc::code_text(code), numeric::type_tag(reading(answer, code)->Ok_0.0.data_type));
    assert(entry_at(answer, i) == Some(e));
    steady_schema_members(answer, t, e);
}

/// What the kernel has to say while a connection is opened.
pub struct Kernel {
    pub found: bool,
    pub service: u32,
    pub kr: i32,
    pub conn: u32,
}

/// What comes of a step.
pub open spec fn open_event(step: OpenStep, kernel: Kernel) -> OpenEvent {
    match step {
        OpenStep::Match => OpenEvent::Matched { found: kernel.found },
        OpenStep::Find => OpenEvent::Found { service: kernel.service },
        OpenStep::Open { .. } => OpenEvent::Opened { kr: kernel.kr, conn: kernel.conn },
        _ => OpenEvent::Released,
    }
}

/// A bound on the steps that are left.
pub open spec fn open_left(step: OpenStep) -> int {
    match step {
        OpenStep::Match => 4,
        OpenStep::Find => 3,
        OpenStep::Open { .. } => 2,
        OpenStep::Release { .. } => 1,
        OpenStep::Done { .. } => 0,
    }
}

/// The result of an opening, and the services that are released on the way.
pub open spec fn run_open(step: OpenStep, kernel: Kernel) -> (
    Result<SmcConnection, i32>,
    Seq<u32>,
)
    decreases open_left(step),
{
    match step {
        OpenStep::Done { result } => (result, Seq::empty()),
        _ => {
            let (result, released) = run_open(step.after(open_event(step, kernel)), kernel);
            match step {
                OpenStep::Release { service, .. } => (result, seq![service] + released),
                _ => (result, released),
            }
        },
    }
}

/// Opening fails with -1 if nothing matches, with -2 if there is no service, and with the
/// kernel's code if the user client cannot be opened; else it gives the connection. A service
/// that was found is released, once, and no other.
pub proof fn opening(kernel: Kernel)
    ensures
        run_open(OpenStep::Match, kernel).0 == (if !kernel.found {
            Err::<SmcConnection, i32>(-1i32)
        } else if kernel.service == 0 {
            Err(-2i32)
        } else if kernel.kr != 0 {
            Err(kernel.kr)
        } else {
            Ok(SmcConnection { conn: kernel.conn })
        }),
        run_open(OpenStep::Match, kernel).1 == (if kernel.found && kernel.service != 0 {
            seq![kernel.service]
        } else {
            Seq::<u32>::empty()
        }),
{
    reveal_with_fuel(run_open, 5);
}

/// A readout of no keys sends nothing and gives nothing.
pub proof fn reading_nothing(driver: Driver, t: nat)
    ensures
        Readout::start(Seq::empty()).packet() is None,
        run_readout(Readout::start(Seq::empty()), driver, t).0.values == Map::<
            Seq<char>,
            Numeric,
        >::empty(),
        run_readout(Readout::start(Seq::empty()), driver, t).1 == t,
{
}

proof fn lemma_one_more_key(
    keys: Seq<Seq<char>>,
    key: Seq<char>,
    index: int,
    values: Map<Seq<char>, Numeric>,
    driver: Driver,
    t: nat,
)
    requires
        0 <= index <= keys.len(),
    ensures
        ({
            let (before, n) = run_readout(Readout::at(keys, index, values), driver, t);
            run_readout(Readout::at(keys.push(key), index, values), driver, t) == run_readout(
                Readout::at(keys.push(key), keys.len() as int, before.values),
                driver,
                n,
            )
        }),
    decreases keys.len() - index,
{
    reveal_with_fuel(run_readout, 3);
    let more = keys.push(key);
    if index < keys.len() {
        assert(more[index] == keys[index]);
        if !fourcc::is_key(keys[index]) {
            lemma_one_more_key(keys, key, index + 1, values, driver, t);
        } else {
            let (outcome, end) = key_reading(driver, t, fourcc::packed(keys[index]) as u32);
            lemma_one_more_key(
                keys,
                key,
                index + 1,
                sensors::with_value(values, keys[index], outcome),
                driver,
                end,
            );
        }
    }
}

/// One more requested name is read after all others, and changes the value under that name only.
/// A name that is not four bytes long is passed over. Else the key's info is asked for, then its
/// bytes; if they are a finite number, that is the name's value, whatever it was before, and if
/// not, or if an exchange fails, nothing changes.
pub proof fn reading_one_more_key(driver: Driver, t: nat, keys: Seq<Seq<char>>, key: Seq<char>)
    ensures
        ({
            let (before, n) = run_readout(Readout::start(keys), driver, t);
            let (after, m) = run_readout(Readout::start(keys.push(key)), driver, t);
            let code = fourcc::packed(key) as u32;
            let first = driver(n, packet::info_request(code));
            let info = first.output.key_info;
            let second = driver(n + 1, packet::bytes_request(code, info.data_size));
            let known = first.kr == 0 && first.output.result == 0;
            let read = second.kr == 0 && second.output.result == 0;
            let number = connection::number(Ok((info, second.output.bytes)));
            if vstd::utf8::encode_utf8(key).len() != 4 {
                after.values == before.values && m == n
            } else if !known {
                after.values == before.values && m == n + 1
            } else {
                &&& m == n + 2
                &&& read && number is Some && number->0.finite() ==> after.values
                    == before.values.insert(key, number->0)
                &&& !(read && number is Some && number->0.finite()) ==> after.values
                    == before.values
            }
        }),
{
    lemma_one_more_key(keys, key, 0, Map::empty(), driver, t);
    let more = keys.push(key);
    let (before, n) = run_readout(Readout::start(keys), driver, t);
    assert(more[keys.len() as int] == key);
    assert(sensors::next_key(more, more.len() as int) == more.len());
    reveal_with_fuel(run_readout, 4);
    reveal_with_fuel(sensors::next_key, 3);
}

/// Reading a key gives its info and its bytes if both exchanges succeed, else an error; the bytes
/// are asked for only once the info is known.
pub proof fn reading_by_replies(driver: Driver, t: nat, key: u32)
    ensures
        ({
            let first = driver(t, packet::info_request(key));
            let info = first.output.key_info;
            let second = driver(t + 1, packet::bytes_request(key, info.data_size));
            let known = first.kr == 0 && first.output.result == 0;
            let read = second.kr == 0 && second.output.result == 0;
            let (outcome, end) = run_key(KeyRead::Info { key }, driver, t);
            &&& !known ==> outcome is Err && end == t + 1
            &&& known && !read ==> outcome is Err && end == t + 2
            &&& known && read ==> outcome == Ok::<(packet::SmcKeyInfo, Seq<u8>), i32>(
                (info, second.output.bytes),
            ) && end == t + 2
        }),
{
    reveal_with_fuel(run_key, 2);
}

/// An SMC as a table: its keys in order, and what the readable ones hold.
pub struct Table {
    pub keys: Seq<u32>,
    pub held: Map<u32, (packet::SmcKeyInfo, Seq<u8>)>,
}

impl Table {
    /// A driver over this table. It answers command 8 by the key at the index in `data32`,
    /// command 9 by the info of the key, and command 5, with the size that the info tells, by
    /// the bytes of the key. For the info of a key that holds nothing it reports an error.
    pub open spec fn served_by(self, answer: spec_fn(Packet) -> Reply) -> bool {
        &&& forall|p: Packet|
            p.data8 == 8 && p.data32 < self.keys.len() ==> (#[trigger] answer(p)).kr == 0 && answer(
                p,
            ).output.result == 0 && answer(p).output.key == self.keys[p.data32 as int]
        &&& forall|p: Packet|
            p.data8 == 9 && self.held.contains_key(p.key) ==> (#[trigger] answer(p)).kr == 0
                && answer(p).output.result == 0 && answer(p).output.key_info == self.held[p.key].0
        &&& forall|p: Packet|
            p.data8 == 5 && self.held.contains_key(p.key) && p.key_info.data_size
                == self.held[p.key].0.data_size ==> (#[trigger] answer(p)).kr == 0 && answer(
                p,
            ).output.result == 0 && answer(p).output.bytes == self.held[p.key].1
        &&& forall|p: Packet|
            p.data8 == 9 && !self.held.contains_key(p.key) ==> (#[trigger] answer(p)).kr != 0
                || answer(p).output.result != 0
    }

    /// What is held fits in a packet, and `#KEY` holds the number of keys in four bytes, the
    /// first being the most significant.
    pub open spec fn wf(self) -> bool {
        &&& forall|key: u32| #[trigger]
            self.held.contains_key(key) ==> self.held[key].0.data_size <= 32
                && self.held[key].1.len() == 32
        &&& self.held.contains_key(0x234b4559)
        &&& ({
            let (info, bytes) = self.held[0x234b4559];
            info.data_size == 4 && bytes[0] * 0x1000000 + bytes[1] * 0x10000 + bytes[2] * 0x100
                + bytes[3] == self.keys.len()
        })
    }
}

proof fn lemma_table_key(table: Table, answer: spec_fn(Packet) -> Reply, t: nat, key: u32)
    requires
        table.served_by(answer),
    ensures
        table.held.contains_key(key) ==> key_reading(steady(answer), t, key).0 == Ok::<
            (packet::SmcKeyInfo, Seq<u8>),
            i32,
        >(table.held[key]),
        !table.held.contains_key(key) ==> key_reading(steady(answer), t, key).0 is Err,
{
    let p = packet::info_request(key);
    let size = table.held[key].0.data_size;
    let q = packet::bytes_request(key, size);
    packet::info_requests(key, key);
    packet::bytes_requests(key, size, key, size);
    assert(p.data8 == 9 && p.key == key);
    assert(q.data8 == 5 && q.key == key);
    packet::outcomes(answer(p));
    packet::outcomes(answer(q));
}

proof fn lemma_present_filter(
    keys: Seq<u32>,
    found: Seq<Option<(Seq<char>, Seq<char>)>>,
    listed: spec_fn(u32) -> bool,
    made: spec_fn(u32) -> (Seq<char>, Seq<char>),
)
    requires
        found.len() == keys.len(),
        forall|i: int|
            0 <= i < keys.len() ==> #[trigger] found[i] == (if listed(keys[i]) {
                Some(made(keys[i]))
            } else {
                None
            }),
    ensures
        options::present(found) == keys.filter(listed).map_values(made),
    decreases keys.len(),
{
    reveal(Seq::filter);
    if keys.len() == 0 {
        assert(options::present(found) =~= keys.filter(listed).map_values(made));
    } else {
        let rest = keys.drop_last();
        let earlier = found.drop_last();
        lemma_present_filter(rest, earlier, listed, made);
        assert(found =~= earlier + seq![found.last()]);
        options::present_in_both(earlier, seq![found.last()]);
        let last = keys.last();
        options::present_of_one(made(last));
        assert(found[keys.len() - 1] == found.last());
        if listed(last) {
            assert(seq![found.last()] =~= seq![Some(made(last))]);
            assert(keys.filter(listed).map_values(made) =~= rest.filter(listed).map_values(
                made,
            ).push(made(last)));
        } else {
            assert(seq![found.last()] =~= seq![None]);
        }
        assert(options::present(found) =~= keys.filter(listed).map_values(made));
    }
}

/// The schema of a table is its numeric keys, all of them, in order and as often as the table has
/// them, each by its characters and its type tag.
pub proof fn schema_of_a_table(table: Table, answer: spec_fn(Packet) -> Reply, t: nat)
    requires
        table.wf(),
        table.served_by(answer),
    ensures
        ({
            let (end, n) = run_listing(Listing::start(), steady(answer), t);
            &&& end.packet() is None
            &&& end.entries == table.keys.filter(
                |key: u32|
                    table.held.contains_key(key) && numeric::decoded(
                        table.held[key].0,
                        table.held[key].1,
                    ) is Some,
            ).map_values(
                |key: u32|
                    (fourcc::code_text(key), numeric::type_tag(table.held[key].0.data_type)),
            )
        }),
{
    let listed = |key: u32|
        table.held.contains_key(key) && numeric::decoded(
            table.held[key].0,
            table.held[key].1,
        ) is Some;
    let made = |key: u32|
        (fourcc::code_text(key), numeric::type_tag(table.held[key].0.data_type));
    listing_gives_schema(steady(answer), t);
    steady_schema(answer, t);
    sensors::count_key();
    lemma_table_key(table, answer, t, 0x234b4559);
    let (info, bytes) = table.held[0x234b4559];
    connection::key_counts(info, bytes, 0);
    let count = keys_visited(steady(answer), t);
    assert(count == table.keys.len());
    let found = Seq::new(count, |i: int| entry_at(answer, i));
    assert forall|i: int| 0 <= i < table.keys.len() implies #[trigger] found[i] == (if listed(
        table.keys[i],
    ) {
        Some(made(table.keys[i]))
    } else {
        None
    }) by {
        let p = packet::index_request(i as u32);
        packet::index_requests(i as u32, i as u32);
        assert(p.data8 == 8 && p.data32 == i);
        packet::outcomes(answer(p));
        let key = table.keys[i];
        assert(answer(p).output.key == key);
        lemma_table_key(table, answer, 0, key);
        if table.held.contains_key(key) {
            let (info, bytes) = table.held[key];
            connection::numbers_read(info, bytes, 0);
            sensors::entries_of_keys(key, info, bytes, 0);
        }
    }
    lemma_present_filter(table.keys, found, listed, made);
}

/// If all keys of a table are numeric, the schema has one entry for each, at the key's own index;
/// so different keys have different entries.
pub proof fn schema_of_a_numeric_table(table: Table, answer: spec_fn(Packet) -> Reply, t: nat)
    requires
        table.wf(),
        table.served_by(answer),
        forall|i: int|
            0 <= i < table.keys.len() ==> table.held.contains_key(#[trigger] table.keys[i])
                && numeric::decoded(
                table.held[table.keys[i]].0,
                table.held[table.keys[i]].1,
            ) is Some,
    ensures
        ({
            let entries = run_listing(Listing::start(), steady(answer), t).0.entries;
            &&& entries.len() == table.keys.len()
            &&& forall|i: int|
                0 <= i < entries.len() ==> (#[trigger] entries[i]).0 == fourcc::code_text(
                    table.keys[i],
                ) && entries[i].1 == numeric::type_tag(table.held[table.keys[i]].0.data_type)
            &&& table.keys.no_duplicates() ==> entries.no_duplicates()
        }),
{
    let listed = |key: u32|
        table.held.contains_key(key) && numeric::decoded(
            table.held[key].0,
            table.held[key].1,
        ) is Some;
    let made = |key: u32|
        (fourcc::code_text(key), numeric::type_tag(table.held[key].0.data_type));
    let entries = run_listing(Listing::start(), steady(answer), t).0.entries;
    schema_of_a_table(table, answer, t);
    lemma_filter_keeps_all(table.keys, listed);
    assert(entries == table.keys.map_values(made));
    if table.keys.no_duplicates() {
        assert forall|i: int, j: int|
            0 <= i < entries.len() && 0 <= j < entries.len() && i != j implies entries[i]
            != entries[j] by {
            if entries[i] == entries[j] {
                fourcc::characters_tell_codes_apart(table.keys[i], table.keys[j]);
            }
        }
    }
}

proof fn lemma_filter_keeps_all(keys: Seq<u32>, listed: spec_fn(u32) -> bool)
    requires
        forall|i: int| 0 <= i < keys.len() ==> listed(#[trigger] keys[i]),
    ensures
        keys.filter(listed) == keys,
    decreases keys.len(),
{
    reveal(Seq::filter);
    if keys.len() > 0 {
        assert forall|i: int| 0 <= i < keys.len() - 1 implies listed(
            #[trigger] keys.drop_last()[i],
        ) by {
            assert(listed(keys[i]));
        }
        lemma_filter_keeps_all(keys.drop_last(), listed);
        assert(listed(keys[keys.len() - 1]));
        assert(keys =~= keys.drop_last().push(keys.last()));
    } else {
        assert(keys.filter(listed) =~= keys);
    }
}

/// A readout of a table gives a name exactly if it was asked for, is four bytes long, and the key
/// that these bytes make up holds a finite number; its value is that number.
pub proof fn values_of_a_table(
    table: Table,
    answer: spec_fn(Packet) -> Reply,
    t: nat,
    names: Seq<Seq<char>>,
    name: Seq<char>,
    key: u32,
)
    requires
        table.wf(),
        table.served_by(answer),
        vstd::utf8::encode_utf8(name).len() == 4 ==> key == vstd::utf8::encode_utf8(name)[0]
            * 0x1000000 + vstd::utf8::encode_utf8(name)[1] * 0x10000 + vstd::utf8::encode_utf8(
            name,
        )[2] * 0x100 + vstd::utf8::encode_utf8(name)[3],
    ensures
        ({
            let (end, n) = run_readout(Readout::start(names), steady(answer), t);
            let number = numeric::decoded(table.held[key].0, table.held[key].1);
            &&& end.packet() is None
            &&& end.values.contains_key(name) <==> names.contains(name) && vstd::utf8::encode_utf8(
                name,
            ).len() == 4 && table.held.contains_key(key) && number is Some && number->0.finite()
            &&& end.values.contains_key(name) ==> end.values[name] == number->0
        }),
{
    readout_gives_values(steady(answer), t, names);
    steady_values(answer, t, names, name);
    lemma_table_key(table, answer, 0, key);
    if vstd::utf8::encode_utf8(name).len() == 4 {
        fourcc::bytes_are_digits(name);
        if table.held.contains_key(key) {
            let (info, bytes) = table.held[key];
            connection::numbers_read(info, bytes, 0);
        }
    }
}

} // verus!
