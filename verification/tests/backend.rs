use smc_sensors::connection::{KeyRead, KeyStep, OpenEvent, OpenStep, SmcConnection};
use smc_sensors::fourcc::fourcc;
use smc_sensors::numeric::Numeric;
use smc_sensors::packet::{
    SmcKeyData, SmcKeyInfo, SmcReply, SMC_CMD_READ_BYTES, SMC_CMD_READ_INDEX, SMC_CMD_READ_KEYINFO,
};
use smc_sensors::sensors::{schema_entry, AppleSmc};

/// An SMC in memory: keys with their type, size and bytes.
struct FakeSmc {
    keys: Vec<(u32, u32, u32, Vec<u8>)>,
    count_fails: bool,
    bad_index: Option<u32>,
}

impl FakeSmc {
    fn answer(&self, p: &SmcKeyData) -> SmcReply {
        let mut output = SmcKeyData::default();
        let known = if p.key == fourcc("#KEY") {
            if self.count_fails {
                None
            } else {
                Some((fourcc("ui32"), 4, (self.keys.len() as u32).to_be_bytes().to_vec()))
            }
        } else {
            self.keys.iter().find(|k| k.0 == p.key).map(|k| (k.1, k.2, k.3.clone()))
        };
        match p.data8 {
            SMC_CMD_READ_INDEX => {
                if Some(p.data32) == self.bad_index {
                    return SmcReply { kr: -5, output };
                }
                output.key = self.keys[p.data32 as usize].0;
            }
            SMC_CMD_READ_KEYINFO => match known {
                Some((data_type, data_size, _)) => {
                    output.key_info = SmcKeyInfo { data_size, data_type, data_attributes: 0 };
                }
                None => output.result = 132,
            },
            SMC_CMD_READ_BYTES => match known {
                Some((_, data_size, bytes)) => {
                    assert_eq!(p.key_info.data_size, data_size);
                    output.bytes[..bytes.len()].copy_from_slice(&bytes);
                }
                None => output.result = 132,
            },
            _ => panic!("unknown command"),
        }
        SmcReply { kr: 0, output }
    }

    fn schema(&self) -> (Vec<(String, String)>, usize) {
        let smc = AppleSmc::open(Ok(SmcConnection { conn: 9 })).unwrap();
        let mut run = smc.schema();
        let mut calls = 0;
        while let Some(p) = run.request() {
            let reply = self.answer(&p);
            run = run.reply(&reply);
            calls += 1;
        }
        (run.into_schema(), calls)
    }

    fn read(&self, keys: &[&str]) -> (Vec<Option<Numeric>>, usize) {
        let smc = AppleSmc::open(Ok(SmcConnection { conn: 9 })).unwrap();
        let mut run = smc.read(keys.iter().map(|k| k.to_string()).collect());
        let mut calls = 0;
        while let Some(p) = run.request() {
            let reply = self.answer(&p);
            run = run.reply(&reply);
            calls += 1;
        }
        let values = run.into_values();
        (keys.iter().map(|k| values.get(k).copied()).collect(), calls)
    }
}

fn machine() -> FakeSmc {
    let k = |name: &str, tag: &str, bytes: &[u8]| {
        (fourcc(name), fourcc(tag), bytes.len() as u32, bytes.to_vec())
    };
    FakeSmc {
        keys: vec![
            k("TC0P", "flt ", &36.5f32.to_le_bytes()),
            k("F0Ac", "fpe2", &[0x12, 0x34]),
            k("RVBF", "ch8*", &[1, 2, 3, 4]),
            k("TB0T", "sp78", &[0xff, 0x80]),
            k("T  x", "ui8 ", &[7]),
            k("TInf", "flt ", &f32::INFINITY.to_le_bytes()),
            k("NAvg", "ui16", &[1, 0]),
            k("Zero", "ui32", &[]),
        ],
        count_fails: false,
        bad_index: None,
    }
}

#[test]
fn schema_lists_numeric_keys_in_order() {
    let (schema, calls) = machine().schema();
    let expected: Vec<(String, String)> = [
        ("TC0P", "flt"),
        ("F0Ac", "fpe2"),
        ("TB0T", "sp78"),
        ("T  x", "ui8"),
        ("TInf", "flt"),
        ("NAvg", "ui16"),
    ]
    .iter()
    .map(|(a, b)| (a.to_string(), b.to_string()))
    .collect();
    assert_eq!(schema, expected);
    assert!(calls <= 2 + 3 * 8);
}

#[test]
fn schema_skips_an_index_that_fails() {
    let mut smc = machine();
    smc.bad_index = Some(0);
    let (schema, _) = smc.schema();
    assert_eq!(schema.len(), 5);
    assert_eq!(schema[0].0, "F0Ac");
}

#[test]
fn schema_is_empty_without_a_count() {
    let mut smc = machine();
    smc.count_fails = true;
    assert_eq!(smc.schema(), (vec![], 1));
}

#[test]
fn read_gives_finite_numbers_and_omits_the_rest() {
    let (values, calls) = machine().read(&["TC0P", "RVBF", "none", "TInf", "TB0T", "T  x"]);
    assert_eq!(
        values,
        vec![
            Some(Numeric::Float { bits: 36.5f32.to_bits() }),
            None,
            None,
            None,
            Some(Numeric::Fixed { raw: -128, denominator: 256 }),
            Some(Numeric::Integer { value: 7 }),
        ]
    );
    assert!(calls <= 2 * 6);
    assert_eq!(machine().read(&[]), (vec![], 0));
}

#[test]
fn listed_keys_can_be_read() {
    let smc = machine();
    let (schema, _) = smc.schema();
    for (key, tag) in &schema {
        let (values, _) = smc.read(&[key.as_str()]);
        assert_eq!(values[0].is_some(), key != "TInf", "{key} {tag}");
    }
}

#[test]
fn a_later_reading_of_a_key_wins() {
    let smc = AppleSmc::open(Ok(SmcConnection { conn: 1 })).unwrap();
    let mut run = smc.read(vec!["NAvg".to_string(), "NAvg".to_string()]);
    let mut value = 0u8;
    while let Some(p) = run.request() {
        let mut output = SmcKeyData::default();
        if p.data8 == SMC_CMD_READ_KEYINFO {
            output.key_info.data_type = fourcc("ui8 ");
            output.key_info.data_size = 1;
        } else {
            value += 1;
            output.bytes[0] = value;
        }
        run = run.reply(&SmcReply { kr: 0, output });
    }
    let values = run.into_values();
    assert_eq!(values.len(), 1);
    assert_eq!(values.get("NAvg"), Some(&Numeric::Integer { value: 2 }));
}

fn only(name: &str, tag: &str, size: u32, bytes: &[u8]) -> FakeSmc {
    FakeSmc {
        keys: vec![(fourcc(name), fourcc(tag), size, bytes.to_vec())],
        count_fails: false,
        bad_index: None,
    }
}

#[test]
fn a_name_with_a_space_is_listed() {
    let (schema, _) = only("TC0 ", "ui8 ", 1, &[3]).schema();
    assert_eq!(schema, vec![("TC0 ".to_string(), "ui8".to_string())]);
}

#[test]
fn a_code_beyond_ascii_is_listed_but_its_name_cannot_be_read_back() {
    let mut smc = only("TC0P", "ui8 ", 1, &[3]);
    smc.keys[0].0 = 0xc2b5_4a41;
    let (schema, _) = smc.schema();
    assert_eq!(schema, vec![("\u{c2}\u{b5}JA".to_string(), "ui8".to_string())]);
    assert_eq!(smc.read(&["\u{c2}\u{b5}JA"]), (vec![None], 0));
    assert_eq!(smc.read(&["\u{b5}JA"]).0, vec![Some(Numeric::Integer { value: 3 })]);
}

#[test]
fn names_that_are_not_four_bytes_long_are_omitted() {
    let smc = machine();
    assert_eq!(smc.read(&["TC0PX"]), (vec![None], 0));
    assert_eq!(smc.read(&["TC0"]), (vec![None], 0));
    assert_eq!(smc.read(&[""]), (vec![None], 0));
    let (values, calls) = smc.read(&["TC0PX", "TC0P", "x", "NAvg", "NAvg "]);
    assert_eq!(
        values,
        vec![
            None,
            Some(Numeric::Float { bits: 36.5f32.to_bits() }),
            None,
            Some(Numeric::Integer { value: 256 }),
            None,
        ]
    );
    assert_eq!(calls, 4);
}

#[test]
fn a_value_longer_than_its_packet_is_unreadable() {
    let mut smc = machine();
    smc.keys.push((fourcc("Long"), fourcc("ui32"), 33, vec![1; 32]));
    smc.keys.push((fourcc("Last"), fourcc("ui32"), 32, vec![1; 32]));
    let (values, _) = smc.read(&["Long", "Last"]);
    assert_eq!(values, vec![None, Some(Numeric::Integer { value: 0x0101_0101_0101_0101 })]);
    let (schema, _) = smc.schema();
    assert!(!schema.iter().any(|e| e.0 == "Long"));
    assert!(schema.iter().any(|e| e.0 == "Last"));
}

#[test]
fn a_count_longer_than_its_packet_is_no_count() {
    let smc = AppleSmc::open(Ok(SmcConnection { conn: 1 })).unwrap();
    let mut output = SmcKeyData::default();
    output.key_info.data_size = 33;
    let run = smc.schema().reply(&SmcReply { kr: 0, output });
    let run = run.reply(&SmcReply { kr: 0, output: SmcKeyData::default() });
    assert!(run.request().is_none());
    assert_eq!(run.into_schema(), vec![]);
    let info = |data_size| SmcKeyInfo { data_size, data_type: 0, data_attributes: 0 };
    assert_eq!(SmcConnection::key_total(&Ok((info(33), [1; 32]))), None);
    assert_eq!(SmcConnection::key_total(&Ok((info(2), [1; 32]))), Some(0x0101));
    assert_eq!(SmcConnection::key_total(&Err(4)), None);
}

#[test]
fn exchanges_report_the_kernel_first() {
    let mut output = SmcKeyData::default();
    assert_eq!(SmcConnection::call(&SmcReply { kr: 0, output }), Ok(output));
    output.result = 200;
    assert_eq!(SmcConnection::call(&SmcReply { kr: 0, output }), Err(200));
    assert_eq!(SmcConnection::call(&SmcReply { kr: -3, output }), Err(-3));
    output.result = 0;
    output.key = 0x1234;
    assert_eq!(SmcConnection::key_at_index(&SmcReply { kr: 0, output }), Ok(0x1234));
    assert_eq!(SmcConnection::key_at_index(&SmcReply { kr: 7, output }), Err(7));
}

#[test]
fn a_key_is_read_in_two_exchanges() {
    let read = SmcConnection::read_key(0x4142_4344);
    let p = read.request();
    assert_eq!((p.key, p.data8), (0x4142_4344, 9));
    assert_eq!(p.key_info.data_size, 0);
    let mut output = SmcKeyData::default();
    output.key_info = SmcKeyInfo { data_size: 3, data_type: 77, data_attributes: 1 };
    let read = match read.reply(&SmcReply { kr: 0, output }) {
        KeyStep::Again { read } => read,
        KeyStep::Finished { .. } => panic!("ended early"),
    };
    assert_eq!(read, KeyRead::Bytes { key: 0x4142_4344, info: output.key_info });
    let p = read.request();
    assert_eq!((p.key, p.data8), (0x4142_4344, 5));
    assert_eq!(p.key_info, SmcKeyInfo { data_size: 3, data_type: 0, data_attributes: 0 });
    let mut second = SmcKeyData::default();
    second.bytes[2] = 9;
    assert_eq!(
        read.reply(&SmcReply { kr: 0, output: second }),
        KeyStep::Finished { outcome: Ok((output.key_info, second.bytes)) }
    );
    assert_eq!(
        read.reply(&SmcReply { kr: 4, output: second }),
        KeyStep::Finished { outcome: Err(4) }
    );
}

#[test]
fn the_count_keeps_the_low_bits() {
    let mut bytes = [0u8; 32];
    bytes[..6].copy_from_slice(&[9, 9, 0, 0, 1, 2]);
    let info = SmcKeyInfo { data_size: 6, data_type: 0, data_attributes: 0 };
    assert_eq!(SmcConnection::key_count(&Ok((info, bytes))), Ok(0x0102));
    assert_eq!(SmcConnection::key_count(&Err(-9)), Err(-9));
    let p = SmcConnection::index_packet(5);
    assert_eq!((p.data8, p.data32, p.key), (8, 5, 0));
}

#[test]
fn entries_and_numbers_of_a_reading() {
    let info = SmcKeyInfo { data_size: 1, data_type: fourcc("ui8 "), data_attributes: 0 };
    let ok = Ok((info, [3u8; 32]));
    assert_eq!(
        schema_entry(fourcc("TC0P"), &ok),
        Some(("TC0P".to_string(), "ui8".to_string()))
    );
    assert_eq!(
        schema_entry(fourcc("T 0\u{7}"), &ok),
        Some(("T 0\u{7}".to_string(), "ui8".to_string()))
    );
    assert_eq!(
        schema_entry(0xe943_3050, &ok),
        Some(("\u{e9}C0P".to_string(), "ui8".to_string()))
    );
    assert_eq!(schema_entry(fourcc("TC0P"), &Err(1)), None);
    assert_eq!(SmcConnection::read_numeric(&ok), Some(Numeric::Integer { value: 3 }));
    assert_eq!(SmcConnection::read_numeric(&Err(1)), None);
}

fn open_with(found: bool, service: u32, kr: i32, conn: u32) -> (Result<SmcConnection, i32>, Vec<u32>) {
    let mut released = vec![];
    let mut step = SmcConnection::open();
    loop {
        let event = match step {
            OpenStep::Match => OpenEvent::Matched { found },
            OpenStep::Find => OpenEvent::Found { service },
            OpenStep::Open { service: s } => {
                assert_eq!(s, service);
                OpenEvent::Opened { kr, conn }
            }
            OpenStep::Release { service: s, .. } => {
                released.push(s);
                OpenEvent::Released
            }
            OpenStep::Done { result } => return (result, released),
        };
        step = step.next(event);
    }
}

#[test]
fn opening_gives_a_connection_or_the_error() {
    assert_eq!(open_with(false, 3, 0, 8), (Err(-1), vec![]));
    assert_eq!(open_with(true, 0, 0, 8), (Err(-2), vec![]));
    assert_eq!(open_with(true, 3, -77, 8), (Err(-77), vec![3]));
    assert_eq!(open_with(true, 3, 0, 8), (Ok(SmcConnection { conn: 8 }), vec![3]));
    assert_eq!(
        AppleSmc::open(Ok(SmcConnection { conn: 8 })),
        Ok(AppleSmc { conn: SmcConnection { conn: 8 } })
    );
    assert_eq!(AppleSmc::open(Err(-2)), Err(-2));
}
