use smc_sensors::energy::{
    joules, rail, read_delta, roll_up, Channel, Energy, Rail, RawChannel, Rollup, Tally,
};
use smc_sensors::meter::{
    channel_names, EnergyMeter, EnergyRun, IOReportApi, MeterEvent, MeterStep, TextStep,
};
use smc_sensors::units::{labeled_unit, EnergyUnit};

fn channel(name: &str, unit: &str, value: i64) -> Channel {
    Channel { name: name.to_string(), energy: joules(unit, value) }
}

fn tally(joules: i64, millijoules: i64, microjoules: i64, nanojoules: i64) -> Tally {
    let mut t = Tally::zero();
    t.count(Energy { unit: EnergyUnit::Joule, value: joules });
    t.count(Energy { unit: EnergyUnit::Millijoule, value: millijoules });
    t.count(Energy { unit: EnergyUnit::Microjoule, value: microjoules });
    t.count(Energy { unit: EnergyUnit::Nanojoule, value: nanojoules });
    t
}

/// The energy in nanojoules, of a tally with no other units than those from nano to kilo.
fn nanojoules(t: &Tally) -> i128 {
    t.sum(EnergyUnit::Kilojoule) * 1_000_000_000_000
        + t.sum(EnergyUnit::Joule) * 1_000_000_000
        + t.sum(EnergyUnit::Millijoule) * 1_000_000
        + t.sum(EnergyUnit::Microjoule) * 1_000
        + t.sum(EnergyUnit::Nanojoule)
}

#[test]
fn labels_name_units() {
    let unit = |label: &str| joules(label, 1).unit;
    assert_eq!(unit("mJ"), EnergyUnit::Millijoule);
    assert_eq!(unit("uJ"), EnergyUnit::Microjoule);
    assert_eq!(unit("\u{b5}J"), EnergyUnit::Microjoule);
    assert_eq!(unit("nJ"), EnergyUnit::Nanojoule);
    assert_eq!(unit("J"), EnergyUnit::Joule);
    assert_eq!(unit(" J\t"), EnergyUnit::Joule);
    assert_eq!(unit("kJ"), EnergyUnit::Kilojoule);
    assert_eq!(unit("MJ"), EnergyUnit::Megajoule);
    assert_eq!(unit("GJ"), EnergyUnit::Gigajoule);
    assert_eq!(unit("pJ"), EnergyUnit::Picojoule);
    assert_eq!(unit("\u{3bc}J"), EnergyUnit::Microjoule);
    assert_eq!(unit("\u{3bc}J nJ"), EnergyUnit::Nanojoule);
    assert_eq!(unit("mW"), EnergyUnit::Millijoule);
    assert_eq!(unit(""), EnergyUnit::Millijoule);
    assert_eq!(unit("(nJ)"), EnergyUnit::Nanojoule);
    assert_eq!(unit("nJ mJ"), EnergyUnit::Millijoule);
    for label in ["  uJ ", "J ", "x"] {
        assert_eq!(unit(label), unit(label.trim()));
    }
    assert_eq!(joules("nJ", -12), Energy { unit: EnergyUnit::Nanojoule, value: -12 });
}

#[test]
fn delta_skips_missing_items() {
    let raw = |name: &str, unit: &str, value: i64| {
        Some(RawChannel { name: name.to_string(), unit: unit.to_string(), value })
    };
    let channels = read_delta(Some(vec![
        raw("CPU Energy", "mJ", 5),
        None,
        raw("ANE0", "nJ", -7),
    ]));
    assert_eq!(channels, vec![channel("CPU Energy", "mJ", 5), channel("ANE0", "nJ", -7)]);
    assert_eq!(read_delta(None), vec![]);
    assert_eq!(read_delta(Some(vec![None])), vec![]);
}

#[test]
fn rails_by_name() {
    assert_eq!(rail("CPU Energy"), Some(Rail::Cpu));
    assert_eq!(rail("GPU Energy"), Some(Rail::Gpu));
    assert_eq!(rail("ANE0"), Some(Rail::Ane));
    assert_eq!(rail("ANE Energy"), Some(Rail::Ane));
    assert_eq!(rail("DRAM0"), Some(Rail::Dram));
    assert_eq!(rail("DISP0"), Some(Rail::Disp));
    assert_eq!(rail("ECPU0"), None);
    assert_eq!(rail("CPU Energy "), None);
}

fn sample() -> Vec<Channel> {
    vec![
        channel("CPU Energy", "mJ", 1500),
        channel("ECPU0", "mJ", 700),
        channel("GPU Energy", "nJ", 42),
        channel("ANE0", "uJ", 3),
        channel("ANE Energy", "mJ", 2),
        channel("DRAM0", "J", 1),
        channel("DISP0", "mJ", -4),
        channel("CPU Energy", "uJ", 8),
    ]
}

#[test]
fn rollup_sums_by_rail_and_unit() {
    let r: Rollup = roll_up(&sample());
    assert_eq!(r.cpu, tally(0, 1500, 8, 0));
    assert_eq!(r.gpu, tally(0, 0, 0, 42));
    assert_eq!(r.ane, tally(0, 2, 3, 0));
    assert_eq!(r.dram, tally(1, 0, 0, 0));
    assert_eq!(r.disp, tally(0, -4, 0, 0));
    assert_eq!(r.total, tally(1, 1498, 11, 42));
}

#[test]
fn every_prefix_has_its_unit() {
    let known = [
        ("qJ", -30),
        ("rJ", -27),
        ("yJ", -24),
        ("zJ", -21),
        ("aJ", -18),
        ("fJ", -15),
        ("pJ", -12),
        ("nJ", -9),
        ("uJ", -6),
        ("mJ", -3),
        ("cJ", -2),
        ("dJ", -1),
        ("J", 0),
        ("daJ", 1),
        ("hJ", 2),
        ("kJ", 3),
        ("MJ", 6),
        ("GJ", 9),
        ("TJ", 12),
        ("PJ", 15),
        ("EJ", 18),
        ("ZJ", 21),
        ("YJ", 24),
        ("RJ", 27),
        ("QJ", 30),
    ];
    for (i, (label, exponent)) in known.iter().enumerate() {
        let unit = labeled_unit(label);
        assert_eq!(unit.exponent(), *exponent, "{label}");
        assert_eq!(unit.index(), i);
        assert_eq!(EnergyUnit::all()[i], unit);
        let r = roll_up(&vec![channel("DRAM0", label, 7), channel("DRAM0", label, 8)]);
        for other in EnergyUnit::all() {
            assert_eq!(r.dram.sum(other), if other == unit { 15 } else { 0 });
        }
        assert_eq!(r.total, r.dram);
    }
    let two = roll_up(&vec![channel("DRAM0", "kJ", 2)]);
    assert_eq!(nanojoules(&two.dram), 2_000_000_000_000);
}

#[test]
fn total_is_the_sum_of_the_rails() {
    let r = roll_up(&sample());
    let sum: i128 =
        [&r.cpu, &r.gpu, &r.ane, &r.dram, &r.disp].iter().map(|t| nanojoules(t)).sum();
    assert_eq!(nanojoules(&r.total), sum);
}

#[test]
fn energies_of_two_runs_add_up() {
    let all = sample();
    let (a, b) = all.split_at(3);
    let (ra, rb) = (roll_up(&a.to_vec()), roll_up(&b.to_vec()));
    assert_eq!(nanojoules(&roll_up(&all).cpu), nanojoules(&ra.cpu) + nanojoules(&rb.cpu));
}

#[test]
fn single_cores_do_not_count() {
    let mut without = sample();
    without.remove(1);
    assert_eq!(roll_up(&without), roll_up(&sample()));
}

#[test]
fn extreme_values_do_not_overflow() {
    let many = vec![channel("CPU Energy", "J", i64::MIN); 1000];
    assert_eq!(roll_up(&many).cpu.sum(EnergyUnit::Joule), i64::MIN as i128 * 1000);
}

#[test]
fn framework_needs_all_symbols() {
    let names = IOReportApi::symbols();
    assert_eq!(names[0], "IOReportCopyChannelsInGroup");
    assert_eq!(names[6], "IOReportSimpleGetIntegerValue");
    let a = [11usize, 12, 13, 14, 15, 16, 17];
    assert_eq!(
        IOReportApi::load(1, &a),
        Some(IOReportApi {
            copy_channels: 11,
            create_sub: 12,
            create_samples: 13,
            create_delta: 14,
            channel_name: 15,
            unit_label: 16,
            simple_int: 17,
        })
    );
    assert_eq!(IOReportApi::load(0, &a), None);
    for i in 0..7 {
        let mut b = a;
        b[i] = 0;
        assert_eq!(IOReportApi::load(1, &b), None);
    }
}

fn meter_with(chans: usize, sub: usize, subbed: usize) -> (Option<EnergyMeter>, Vec<usize>) {
    let mut released = vec![];
    let mut step = EnergyMeter::open();
    loop {
        let event = match step {
            MeterStep::NameGroup => MeterEvent::Named { group: 5 },
            MeterStep::CopyChannels { group } => {
                assert_eq!(group, 5);
                MeterEvent::Copied { chans }
            }
            MeterStep::ReleaseGroup { group, .. } => {
                released.push(group);
                MeterEvent::Released
            }
            MeterStep::Subscribe { chans: c } => {
                assert_eq!(c, chans);
                MeterEvent::Subscribed { sub, subbed }
            }
            MeterStep::Done { meter } => return (meter, released),
        };
        step = step.next(event);
    }
}

#[test]
fn subscribing_prefers_the_subscribed_channels() {
    assert_eq!(meter_with(0, 2, 3), (None, vec![5]));
    assert_eq!(meter_with(1, 0, 3), (None, vec![5]));
    assert_eq!(meter_with(1, 2, 0), (Some(EnergyMeter { sub: 2, chans: 1 }), vec![5]));
    assert_eq!(meter_with(1, 2, 3), (Some(EnergyMeter { sub: 2, chans: 3 }), vec![5]));
}

#[test]
fn texts_fall_back_to_a_copy() {
    let done = |s: &str| TextStep::Done { text: s.to_string() };
    assert_eq!(TextStep::to_string(0), done(""));
    assert_eq!(TextStep::to_string(7), TextStep::Direct);
    assert_eq!(TextStep::Direct.next(Some("a".to_string())), done("a"));
    assert_eq!(TextStep::Direct.next(None), TextStep::Copy);
    assert_eq!(TextStep::Copy.next(Some("b".to_string())), done("b"));
    assert_eq!(TextStep::Copy.next(None), done(""));
    assert_eq!(done("c").next(Some("d".to_string())), done("c"));
}

#[test]
fn rounds_announce_once_and_release_what_is_replaced() {
    let channels = sample();
    let mut run = EnergyRun::start(100);
    let mut released = vec![];
    for i in 0..3usize {
        let round = run.round(101 + i, 200 + i, &channels);
        assert_eq!(round.announce.is_some(), i == 0);
        if let Some(names) = round.announce {
            assert_eq!(names, channel_names(&channels));
            assert_eq!(names[1], "ECPU0");
        }
        assert_eq!(round.rollup, roll_up(&channels));
        released.extend(round.release);
    }
    assert_eq!(released, vec![200, 100, 201, 101, 202, 102]);
    assert_eq!(run.prev, 103);
}
