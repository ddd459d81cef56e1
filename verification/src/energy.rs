//! Energy readings of the IOReport "Energy Model" channels and their rollup by subsystem.

use vstd::prelude::*;

use crate::options;
use crate::text;
use crate::units;
use crate::units::{labeled_unit, EnergyUnit, UNIT_COUNT};

verus! {

/// An energy: so many of a unit.
#[derive(Clone, Copy, Debug, PartialEq, Eq)]
pub struct Energy {
    pub unit: EnergyUnit,
    pub value: i64,
}

impl Energy {
    /// The energy in quectojoules.
    pub open spec fn quectojoules(self) -> int {
        self.value * self.unit.quectojoules()
    }
}

/// An energy reading in its labeled unit.
pub fn joules(unit: &str, value: i64) -> (r: Energy)
    ensures
        r.unit == units::unit_of(unit@),
        r.value == value,
{
    Energy { unit: labeled_unit(unit), value }
}

/// A channel as the framework gives it: its name, the label of its unit, and its integer value.
#[derive(Clone, Debug, PartialEq, Eq)]
pub struct RawChannel {
    pub name: String,
    pub unit: String,
    pub value: i64,
}

/// A named channel and its energy.
#[derive(Clone, Debug, PartialEq, Eq)]
pub struct Channel {
    pub name: String,
    pub energy: Energy,
}

/// A [`Channel`] with its name as characters.
pub struct ChannelView {
    pub name: Seq<char>,
    pub energy: Energy,
}

impl View for Channel {
    type V = ChannelView;

    open spec fn view(&self) -> ChannelView {
        ChannelView { name: self.name@, energy: self.energy }
    }
}

impl RawChannel {
    /// The channel with its value in its labeled unit.
    pub open spec fn reading(self) -> ChannelView {
        ChannelView {
            name: self.name@,
            energy: Energy { unit: units::unit_of(self.unit@), value: self.value },
        }
    }
}

/// Channels as their views.
pub open spec fn channels_view(channels: Seq<Channel>) -> Seq<ChannelView> {
    channels.map_values(|c: Channel| c@)
}

/// The readings of the items that are there, in order.
pub open spec fn readings(items: Seq<Option<RawChannel>>) -> Seq<ChannelView> {
    options::present(
        items.map_values(
            |item: Option<RawChannel>|
                match item {
                    Some(raw) => Some(raw.reading()),
                    None => None::<ChannelView>,
                },
        ),
    )
}

/// The channels of a delta sample. `items` is the sample's channel array, if it has one; an
/// item may be missing.
pub fn read_delta(items: Option<Vec<Option<RawChannel>>>) -> (r: Vec<Channel>)
    ensures
        channels_view(r@) == (match items {
            Some(items) => readings(items@),
            None => Seq::empty(),
        }),
        items is None ==> r@.len() == 0,
        items matches Some(items) ==> ((forall|i: int|
            0 <= i < items@.len() ==> #[trigger] items@[i] is Some) ==> r@.len() == items@.len()
            && forall|i: int|
            0 <= i < items@.len() ==> (#[trigger] r@[i]).name@ == items@[i]->0.name@
                && r@[i].energy.value == items@[i]->0.value && r@[i].energy.unit == units::unit_of(
                items@[i]->0.unit@,
            )),
{
    let mut out: Vec<Channel> = Vec::new();
    assert(channels_view(out@) =~= Seq::<ChannelView>::empty());
    let mut items: Vec<Option<RawChannel>> = match items {
        Some(items) => items,
        None => {
            return out;
        },
    };
    let ghost all = items@;
    let n: usize = items.len();
    let mut i: usize = 0;
    assert(all.skip(0) =~= all);
    assert(channels_view(out@) + readings(all.skip(0)) =~= readings(all));
    while i < n
        invariant
            i <= n,
            n == all.len(),
            items@.len() == n,
            forall|j: int| i <= j < n ==> items@[j] == all[j],
            channels_view(out@) + readings(all.skip(i as int)) =~= readings(all),
        decreases n - i,
    {
        let item: Option<RawChannel> = items[i].take();
        let ghost before = out@;
        if let Some(raw) = item {
            let energy: Energy = joules(raw.unit.as_str(), raw.value);
            out.push(Channel { name: raw.name, energy });
        }
        proof {
            lemma_readings_step(all.skip(i as int));
            assert(all.skip(i as int).drop_first() =~= all.skip(i + 1));
            assert(channels_view(out@) =~= options::with_option(
                channels_view(before),
                (match all[i as int] {
                    Some(raw) => Some(raw.reading()),
                    None => None,
                }),
            ));
        }
        i = i + 1;
    }
    assert(readings(all.skip(n as int)) =~= Seq::<ChannelView>::empty());
    proof {
        assert(channels_view(out@) =~= readings(all));
        if forall|i: int| 0 <= i < all.len() ==> #[trigger] all[i] is Some {
            whole_readings(all);
            assert forall|i: int| 0 <= i < all.len() implies (#[trigger] out@[i]).name@
                == all[i]->0.name@ && out@[i].energy.value == all[i]->0.value
                && out@[i].energy.unit == units::unit_of(all[i]->0.unit@) by {
                assert(channels_view(out@)[i] == out@[i]@);
            }
        }
    }
    out
}

proof fn lemma_readings_step(items: Seq<Option<RawChannel>>)
    requires
        items.len() > 0,
    ensures
        readings(items) == options::with_option(
            Seq::<ChannelView>::empty(),
            (match items[0] {
                Some(raw) => Some(raw.reading()),
                None => None,
            }),
        ) + readings(items.drop_first()),
{
    let f = |item: Option<RawChannel>|
        match item {
            Some(raw) => Some(raw.reading()),
            None => None::<ChannelView>,
        };
    assert(items.map_values(f).drop_first() =~= items.drop_first().map_values(f));
}

/// The subsystems with a rollup channel.
#[derive(Clone, Copy, Debug, PartialEq, Eq, Structural)]
pub enum Rail {
    Cpu,
    Gpu,
    Ane,
    Dram,
    Disp,
}

/// The subsystem whose rollup channel has this name. The channels of single cores and blocks
/// have none: their energy is in a rollup channel already.
pub open spec fn rail_of(name: Seq<char>) -> Option<Rail> {
    if name == "CPU Energy"@ {
        Some(Rail::Cpu)
    } else if name == "GPU Energy"@ {
        Some(Rail::Gpu)
    } else if name == "ANE0"@ || name == "ANE Energy"@ {
        Some(Rail::Ane)
    } else if name == "DRAM0"@ {
        Some(Rail::Dram)
    } else if name == "DISP0"@ {
        Some(Rail::Disp)
    } else {
        None
    }
}

/// The subsystem whose rollup channel has this name.
pub fn rail(name: &str) -> (r: Option<Rail>)
    ensures
        r == rail_of(name@),
        r == Some(Rail::Cpu) <==> name@ == "CPU Energy"@,
        r == Some(Rail::Gpu) <==> name@ == "GPU Energy"@,
        r == Some(Rail::Ane) <==> name@ == "ANE0"@ || name@ == "ANE Energy"@,
        r == Some(Rail::Dram) <==> name@ == "DRAM0"@,
        r == Some(Rail::Disp) <==> name@ == "DISP0"@,
        r is Some <==> name@ == "CPU Energy"@ || name@ == "GPU Energy"@ || name@ == "ANE0"@ || name@
            == "ANE Energy"@ || name@ == "DRAM0"@ || name@ == "DISP0"@,
{
    proof {
        rail_names(name@);
    }
    if text::same_text(name, "CPU Energy") {
        Some(Rail::Cpu)
    } else if text::same_text(name, "GPU Energy") {
        Some(Rail::Gpu)
    } else if text::same_text(name, "ANE0") || text::same_text(name, "ANE Energy") {
        Some(Rail::Ane)
    } else if text::same_text(name, "DRAM0") {
        Some(Rail::Dram)
    } else if text::same_text(name, "DISP0") {
        Some(Rail::Disp)
    } else {
        None
    }
}

/// A sum of energies, exact: one sum for each unit, from the smallest unit to the largest.
#[derive(Clone, Copy, Debug, PartialEq, Eq)]
pub struct Tally {
    pub sums: [i128; 25],
}

/// So many of each of the first `n` units, in quectojoules.
pub open spec fn weighed(parts: spec_fn(int) -> int, n: int) -> int
    decreases n,
{
    if n <= 0 {
        0
    } else {
        weighed(parts, n - 1) + parts(n - 1) * units::unit_at(n - 1).quectojoules()
    }
}

impl Tally {
    /// The sum in one unit.
    pub open spec fn part(self, unit: EnergyUnit) -> int {
        self.sums@[unit.place()] as int
    }

    /// The whole energy, in quectojoules.
    pub open spec fn quectojoules(self) -> int {
        weighed(|i: int| self.sums@[i] as int, UNIT_COUNT as int)
    }

    /// The sum of nothing.
    pub fn zero() -> (r: Tally)
        ensures
            forall|unit: EnergyUnit| #[trigger] r.part(unit) == 0,
    {
        let r = Tally { sums: [0i128; 25] };
        assert forall|unit: EnergyUnit| #[trigger] r.part(unit) == 0 by {
            units::unit_places(unit, 0);
        }
        r
    }

    /// The sum in one unit.
    pub fn sum(&self, unit: EnergyUnit) -> (r: i128)
        ensures
            r == self.part(unit),
    {
        self.sums[unit.index()]
    }

    /// Adds one energy.
    pub fn count(&mut self, energy: Energy)
        requires
            i128::MIN <= old(self).part(energy.unit) + energy.value <= i128::MAX,
        ensures
            forall|unit: EnergyUnit| #[trigger]
                final(self).part(unit) == old(self).part(unit) + (if unit == energy.unit {
                    energy.value as int
                } else {
                    0
                }),
    {
        let i: usize = energy.unit.index();
        self.sums[i] = self.sums[i] + energy.value as i128;
        proof {
            assert forall|unit: EnergyUnit| #[trigger]
                self.part(unit) == old(self).part(unit) + (if unit == energy.unit {
                    energy.value as int
                } else {
                    0
                }) by {
                units::unit_places(unit, 0);
                units::unit_places(energy.unit, 0);
            }
        }
    }
}

/// The sum, in one unit, of the channels that are picked.
pub open spec fn unit_sum(
    channels: Seq<ChannelView>,
    picked: spec_fn(Option<Rail>) -> bool,
    unit: EnergyUnit,
) -> int
    decreases channels.len(),
{
    if channels.len() == 0 {
        0
    } else {
        let last = channels.last();
        unit_sum(channels.drop_last(), picked, unit) + (if picked(rail_of(last.name))
            && last.energy.unit == unit {
            last.energy.value as int
        } else {
            0
        })
    }
}

/// The energy, in quectojoules, of the channels that are picked.
pub open spec fn energy_sum(
    channels: Seq<ChannelView>,
    picked: spec_fn(Option<Rail>) -> bool,
) -> int
    decreases channels.len(),
{
    if channels.len() == 0 {
        0
    } else {
        let last = channels.last();
        energy_sum(channels.drop_last(), picked) + (if picked(rail_of(last.name)) {
            last.energy.quectojoules()
        } else {
            0
        })
    }
}

/// Picks the rollup channels of one subsystem.
pub open spec fn on(rail: Rail) -> spec_fn(Option<Rail>) -> bool {
    |r: Option<Rail>| r == Some(rail)
}

/// Picks all rollup channels.
pub open spec fn on_any() -> spec_fn(Option<Rail>) -> bool {
    |r: Option<Rail>| r is Some
}

/// The energy of each subsystem over an interval, and of all of them together.
#[derive(Clone, Copy, Debug, PartialEq, Eq)]
pub struct Rollup {
    pub cpu: Tally,
    pub gpu: Tally,
    pub ane: Tally,
    pub dram: Tally,
    pub disp: Tally,
    pub total: Tally,
}

impl Rollup {
    /// The energy of one subsystem.
    pub open spec fn of(self, rail: Rail) -> Tally {
        match rail {
            Rail::Cpu => self.cpu,
            Rail::Gpu => self.gpu,
            Rail::Ane => self.ane,
            Rail::Dram => self.dram,
            Rail::Disp => self.disp,
        }
    }

    /// This is the rollup of `channels`: each tally holds, unit by unit, the sum over its
    /// channels.
    pub open spec fn sums(self, channels: Seq<ChannelView>) -> bool {
        &&& forall|rail: Rail, unit: EnergyUnit| #[trigger]
            self.of(rail).part(unit) == unit_sum(channels, on(rail), unit)
        &&& forall|unit: EnergyUnit| #[trigger]
            self.total.part(unit) == unit_sum(channels, on_any(), unit)
    }
}

proof fn lemma_unit_sum_bound(
    channels: Seq<ChannelView>,
    picked: spec_fn(Option<Rail>) -> bool,
    unit: EnergyUnit,
)
    ensures
        -0x8000_0000_0000_0000 * channels.len() <= unit_sum(channels, picked, unit)
            <= 0x7fff_ffff_ffff_ffff * channels.len(),
    decreases channels.len(),
{
    if channels.len() > 0 {
        lemma_unit_sum_bound(channels.drop_last(), picked, unit);
    }
}

/// Sums the rollup channels by subsystem.
pub fn roll_up(channels: &Vec<Channel>) -> (r: Rollup)
    ensures
        r.sums(channels_view(channels@)),
        forall|unit: EnergyUnit|
            #![trigger r.cpu.part(unit)]
            #![trigger r.gpu.part(unit)]
            #![trigger r.ane.part(unit)]
            #![trigger r.dram.part(unit)]
            #![trigger r.disp.part(unit)]
            {
                &&& r.cpu.part(unit) == unit_sum(channels_view(channels@), on(Rail::Cpu), unit)
                &&& r.gpu.part(unit) == unit_sum(channels_view(channels@), on(Rail::Gpu), unit)
                &&& r.ane.part(unit) == unit_sum(channels_view(channels@), on(Rail::Ane), unit)
                &&& r.dram.part(unit) == unit_sum(channels_view(channels@), on(Rail::Dram), unit)
                &&& r.disp.part(unit) == unit_sum(channels_view(channels@), on(Rail::Disp), unit)
            },
        forall|unit: EnergyUnit| #[trigger]
            r.total.part(unit) == unit_sum(channels_view(channels@), on_any(), unit),
{
    let mut r = Rollup {
        cpu: Tally::zero(),
        gpu: Tally::zero(),
        ane: Tally::zero(),
        dram: Tally::zero(),
        disp: Tally::zero(),
        total: Tally::zero(),
    };
    let ghost all = channels_view(channels@);
    let n: usize = channels.len();
    let mut i: usize = 0;
    while i < n
        invariant
            i <= n,
            n == channels@.len(),
            all == channels_view(channels@),
            r.sums(all.take(i as int)),
        decreases n - i,
    {
        let energy: Energy = channels[i].energy;
        let ghost before = r;
        let ghost seen = all.take(i as int);
        proof {
            assert(all.take(i + 1).drop_last() =~= seen);
            assert(all[i as int] == channels@[i as int]@);
            assert forall|rail: Rail, unit: EnergyUnit|
                i128::MIN <= #[trigger] r.of(rail).part(unit) + energy.value <= i128::MAX by {
                lemma_unit_sum_bound(seen, on(rail), unit);
            }
            assert forall|unit: EnergyUnit|
                i128::MIN <= #[trigger] r.total.part(unit) + energy.value <= i128::MAX by {
                lemma_unit_sum_bound(seen, on_any(), unit);
            }
        }
        if let Some(which) = rail(channels[i].name.as_str()) {
            assert(i128::MIN <= r.of(which).part(energy.unit) + energy.value <= i128::MAX);
            match which {
                Rail::Cpu => {
                    r.cpu.count(energy);
                },
                Rail::Gpu => {
                    r.gpu.count(energy);
                },
                Rail::Ane => {
                    r.ane.count(energy);
                },
                Rail::Dram => {
                    r.dram.count(energy);
                },
                Rail::Disp => {
                    r.disp.count(energy);
                },
            }
            r.total.count(energy);
        }
        proof {
            assert forall|rail: Rail, unit: EnergyUnit| #[trigger]
                r.of(rail).part(unit) == unit_sum(all.take(i + 1), on(rail), unit) by {
                assert(before.of(rail).part(unit) == unit_sum(seen, on(rail), unit));
            }
            assert forall|unit: EnergyUnit| #[trigger]
                r.total.part(unit) == unit_sum(all.take(i + 1), on_any(), unit) by {
                assert(before.total.part(unit) == unit_sum(seen, on_any(), unit));
            }
        }
        i = i + 1;
    }
    assert(all.take(n as int) =~= all);
    proof {
        assert forall|unit: EnergyUnit|
            #![trigger r.cpu.part(unit)]
            #![trigger r.gpu.part(unit)]
            #![trigger r.ane.part(unit)]
            #![trigger r.dram.part(unit)]
            #![trigger r.disp.part(unit)]
            {
                &&& r.cpu.part(unit) == unit_sum(all, on(Rail::Cpu), unit)
                &&& r.gpu.part(unit) == unit_sum(all, on(Rail::Gpu), unit)
                &&& r.ane.part(unit) == unit_sum(all, on(Rail::Ane), unit)
                &&& r.dram.part(unit) == unit_sum(all, on(Rail::Dram), unit)
                &&& r.disp.part(unit) == unit_sum(all, on(Rail::Disp), unit)
            } by {
            rollup_parts(r, all, unit);
        }
    }
    r
}

proof fn lemma_weighed_same(f: spec_fn(int) -> int, g: spec_fn(int) -> int, n: int)
    requires
        forall|i: int| 0 <= i < n ==> #[trigger] f(i) == g(i),
    ensures
        weighed(f, n) == weighed(g, n),
    decreases n,
{
    if n > 0 {
        lemma_weighed_same(f, g, n - 1);
        assert(f(n - 1) == g(n - 1));
    }
}

proof fn lemma_weighed_more(
    f: spec_fn(int) -> int,
    g: spec_fn(int) -> int,
    place: int,
    value: int,
    n: int,
)
    requires
        0 <= place,
        forall|i: int|
            0 <= i < n ==> #[trigger] g(i) == f(i) + (if i == place {
                value
            } else {
                0
            }),
    ensures
        weighed(g, n) == weighed(f, n) + (if place < n {
            value * units::unit_at(place).quectojoules()
        } else {
            0
        }),
    decreases n,
{
    if n > 0 {
        lemma_weighed_more(f, g, place, value, n - 1);
        let w = units::unit_at(n - 1).quectojoules();
        assert(g(n - 1) == f(n - 1) + (if n - 1 == place {
            value
        } else {
            0
        }));
        assert((f(n - 1) + value) * w == f(n - 1) * w + value * w) by (nonlinear_arith);
    }
}

/// The energy of the picked channels, collected from the sums of the single units.
proof fn lemma_energy_by_units(
    channels: Seq<ChannelView>,
    picked: spec_fn(Option<Rail>) -> bool,
)
    ensures
        energy_sum(channels, picked) == weighed(
            |i: int| unit_sum(channels, picked, units::unit_at(i)),
            UNIT_COUNT as int,
        ),
    decreases channels.len(),
{
    let g = |i: int| unit_sum(channels, picked, units::unit_at(i));
    if channels.len() == 0 {
        lemma_weighed_zero(g, UNIT_COUNT as int);
    } else {
        let before = channels.drop_last();
        let energy = channels.last().energy;
        let f = |i: int| unit_sum(before, picked, units::unit_at(i));
        lemma_energy_by_units(before, picked);
        units::unit_places(energy.unit, 0);
        let value = if picked(rail_of(channels.last().name)) {
            energy.value as int
        } else {
            0
        };
        assert forall|i: int| 0 <= i < UNIT_COUNT implies #[trigger] g(i) == f(i) + (if i
            == energy.unit.place() {
            value
        } else {
            0
        }) by {
            units::unit_places(energy.unit, i);
        }
        lemma_weighed_more(f, g, energy.unit.place(), value, UNIT_COUNT as int);
    }
}

proof fn lemma_weighed_zero(f: spec_fn(int) -> int, n: int)
    requires
        forall|i: int| 0 <= i < n ==> #[trigger] f(i) == 0,
    ensures
        weighed(f, n) == 0,
    decreases n,
{
    if n > 0 {
        lemma_weighed_zero(f, n - 1);
        assert(f(n - 1) == 0);
    }
}

/// A tally that holds the picked channels unit by unit holds their energy.
proof fn lemma_tally_energy(
    t: Tally,
    channels: Seq<ChannelView>,
    picked: spec_fn(Option<Rail>) -> bool,
)
    requires
        forall|unit: EnergyUnit| #[trigger] t.part(unit) == unit_sum(channels, picked, unit),
    ensures
        t.quectojoules() == energy_sum(channels, picked),
{
    let f = |i: int| t.sums@[i] as int;
    let g = |i: int| unit_sum(channels, picked, units::unit_at(i));
    assert forall|i: int| 0 <= i < UNIT_COUNT implies #[trigger] f(i) == g(i) by {
        units::unit_places(units::unit_at(i), i);
        assert(t.part(units::unit_at(i)) == g(i));
    }
    lemma_weighed_same(f, g, UNIT_COUNT as int);
    lemma_energy_by_units(channels, picked);
}

/// A rollup holds exactly the energy of its channels: for each subsystem that of the
/// subsystem's rollup channels, and in total that of all rollup channels.
pub proof fn rollup_energy(r: Rollup, channels: Seq<ChannelView>, rail: Rail)
    requires
        r.sums(channels),
    ensures
        r.of(rail).quectojoules() == energy_sum(channels, on(rail)),
        r.total.quectojoules() == energy_sum(channels, on_any()),
{
    lemma_tally_energy(r.of(rail), channels, on(rail));
    lemma_tally_energy(r.total, channels, on_any());
}

proof fn lemma_total_energy(channels: Seq<ChannelView>)
    ensures
        energy_sum(channels, on_any()) == energy_sum(channels, on(Rail::Cpu)) + energy_sum(
            channels,
            on(Rail::Gpu),
        ) + energy_sum(channels, on(Rail::Ane)) + energy_sum(channels, on(Rail::Dram))
            + energy_sum(channels, on(Rail::Disp)),
    decreases channels.len(),
{
    if channels.len() > 0 {
        lemma_total_energy(channels.drop_last());
    }
}

/// The total is the sum over the subsystems.
pub proof fn rollup_total(r: Rollup, channels: Seq<ChannelView>)
    requires
        r.sums(channels),
    ensures
        r.total.quectojoules() == r.cpu.quectojoules() + r.gpu.quectojoules()
            + r.ane.quectojoules() + r.dram.quectojoules() + r.disp.quectojoules(),
{
    rollup_energy(r, channels, Rail::Cpu);
    rollup_energy(r, channels, Rail::Gpu);
    rollup_energy(r, channels, Rail::Ane);
    rollup_energy(r, channels, Rail::Dram);
    rollup_energy(r, channels, Rail::Disp);
    lemma_total_energy(channels);
}

/// The energies of two runs of channels add up.
pub proof fn energy_adds_up(
    a: Seq<ChannelView>,
    b: Seq<ChannelView>,
    picked: spec_fn(Option<Rail>) -> bool,
)
    ensures
        energy_sum(a + b, picked) == energy_sum(a, picked) + energy_sum(b, picked),
    decreases b.len(),
{
    if b.len() == 0 {
        assert(a + b =~= a);
    } else {
        energy_adds_up(a, b.drop_last(), picked);
        assert((a + b).drop_last() =~= a + b.drop_last());
    }
}

/// A channel that is no rollup channel changes nothing: the energy of single cores and blocks
/// is not counted twice.
pub proof fn other_channels_do_not_count(
    r: Rollup,
    before: Seq<ChannelView>,
    other: ChannelView,
    after: Seq<ChannelView>,
)
    requires
        other.name != "CPU Energy"@,
        other.name != "GPU Energy"@,
        other.name != "ANE0"@,
        other.name != "ANE Energy"@,
        other.name != "DRAM0"@,
        other.name != "DISP0"@,
    ensures
        r.sums(before + seq![other] + after) <==> r.sums(before + after),
{
    rail_names(other.name);
    let long = before + seq![other] + after;
    let short = before + after;
    assert forall|rail: Rail, unit: EnergyUnit| #[trigger]
        unit_sum(long, on(rail), unit) == unit_sum(short, on(rail), unit) by {
        lemma_skip_other(before, other, after, on(rail), unit);
    }
    assert forall|unit: EnergyUnit| #[trigger]
        unit_sum(long, on_any(), unit) == unit_sum(short, on_any(), unit) by {
        lemma_skip_other(before, other, after, on_any(), unit);
    }
}

proof fn lemma_skip_other(
    before: Seq<ChannelView>,
    other: ChannelView,
    after: Seq<ChannelView>,
    picked: spec_fn(Option<Rail>) -> bool,
    unit: EnergyUnit,
)
    requires
        rail_of(other.name) is None,
        !picked(None),
    ensures
        unit_sum(before + seq![other] + after, picked, unit) == unit_sum(
            before + after,
            picked,
            unit,
        ),
    decreases after.len(),
{
    if after.len() == 0 {
        assert(before + seq![other] + after =~= before.push(other));
        assert(before.push(other).drop_last() =~= before);
        assert(before + after =~= before);
    } else {
        lemma_skip_other(before, other, after.drop_last(), picked, unit);
        assert((before + seq![other] + after).drop_last() =~= before + seq![other]
            + after.drop_last());
        assert((before + after).drop_last() =~= before + after.drop_last());
    }
}

/// Six names have a subsystem: one each for the CPU, the GPU, the memory and the display, and two
/// for the neural engine.
pub proof fn rail_names(name: Seq<char>)
    ensures
        rail_of(name) == Some(Rail::Cpu) <==> name == "CPU Energy"@,
        rail_of(name) == Some(Rail::Gpu) <==> name == "GPU Energy"@,
        rail_of(name) == Some(Rail::Ane) <==> name == "ANE0"@ || name == "ANE Energy"@,
        rail_of(name) == Some(Rail::Dram) <==> name == "DRAM0"@,
        rail_of(name) == Some(Rail::Disp) <==> name == "DISP0"@,
        rail_of(name) is Some <==> name == "CPU Energy"@ || name == "GPU Energy"@ || name == "ANE0"@
            || name == "ANE Energy"@ || name == "DRAM0"@ || name == "DISP0"@,
{
    reveal_strlit("CPU Energy");
    reveal_strlit("GPU Energy");
    reveal_strlit("ANE0");
    reveal_strlit("ANE Energy");
    reveal_strlit("DRAM0");
    reveal_strlit("DISP0");
    assert("CPU Energy"@[0] == 'C' && "GPU Energy"@[0] == 'G' && "ANE Energy"@[0] == 'A');
    assert("ANE0"@.len() == 4 && "DRAM0"@.len() == 5 && "DISP0"@.len() == 5);
    assert("DRAM0"@[1] == 'R' && "DISP0"@[1] == 'I');
    assert("CPU Energy"@.len() == 10 && "GPU Energy"@.len() == 10 && "ANE Energy"@.len() == 10);
}

/// A channel keeps the name and the whole value of its item, in the unit that the item's label
/// names. A missing item gives no channel.
pub proof fn reading_of_one_item(raw: RawChannel)
    ensures
        readings(seq![Some(raw)]).len() == 1,
        readings(seq![Some(raw)])[0].name == raw.name@,
        readings(seq![Some(raw)])[0].energy.value == raw.value,
        readings(seq![Some(raw)])[0].energy.unit == units::unit_of(raw.unit@),
        readings(seq![None]).len() == 0,
        readings(Seq::empty()).len() == 0,
{
    lemma_readings_step(seq![Some(raw)]);
    lemma_readings_step(seq![None]);
    assert(seq![Some(raw)].drop_first() =~= Seq::<Option<RawChannel>>::empty());
    assert(seq![None::<RawChannel>].drop_first() =~= Seq::<Option<RawChannel>>::empty());
}

/// The readings of two runs of items are those of the one, and then those of the other.
pub proof fn readings_in_order(a: Seq<Option<RawChannel>>, b: Seq<Option<RawChannel>>)
    ensures
        readings(a + b) == readings(a) + readings(b),
{
    let f = |item: Option<RawChannel>|
        match item {
            Some(raw) => Some(raw.reading()),
            None => None::<ChannelView>,
        };
    assert((a + b).map_values(f) =~= a.map_values(f) + b.map_values(f));
    options::present_in_both(a.map_values(f), b.map_values(f));
}

/// If no item is missing, there is a channel for each item, in order, with its name, its whole
/// value and the unit that its label names.
pub proof fn whole_readings(items: Seq<Option<RawChannel>>)
    requires
        forall|i: int| 0 <= i < items.len() ==> #[trigger] items[i] is Some,
    ensures
        readings(items).len() == items.len(),
        forall|i: int|
            0 <= i < items.len() ==> (#[trigger] readings(items)[i]).name == items[i]->0.name@
                && readings(items)[i].energy.value == items[i]->0.value && readings(
                items,
            )[i].energy.unit == units::unit_of(items[i]->0.unit@),
    decreases items.len(),
{
    if items.len() > 0 {
        let rest = items.drop_last();
        assert forall|i: int| 0 <= i < rest.len() implies #[trigger] rest[i] is Some by {
            assert(items[i] is Some);
        }
        whole_readings(rest);
        assert(items =~= rest + seq![items.last()]);
        readings_in_order(rest, seq![items.last()]);
        assert(items[items.len() - 1] is Some);
        assert(seq![items.last()] =~= seq![Some(items.last()->0)]);
        reading_of_one_item(items.last()->0);
    }
}

/// Channels are taken over one by one.
pub proof fn channels_in_order(channels: Seq<Channel>)
    ensures
        channels_view(channels).len() == channels.len(),
        forall|i: int|
            0 <= i < channels.len() ==> (#[trigger] channels_view(channels)[i]).name
                == channels[i].name@ && channels_view(channels)[i].energy == channels[i].energy,
{
}

/// A single channel counts with its whole value, in its own unit, for the subsystem whose rollup
/// channel it is, and for the total; any other channel counts for nothing.
pub proof fn one_channel_counts(c: ChannelView, unit: EnergyUnit)
    ensures
        unit_sum(seq![c], on(Rail::Cpu), unit) == (if c.name == "CPU Energy"@
            && c.energy.unit == unit {
            c.energy.value as int
        } else {
            0
        }),
        unit_sum(seq![c], on(Rail::Gpu), unit) == (if c.name == "GPU Energy"@
            && c.energy.unit == unit {
            c.energy.value as int
        } else {
            0
        }),
        unit_sum(seq![c], on(Rail::Ane), unit) == (if (c.name == "ANE0"@ || c.name == "ANE Energy"@)
            && c.energy.unit == unit {
            c.energy.value as int
        } else {
            0
        }),
        unit_sum(seq![c], on(Rail::Dram), unit) == (if c.name == "DRAM0"@
            && c.energy.unit == unit {
            c.energy.value as int
        } else {
            0
        }),
        unit_sum(seq![c], on(Rail::Disp), unit) == (if c.name == "DISP0"@
            && c.energy.unit == unit {
            c.energy.value as int
        } else {
            0
        }),
        unit_sum(seq![c], on_any(), unit) == (if (c.name == "CPU Energy"@ || c.name == "GPU Energy"@
            || c.name == "ANE0"@ || c.name == "ANE Energy"@ || c.name == "DRAM0"@ || c.name
            == "DISP0"@) && c.energy.unit == unit {
            c.energy.value as int
        } else {
            0
        }),
{
    rail_names(c.name);
    assert(seq![c].drop_last() =~= Seq::<ChannelView>::empty());
    reveal_with_fuel(unit_sum, 2);
}

/// A single channel gives its energy to the subsystem whose rollup channel it is, and to the
/// total; any other channel gives none.
pub proof fn one_channel_gives_its_energy(c: ChannelView)
    ensures
        energy_sum(seq![c], on(Rail::Cpu)) == (if c.name == "CPU Energy"@ {
            c.energy.value * c.energy.unit.quectojoules()
        } else {
            0
        }),
        energy_sum(seq![c], on(Rail::Gpu)) == (if c.name == "GPU Energy"@ {
            c.energy.value * c.energy.unit.quectojoules()
        } else {
            0
        }),
        energy_sum(seq![c], on(Rail::Ane)) == (if c.name == "ANE0"@ || c.name == "ANE Energy"@ {
            c.energy.value * c.energy.unit.quectojoules()
        } else {
            0
        }),
        energy_sum(seq![c], on(Rail::Dram)) == (if c.name == "DRAM0"@ {
            c.energy.value * c.energy.unit.quectojoules()
        } else {
            0
        }),
        energy_sum(seq![c], on(Rail::Disp)) == (if c.name == "DISP0"@ {
            c.energy.value * c.energy.unit.quectojoules()
        } else {
            0
        }),
        energy_sum(seq![c], on_any()) == (if c.name == "CPU Energy"@ || c.name == "GPU Energy"@
            || c.name == "ANE0"@ || c.name == "ANE Energy"@ || c.name == "DRAM0"@ || c.name
            == "DISP0"@ {
            c.energy.value * c.energy.unit.quectojoules()
        } else {
            0
        }),
{
    rail_names(c.name);
    assert(seq![c].drop_last() =~= Seq::<ChannelView>::empty());
    reveal_with_fuel(energy_sum, 2);
}

/// The sums of two runs of channels add up, unit by unit; of no channels they are zero.
pub proof fn unit_sums_add_up(
    a: Seq<ChannelView>,
    b: Seq<ChannelView>,
    picked: spec_fn(Option<Rail>) -> bool,
    unit: EnergyUnit,
)
    ensures
        unit_sum(a + b, picked, unit) == unit_sum(a, picked, unit) + unit_sum(b, picked, unit),
        unit_sum(Seq::empty(), picked, unit) == 0,
        energy_sum(Seq::empty(), picked) == 0,
    decreases b.len(),
{
    if b.len() == 0 {
        assert(a + b =~= a);
    } else {
        unit_sums_add_up(a, b.drop_last(), picked, unit);
        assert((a + b).drop_last() =~= a + b.drop_last());
    }
}

/// A rollup of channels holds in each unit, for each subsystem, the sum over the subsystem's
/// rollup channels, and in total the sum over all rollup channels.
pub proof fn rollup_parts(r: Rollup, channels: Seq<ChannelView>, unit: EnergyUnit)
    requires
        r.sums(channels),
    ensures
        r.cpu.part(unit) == unit_sum(channels, on(Rail::Cpu), unit),
        r.gpu.part(unit) == unit_sum(channels, on(Rail::Gpu), unit),
        r.ane.part(unit) == unit_sum(channels, on(Rail::Ane), unit),
        r.dram.part(unit) == unit_sum(channels, on(Rail::Dram), unit),
        r.disp.part(unit) == unit_sum(channels, on(Rail::Disp), unit),
        r.total.part(unit) == unit_sum(channels, on_any(), unit),
{
    assert(r.of(Rail::Cpu).part(unit) == unit_sum(channels, on(Rail::Cpu), unit));
    assert(r.of(Rail::Gpu).part(unit) == unit_sum(channels, on(Rail::Gpu), unit));
    assert(r.of(Rail::Ane).part(unit) == unit_sum(channels, on(Rail::Ane), unit));
    assert(r.of(Rail::Dram).part(unit) == unit_sum(channels, on(Rail::Dram), unit));
    assert(r.of(Rail::Disp).part(unit) == unit_sum(channels, on(Rail::Disp), unit));
}

/// Each subsystem of a rollup has its own field.
pub proof fn rollup_fields(r: Rollup)
    ensures
        r.of(Rail::Cpu) == r.cpu,
        r.of(Rail::Gpu) == r.gpu,
        r.of(Rail::Ane) == r.ane,
        r.of(Rail::Dram) == r.dram,
        r.of(Rail::Disp) == r.disp,
{
}

/// The sums of a tally stand in the order of the units, from the smallest to the largest.
pub proof fn tally_parts(t: Tally, unit: EnergyUnit, place: int)
    requires
        0 <= place < 25,
    ensures
        t.part(units::unit_at(place)) == t.sums@[place],
        t.part(unit) == t.sums@[unit.place()],
{
    units::unit_places(unit, place);
}

/// A tally of a single unit is worth so many of that unit.
pub proof fn tally_of_one_unit(t: Tally, unit: EnergyUnit)
    requires
        forall|other: EnergyUnit| other != unit ==> #[trigger] t.part(other) == 0,
    ensures
        t.quectojoules() == t.part(unit) * unit.quectojoules(),
{
    let f = |i: int| 0int;
    let g = |i: int| t.sums@[i] as int;
    units::unit_places(unit, 0);
    assert forall|i: int| 0 <= i < UNIT_COUNT implies #[trigger] g(i) == f(i) + (if i
        == unit.place() {
        t.part(unit)
    } else {
        0
    }) by {
        units::unit_places(unit, i);
        if i != unit.place() {
            assert(t.part(units::unit_at(i)) == 0);
        }
    }
    lemma_weighed_more(f, g, unit.place(), t.part(unit), UNIT_COUNT as int);
    lemma_weighed_zero(f, UNIT_COUNT as int);
}

/// Tallies that add up unit by unit add up in energy.
pub proof fn tallies_add_up(a: Tally, b: Tally, sum: Tally)
    requires
        forall|unit: EnergyUnit| #[trigger] sum.part(unit) == a.part(unit) + b.part(unit),
    ensures
        sum.quectojoules() == a.quectojoules() + b.quectojoules(),
{
    let f = |i: int| a.sums@[i] as int;
    let g = |i: int| b.sums@[i] as int;
    let h = |i: int| sum.sums@[i] as int;
    assert forall|i: int| 0 <= i < UNIT_COUNT implies #[trigger] h(i) == f(i) + g(i) by {
        units::unit_places(units::unit_at(i), i);
        assert(sum.part(units::unit_at(i)) == a.part(units::unit_at(i)) + b.part(
            units::unit_at(i),
        ));
    }
    lemma_weighed_sum(f, g, h, UNIT_COUNT as int);
}

proof fn lemma_weighed_sum(
    f: spec_fn(int) -> int,
    g: spec_fn(int) -> int,
    h: spec_fn(int) -> int,
    n: int,
)
    requires
        forall|i: int| 0 <= i < n ==> #[trigger] h(i) == f(i) + g(i),
    ensures
        weighed(h, n) == weighed(f, n) + weighed(g, n),
    decreases n,
{
    if n > 0 {
        lemma_weighed_sum(f, g, h, n - 1);
        let w = units::unit_at(n - 1).quectojoules();
        assert(h(n - 1) == f(n - 1) + g(n - 1));
        assert((f(n - 1) + g(n - 1)) * w == f(n - 1) * w + g(n - 1) * w) by (nonlinear_arith);
    }
}

/// So many of a larger unit are ten times as many of a smaller one for each power of ten between
/// them; of the smallest unit an energy has as many as its value tells.
pub proof fn energies_in_two_units(small: Energy, large: Energy)
    requires
        small.unit.power() <= large.unit.power(),
        small.value == large.value * vstd::arithmetic::power::pow(
            10,
            (large.unit.power() - small.unit.power()) as nat,
        ),
    ensures
        small.quectojoules() == large.quectojoules(),
        small.unit == EnergyUnit::Quectojoule ==> small.quectojoules() == small.value,
{
    units::units_scale_by_tens(small.unit, large.unit);
    let factor = vstd::arithmetic::power::pow(
        10,
        (large.unit.power() - small.unit.power()) as nat,
    );
    let v = large.value as int;
    let w = small.unit.quectojoules();
    assert((v * factor) * w == v * (w * factor)) by (nonlinear_arith);
}

} // verus!
