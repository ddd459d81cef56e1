//! The live energy meter: resolving the IOReport framework, subscribing to its channels, and
//! the measuring loop.
//!
//! Addresses and references of the framework are plain integers here, zero being null.

use vstd::prelude::*;

use crate::energy;
use crate::energy::{roll_up, Channel, ChannelView, Rollup};
use crate::text;

verus! {

/// The library that holds the framework's functions.
pub const LIBRARY_PATH: &'static str = "/usr/lib/libIOReport.dylib";

/// The channel group that is subscribed to.
pub const CHANNEL_GROUP: &'static str = "Energy Model";

/// The entry of a sample that holds its channels.
pub const CHANNELS_KEY: &'static str = "IOReportChannels";

/// The time between two samples, in milliseconds.
pub const INTERVAL_MILLIS: u64 = 500;

/// The size of the buffer for a text that is copied, in bytes.
pub const TEXT_BUFFER: usize = 256;

/// The functions of the framework, by their addresses.
#[derive(Clone, Copy, Debug, PartialEq, Eq)]
pub struct IOReportApi {
    pub copy_channels: usize,
    pub create_sub: usize,
    pub create_samples: usize,
    pub create_delta: usize,
    pub channel_name: usize,
    pub unit_label: usize,
    pub simple_int: usize,
}

/// The names of the functions, in the order of the fields of [`IOReportApi`].
pub open spec fn symbol(i: int) -> Seq<char> {
    if i == 0 {
        "IOReportCopyChannelsInGroup"@
    } else if i == 1 {
        "IOReportCreateSubscription"@
    } else if i == 2 {
        "IOReportCreateSamples"@
    } else if i == 3 {
        "IOReportCreateSamplesDelta"@
    } else if i == 4 {
        "IOReportChannelGetChannelName"@
    } else if i == 5 {
        "IOReportChannelGetUnitLabel"@
    } else {
        "IOReportSimpleGetIntegerValue"@
    }
}

impl IOReportApi {
    /// The address of the function named [`symbol`]`(i)`.
    pub open spec fn address(self, i: int) -> usize {
        if i == 0 {
            self.copy_channels
        } else if i == 1 {
            self.create_sub
        } else if i == 2 {
            self.create_samples
        } else if i == 3 {
            self.create_delta
        } else if i == 4 {
            self.channel_name
        } else if i == 5 {
            self.unit_label
        } else {
            self.simple_int
        }
    }

    /// The names of the functions to look up.
    pub fn symbols() -> (r: [&'static str; 7])
        ensures
            forall|i: int| 0 <= i < 7 ==> (#[trigger] r@[i])@ == symbol(i),
            r@[0]@ == "IOReportCopyChannelsInGroup"@,
            r@[1]@ == "IOReportCreateSubscription"@,
            r@[2]@ == "IOReportCreateSamples"@,
            r@[3]@ == "IOReportCreateSamplesDelta"@,
            r@[4]@ == "IOReportChannelGetChannelName"@,
            r@[5]@ == "IOReportChannelGetUnitLabel"@,
            r@[6]@ == "IOReportSimpleGetIntegerValue"@,
    {
        [
            "IOReportCopyChannelsInGroup",
            "IOReportCreateSubscription",
            "IOReportCreateSamples",
            "IOReportCreateSamplesDelta",
            "IOReportChannelGetChannelName",
            "IOReportChannelGetUnitLabel",
            "IOReportSimpleGetIntegerValue",
        ]
    }

    /// The functions, if the library could be opened and has all of them. `library` is its
    /// handle; `addresses` are those of [`IOReportApi::symbols`], in that order.
    pub fn load(library: usize, addresses: &[usize; 7]) -> (r: Option<IOReportApi>)
        ensures
            r is Some <==> library != 0 && forall|i: int|
                0 <= i < 7 ==> #[trigger] addresses@[i] != 0,
            r matches Some(api) ==> forall|i: int|
                0 <= i < 7 ==> #[trigger] api.address(i) == addresses@[i],
            r matches Some(api) ==> api.copy_channels == addresses@[0],
            r matches Some(api) ==> api.create_sub == addresses@[1],
            r matches Some(api) ==> api.create_samples == addresses@[2],
            r matches Some(api) ==> api.create_delta == addresses@[3],
            r matches Some(api) ==> api.channel_name == addresses@[4],
            r matches Some(api) ==> api.unit_label == addresses@[5],
            r matches Some(api) ==> api.simple_int == addresses@[6],
    {
        if library == 0 {
            return None;
        }
        let mut i: usize = 0;
        while i < 7
            invariant
                i <= 7,
                forall|j: int| 0 <= j < i ==> #[trigger] addresses@[j] != 0,
            decreases 7 - i,
        {
            if addresses[i] == 0 {
                return None;
            }
            i = i + 1;
        }
        Some(
            IOReportApi {
                copy_channels: addresses[0],
                create_sub: addresses[1],
                create_samples: addresses[2],
                create_delta: addresses[3],
                channel_name: addresses[4],
                unit_label: addresses[5],
                simple_int: addresses[6],
            },
        )
    }
}

/// A live subscription to a channel group.
#[derive(Clone, Copy, Debug, PartialEq, Eq)]
pub struct EnergyMeter {
    pub sub: usize,
    pub chans: usize,
}

/// Where the subscribing stands: the next thing to do, or the result.
#[derive(Clone, Copy, Debug, PartialEq, Eq)]
pub enum MeterStep {
    /// Make the string [`CHANNEL_GROUP`].
    NameGroup,
    /// Copy the channels of the group.
    CopyChannels { group: usize },
    /// Release the string.
    ReleaseGroup { group: usize, chans: usize },
    /// Subscribe to the channels.
    Subscribe { chans: usize },
    /// Nothing is left to do.
    Done { meter: Option<EnergyMeter> },
}

/// What came of a step of [`MeterStep`].
#[derive(Clone, Copy, Debug, PartialEq, Eq)]
pub enum MeterEvent {
    /// The string.
    Named { group: usize },
    /// The channels, null if the group has none.
    Copied { chans: usize },
    /// The string has been released.
    Released,
    /// The subscription and the channels subscribed to; either may be null.
    Subscribed { sub: usize, subbed: usize },
}

impl MeterStep {
    /// `event` is what can come of this step.
    pub open spec fn expects(self, event: MeterEvent) -> bool {
        match self {
            MeterStep::NameGroup => event is Named,
            MeterStep::CopyChannels { .. } => event is Copied,
            MeterStep::ReleaseGroup { .. } => event is Released,
            MeterStep::Subscribe { .. } => event is Subscribed,
            MeterStep::Done { .. } => false,
        }
    }

    /// The step after `event`.
    pub open spec fn after(self, event: MeterEvent) -> MeterStep {
        match (self, event) {
            (MeterStep::NameGroup, MeterEvent::Named { group }) => MeterStep::CopyChannels {
                group,
            },
            (MeterStep::CopyChannels { group }, MeterEvent::Copied { chans }) => {
                MeterStep::ReleaseGroup { group, chans }
            },
            (MeterStep::ReleaseGroup { chans, .. }, MeterEvent::Released) => if chans == 0 {
                MeterStep::Done { meter: None }
            } else {
                MeterStep::Subscribe { chans }
            },
            (MeterStep::Subscribe { chans }, MeterEvent::Subscribed { sub, subbed }) => {
                MeterStep::Done {
                    meter: if sub == 0 {
                        None
                    } else if subbed == 0 {
                        Some(EnergyMeter { sub, chans })
                    } else {
                        Some(EnergyMeter { sub, chans: subbed })
                    },
                }
            },
            _ => self,
        }
    }

    /// Takes what came of this step and gives the next one.
    pub fn next(self, event: MeterEvent) -> (r: MeterStep)
        requires
            self.expects(event),
        ensures
            r == self.after(event),
    {
        match (self, event) {
            (MeterStep::NameGroup, MeterEvent::Named { group }) => {
                MeterStep::CopyChannels { group }
            },
            (MeterStep::CopyChannels { group }, MeterEvent::Copied { chans }) => {
                MeterStep::ReleaseGroup { group, chans }
            },
            (MeterStep::ReleaseGroup { group: _, chans }, MeterEvent::Released) => {
                if chans == 0 {
                    MeterStep::Done { meter: None }
                } else {
                    MeterStep::Subscribe { chans }
                }
            },
            (MeterStep::Subscribe { chans }, MeterEvent::Subscribed { sub, subbed }) => {
                if sub == 0 {
                    MeterStep::Done { meter: None }
                } else if subbed == 0 {
                    MeterStep::Done { meter: Some(EnergyMeter { sub, chans }) }
                } else {
                    MeterStep::Done { meter: Some(EnergyMeter { sub, chans: subbed }) }
                }
            },
            (step, _) => step,
        }
    }
}

impl EnergyMeter {
    /// Begins to subscribe.
    pub fn open() -> (r: MeterStep)
        ensures
            r == MeterStep::NameGroup,
    {
        MeterStep::NameGroup
    }
}

/// What the framework has to say while a meter is opened.
pub struct Framework {
    pub group: usize,
    pub chans: usize,
    pub sub: usize,
    pub subbed: usize,
}

/// What comes of a step.
pub open spec fn meter_event(step: MeterStep, framework: Framework) -> MeterEvent {
    match step {
        MeterStep::NameGroup => MeterEvent::Named { group: framework.group },
        MeterStep::CopyChannels { .. } => MeterEvent::Copied { chans: framework.chans },
        MeterStep::Subscribe { .. } => MeterEvent::Subscribed {
            sub: framework.sub,
            subbed: framework.subbed,
        },
        _ => MeterEvent::Released,
    }
}

/// A bound on the steps that are left.
pub open spec fn meter_left(step: MeterStep) -> int {
    match step {
        MeterStep::NameGroup => 4,
        MeterStep::CopyChannels { .. } => 3,
        MeterStep::ReleaseGroup { .. } => 2,
        MeterStep::Subscribe { .. } => 1,
        MeterStep::Done { .. } => 0,
    }
}

/// The result of subscribing, and the references that are released on the way.
pub open spec fn run_meter(step: MeterStep, framework: Framework) -> (
    Option<EnergyMeter>,
    Seq<usize>,
)
    decreases meter_left(step),
{
    match step {
        MeterStep::Done { meter } => (meter, Seq::empty()),
        _ => {
            let (meter, released) = run_meter(
                step.after(meter_event(step, framework)),
                framework,
            );
            match step {
                MeterStep::ReleaseGroup { group, .. } => (meter, seq![group] + released),
                _ => (meter, released),
            }
        },
    }
}

/// Subscribing fails if the group has no channels or the subscription is refused; else the
/// meter reads the channels subscribed to, or those asked for if there are none. The group's
/// name is released, once, and nothing else.
pub proof fn subscribing(framework: Framework)
    ensures
        run_meter(MeterStep::NameGroup, framework).0 == (if framework.chans == 0 || framework.sub
            == 0 {
            None::<EnergyMeter>
        } else {
            Some(
                EnergyMeter {
                    sub: framework.sub,
                    chans: if framework.subbed == 0 {
                        framework.chans
                    } else {
                        framework.subbed
                    },
                },
            )
        }),
        run_meter(MeterStep::NameGroup, framework).1 == seq![framework.group],
{
    reveal_with_fuel(run_meter, 5);
}

/// Where the fetching of a text stands.
#[derive(Debug, PartialEq, Eq)]
pub enum TextStep {
    /// Ask for the string's own characters.
    Direct,
    /// Copy the string to a buffer of [`TEXT_BUFFER`] bytes.
    Copy,
    /// Nothing is left to do.
    Done { text: String },
}

/// A [`TextStep`] with the text as characters.
pub enum TextStepView {
    Direct,
    Copy,
    Done { text: Seq<char> },
}

impl View for TextStep {
    type V = TextStepView;

    open spec fn view(&self) -> TextStepView {
        match self {
            TextStep::Direct => TextStepView::Direct,
            TextStep::Copy => TextStepView::Copy,
            TextStep::Done { text } => TextStepView::Done { text: text@ },
        }
    }
}

impl TextStep {
    /// Begins to fetch the text of a string. A null string is empty.
    pub fn to_string(string: usize) -> (r: TextStep)
        ensures
            r@ == (if string == 0 {
                TextStepView::Done { text: Seq::empty() }
            } else {
                TextStepView::Direct
            }),
    {
        if string == 0 {
            TextStep::Done { text: String::new() }
        } else {
            TextStep::Direct
        }
    }

    /// Takes the text that the step found, if it found one. A string with neither characters
    /// of its own nor a copy is empty.
    pub fn next(self, found: Option<String>) -> (r: TextStep)
        ensures
            r@ == (match (self@, found) {
                (TextStepView::Done { text }, _) => TextStepView::Done { text },
                (_, Some(text)) => TextStepView::Done { text: text@ },
                (TextStepView::Direct, None) => TextStepView::Copy,
                (TextStepView::Copy, None) => TextStepView::Done { text: Seq::empty() },
            }),
    {
        match (self, found) {
            (TextStep::Done { text }, _) => TextStep::Done { text },
            (_, Some(text)) => TextStep::Done { text },
            (TextStep::Direct, None) => TextStep::Copy,
            (TextStep::Copy, None) => TextStep::Done { text: String::new() },
        }
    }
}

/// The measuring loop between two samples: the sample that the next delta starts from, and
/// whether the channels have been announced.
#[derive(Clone, Copy, Debug, PartialEq, Eq)]
pub struct EnergyRun {
    pub prev: usize,
    pub announced: bool,
}

/// What is to be done in a round: announce the channels, show the energies, release the
/// references in order.
#[derive(Clone, Debug, PartialEq, Eq)]
pub struct Round {
    pub announce: Option<Vec<String>>,
    pub rollup: Rollup,
    pub release: [usize; 2],
}

/// The names of channels.
pub open spec fn names_of(channels: Seq<ChannelView>) -> Seq<Seq<char>> {
    channels.map_values(|c: ChannelView| c.name)
}

impl EnergyRun {
    /// The loop after a round with the sample `cur`.
    pub open spec fn after(self, cur: usize) -> EnergyRun {
        EnergyRun { prev: cur, announced: true }
    }

    /// The references that a round with the delta `delta` releases, in order.
    pub open spec fn releases(self, delta: usize) -> Seq<usize> {
        seq![delta, self.prev]
    }

    /// The loop after its first sample.
    pub fn start(first: usize) -> (r: EnergyRun)
        ensures
            r.prev == first,
            !r.announced,
    {
        EnergyRun { prev: first, announced: false }
    }

    /// A round with the sample `cur`, the delta from the sample before, and the delta's
    /// channels.
    pub fn round(&mut self, cur: usize, delta: usize, channels: &Vec<Channel>) -> (r: Round)
        ensures
            *final(self) == old(self).after(cur),
            r.announce is Some <==> !old(self).announced,
            r.announce matches Some(names) ==> text::texts(names@) == names_of(
                energy::channels_view(channels@),
            ),
            r.rollup.sums(energy::channels_view(channels@)),
            r.release@ == old(self).releases(delta),
            final(self).prev == cur,
            final(self).announced,
            r.release@[0] == delta,
            r.release@[1] == old(self).prev,
            r.announce matches Some(names) ==> names@.len() == channels@.len() && forall|i: int|
                0 <= i < channels@.len() ==> (#[trigger] names@[i])@ == channels@[i].name@,
    {
        let announce: Option<Vec<String>> = if self.announced {
            None
        } else {
            Some(channel_names(channels))
        };
        let rollup: Rollup = roll_up(channels);
        let release: [usize; 2] = [delta, self.prev];
        self.prev = cur;
        self.announced = true;
        Round { announce, rollup, release }
    }
}

/// The names of channels, in order.
pub fn channel_names(channels: &Vec<Channel>) -> (r: Vec<String>)
    ensures
        text::texts(r@) == names_of(energy::channels_view(channels@)),
        r@.len() == channels@.len(),
        forall|i: int| 0 <= i < channels@.len() ==> (#[trigger] r@[i])@ == channels@[i].name@,
{
    let mut names: Vec<String> = Vec::new();
    let n: usize = channels.len();
    let mut i: usize = 0;
    while i < n
        invariant
            i <= n,
            n == channels@.len(),
            names@.len() == i,
            forall|j: int| 0 <= j < i ==> (#[trigger] names@[j])@ == channels@[j].name@,
        decreases n - i,
    {
        names.push(channels[i].name.clone());
        i = i + 1;
    }
    assert(text::texts(names@) =~= names_of(energy::channels_view(channels@)));
    names
}

/// The loop after a run of rounds, each a sample and a delta, and the references released.
pub open spec fn run_rounds(run: EnergyRun, rounds: Seq<(usize, usize)>) -> (
    EnergyRun,
    Seq<usize>,
)
    decreases rounds.len(),
{
    if rounds.len() == 0 {
        (run, Seq::empty())
    } else {
        let (before, released) = run_rounds(run, rounds.drop_last());
        let (cur, delta) = rounds.last();
        (before.after(cur), released + before.releases(delta))
    }
}

/// After any number of rounds, every delta and every sample but the latest has been released,
/// once and in the order in which it came, and the latest sample is the one that is kept.
pub proof fn references_are_released(first: usize, rounds: Seq<(usize, usize)>)
    ensures
        ({
            let samples = seq![first] + rounds.map_values(|r: (usize, usize)| r.0);
            let (run, released) = run_rounds(
                EnergyRun { prev: first, announced: false },
                rounds,
            );
            &&& run.prev == samples.last()
            &&& run.announced <==> rounds.len() > 0
            &&& released.len() == 2 * rounds.len()
            &&& forall|i: int|
                #![trigger rounds[i]]
                0 <= i < rounds.len() ==> released[2 * i] == rounds[i].1 && released[2 * i + 1]
                    == samples[i]
        }),
    decreases rounds.len(),
{
    if rounds.len() > 0 {
        references_are_released(first, rounds.drop_last());
        let samples = seq![first] + rounds.map_values(|r: (usize, usize)| r.0);
        let earlier = seq![first] + rounds.drop_last().map_values(|r: (usize, usize)| r.0);
        assert(samples =~= earlier.push(rounds.last().0));
        let start = EnergyRun { prev: first, announced: false };
        let (run, released) = run_rounds(start, rounds);
        let (before, gone) = run_rounds(start, rounds.drop_last());
        assert forall|i: int|
            #![trigger rounds[i]]
            0 <= i < rounds.len() implies released[2 * i] == rounds[i].1 && released[2 * i + 1]
            == samples[i] by {
            if i < rounds.len() - 1 {
                assert(rounds.drop_last()[i] == rounds[i]);
            }
        }
    }
}

/// Each function of the framework is looked up by its own name.
pub proof fn functions_by_name(api: IOReportApi)
    ensures
        symbol(0) == "IOReportCopyChannelsInGroup"@ && api.address(0) == api.copy_channels,
        symbol(1) == "IOReportCreateSubscription"@ && api.address(1) == api.create_sub,
        symbol(2) == "IOReportCreateSamples"@ && api.address(2) == api.create_samples,
        symbol(3) == "IOReportCreateSamplesDelta"@ && api.address(3) == api.create_delta,
        symbol(4) == "IOReportChannelGetChannelName"@ && api.address(4) == api.channel_name,
        symbol(5) == "IOReportChannelGetUnitLabel"@ && api.address(5) == api.unit_label,
        symbol(6) == "IOReportSimpleGetIntegerValue"@ && api.address(6) == api.simple_int,
{
}

/// The names of channels, one by one.
pub proof fn names_in_order(channels: Seq<ChannelView>)
    ensures
        names_of(channels).len() == channels.len(),
        forall|i: int|
            0 <= i < channels.len() ==> #[trigger] names_of(channels)[i] == channels[i].name,
{
}

/// The channels are copied from the group that was named, the same name is released, and the
/// subscription is to the channels that were copied. Every step takes what can come of it.
pub proof fn subscribing_steps(group: usize, chans: usize, sub: usize, subbed: usize)
    ensures
        MeterStep::NameGroup.after(MeterEvent::Named { group }) == (MeterStep::CopyChannels {
            group,
        }),
        (MeterStep::CopyChannels { group }).after(MeterEvent::Copied { chans }) == (
        MeterStep::ReleaseGroup { group, chans }),
        chans != 0 ==> (MeterStep::ReleaseGroup { group, chans }).after(MeterEvent::Released) == (
        MeterStep::Subscribe { chans }),
        MeterStep::NameGroup.expects(MeterEvent::Named { group }),
        (MeterStep::CopyChannels { group }).expects(MeterEvent::Copied { chans }),
        (MeterStep::ReleaseGroup { group, chans }).expects(MeterEvent::Released),
        (MeterStep::Subscribe { chans }).expects(MeterEvent::Subscribed { sub, subbed }),
{
}

/// What the framework is asked for, and the time between samples: two a second.
pub proof fn framework_terms()
    ensures
        LIBRARY_PATH@ == "/usr/lib/libIOReport.dylib"@,
        CHANNEL_GROUP@ == "Energy Model"@,
        CHANNELS_KEY@ == "IOReportChannels"@,
        2 * INTERVAL_MILLIS == 1000,
        TEXT_BUFFER == 256,
{
}

} // verus!
