use vstd::prelude::*;
use crate::keyer_io::keyer_io::{KeyingEvent, keying_event_text};
use crate::util::text::{append_decimal, decimal_text};

verus! {

/// An index into the tone generator's tones: 0 is the sidetone; 1.. are used for
/// decoded/played-back streams of keying.
pub type ToneChannel = usize;

/// A keying event, with the tone channel on which it is to sound.
#[derive(Debug, PartialEq, Eq, Structural, Copy, Clone)]
pub struct KeyingEventToneChannel {
    pub keying_event: KeyingEvent,
    pub tone_channel: ToneChannel,
}

impl KeyingEventToneChannel {
    /// The event and its channel as text, such as `START: #1`.
    pub fn to_string(&self) -> (text: String)
        ensures
            text@ == keying_event_text(self.keying_event) + ": #"@ + decimal_text(
                self.tone_channel as nat,
            ),
    {
        let mut text = self.keying_event.to_string();
        text.append(": #");
        append_decimal(&mut text, self.tone_channel);
        text
    }
}

/// How a tone's amplitude is changing, for key click suppression.
#[derive(Debug, PartialEq, Eq, Structural, Copy, Clone)]
pub enum AmplitudeRamping {
    RampingUp,
    RampingDown,
    Stable,
}

impl AmplitudeRamping {
    /// The ramping as text: `^` ramping up, `v` ramping down, `-` stable.
    pub fn to_string(&self) -> (text: String)
        ensures
            text@ == match *self {
                AmplitudeRamping::RampingUp => seq!['^'],
                AmplitudeRamping::RampingDown => seq!['v'],
                AmplitudeRamping::Stable => seq!['-'],
            },
    {
        proof {
            reveal_strlit("^");
            reveal_strlit("v");
            reveal_strlit("-");
        }
        match *self {
            AmplitudeRamping::RampingUp => String::from_str("^"),
            AmplitudeRamping::RampingDown => String::from_str("v"),
            AmplitudeRamping::Stable => String::from_str("-"),
        }
    }
}

/// The ramping that a keying event sets on its tone: a key-up edge (or the end of keying) ramps
/// the tone down; a key-down edge (or the start of keying) ramps it up.
pub open spec fn keying_event_ramping(keying_event: KeyingEvent) -> AmplitudeRamping {
    match keying_event {
        KeyingEvent::Timed(event) => if event.up {
            AmplitudeRamping::RampingDown
        } else {
            AmplitudeRamping::RampingUp
        },
        KeyingEvent::Start() => AmplitudeRamping::RampingUp,
        KeyingEvent::End() => AmplitudeRamping::RampingDown,
    }
}

/// The ramping that a keying event sets on its tone, as `keying_event_ramping` states it.
pub fn ramping_for_keying_event(keying_event: KeyingEvent) -> (ramping: AmplitudeRamping)
    ensures
        ramping == keying_event_ramping(keying_event),
{
    match keying_event {
        KeyingEvent::Timed(event) => {
            if event.up {
                AmplitudeRamping::RampingDown
            } else {
                AmplitudeRamping::RampingUp
            }
        },
        KeyingEvent::Start() => AmplitudeRamping::RampingUp,
        KeyingEvent::End() => AmplitudeRamping::RampingDown,
    }
}

/// The settings of one tone channel.
#[derive(Debug, PartialEq, Eq, Structural, Copy, Clone)]
pub struct ToneChannelSettings {
    pub audio_frequency: u16,
    pub enabled: bool,
    pub ramping: AmplitudeRamping,
}

/// A newly allocated channel: enabled at the given frequency, its amplitude stable.
pub open spec fn fresh_channel(freq: u16) -> ToneChannelSettings {
    ToneChannelSettings { audio_frequency: freq, enabled: true, ramping: AmplitudeRamping::Stable }
}

/// Drops disabled channels from the end, keeping at least one channel.
pub open spec fn trim_disabled(channels: Seq<ToneChannelSettings>) -> Seq<ToneChannelSettings>
    decreases channels.len(),
{
    if channels.len() > 1 && !channels.last().enabled {
        trim_disabled(channels.drop_last())
    } else {
        channels
    }
}

/// Whether channel `i` is the first disabled channel after the sidetone.
pub open spec fn first_disabled(channels: Seq<ToneChannelSettings>, i: int) -> bool {
    &&& 1 <= i < channels.len()
    &&& !channels[i].enabled
    &&& forall|j: int| 1 <= j < i ==> #[trigger] channels[j].enabled
}

/// The channels after allocating `tone_index` at frequency `freq`: the first disabled channel
/// after the sidetone is reused, or, if there is none, a channel is added at the end.
pub open spec fn allocation(
    channels: Seq<ToneChannelSettings>,
    freq: u16,
    tone_index: int,
    after: Seq<ToneChannelSettings>,
) -> bool {
    let allocated = fresh_channel(freq);
    if exists|i: int| first_disabled(channels, i) {
        &&& first_disabled(channels, tone_index)
        &&& after == channels.update(tone_index, allocated)
    } else {
        &&& tone_index == channels.len()
        &&& after == channels.push(allocated)
    }
}

/// The channels after deallocating `tone_index`: it is disabled, and the disabled channels at
/// the end are dropped; the sidetone and indices with no channel are left alone.
pub open spec fn deallocation(channels: Seq<ToneChannelSettings>, tone_index: int) -> Seq<
    ToneChannelSettings,
> {
    if tone_index == 0 || tone_index >= channels.len() {
        channels
    } else {
        trim_disabled(
            channels.update(tone_index, ToneChannelSettings { enabled: false, ..channels[tone_index] }),
        )
    }
}

/// The index that allocation picks: the first disabled channel after the sidetone, or the end.
pub open spec fn allocated_index(channels: Seq<ToneChannelSettings>) -> int {
    if exists|i: int| first_disabled(channels, i) {
        choose|i: int| first_disabled(channels, i)
    } else {
        channels.len() as int
    }
}

/// The channels after allocating at frequency `freq`.
pub open spec fn allocated_channels(channels: Seq<ToneChannelSettings>, freq: u16) -> Seq<
    ToneChannelSettings,
> {
    let allocated = fresh_channel(freq);
    if exists|i: int| first_disabled(channels, i) {
        channels.update(allocated_index(channels), allocated)
    } else {
        channels.push(allocated)
    }
}

/// The channels after deallocating each of `tone_indices` in turn.
pub open spec fn deallocations(channels: Seq<ToneChannelSettings>, tone_indices: Seq<usize>) -> Seq<
    ToneChannelSettings,
>
    decreases tone_indices.len(),
{
    if tone_indices.len() == 0 {
        channels
    } else {
        deallocation(deallocations(channels, tone_indices.drop_last()), tone_indices.last() as int)
    }
}

/// An allocation's index and channels are determined by the channels before it.
pub proof fn lemma_allocation_is_determined(
    channels: Seq<ToneChannelSettings>,
    freq: u16,
    tone_index: int,
    after: Seq<ToneChannelSettings>,
)
    requires
        allocation(channels, freq, tone_index, after),
    ensures
        tone_index == allocated_index(channels),
        after == allocated_channels(channels, freq),
{
    if exists|i: int| first_disabled(channels, i) {
        let c = choose|i: int| first_disabled(channels, i);
        if c < tone_index {
            assert(channels[c].enabled);
        } else if tone_index < c {
            assert(channels[tone_index].enabled);
        }
    }
}

/// The channels after a keying event: the channel it names takes the ramping the event asks
/// for; an event naming no channel leaves them as they are.
pub open spec fn keyed_channels(
    channels: Seq<ToneChannelSettings>,
    event: KeyingEventToneChannel,
) -> Seq<ToneChannelSettings> {
    if event.tone_channel < channels.len() {
        channels.update(
            event.tone_channel as int,
            ToneChannelSettings {
                ramping: keying_event_ramping(event.keying_event),
                ..channels[event.tone_channel as int]
            },
        )
    } else {
        channels
    }
}

/// The enabled flags of the channels, in order.
pub open spec fn enabled_states(channels: Seq<ToneChannelSettings>) -> Seq<bool> {
    channels.map_values(|c: ToneChannelSettings| c.enabled)
}

/// A channel table holds the sidetone, channel 0, which is enabled, and its last channel is
/// enabled.
pub open spec fn channel_table_well_formed(channels: Seq<ToneChannelSettings>) -> bool {
    &&& channels.len() >= 1
    &&& channels[0].enabled
    &&& channels.last().enabled
}

/// The channel table of the tone generator: the sidetone (channel 0, always enabled), and the
/// channels allocated to played-back streams. Sample-level synthesis happens around it.
pub struct ToneGenerator {
    enabled_in_filter_bandpass: bool,
    sample_rate: u32,
    channels: Vec<ToneChannelSettings>,
}

impl ToneGenerator {
    /// The channels, in order.
    pub closed spec fn channels(&self) -> Seq<ToneChannelSettings> {
        self.channels@
    }

    /// Whether played-back streams are in the filter's bandpass.
    pub closed spec fn in_filter_bandpass(&self) -> bool {
        self.enabled_in_filter_bandpass
    }

    /// The sample rate of the output, or 0 before it is known.
    pub closed spec fn spec_sample_rate(&self) -> u32 {
        self.sample_rate
    }

    /// A tone generator with only the sidetone channel, at the given frequency.
    pub fn new(sidetone_audio_frequency: u16) -> (tone_generator: Self)
        ensures
            tone_generator.channels() == seq![fresh_channel(sidetone_audio_frequency)],
            tone_generator.in_filter_bandpass(),
            tone_generator.spec_sample_rate() == 0,
            channel_table_well_formed(tone_generator.channels()),
    {
        let mut channels = Vec::new();
        channels.push(
            ToneChannelSettings {
                audio_frequency: sidetone_audio_frequency,
                enabled: true,
                ramping: AmplitudeRamping::Stable,
            },
        );
        Self { enabled_in_filter_bandpass: true, sample_rate: 0, channels }
    }

    /// Records the output sample rate, once the output stream is opened.
    pub fn set_sample_rate(&mut self, sample_rate: u32)
        requires
            channel_table_well_formed(old(self).channels()),
        ensures
            final(self).spec_sample_rate() == sample_rate,
            final(self).channels() == old(self).channels(),
            final(self).in_filter_bandpass() == old(self).in_filter_bandpass(),
            channel_table_well_formed(final(self).channels()),
    {
        self.sample_rate = sample_rate;
    }

    /// The output sample rate, or 0 before it is known.
    pub fn sample_rate(&self) -> (rate: u32)
        ensures
            rate == self.spec_sample_rate(),
    {
        self.sample_rate
    }

    /// Sets the frequency of a channel; an index with no channel is ignored.
    pub fn set_audio_frequency(&mut self, tone_index: usize, freq: u16)
        requires
            channel_table_well_formed(old(self).channels()),
        ensures
            final(self).channels() == (if tone_index < old(self).channels().len() {
                old(self).channels().update(
                    tone_index as int,
                    ToneChannelSettings {
                        audio_frequency: freq,
                        ..old(self).channels()[tone_index as int]
                    },
                )
            } else {
                old(self).channels()
            }),
            final(self).spec_sample_rate() == old(self).spec_sample_rate(),
            final(self).in_filter_bandpass() == old(self).in_filter_bandpass(),
            channel_table_well_formed(final(self).channels()),
    {
        if tone_index >= self.channels.len() {
            return;
        }
        let mut channels = Vec::new();
        std::mem::swap(&mut channels, &mut self.channels);
        let channel = channels[tone_index];
        channels.set(tone_index, ToneChannelSettings { audio_frequency: freq, ..channel });
        self.channels = channels;
    }

    /// Sets whether played-back streams are in the filter's bandpass.
    pub fn set_in_filter_bandpass(&mut self, in_bandpass: bool)
        requires
            channel_table_well_formed(old(self).channels()),
        ensures
            final(self).in_filter_bandpass() == in_bandpass,
            final(self).channels() == old(self).channels(),
            final(self).spec_sample_rate() == old(self).spec_sample_rate(),
            channel_table_well_formed(final(self).channels()),
    {
        self.enabled_in_filter_bandpass = in_bandpass;
    }

    /// Allocates the first disabled channel after the sidetone, or adds a channel if none is
    /// disabled; the channel is enabled at the given frequency.
    pub fn allocate_channel(&mut self, freq: u16) -> (tone_index: usize)
        requires
            channel_table_well_formed(old(self).channels()),
        ensures
            allocation(old(self).channels(), freq, tone_index as int, final(self).channels()),
            tone_index >= 1,
            final(self).spec_sample_rate() == old(self).spec_sample_rate(),
            final(self).in_filter_bandpass() == old(self).in_filter_bandpass(),
            channel_table_well_formed(final(self).channels()),
    {
        let callback_data = ToneChannelSettings {
            audio_frequency: freq,
            enabled: true,
            ramping: AmplitudeRamping::Stable,
        };
        let mut channels = Vec::new();
        std::mem::swap(&mut channels, &mut self.channels);
        // Ignore channel 0, the sidetone.
        let mut i: usize = 1;
        while i < channels.len()
            invariant
                1 <= i <= channels.len(),
                channels@ == old(self).channels@,
                callback_data == fresh_channel(freq),
                channel_table_well_formed(channels@),
                self.sample_rate == old(self).sample_rate,
                self.enabled_in_filter_bandpass == old(self).enabled_in_filter_bandpass,
                forall|j: int| 1 <= j < i ==> #[trigger] channels@[j].enabled,
            decreases channels.len() - i,
        {
            if !channels[i].enabled {
                channels.set(i, callback_data);
                assert(first_disabled(old(self).channels@, i as int));
                self.channels = channels;
                return i;
            }
            i += 1;
        }
        // Nothing disabled, so add..
        let tone_index = channels.len();
        channels.push(callback_data);
        proof {
            assert forall|k: int| !first_disabled(old(self).channels@, k) by {
                if first_disabled(old(self).channels@, k) {
                    assert(channels@[k] == old(self).channels@[k]);
                }
            }
        }
        self.channels = channels;
        tone_index
    }

    /// Disables a channel and drops the disabled channels at the end; the sidetone (channel 0)
    /// and indices with no channel are ignored.
    pub fn deallocate_channel(&mut self, tone_index: usize)
        requires
            channel_table_well_formed(old(self).channels()),
        ensures
            final(self).channels() == deallocation(old(self).channels(), tone_index as int),
            final(self).spec_sample_rate() == old(self).spec_sample_rate(),
            final(self).in_filter_bandpass() == old(self).in_filter_bandpass(),
            channel_table_well_formed(final(self).channels()),
    {
        // Tone index 0 is for the sidetone; it cannot be deallocated.
        if tone_index == 0 {
            return;
        }
        if tone_index >= self.channels.len() {
            return;
        }
        let mut channels = Vec::new();
        std::mem::swap(&mut channels, &mut self.channels);
        let channel = channels[tone_index];
        channels.set(tone_index, ToneChannelSettings { enabled: false, ..channel });
        let ghost disabled = channels@;
        while channels.len() > 1 && !channels[channels.len() - 1].enabled
            invariant
                channels.len() >= 1,
                channels@[0].enabled,
                trim_disabled(channels@) == trim_disabled(disabled),
            decreases channels.len(),
        {
            channels.pop();
        }
        self.channels = channels;
    }

    /// Applies a keying event to the tone channel it names: that channel's ramping becomes the
    /// one the event asks for (`keying_event_ramping`). An event naming a channel that does not
    /// exist changes nothing. Returns whether the event was applied.
    pub fn apply_keying_event(&mut self, event: KeyingEventToneChannel) -> (applied: bool)
        requires
            channel_table_well_formed(old(self).channels()),
        ensures
            applied == (event.tone_channel < old(self).channels().len()),
            final(self).channels() == keyed_channels(old(self).channels(), event),
            final(self).spec_sample_rate() == old(self).spec_sample_rate(),
            final(self).in_filter_bandpass() == old(self).in_filter_bandpass(),
            channel_table_well_formed(final(self).channels()),
    {
        let tone_index = event.tone_channel;
        if tone_index >= self.channels.len() {
            return false;
        }
        let ramping = ramping_for_keying_event(event.keying_event);
        let mut channels = Vec::new();
        std::mem::swap(&mut channels, &mut self.channels);
        let channel = channels[tone_index];
        channels.set(tone_index, ToneChannelSettings { ramping, ..channel });
        self.channels = channels;
        true
    }

    /// Marks a channel's ramp as finished: its ramping becomes stable. An index with no channel
    /// is ignored.
    pub fn finish_ramping(&mut self, tone_index: usize)
        requires
            channel_table_well_formed(old(self).channels()),
        ensures
            final(self).channels() == (if tone_index < old(self).channels().len() {
                old(self).channels().update(
                    tone_index as int,
                    ToneChannelSettings {
                        ramping: AmplitudeRamping::Stable,
                        ..old(self).channels()[tone_index as int]
                    },
                )
            } else {
                old(self).channels()
            }),
            final(self).spec_sample_rate() == old(self).spec_sample_rate(),
            final(self).in_filter_bandpass() == old(self).in_filter_bandpass(),
            channel_table_well_formed(final(self).channels()),
    {
        if tone_index >= self.channels.len() {
            return;
        }
        let mut channels = Vec::new();
        std::mem::swap(&mut channels, &mut self.channels);
        let channel = channels[tone_index];
        channels.set(tone_index, ToneChannelSettings { ramping: AmplitudeRamping::Stable, ..channel });
        self.channels = channels;
    }

    /// The settings of every channel, in order.
    pub fn channel_settings(&self) -> (settings: Vec<ToneChannelSettings>)
        ensures
            settings@ == self.channels(),
    {
        self.channels.clone()
    }

    /// The enabled flag of each channel, in order.
    pub fn test_get_enabled_states(&self) -> (states: Vec<bool>)
        ensures
            states@ == enabled_states(self.channels()),
    {
        let mut out: Vec<bool> = Vec::with_capacity(self.channels.len());
        let mut i: usize = 0;
        while i < self.channels.len()
            invariant
                i <= self.channels.len(),
                out@ == enabled_states(self.channels@.take(i as int)),
            decreases self.channels.len() - i,
        {
            out.push(self.channels[i].enabled);
            assert(enabled_states(self.channels@.take(i + 1)) =~= enabled_states(
                self.channels@.take(i as int),
            ).push(self.channels@[i as int].enabled));
            i += 1;
        }
        assert(self.channels@.take(self.channels.len() as int) =~= self.channels@);
        out
    }
}

/// Deallocating a channel that was just allocated gives back the enabled states of the channels
/// before the allocation; where the allocation added a channel, it gives back the channels
/// themselves.
pub proof fn lemma_deallocate_undoes_allocate(
    channels: Seq<ToneChannelSettings>,
    freq: u16,
    tone_index: int,
    after: Seq<ToneChannelSettings>,
)
    requires
        channel_table_well_formed(channels),
        allocation(channels, freq, tone_index, after),
    ensures
        enabled_states(deallocation(after, tone_index)) == enabled_states(channels),
        tone_index == channels.len() ==> deallocation(after, tone_index) == channels,
{
    if exists|i: int| first_disabled(channels, i) {
        assert(tone_index != channels.len() - 1);
        let d = after.update(tone_index, ToneChannelSettings { enabled: false, ..after[tone_index] });
        assert(d.last().enabled);
        assert(trim_disabled(d) == d);
        assert(enabled_states(d) =~= enabled_states(channels));
    } else {
        let d = after.update(tone_index, ToneChannelSettings { enabled: false, ..after[tone_index] });
        assert(d.drop_last() =~= channels);
        assert(trim_disabled(d) == trim_disabled(channels));
        assert(trim_disabled(channels) == channels);
    }
}

/// Keying events change no channel's frequency and no channel's allocation: only rampings.
pub proof fn lemma_keying_keeps_allocation(
    channels: Seq<ToneChannelSettings>,
    event: KeyingEventToneChannel,
)
    ensures
        keyed_channels(channels, event).len() == channels.len(),
        enabled_states(keyed_channels(channels, event)) == enabled_states(channels),
        forall|i: int|
            0 <= i < channels.len() ==> #[trigger] keyed_channels(channels, event)[i].audio_frequency
                == channels[i].audio_frequency,
{
    assert(enabled_states(keyed_channels(channels, event)) =~= enabled_states(channels));
}

} // verus!
