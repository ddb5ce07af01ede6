use vstd::prelude::*;
use dashmap::DashMap;
use crate::audio::tone_generator::{
    KeyingEventToneChannel, ToneChannel, ToneChannelSettings, ToneGenerator, allocated_channels,
    allocated_index, channel_table_well_formed, deallocations, lemma_allocation_is_determined,
};
use crate::keyer_io::keyer_io::{KeyerEdgeDurationMs, KeyingEvent, KeyingTimedEvent};
use crate::source_codec::keying_timing::{DefaultKeyingTiming, perfect_dit_ms};
use crate::source_codec::source_encoding::{CallsignHash, Frame};

verus! {

/// How long a station's tone channel is kept after its last playback, in milliseconds.
pub const CHANNEL_LIFETIME_MS: u128 = 20000;

/// The delay before the first keying of a transmission is played, in milliseconds.
pub const FIRST_FRAME_PLAYBACK_DELAY_MS: u32 = 1000;

/// A clock: the time, in milliseconds since the epoch. Playback reads it afresh at each step
/// that needs the time, since the clock moves on while a decode is played.
pub trait Clock {
    fn epoch_ms(&mut self) -> u64;
}

/// A station being played back: its callsign hash and its audio offset.
#[derive(Debug, PartialEq, Eq, Structural, Copy, Clone)]
pub struct StationIdentifier {
    pub callsign_hash: CallsignHash,
    pub audio_offset: u16,
}

/// The key under which a station's playback state is held.
pub open spec fn station_key(callsign_hash: CallsignHash, audio_offset: u16) -> u32 {
    ((callsign_hash as u32) * 65536 + (audio_offset as u32)) as u32
}

impl StationIdentifier {
    /// The key under which this station's playback state is held.
    pub fn key(&self) -> (key: u32)
        ensures
            key == station_key(self.callsign_hash, self.audio_offset),
    {
        (self.callsign_hash as u32) * 65536 + (self.audio_offset as u32)
    }
}

/// The playback state of one station.
#[derive(Debug, PartialEq, Eq, Structural, Copy, Clone)]
pub struct StationDetails {
    pub timing: Option<DefaultKeyingTiming>,
    pub next_playback_schedule_time: u32,
    pub last_playback_end_epoch_ms: u128,
    pub current_polarity: bool,
    pub tone_generator_channel: ToneChannel,
    pub last_play_call_epoch_ms_for_channel_expiry: u128,
    pub send_start: bool,
}

/// A keying event to be sent to the tone generator after a delay.
#[derive(Debug, PartialEq, Eq, Structural, Copy, Clone)]
pub struct ScheduledKeying {
    pub delay_ms: u32,
    pub item: KeyingEventToneChannel,
}

/// The map that holds each station's playback state, by station key.
pub type StationTable = DashMap<u32, StationDetails>;

/// The playback state of every station, by station key.
pub uninterp spec fn station_table(m: StationTable) -> Map<u32, StationDetails>;

#[verifier::external_type_specification]
#[verifier::external_body]
#[verifier::reject_recursive_types(K)]
#[verifier::reject_recursive_types(V)]
#[verifier::reject_recursive_types(S)]
pub struct ExDashMap<K, V, S>(DashMap<K, V, S>);

/// `DashMap::new`: an empty map.
#[verifier::external_body]
fn station_table_new() -> (m: StationTable)
    ensures
        station_table(m).dom().is_empty(),
{
    DashMap::new()
}

/// `DashMap::contains_key`: whether the key has an entry.
#[verifier::external_body]
fn station_table_contains(m: &StationTable, key: u32) -> (present: bool)
    ensures
        present == station_table(*m).dom().contains(key),
{
    m.contains_key(&key)
}

/// `DashMap::insert`: sets the entry for the key.
#[verifier::external_body]
fn station_table_insert(m: &mut StationTable, key: u32, details: StationDetails)
    ensures
        station_table(*final(m)) == station_table(*old(m)).insert(key, details),
{
    m.insert(key, details);
}

/// `DashMap::get`, with the entry cloned out (a derived clone: an equal value).
#[verifier::external_body]
fn station_table_get(m: &StationTable, key: u32) -> (details: Option<StationDetails>)
    ensures
        details == (if station_table(*m).dom().contains(key) {
            Some(station_table(*m)[key])
        } else {
            None::<StationDetails>
        }),
{
    match m.get(&key) {
        Some(entry) => Some(entry.value().clone()),
        None => None,
    }
}

/// `DashMap::remove`: removes the entry for the key.
#[verifier::external_body]
fn station_table_remove(m: &mut StationTable, key: u32)
    ensures
        station_table(*final(m)) == station_table(*old(m)).remove(key),
{
    m.remove(&key);
}

/// The keys of `DashMap::iter`, collected: each key once, in the map's own order, which is
/// left open.
#[verifier::external_body]
fn station_table_keys(m: &StationTable) -> (keys: Vec<u32>)
    ensures
        keys@.no_duplicates(),
        keys@.to_set() == station_table(*m).dom(),
{
    m.iter().map(|entry| *entry.key()).collect()
}

/// The gap, in milliseconds, until the previous playback ends: none if it has ended.
pub open spec fn gap_to_end(details: StationDetails, now: u128) -> int {
    if now >= details.last_playback_end_epoch_ms {
        0
    } else {
        details.last_playback_end_epoch_ms - now
    }
}

/// The event that the station's channel plays after a delay.
pub open spec fn scheduled(details: StationDetails, delay_ms: u32, keying_event: KeyingEvent) -> ScheduledKeying {
    ScheduledKeying {
        delay_ms,
        item: KeyingEventToneChannel { keying_event, tone_channel: details.tone_generator_channel },
    }
}

/// Scheduling the start of keying: after the first-frame delay if the previous playback has
/// ended, else as soon as it ends; the playback end moves to the start.
pub open spec fn schedule_start_spec(details: StationDetails, now: u128) -> (StationDetails, ScheduledKeying) {
    let next: u32 = if now >= details.last_playback_end_epoch_ms {
        FIRST_FRAME_PLAYBACK_DELAY_MS
    } else {
        (#[verifier::truncate] ((details.last_playback_end_epoch_ms - now) as u32))
    };
    (StationDetails {
        next_playback_schedule_time: next,
        last_playback_end_epoch_ms: (now + next) as u128,
        ..details
    }, scheduled(details, next, KeyingEvent::Start()))
}

/// Scheduling the end of a tone of `duration` ms: it ends `duration` after the previous
/// playback ends (or after now, if that has passed); the polarity flips and the playback end
/// moves on by the duration.
pub open spec fn schedule_tone_spec(details: StationDetails, duration: KeyerEdgeDurationMs, now: u128) -> (StationDetails, ScheduledKeying) {
    let next: u32 = (#[verifier::truncate] ((gap_to_end(details, now) + duration) as u32));
    (StationDetails {
        next_playback_schedule_time: next,
        current_polarity: !details.current_polarity,
        last_playback_end_epoch_ms: (details.last_playback_end_epoch_ms + duration) as u128,
        ..details
    }, scheduled(
        details,
        next,
        KeyingEvent::Timed(KeyingTimedEvent { up: details.current_polarity, duration }),
    ))
}

/// Scheduling the end of keying, when the previous playback ends; the polarity resets.
pub open spec fn schedule_end_spec(details: StationDetails, now: u128) -> (StationDetails, ScheduledKeying) {
    let next: u32 = (#[verifier::truncate] (gap_to_end(details, now) as u32));
    (StationDetails { next_playback_schedule_time: next, current_polarity: true, ..details },
    scheduled(details, next, KeyingEvent::End()))
}

/// A perfect duration adjusted by a signed delta, as 16-bit signed arithmetic gives it and then
/// reinterpreted as unsigned.
pub open spec fn adjusted_duration(perfect: KeyerEdgeDurationMs, delta: i16) -> KeyerEdgeDurationMs {
    (#[verifier::truncate] (((perfect as int) + (delta as int)) as u16))
}

/// Whether a perfect duration adjusted by a delta stays within 16-bit signed arithmetic.
pub open spec fn adjustment_fits(perfect: KeyerEdgeDurationMs, delta: i16) -> bool {
    (perfect as int) + (delta as int) <= 0x7fff
}

/// The station after one played frame, and what it schedules.
pub open spec fn play_frame(details: StationDetails, frame: Frame, now: u128) -> (StationDetails, Seq<ScheduledKeying>) {
    match frame {
        Frame::WPMPolarity { wpm, polarity } => {
            let d = StationDetails {
                timing: Some(DefaultKeyingTiming { keyer_speed: wpm }),
                current_polarity: polarity,
                ..details
            };
            if d.send_start {
                let (d2, s) = schedule_start_spec(d, now);
                (StationDetails { send_start: false, ..d2 }, seq![s])
            } else {
                (d, seq![])
            }
        },
        Frame::KeyingPerfectDit => match details.timing {
            Some(t) => {
                let (d, s) = schedule_tone_spec(details, perfect_dit_ms(t.keyer_speed), now);
                (d, seq![s])
            },
            None => (details, seq![]),
        },
        Frame::KeyingPerfectDah => match details.timing {
            Some(t) => {
                let (d, s) = schedule_tone_spec(details, (3 * perfect_dit_ms(t.keyer_speed)) as u16, now);
                (d, seq![s])
            },
            None => (details, seq![]),
        },
        Frame::KeyingPerfectWordgap => match details.timing {
            Some(t) => {
                let (d, s) = schedule_tone_spec(details, (7 * perfect_dit_ms(t.keyer_speed)) as u16, now);
                (d, seq![s])
            },
            None => (details, seq![]),
        },
        Frame::KeyingEnd => {
            let (d, s) = schedule_end_spec(details, now);
            (StationDetails { send_start: true, ..d }, seq![s])
        },
        Frame::KeyingDeltaDit { delta } => match details.timing {
            Some(t) => {
                let (d, s) = schedule_tone_spec(
                    details,
                    adjusted_duration(perfect_dit_ms(t.keyer_speed), delta),
                    now,
                );
                (d, seq![s])
            },
            None => (details, seq![]),
        },
        Frame::KeyingDeltaDah { delta } => match details.timing {
            Some(t) => {
                let (d, s) = schedule_tone_spec(
                    details,
                    adjusted_duration((3 * perfect_dit_ms(t.keyer_speed)) as u16, delta),
                    now,
                );
                (d, seq![s])
            },
            None => (details, seq![]),
        },
        Frame::KeyingDeltaWordgap { delta } => match details.timing {
            Some(t) => {
                let (d, s) = schedule_tone_spec(
                    details,
                    adjusted_duration((7 * perfect_dit_ms(t.keyer_speed)) as u16, delta),
                    now,
                );
                (d, seq![s])
            },
            None => (details, seq![]),
        },
        Frame::KeyingNaive { duration } => {
            let (d, s) = schedule_tone_spec(details, duration, now);
            (d, seq![s])
        },
        _ => (details, seq![]),
    }
}

/// How long a key edge that a frame plays lasts, in milliseconds, at `wpm` words per minute:
/// a perfect dit is 1200 / WPM ms, a dah three dits, a word gap seven; a delta frame adds its
/// delta to that; a naive frame gives its duration outright. None for other frames.
pub open spec fn morse_edge_ms(frame: Frame, wpm: int) -> Option<int> {
    let dit = 1200int / wpm;
    match frame {
        Frame::KeyingPerfectDit => Some(dit),
        Frame::KeyingPerfectDah => Some(3 * dit),
        Frame::KeyingPerfectWordgap => Some(7 * dit),
        Frame::KeyingDeltaDit { delta } => Some(dit + delta),
        Frame::KeyingDeltaDah { delta } => Some(3 * dit + delta),
        Frame::KeyingDeltaWordgap { delta } => Some(7 * dit + delta),
        Frame::KeyingNaive { duration } => Some(duration as int),
        _ => None,
    }
}

/// Keying lasts as Morse timing says at the station's speed (`morse_edge_ms`): playing a keying
/// frame schedules one key edge of that duration on the station's channel, with the station's
/// polarity, ending that long after the previous playback ends (or after `now`, if that has
/// passed); the playback end moves on by the duration and the polarity flips.
pub proof fn lemma_keying_durations(details: StationDetails, frame: Frame, now: u128)
    requires
        details.timing matches Some(t) && t.keyer_speed > 0,
        morse_edge_ms(frame, details.timing->0.keyer_speed as int) matches Some(ms) && 0 <= ms
            <= 0x7fff,
        details.last_playback_end_epoch_ms + 0xffff <= u128::MAX,
    ensures
        ({
            let duration = morse_edge_ms(frame, details.timing->0.keyer_speed as int)->0;
            let (after, scheduled) = play_frame(details, frame, now);
            &&& scheduled.len() == 1
            &&& scheduled[0].item.tone_channel == details.tone_generator_channel
            &&& scheduled[0].item.keying_event == KeyingEvent::Timed(
                KeyingTimedEvent { up: details.current_polarity, duration: duration as u16 },
            )
            &&& scheduled[0].delay_ms == (#[verifier::truncate] ((if now
                >= details.last_playback_end_epoch_ms {
                duration
            } else {
                details.last_playback_end_epoch_ms - now + duration
            }) as u32))
            &&& after.last_playback_end_epoch_ms == details.last_playback_end_epoch_ms + duration
            &&& after.current_polarity == !details.current_polarity
            &&& after.tone_generator_channel == details.tone_generator_channel
        }),
{
    let wpm = details.timing->0.keyer_speed as int;
    let dit = 1200int / wpm;
    assert(0 <= dit <= 1200) by (nonlinear_arith)
        requires
            wpm > 0,
            dit == 1200int / wpm,
    ;
    let p = perfect_dit_ms(details.timing->0.keyer_speed);
    assert(p == dit);
    assert((3 * p) as u16 == 3 * dit);
    assert((7 * p) as u16 == 7 * dit);
    let duration = morse_edge_ms(frame, wpm)->0;
    let d = duration as u16;
    assert(d == duration);
    match frame {
        Frame::KeyingDeltaDit { delta } => {
            assert(adjusted_duration(p, delta) == d);
        },
        Frame::KeyingDeltaDah { delta } => {
            assert(adjusted_duration((3 * p) as u16, delta) == d);
        },
        Frame::KeyingDeltaWordgap { delta } => {
            assert(adjusted_duration((7 * p) as u16, delta) == d);
        },
        _ => {},
    }
    let (after, scheduled) = schedule_tone_spec(details, d, now);
    assert(play_frame(details, frame, now) == (after, seq![scheduled]));
}

/// A speed frame at the start of a transmission schedules its start: after the first-frame
/// delay if the previous playback has ended, else when it ends; the speed and polarity are
/// taken up. The end of keying is scheduled when the previous playback ends, and the next
/// speed frame starts a new transmission.
pub proof fn lemma_start_and_end(details: StationDetails, frame: Frame, now: u128)
    requires
        frame is WPMPolarity || frame is KeyingEnd,
    ensures
        ({
            let (after, scheduled) = play_frame(details, frame, now);
            let gap: int = if now >= details.last_playback_end_epoch_ms {
                0
            } else {
                details.last_playback_end_epoch_ms - now
            };
            match frame {
                Frame::WPMPolarity { wpm, polarity } => {
                    &&& after.timing == Some(DefaultKeyingTiming { keyer_speed: wpm })
                    &&& !after.send_start
                    &&& if details.send_start {
                        &&& scheduled.len() == 1
                        &&& scheduled[0].item == KeyingEventToneChannel {
                            keying_event: KeyingEvent::Start(),
                            tone_channel: details.tone_generator_channel,
                        }
                        &&& scheduled[0].delay_ms == (if gap == 0 {
                            FIRST_FRAME_PLAYBACK_DELAY_MS
                        } else {
                            #[verifier::truncate] (gap as u32)
                        })
                        &&& after.current_polarity == polarity
                    } else {
                        &&& scheduled.len() == 0
                        &&& after == StationDetails {
                            timing: Some(DefaultKeyingTiming { keyer_speed: wpm }),
                            current_polarity: polarity,
                            ..details
                        }
                    }
                },
                _ => {
                    &&& scheduled.len() == 1
                    &&& scheduled[0].item == KeyingEventToneChannel {
                        keying_event: KeyingEvent::End(),
                        tone_channel: details.tone_generator_channel,
                    }
                    &&& scheduled[0].delay_ms == #[verifier::truncate] (gap as u32)
                    &&& after.current_polarity
                    &&& after.send_start
                    &&& after.last_playback_end_epoch_ms == details.last_playback_end_epoch_ms
                },
            }
        }),
{
}

/// The station after playing the frames in order, each at the clock reading beside it in
/// `times`, and everything they schedule, in order.
pub open spec fn play_frames(details: StationDetails, frames: Seq<Frame>, times: Seq<u128>) -> (StationDetails, Seq<ScheduledKeying>)
    decreases frames.len(),
{
    if frames.len() == 0 {
        (details, seq![])
    } else {
        let (d, s) = play_frames(details, frames.drop_last(), times.drop_last());
        let (d2, s2) = play_frame(d, frames.last(), times.last());
        (d2, s + s2)
    }
}

/// Whether a frame can be played from a timing: a speed is positive, and delta adjustments stay
/// within 16-bit signed arithmetic.
pub open spec fn frame_playable(timing: Option<DefaultKeyingTiming>, frame: Frame) -> bool {
    match frame {
        Frame::WPMPolarity { wpm, .. } => wpm > 0,
        Frame::KeyingDeltaDit { delta } => match timing {
            Some(t) => adjustment_fits(perfect_dit_ms(t.keyer_speed), delta),
            None => true,
        },
        Frame::KeyingDeltaDah { delta } => match timing {
            Some(t) => adjustment_fits((3 * perfect_dit_ms(t.keyer_speed)) as u16, delta),
            None => true,
        },
        Frame::KeyingDeltaWordgap { delta } => match timing {
            Some(t) => adjustment_fits((7 * perfect_dit_ms(t.keyer_speed)) as u16, delta),
            None => true,
        },
        _ => true,
    }
}

/// The timing in force after a frame.
pub open spec fn timing_after(timing: Option<DefaultKeyingTiming>, frame: Frame) -> Option<DefaultKeyingTiming> {
    match frame {
        Frame::WPMPolarity { wpm, .. } => Some(DefaultKeyingTiming { keyer_speed: wpm }),
        _ => timing,
    }
}

/// The timing in force after a sequence of frames.
pub open spec fn timing_after_frames(timing: Option<DefaultKeyingTiming>, frames: Seq<Frame>) -> Option<DefaultKeyingTiming>
    decreases frames.len(),
{
    if frames.len() == 0 {
        timing
    } else {
        timing_after(timing_after_frames(timing, frames.drop_last()), frames.last())
    }
}

/// Whether each frame can be played from the timing in force before it.
pub open spec fn frames_playable(timing: Option<DefaultKeyingTiming>, frames: Seq<Frame>) -> bool {
    forall|i: int|
        0 <= i < frames.len() ==> #[trigger] frame_playable(
            timing_after_frames(timing, frames.take(i)),
            frames[i],
        )
}

/// The playback state of a station heard for the first time.
pub open spec fn new_station_details(tone_generator_channel: int, now: u128) -> StationDetails {
    StationDetails {
        timing: None,
        next_playback_schedule_time: 0,
        last_playback_end_epoch_ms: now,
        current_polarity: true,
        tone_generator_channel: tone_generator_channel as usize,
        last_play_call_epoch_ms_for_channel_expiry: 0,
        send_start: true,
    }
}

/// The stations whose last play call was at or before `oldest_retained`.
pub open spec fn expired_keys(table: Map<u32, StationDetails>, oldest_retained: int) -> Set<u32> {
    table.dom().filter(
        |k: u32| table[k].last_play_call_epoch_ms_for_channel_expiry <= oldest_retained,
    )
}

/// The tone channels of the stations with the given keys, in the same order.
pub open spec fn channels_of(table: Map<u32, StationDetails>, keys: Seq<u32>) -> Seq<usize> {
    keys.map_values(|k: u32| table[k].tone_generator_channel)
}

/// What expiring at `now` does: the stations whose last play call was at least the channel
/// lifetime ago are removed, and their tone channels are deallocated, one after another in some
/// order.
pub open spec fn expiry(
    stations: Map<u32, StationDetails>,
    channels: Seq<ToneChannelSettings>,
    now: u128,
    stations_after: Map<u32, StationDetails>,
    channels_after: Seq<ToneChannelSettings>,
) -> bool {
    let expired = expired_keys(stations, now - CHANNEL_LIFETIME_MS);
    &&& stations_after == stations.remove_keys(expired)
    &&& exists|order: Seq<u32>|
        {
            &&& order.no_duplicates()
            &&& order.to_set() == expired
            &&& channels_after == deallocations(channels, channels_of(stations, order))
        }
}

/// Whether a station's keying timing, if it has one, has a positive speed.
pub open spec fn timing_well_formed(details: StationDetails) -> bool {
    details.timing matches Some(t) ==> t.keyer_speed > 0
}

/// A station's state when a play call for it arrives at `now`, with the channel table after it:
/// a station heard for the first time gets the tone channel that allocation picks.
pub open spec fn arrival(
    stations: Map<u32, StationDetails>,
    channels: Seq<ToneChannelSettings>,
    key: u32,
    audio_offset: u16,
    now: u128,
) -> (StationDetails, Seq<ToneChannelSettings>) {
    if stations.dom().contains(key) {
        (StationDetails { last_play_call_epoch_ms_for_channel_expiry: now, ..stations[key] }, channels)
    } else {
        (
            StationDetails {
                last_play_call_epoch_ms_for_channel_expiry: now,
                ..new_station_details(allocated_index(channels), now)
            },
            allocated_channels(channels, audio_offset),
        )
    }
}

/// The keying timing a station has when a play call for it arrives: its own, or none for a
/// station heard for the first time.
pub open spec fn arrival_timing(stations: Map<u32, StationDetails>, key: u32) -> Option<DefaultKeyingTiming> {
    if stations.dom().contains(key) {
        stations[key].timing
    } else {
        None
    }
}

/// The frames of a decode, or none for a decode error.
pub open spec fn decoded_frames(decode: Result<Vec<Frame>, String>) -> Seq<Frame> {
    match decode {
        Ok(frames) => frames@,
        Err(_) => seq![],
    }
}

/// A play call before expiry, arriving at `start` and playing each frame at the reading
/// beside it in `times`: the stations (the played one updated), the channel table, and what is
/// scheduled, in order.
pub open spec fn play_outcome(
    stations: Map<u32, StationDetails>,
    channels: Seq<ToneChannelSettings>,
    frames: Seq<Frame>,
    key: u32,
    audio_offset: u16,
    start: u128,
    times: Seq<u128>,
) -> (Map<u32, StationDetails>, Seq<ToneChannelSettings>, Seq<ScheduledKeying>) {
    let (arrived, channels_after) = arrival(stations, channels, key, audio_offset, start);
    let (played, scheduled) = play_frames(arrived, frames, times);
    (stations.insert(key, played), channels_after, scheduled)
}

/// Whether each clock reading fits in 64 bits.
pub open spec fn readings_fit(readings: Seq<u128>) -> bool {
    forall|i: int| 0 <= i < readings.len() ==> #[trigger] readings[i] <= u64::MAX
}

/// Whether a frame can be played from a timing.
fn frame_can_play(timing: Option<DefaultKeyingTiming>, frame: Frame) -> (ok: bool)
    requires
        timing matches Some(t) ==> t.keyer_speed > 0,
    ensures
        ok == frame_playable(timing, frame),
{
    match frame {
        Frame::WPMPolarity { wpm, .. } => wpm > 0,
        Frame::KeyingDeltaDit { delta } => match timing {
            Some(t) => fits_after_adjusting(t, 1, delta),
            None => true,
        },
        Frame::KeyingDeltaDah { delta } => match timing {
            Some(t) => fits_after_adjusting(t, 3, delta),
            None => true,
        },
        Frame::KeyingDeltaWordgap { delta } => match timing {
            Some(t) => fits_after_adjusting(t, 7, delta),
            None => true,
        },
        _ => true,
    }
}

/// Whether `dits` perfect dits at the timing's speed, adjusted by `delta`, stay within 16-bit
/// signed arithmetic.
fn fits_after_adjusting(timing: DefaultKeyingTiming, dits: u16, delta: i16) -> (ok: bool)
    requires
        dits == 1 || dits == 3 || dits == 7,
        timing.keyer_speed > 0,
    ensures
        ok == adjustment_fits((dits * perfect_dit_ms(timing.keyer_speed)) as u16, delta),
{
    let perfect: u16 = dits * (1200 / (timing.keyer_speed as u16));
    (perfect as i32) + (delta as i32) <= 0x7fff
}

fn schedule_start(details: &mut StationDetails, now: u128) -> (s: ScheduledKeying)
    requires
        now <= u128::MAX - 0x1_0000_0000,
    ensures
        (*final(details), s) == schedule_start_spec(*old(details), now),
{
    let last_playback_finished = now >= details.last_playback_end_epoch_ms;
    let next: u32 = if last_playback_finished {
        FIRST_FRAME_PLAYBACK_DELAY_MS
    } else {
        (details.last_playback_end_epoch_ms - now) as u32
    };
    details.next_playback_schedule_time = next;
    let s = ScheduledKeying {
        delay_ms: next,
        item: KeyingEventToneChannel {
            keying_event: KeyingEvent::Start(),
            tone_channel: details.tone_generator_channel,
        },
    };
    details.last_playback_end_epoch_ms = now + next as u128;
    s
}

fn schedule_tone(details: &mut StationDetails, duration_ms: KeyerEdgeDurationMs, now: u128) -> (s: ScheduledKeying)
    requires
        old(details).last_playback_end_epoch_ms + duration_ms <= u128::MAX,
    ensures
        (*final(details), s) == schedule_tone_spec(*old(details), duration_ms, now),
{
    let last_playback_finished = now >= details.last_playback_end_epoch_ms;
    let gap: u128 = if last_playback_finished {
        0
    } else {
        details.last_playback_end_epoch_ms - now
    };
    let next: u32 = (gap + duration_ms as u128) as u32;
    details.next_playback_schedule_time = next;
    let s = ScheduledKeying {
        delay_ms: next,
        item: KeyingEventToneChannel {
            keying_event: KeyingEvent::Timed(
                KeyingTimedEvent { up: details.current_polarity, duration: duration_ms },
            ),
            tone_channel: details.tone_generator_channel,
        },
    };
    details.current_polarity = !details.current_polarity;
    details.last_playback_end_epoch_ms = details.last_playback_end_epoch_ms + duration_ms as u128;
    s
}

fn schedule_end(details: &mut StationDetails, now: u128) -> (s: ScheduledKeying)
    ensures
        (*final(details), s) == schedule_end_spec(*old(details), now),
{
    let last_playback_finished = now >= details.last_playback_end_epoch_ms;
    let gap: u128 = if last_playback_finished {
        0
    } else {
        details.last_playback_end_epoch_ms - now
    };
    let next: u32 = gap as u32;
    details.next_playback_schedule_time = next;
    details.current_polarity = true;
    ScheduledKeying {
        delay_ms: next,
        item: KeyingEventToneChannel {
            keying_event: KeyingEvent::End(),
            tone_channel: details.tone_generator_channel,
        },
    }
}

/// `perfect` adjusted by `delta`, in 16-bit signed arithmetic.
fn adjust(perfect: KeyerEdgeDurationMs, delta: i16) -> (duration: KeyerEdgeDurationMs)
    requires
        perfect <= 0x7fff,
        adjustment_fits(perfect, delta),
    ensures
        duration == adjusted_duration(perfect, delta),
{
    ((perfect as i16) + delta) as u16
}

/// Plays one frame of a station: updates its state and says what to schedule.
fn play_one_frame(details: &mut StationDetails, frame: Frame, now: u128) -> (scheduled: Vec<ScheduledKeying>)
    requires
        frame_playable(old(details).timing, frame),
        old(details).timing matches Some(t) ==> t.keyer_speed > 0,
        now <= u128::MAX - 0x1_0000_0000,
        old(details).last_playback_end_epoch_ms + 0x1_0000 <= u128::MAX,
    ensures
        (*final(details), scheduled@) == play_frame(*old(details), frame, now),
        final(details).timing == timing_after(old(details).timing, frame),
{
    let mut out: Vec<ScheduledKeying> = Vec::new();
    match frame {
        Frame::WPMPolarity { wpm, polarity } => {
            let mut timing = DefaultKeyingTiming::new();
            timing.set_keyer_speed(wpm);
            details.timing = Some(timing);
            details.current_polarity = polarity;
            if details.send_start {
                let s = schedule_start(details, now);
                out.push(s);
                details.send_start = false;
            }
        },
        Frame::KeyingPerfectDit => {
            match details.timing {
                None => {},
                Some(timing) => {
                    let duration_ms = timing.get_perfect_dit_ms();
                    out.push(schedule_tone(details, duration_ms, now));
                },
            }
        },
        Frame::KeyingPerfectDah => {
            match details.timing {
                None => {},
                Some(timing) => {
                    let duration_ms = timing.get_perfect_dah_ms();
                    out.push(schedule_tone(details, duration_ms, now));
                },
            }
        },
        Frame::KeyingPerfectWordgap => {
            match details.timing {
                None => {},
                Some(timing) => {
                    let duration_ms = timing.get_perfect_wordgap_ms();
                    out.push(schedule_tone(details, duration_ms, now));
                },
            }
        },
        Frame::KeyingEnd => {
            out.push(schedule_end(details, now));
            details.send_start = true;
        },
        Frame::KeyingDeltaDit { delta } => {
            match details.timing {
                None => {},
                Some(timing) => {
                    let duration_ms = adjust(timing.get_perfect_dit_ms(), delta);
                    out.push(schedule_tone(details, duration_ms, now));
                },
            }
        },
        Frame::KeyingDeltaDah { delta } => {
            match details.timing {
                None => {},
                Some(timing) => {
                    let duration_ms = adjust(timing.get_perfect_dah_ms(), delta);
                    out.push(schedule_tone(details, duration_ms, now));
                },
            }
        },
        Frame::KeyingDeltaWordgap { delta } => {
            match details.timing {
                None => {},
                Some(timing) => {
                    let duration_ms = adjust(timing.get_perfect_wordgap_ms(), delta);
                    out.push(schedule_tone(details, duration_ms, now));
                },
            }
        },
        Frame::KeyingNaive { duration } => {
            out.push(schedule_tone(details, duration, now));
        },
        _ => {},
    }
    assert(out@ =~= play_frame(*old(details), frame, now).1);
    out
}

/// Plays back decoded frames from stations, each on a tone channel of its own, scheduling their
/// keying; stations not heard from for a while lose their channel.
pub struct Playback {
    playback_state: StationTable,
    readings: Ghost<Seq<u128>>,
}

impl Playback {
    /// The playback state of each station, by station key.
    pub closed spec fn stations(&self) -> Map<u32, StationDetails> {
        station_table(self.playback_state)
    }

    /// The clock readings that the last `play` or `expire` call took, in order.
    pub closed spec fn clock_readings(&self) -> Seq<u128> {
        self.readings@
    }

    /// Every station's keying timing, if it has one, has a positive speed.
    pub open spec fn well_formed(&self) -> bool {
        forall|k: u32| #[trigger] self.stations().dom().contains(k) ==> timing_well_formed(self.stations()[k])
    }

    /// No station has been heard yet.
    pub fn new() -> (playback: Self)
        ensures
            playback.stations().dom().is_empty(),
            playback.well_formed(),
    {
        Self { playback_state: station_table_new(), readings: Ghost(Seq::empty()) }
    }

    /// The time at which the last keying was scheduled for a station, if it has been heard.
    pub fn get_last_playback_schedule_time(&self, callsign_hash: CallsignHash, audio_offset: u16) -> (time: Option<u32>)
        ensures
            time == (if self.stations().dom().contains(station_key(callsign_hash, audio_offset)) {
                Some(self.stations()[station_key(callsign_hash, audio_offset)].next_playback_schedule_time)
            } else {
                None::<u32>
            }),
    {
        let key = StationIdentifier { callsign_hash, audio_offset }.key();
        match station_table_get(&self.playback_state, key) {
            None => None,
            Some(details) => Some(details.next_playback_schedule_time),
        }
    }

    /// Plays back a decode from a station, reading the clock as it goes: a station heard for
    /// the first time gets a tone channel; its last play call is noted at the first reading;
    /// each decoded frame is played in order at a fresh reading, scheduling its keying; then
    /// stations not heard from for the channel lifetime are expired at a last reading. A decode
    /// error plays nothing. Returns what is scheduled, in order. The readings taken are
    /// `clock_readings`: the first, one per frame, and the last.
    ///
    /// Times are kept in `u128` milliseconds, and each frame moves the station's playback end
    /// on by at most `u32::MAX` ms. Readings fit in 64 bits, and the station's playback end is
    /// asked to be at most `u64::MAX` ms (some 584 million years after the epoch): then no
    /// number of frames that a vector can hold takes those sums past `u128::MAX`, where the
    /// arithmetic would overflow. `can_play` decides this `requires`.
    pub fn play<C: Clock>(
        &mut self,
        tone_generator: &mut ToneGenerator,
        decode: Result<Vec<Frame>, String>,
        callsign_hash: CallsignHash,
        audio_offset: u16,
        clock: &mut C,
    ) -> (scheduled: Vec<ScheduledKeying>)
        requires
            old(self).well_formed(),
            channel_table_well_formed(old(tone_generator).channels()),
            old(self).stations().dom().contains(station_key(callsign_hash, audio_offset))
                ==> old(self).stations()[station_key(
                callsign_hash,
                audio_offset,
            )].last_playback_end_epoch_ms <= u64::MAX,
            frames_playable(
                arrival_timing(old(self).stations(), station_key(callsign_hash, audio_offset)),
                decoded_frames(decode),
            ),
        ensures
            ({
                let readings = final(self).clock_readings();
                let n = decoded_frames(decode).len() as int;
                let (stations, channels, schedule) = play_outcome(
                    old(self).stations(),
                    old(tone_generator).channels(),
                    decoded_frames(decode),
                    station_key(callsign_hash, audio_offset),
                    audio_offset,
                    readings[0],
                    readings.subrange(1, n + 1),
                );
                &&& readings.len() == n + 2
                &&& readings_fit(readings)
                &&& scheduled@ == schedule
                &&& expiry(
                    stations,
                    channels,
                    readings[n + 1],
                    final(self).stations(),
                    final(tone_generator).channels(),
                )
                &&& (readings[n + 1] < readings[0] + CHANNEL_LIFETIME_MS ==> final(self).stations().dom().contains(
                    station_key(callsign_hash, audio_offset),
                ))
            }),
            final(self).well_formed(),
            channel_table_well_formed(final(tone_generator).channels()),
            final(tone_generator).spec_sample_rate() == old(tone_generator).spec_sample_rate(),
            final(tone_generator).in_filter_bandpass() == old(tone_generator).in_filter_bandpass(),
    {
        let key = StationIdentifier { callsign_hash, audio_offset }.key();
        let ghost stations0 = self.stations();
        let ghost channels0 = tone_generator.channels();
        let start = clock.epoch_ms() as u128;
        if !station_table_contains(&self.playback_state, key) {
            let channel = tone_generator.allocate_channel(audio_offset);
            proof {
                lemma_allocation_is_determined(
                    channels0,
                    audio_offset,
                    channel as int,
                    tone_generator.channels(),
                );
            }
            let new_details = StationDetails {
                timing: None,
                next_playback_schedule_time: 0,
                last_playback_end_epoch_ms: start,
                current_polarity: true,
                tone_generator_channel: channel,
                last_play_call_epoch_ms_for_channel_expiry: 0,
                send_start: true,
            };
            station_table_insert(&mut self.playback_state, key, new_details);
        }
        let ghost arrived = arrival(stations0, channels0, key, audio_offset, start).0;
        assert(tone_generator.channels() == arrival(stations0, channels0, key, audio_offset, start).1);
        assert(arrived.timing == arrival_timing(stations0, key));
        let mut details = station_table_get(&self.playback_state, key).unwrap();
        details.last_play_call_epoch_ms_for_channel_expiry = start;
        assert(details == arrived);
        let ghost mut times: Seq<u128> = seq![];
        let mut out: Vec<ScheduledKeying> = Vec::new();
        match decode {
            Ok(frames) => {
                let mut i: usize = 0;
                while i < frames.len()
                    invariant
                        i <= frames.len(),
                        frames_playable(arrived.timing, frames@),
                        times.len() == i,
                        readings_fit(times),
                        (details, out@) == play_frames(arrived, frames@.take(i as int), times),
                        details.timing == timing_after_frames(arrived.timing, frames@.take(i as int)),
                        timing_well_formed(details),
                        details.last_play_call_epoch_ms_for_channel_expiry == start,
                        details.last_playback_end_epoch_ms <= 0x2_0000_0000_0000_0000
                            + 0x1_0000 * i,
                    decreases frames.len() - i,
                {
                    let frame = frames[i];
                    proof {
                        assert(frame_playable(
                            timing_after_frames(arrived.timing, frames@.take(i as int)),
                            frames@[i as int],
                        ));
                        assert(frames@.take(i + 1).drop_last() =~= frames@.take(i as int));
                    }
                    let now = clock.epoch_ms() as u128;
                    proof {
                        assert(times.push(now).drop_last() =~= times);
                        times = times.push(now);
                    }
                    let mut more = play_one_frame(&mut details, frame, now);
                    out.append(&mut more);
                    i += 1;
                }
                assert(frames@.take(frames.len() as int) =~= frames@);
            },
            Err(_) => {},
        }
        let ghost before_insert = self.stations();
        station_table_insert(&mut self.playback_state, key, details);
        proof {
            let outcome = play_outcome(
                stations0,
                channels0,
                decoded_frames(decode),
                key,
                audio_offset,
                start,
                times,
            );
            assert((details, out@) == play_frames(arrived, decoded_frames(decode), times));
            assert(before_insert.insert(key, details) =~= stations0.insert(key, details));
            assert(self.stations() == outcome.0);
            assert(tone_generator.channels() == outcome.1);
            assert(out@ == outcome.2);
        }
        let ghost before_expiry = self.stations();
        let end = clock.epoch_ms() as u128;
        self.expire_at(tone_generator, end);
        proof {
            let readings = seq![start] + times + seq![end];
            assert(readings.subrange(1, times.len() + 1 as int) =~= times);
            assert(readings_fit(readings)) by {
                assert forall|j: int| 0 <= j < readings.len() implies #[trigger] readings[j] <= u64::MAX by {
                    if 1 <= j <= times.len() {
                        assert(readings[j] == times[j - 1]);
                    }
                }
            }
            self.readings@ = readings;
            assert(before_expiry[key].last_play_call_epoch_ms_for_channel_expiry == start);
            if end < start + CHANNEL_LIFETIME_MS {
                assert(!expired_keys(before_expiry, end - CHANNEL_LIFETIME_MS).contains(key));
            }
        }
        out
    }

    /// Whether a play call can be made: the station's playback end fits in 64 bits, and each
    /// decoded frame can be played from the timing in force before it (a speed is positive; a
    /// delta keeps 16-bit signed arithmetic).
    pub fn can_play(
        &self,
        tone_generator: &ToneGenerator,
        decode: &Result<Vec<Frame>, String>,
        callsign_hash: CallsignHash,
        audio_offset: u16,
    ) -> (ok: bool)
        requires
            self.well_formed(),
        ensures
            ok == ({
                &&& self.stations().dom().contains(station_key(callsign_hash, audio_offset))
                    ==> self.stations()[station_key(
                    callsign_hash,
                    audio_offset,
                )].last_playback_end_epoch_ms <= u64::MAX
                &&& frames_playable(
                    arrival_timing(self.stations(), station_key(callsign_hash, audio_offset)),
                    decoded_frames(*decode),
                )
            }),
    {
        let key = StationIdentifier { callsign_hash, audio_offset }.key();
        let ghost arrived_timing = arrival_timing(self.stations(), key);
        let mut timing: Option<DefaultKeyingTiming> = None;
        match station_table_get(&self.playback_state, key) {
            Some(details) => {
                if details.last_playback_end_epoch_ms > 0xffff_ffff_ffff_ffffu128 {
                    return false;
                }
                timing = details.timing;
            },
            None => {},
        }
        assert(timing == arrived_timing);
        match decode {
            Err(_) => {
                assert(decoded_frames(*decode) =~= Seq::<Frame>::empty());
                true
            },
            Ok(frames) => {
                assert(decoded_frames(*decode) == frames@);
                let mut i: usize = 0;
                while i < frames.len()
                    invariant
                        i <= frames@.len(),
                        decoded_frames(*decode) == frames@,
                        self.stations().dom().contains(key) ==> self.stations()[key].last_playback_end_epoch_ms <= u64::MAX,
                        key == station_key(callsign_hash, audio_offset),
                        arrived_timing == arrival_timing(self.stations(), key),
                        timing matches Some(t) ==> t.keyer_speed > 0,
                        timing == timing_after_frames(arrived_timing, frames@.take(i as int)),
                        forall|j: int| 0 <= j < i ==> #[trigger] frame_playable(
                            timing_after_frames(arrived_timing, frames@.take(j)),
                            frames@[j],
                        ),
                    decreases frames.len() - i,
                {
                    let frame = frames[i];
                    if !frame_can_play(timing, frame) {
                        assert(!frame_playable(
                            timing_after_frames(arrived_timing, frames@.take(i as int)),
                            frames@[i as int],
                        ));
                        return false;
                    }
                    timing = match frame {
                        Frame::WPMPolarity { wpm, .. } => Some(DefaultKeyingTiming { keyer_speed: wpm }),
                        _ => timing,
                    };
                    assert(frames@.take(i + 1).drop_last() =~= frames@.take(i as int));
                    i += 1;
                }
                true
            },
        }
    }

    /// Reads the clock, then removes the stations whose last play call is at least the channel
    /// lifetime before that reading, deallocating their tone channels. The reading taken is
    /// `clock_readings`.
    pub fn expire<C: Clock>(&mut self, tone_generator: &mut ToneGenerator, clock: &mut C)
        requires
            old(self).well_formed(),
            channel_table_well_formed(old(tone_generator).channels()),
        ensures
            final(self).clock_readings().len() == 1,
            readings_fit(final(self).clock_readings()),
            expiry(
                old(self).stations(),
                old(tone_generator).channels(),
                final(self).clock_readings()[0],
                final(self).stations(),
                final(tone_generator).channels(),
            ),
            final(self).well_formed(),
            channel_table_well_formed(final(tone_generator).channels()),
            final(tone_generator).spec_sample_rate() == old(tone_generator).spec_sample_rate(),
            final(tone_generator).in_filter_bandpass() == old(tone_generator).in_filter_bandpass(),
    {
        let now = clock.epoch_ms() as u128;
        self.expire_at(tone_generator, now);
        proof {
            self.readings@ = seq![now];
        }
    }

    /// Removes the stations whose last play call is at least the channel lifetime before `now`
    /// (milliseconds since the epoch), deallocating their tone channels. Before the channel
    /// lifetime has passed since the epoch, no station is that old.
    fn expire_at(&mut self, tone_generator: &mut ToneGenerator, now: u128)
        requires
            old(self).well_formed(),
            channel_table_well_formed(old(tone_generator).channels()),
        ensures
            expiry(
                old(self).stations(),
                old(tone_generator).channels(),
                now,
                final(self).stations(),
                final(tone_generator).channels(),
            ),
            final(self).well_formed(),
            channel_table_well_formed(final(tone_generator).channels()),
            final(tone_generator).spec_sample_rate() == old(tone_generator).spec_sample_rate(),
            final(tone_generator).in_filter_bandpass() == old(tone_generator).in_filter_bandpass(),
    {
        let ghost table = self.stations();
        if now < CHANNEL_LIFETIME_MS {
            proof {
                assert(expired_keys(table, now - CHANNEL_LIFETIME_MS) =~= Set::<u32>::empty());
                assert(table.remove_keys(Set::<u32>::empty()) =~= table);
                let order: Seq<u32> = seq![];
                assert(order.to_set() =~= Set::<u32>::empty());
                assert(channels_of(table, order) =~= Seq::<usize>::empty());
                assert(deallocations(tone_generator.channels(), channels_of(table, order))
                    == tone_generator.channels());
            }
            return;
        }
        let oldest_activity_retained = now - CHANNEL_LIFETIME_MS;
        let ghost removed = expired_keys(table, oldest_activity_retained as int);
        let keys = station_table_keys(&self.playback_state);
        let ghost mut order: Seq<u32> = seq![];
        let mut i: usize = 0;
        while i < keys.len()
            invariant
                i <= keys.len(),
                keys@.no_duplicates(),
                keys@.to_set() == table.dom(),
                removed == expired_keys(table, oldest_activity_retained as int),
                forall|k: u32| #[trigger] table.dom().contains(k) ==> timing_well_formed(table[k]),
                order.no_duplicates(),
                order.to_set() == removed.intersect(keys@.take(i as int).to_set()),
                self.stations() == table.remove_keys(order.to_set()),
                tone_generator.channels() == deallocations(
                    old(tone_generator).channels(),
                    channels_of(table, order),
                ),
                channel_table_well_formed(tone_generator.channels()),
                tone_generator.spec_sample_rate() == old(tone_generator).spec_sample_rate(),
                tone_generator.in_filter_bandpass() == old(tone_generator).in_filter_bandpass(),
            decreases keys.len() - i,
        {
            let key = keys[i];
            let ghost done = keys@.take(i as int);
            proof {
                assert(keys@.contains(key));
                assert(table.dom().contains(key));
                assert(!done.contains(key));
                assert(!order.to_set().contains(key));
                assert(keys@.take(i + 1) =~= done.push(key));
                done.lemma_push_to_set_commute(key);
                order.lemma_push_to_set_commute(key);
            }
            let details = station_table_get(&self.playback_state, key).unwrap();
            assert(details == table[key]);
            if details.last_play_call_epoch_ms_for_channel_expiry <= oldest_activity_retained {
                assert(removed.contains(key));
                tone_generator.deallocate_channel(details.tone_generator_channel);
                station_table_remove(&mut self.playback_state, key);
                proof {
                    assert(channels_of(table, order.push(key)) =~= channels_of(table, order).push(
                        details.tone_generator_channel,
                    ));
                    assert(channels_of(table, order.push(key)).drop_last() =~= channels_of(
                        table,
                        order,
                    ));
                    assert(table.remove_keys(order.to_set()).remove(key) =~= table.remove_keys(
                        order.to_set().insert(key),
                    ));
                    assert(removed.intersect(done.to_set().insert(key)) =~= removed.intersect(
                        done.to_set(),
                    ).insert(key));
                    order = order.push(key);
                }
            } else {
                assert(!removed.contains(key));
                assert(removed.intersect(done.to_set().insert(key)) =~= removed.intersect(
                    done.to_set(),
                ));
            }
            i += 1;
        }
        proof {
            assert(keys@.take(keys.len() as int) =~= keys@);
            assert(removed.intersect(keys@.to_set()) =~= removed);
            assert(order.to_set() == removed);
        }
    }
}

} // verus!
