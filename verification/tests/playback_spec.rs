use digimorse::audio::tone_generator::{KeyingEventToneChannel, ToneGenerator};
use digimorse::keyer_io::keyer_io::{KeyingEvent, KeyingTimedEvent};
use digimorse::playback::playback::{Clock, Playback, ScheduledKeying};
use digimorse::source_codec::source_encoding::Frame;

const NOW: u64 = 1_700_000_000_000;

/// A clock that reads `now`, then moves on by `step` ms after each reading.
struct SteppingClock {
    now: u64,
    step: u64,
}

impl Clock for SteppingClock {
    fn epoch_ms(&mut self) -> u64 {
        let reading = self.now;
        self.now += self.step;
        reading
    }
}

fn at(now: u64) -> SteppingClock {
    SteppingClock { now, step: 0 }
}

fn scheduled(delay_ms: u32, keying_event: KeyingEvent, tone_channel: usize) -> ScheduledKeying {
    ScheduledKeying { delay_ms, item: KeyingEventToneChannel { keying_event, tone_channel } }
}

#[test]
fn a_new_station_gets_a_channel_and_its_keying_is_scheduled_in_order() {
    let mut tone_generator = ToneGenerator::new(600);
    let mut playback = Playback::new();
    let frames = vec![
        Frame::WPMPolarity { wpm: 12, polarity: true },
        Frame::KeyingPerfectDit,
        Frame::KeyingPerfectDah,
        Frame::KeyingEnd,
    ];
    let schedule = playback.play(&mut tone_generator, Ok(frames), 0x1234, 1500, &mut at(NOW));
    assert_eq!(
        schedule,
        vec![
            scheduled(1000, KeyingEvent::Start(), 1),
            scheduled(1100, KeyingEvent::Timed(KeyingTimedEvent { up: true, duration: 100 }), 1),
            scheduled(1400, KeyingEvent::Timed(KeyingTimedEvent { up: false, duration: 300 }), 1),
            scheduled(1400, KeyingEvent::End(), 1),
        ]
    );
    assert_eq!(tone_generator.test_get_enabled_states(), vec![true, true]);
    assert_eq!(playback.get_last_playback_schedule_time(0x1234, 1500), Some(1400));
    assert_eq!(playback.get_last_playback_schedule_time(0x1234, 1501), None);
}

#[test]
fn keying_before_a_speed_is_known_is_not_scheduled() {
    let mut tone_generator = ToneGenerator::new(600);
    let mut playback = Playback::new();
    let schedule = playback.play(
        &mut tone_generator,
        Ok(vec![Frame::KeyingPerfectDit, Frame::Padding]),
        7,
        900,
        &mut at(NOW),
    );
    assert_eq!(schedule, vec![]);
}

#[test]
fn delta_keying_adjusts_the_perfect_durations() {
    let mut tone_generator = ToneGenerator::new(600);
    let mut playback = Playback::new();
    let frames = vec![
        Frame::WPMPolarity { wpm: 20, polarity: true },
        Frame::KeyingDeltaDit { delta: 5 },
        Frame::KeyingDeltaDah { delta: -5 },
        Frame::KeyingNaive { duration: 42 },
    ];
    let schedule = playback.play(&mut tone_generator, Ok(frames), 1, 1000, &mut at(NOW));
    assert_eq!(
        schedule,
        vec![
            scheduled(1000, KeyingEvent::Start(), 1),
            scheduled(1065, KeyingEvent::Timed(KeyingTimedEvent { up: true, duration: 65 }), 1),
            scheduled(1240, KeyingEvent::Timed(KeyingTimedEvent { up: false, duration: 175 }), 1),
            scheduled(1282, KeyingEvent::Timed(KeyingTimedEvent { up: true, duration: 42 }), 1),
        ]
    );
}

#[test]
fn a_decode_error_plays_nothing_but_the_station_is_noted() {
    let mut tone_generator = ToneGenerator::new(600);
    let mut playback = Playback::new();
    let schedule = playback.play(&mut tone_generator, Err("bad decode".to_string()), 2, 800, &mut at(NOW));
    assert_eq!(schedule, vec![]);
    assert_eq!(playback.get_last_playback_schedule_time(2, 800), Some(0));
    assert_eq!(tone_generator.test_get_enabled_states(), vec![true, true]);
}

#[test]
fn stations_not_heard_for_the_channel_lifetime_are_expired() {
    let mut tone_generator = ToneGenerator::new(600);
    let mut playback = Playback::new();
    playback.play(&mut tone_generator, Ok(vec![]), 3, 700, &mut at(NOW));
    playback.play(&mut tone_generator, Ok(vec![]), 4, 900, &mut at(NOW + 10_000));
    assert_eq!(tone_generator.test_get_enabled_states(), vec![true, true, true]);

    playback.expire(&mut tone_generator, &mut at(NOW + 19_999));
    assert_eq!(playback.get_last_playback_schedule_time(3, 700), Some(0));

    playback.expire(&mut tone_generator, &mut at(NOW + 20_000));
    assert_eq!(playback.get_last_playback_schedule_time(3, 700), None);
    assert_eq!(playback.get_last_playback_schedule_time(4, 900), Some(0));
    assert_eq!(tone_generator.test_get_enabled_states(), vec![true, false, true]);
}

#[test]
fn unplayable_decodes_are_recognised() {
    let tone_generator = ToneGenerator::new(600);
    let playback = Playback::new();
    assert!(playback.can_play(&tone_generator, &Ok(vec![Frame::WPMPolarity { wpm: 12, polarity: true }]), 1, 1));
    assert!(!playback.can_play(&tone_generator, &Ok(vec![Frame::WPMPolarity { wpm: 0, polarity: true }]), 1, 1));
    assert!(!playback.can_play(
        &tone_generator,
        &Ok(vec![Frame::WPMPolarity { wpm: 5, polarity: true }, Frame::KeyingDeltaWordgap { delta: 32767 }]),
        1,
        1
    ));
    assert!(playback.can_play(&tone_generator, &Err("bad".to_string()), 1, 1));
}

#[test]
fn each_frame_is_scheduled_from_a_fresh_clock_reading() {
    let mut tone_generator = ToneGenerator::new(600);
    let mut playback = Playback::new();
    let frames = vec![
        Frame::WPMPolarity { wpm: 12, polarity: true },
        Frame::KeyingPerfectDit,
        Frame::KeyingPerfectDah,
        Frame::KeyingEnd,
    ];
    // Readings: NOW on arrival, then NOW + 50, + 100, + 150, + 200 for the frames.
    let mut clock = SteppingClock { now: NOW, step: 50 };
    let schedule = playback.play(&mut tone_generator, Ok(frames), 0x1234, 1500, &mut clock);
    assert_eq!(
        schedule,
        vec![
            scheduled(1000, KeyingEvent::Start(), 1),
            scheduled(1050, KeyingEvent::Timed(KeyingTimedEvent { up: true, duration: 100 }), 1),
            scheduled(1300, KeyingEvent::Timed(KeyingTimedEvent { up: false, duration: 300 }), 1),
            scheduled(1250, KeyingEvent::End(), 1),
        ]
    );
}

#[test]
fn a_clock_before_the_channel_lifetime_expires_nothing() {
    let mut tone_generator = ToneGenerator::new(600);
    let mut playback = Playback::new();
    playback.play(&mut tone_generator, Ok(vec![]), 3, 700, &mut at(5));
    playback.expire(&mut tone_generator, &mut at(19_999));
    assert_eq!(playback.get_last_playback_schedule_time(3, 700), Some(0));
    playback.expire(&mut tone_generator, &mut at(20_005));
    assert_eq!(playback.get_last_playback_schedule_time(3, 700), None);
}
