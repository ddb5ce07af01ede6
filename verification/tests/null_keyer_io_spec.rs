use digimorse::keyer_io::keyer_io::{Keyer, KeyerMode, KeyerPolarity, KeyerSpeed, KeyingEvent};
use digimorse::keyer_io::null_keyer_io::NullKeyer;
use std::sync::mpsc;
use std::sync::mpsc::{Receiver, Sender};

fn keyer() -> NullKeyer {
    let (keying_event_tx, _keying_event_rx): (Sender<KeyingEvent>, Receiver<KeyingEvent>) = mpsc::channel();
    NullKeyer::new(keying_event_tx)
}

#[test]
fn get_version() {
    let mut keyer = keyer();
    match keyer.get_version() {
        Ok(v) => {
            // Keyer replied with....
            assert_eq!(v, "v1.0.0");
        }
        Err(e) => {
            panic!("Did not get version: {}", e);
        }
    }
}

#[test]
fn get_set_speed() {
    let mut keyer = keyer();
    assert_eq!(keyer.get_speed(), Ok(KeyerSpeed::from(12)));
    assert_eq!(keyer.set_speed(KeyerSpeed::from(20)), Ok(()));
    assert_eq!(keyer.get_speed(), Ok(KeyerSpeed::from(20)));
}

#[test]
fn get_set_mode() {
    let mut keyer = keyer();
    assert_eq!(keyer.get_keyer_mode(), Ok(KeyerMode::Straight));
    assert_eq!(keyer.set_keyer_mode(KeyerMode::Paddle), Ok(()));
    assert_eq!(keyer.get_keyer_mode(), Ok(KeyerMode::Paddle));
}

#[test]
fn get_set_polarity() {
    let mut keyer = keyer();
    assert_eq!(keyer.get_keyer_polarity(), Ok(KeyerPolarity::Normal));
    assert_eq!(keyer.set_keyer_polarity(KeyerPolarity::Reverse), Ok(()));
    assert_eq!(keyer.get_keyer_polarity(), Ok(KeyerPolarity::Reverse));
}
