use digimorse::application::application::{add_sidetone_channel_to_keying_event, component_connections_present, component_permitted, wiring_for_mode, ApplicationMode, Component};
use digimorse::keyer_io::keyer_io::KeyingEvent;

const MODES: [ApplicationMode; 3] = [ApplicationMode::Full, ApplicationMode::KeyerDiag, ApplicationMode::SourceEncoderDiag];
const COMPONENTS: [Component; 7] = [
    Component::Keyer,
    Component::ToneGenerator,
    Component::KeyerDiag,
    Component::SourceEncoder,
    Component::SourceEncoderDiag,
    Component::ChannelEncoder,
    Component::Playback,
];

#[test]
fn full_mode_wiring() {
    let wiring = wiring_for_mode(ApplicationMode::Full);
    assert!(wiring.source_encoding_bus);
    assert!(wiring.channel_encoding_bus);
    assert!(!wiring.keyer_diag_keying_event_rx);
    assert!(wiring.source_encoder_keying_event_rx);
    assert!(!wiring.source_encoder_diag_source_encoding_rx);
    assert!(wiring.channel_encoder_source_encoding_rx);
}

#[test]
fn keyer_diag_mode_wiring() {
    let wiring = wiring_for_mode(ApplicationMode::KeyerDiag);
    assert!(!wiring.source_encoding_bus);
    assert!(!wiring.channel_encoding_bus);
    assert!(wiring.keyer_diag_keying_event_rx);
    assert!(!wiring.source_encoder_keying_event_rx);
}

#[test]
fn components_need_a_mode() {
    for component in COMPONENTS {
        assert!(!component_permitted(None, component));
    }
    assert!(component_permitted(Some(ApplicationMode::KeyerDiag), Component::KeyerDiag));
    assert!(!component_permitted(Some(ApplicationMode::KeyerDiag), Component::SourceEncoder));
    assert!(!component_permitted(Some(ApplicationMode::SourceEncoderDiag), Component::ChannelEncoder));
    assert!(component_permitted(Some(ApplicationMode::Full), Component::ChannelEncoder));
}

#[test]
fn permitted_components_find_their_wiring() {
    for mode in MODES {
        let wiring = wiring_for_mode(mode);
        for component in COMPONENTS {
            if component_permitted(Some(mode), component) {
                assert!(component_connections_present(wiring, component));
            }
        }
    }
}

#[test]
fn keyer_keying_sounds_on_the_sidetone() {
    let item = add_sidetone_channel_to_keying_event(KeyingEvent::Start());
    assert_eq!(item.tone_channel, 0);
    assert_eq!(item.keying_event, KeyingEvent::Start());
}
