use vstd::prelude::*;
use crate::audio::tone_generator::KeyingEventToneChannel;
use crate::keyer_io::keyer_io::KeyingEvent;

verus! {

/// What the application is run for: everything, or a diagnostic of the keyer or of the source
/// encoder.
#[derive(Debug, PartialEq, Eq, Structural, Copy, Clone)]
pub enum ApplicationMode {
    Full,
    KeyerDiag,
    SourceEncoderDiag,
}

/// The components that the application wires together.
#[derive(Debug, PartialEq, Eq, Structural, Copy, Clone)]
pub enum Component {
    Keyer,
    ToneGenerator,
    KeyerDiag,
    SourceEncoder,
    SourceEncoderDiag,
    ChannelEncoder,
    Playback,
}

/// The buses and bus readers that setting a mode creates, besides the keying event bus, the
/// keying-event-to-tone-channel bus and the tone generator's reader, which every mode has.
#[derive(Debug, PartialEq, Eq, Structural, Copy, Clone)]
pub struct Wiring {
    pub source_encoding_bus: bool,
    pub channel_encoding_bus: bool,
    pub keyer_diag_keying_event_rx: bool,
    pub source_encoder_keying_event_rx: bool,
    pub source_encoder_diag_source_encoding_rx: bool,
    pub channel_encoder_source_encoding_rx: bool,
}

/// The wiring of a mode: source encodings flow in the full mode and the source encoder
/// diagnostic; channel encodings only in the full mode; each mode's consumers get their readers.
pub open spec fn mode_wiring(mode: ApplicationMode) -> Wiring {
    Wiring {
        source_encoding_bus: mode == ApplicationMode::SourceEncoderDiag || mode
            == ApplicationMode::Full,
        channel_encoding_bus: mode == ApplicationMode::Full,
        keyer_diag_keying_event_rx: mode == ApplicationMode::KeyerDiag,
        source_encoder_keying_event_rx: mode == ApplicationMode::SourceEncoderDiag || mode
            == ApplicationMode::Full,
        source_encoder_diag_source_encoding_rx: mode == ApplicationMode::SourceEncoderDiag,
        channel_encoder_source_encoding_rx: mode == ApplicationMode::Full,
    }
}

/// Whether a component may be set or cleared in a mode (no mode permits none).
pub open spec fn permitted(mode: Option<ApplicationMode>, component: Component) -> bool {
    match mode {
        None => false,
        Some(m) => match component {
            Component::Keyer => true,
            Component::ToneGenerator => true,
            Component::KeyerDiag => m == ApplicationMode::KeyerDiag,
            Component::SourceEncoder => m != ApplicationMode::KeyerDiag,
            Component::SourceEncoderDiag => m == ApplicationMode::SourceEncoderDiag,
            Component::ChannelEncoder => m == ApplicationMode::Full,
            Component::Playback => m != ApplicationMode::KeyerDiag,
        },
    }
}

/// Whether the buses and readers that a component is connected to exist in a wiring.
pub open spec fn connections_present(wiring: Wiring, component: Component) -> bool {
    match component {
        Component::Keyer => true,
        Component::ToneGenerator => true,
        Component::KeyerDiag => wiring.keyer_diag_keying_event_rx,
        Component::SourceEncoder => wiring.source_encoder_keying_event_rx
            && wiring.source_encoding_bus,
        Component::SourceEncoderDiag => wiring.source_encoder_diag_source_encoding_rx,
        Component::ChannelEncoder => wiring.channel_encoder_source_encoding_rx
            && wiring.channel_encoding_bus,
        Component::Playback => true,
    }
}

/// The wiring that setting a mode creates.
pub fn wiring_for_mode(mode: ApplicationMode) -> (wiring: Wiring)
    ensures
        wiring == mode_wiring(mode),
{
    let source_encoding = mode == ApplicationMode::SourceEncoderDiag || mode
        == ApplicationMode::Full;
    Wiring {
        source_encoding_bus: source_encoding,
        channel_encoding_bus: mode == ApplicationMode::Full,
        keyer_diag_keying_event_rx: mode == ApplicationMode::KeyerDiag,
        source_encoder_keying_event_rx: source_encoding,
        source_encoder_diag_source_encoding_rx: mode == ApplicationMode::SourceEncoderDiag,
        channel_encoder_source_encoding_rx: mode == ApplicationMode::Full,
    }
}

/// Whether a component may be set or cleared in the mode the application is in.
pub fn component_permitted(mode: Option<ApplicationMode>, component: Component) -> (allowed: bool)
    ensures
        allowed == permitted(mode, component),
{
    match mode {
        None => false,
        Some(m) => match component {
            Component::Keyer => true,
            Component::ToneGenerator => true,
            Component::KeyerDiag => m == ApplicationMode::KeyerDiag,
            Component::SourceEncoder => m != ApplicationMode::KeyerDiag,
            Component::SourceEncoderDiag => m == ApplicationMode::SourceEncoderDiag,
            Component::ChannelEncoder => m == ApplicationMode::Full,
            Component::Playback => m != ApplicationMode::KeyerDiag,
        },
    }
}

/// Whether the buses and readers that a component is connected to exist.
pub fn component_connections_present(wiring: Wiring, component: Component) -> (present: bool)
    ensures
        present == connections_present(wiring, component),
{
    match component {
        Component::Keyer => true,
        Component::ToneGenerator => true,
        Component::KeyerDiag => wiring.keyer_diag_keying_event_rx,
        Component::SourceEncoder => wiring.source_encoder_keying_event_rx
            && wiring.source_encoding_bus,
        Component::SourceEncoderDiag => wiring.source_encoder_diag_source_encoding_rx,
        Component::ChannelEncoder => wiring.channel_encoder_source_encoding_rx
            && wiring.channel_encoding_bus,
        Component::Playback => true,
    }
}

/// In every mode, a component that the mode permits finds the buses and readers it connects
/// to: setting a permitted component never fails for want of wiring.
pub proof fn lemma_permitted_components_are_wired(mode: ApplicationMode, component: Component)
    requires
        permitted(Some(mode), component),
    ensures
        connections_present(mode_wiring(mode), component),
{
}

/// The keying-event-to-tone-channel transform of the keyer's own keying: it is played on the
/// sidetone, channel 0.
pub fn add_sidetone_channel_to_keying_event(keying_event: KeyingEvent) -> (item: KeyingEventToneChannel)
    ensures
        item == (KeyingEventToneChannel { keying_event, tone_channel: 0 }),
{
    KeyingEventToneChannel { keying_event, tone_channel: 0 }
}

} // verus!
