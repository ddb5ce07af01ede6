use vstd::prelude::*;
use crate::keyer_io::keyer_io::KeyerSpeed;

verus! {

/// How the rest of the system changes parts of the GUI.
pub trait GUIInput {
    fn set_rx_indicator(&mut self, state: bool);

    fn set_wait_indicator(&mut self, state: bool);

    fn set_tx_indicator(&mut self, state: bool);
}

/// How the GUI's controls change the rest of the system.
pub trait GUIOutput {
    fn encode_and_send_text(&mut self, text: String);

    fn warning_beep(&mut self);

    fn set_keyer_speed(&mut self, keyer_speed: KeyerSpeed);

    fn get_keyer_speed(&self) -> KeyerSpeed;
}

} // verus!
