use vstd::prelude::*;
use crate::keyer_io::keyer_io::KeyerSpeed;

verus! {

/// Text typed to be keyed.
#[derive(Clone, Debug)]
pub struct KeyingText {
    pub text: String,
}

/// A message to the GUI.
#[derive(Clone, Debug)]
pub enum Message {
    KeyingText(KeyingText),
    Beep,
    IncreaseKeyingSpeedRequest,
    DecreaseKeyingSpeedRequest,
    SetKeyingSpeed(KeyerSpeed),
    RedrawIndicatorsCanvas,
    SetRxIndicator(bool),
    SetWaitIndicator(bool),
    SetTxIndicator(bool),
}

} // verus!
