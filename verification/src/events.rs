use vstd::prelude::*;
use crate::track::CardData;

verus! {

/// What a device worker hands to the event sink: one variant per completed
/// frame outcome, plus the single fatal-error report a dying worker emits.
pub enum DeviceEvent {
    /// A card frame closed and decoded successfully.
    CardParsed(CardData),
    /// A barcode scan reached an accepted length or was flushed.
    BarcodeParsed(String),
    /// A card frame closed but could not be decoded; the raw text is kept so
    /// the consumer can still log or display it.
    UnparsedFrame(String),
    /// The device failed for good; the worker stops after emitting this.
    DeviceFatalError(String),
}

} // verus!
