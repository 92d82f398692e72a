//! The device through which system audio is tapped.

use vstd::prelude::*;
use vstd::string::*;

use crate::text::decimal_text;

verus! {

use crate::text::decimal;

/// The name of the tap and of its device.
pub const TAP_NAME: &'static str = "gemini-live-transcribe system audio";

/// What a device is told of a tap.
#[derive(Debug)]
pub struct SubTapProperties {
    pub uid: String,
    pub drift_compensation: bool,
}

/// What a device is made from.
#[derive(Debug)]
pub struct AggregateProperties {
    pub name: &'static str,
    pub uid: String,
    pub taps: Vec<SubTapProperties>,
    pub tap_auto_start: bool,
    pub is_private: bool,
    pub endpoint_is_private: bool,
}

/// What the device for the tap `tap_uid` is made from: it is private to the process
/// `process_id`, and does not start by itself.
pub fn create_audio_aggregate_device_properties(tap_uid: &str, process_id: u32) -> (properties:
    AggregateProperties)
    ensures
        properties.name@ == TAP_NAME@,
        properties.uid@ == "com.jacoblincool.gemini-live-transcribe.system-audio."@ + decimal(
            process_id as nat,
        ),
        properties.taps@.len() == 1,
        properties.taps@[0].uid@ == tap_uid@,
        properties.taps@[0].drift_compensation,
        !properties.tap_auto_start,
        properties.is_private,
        properties.endpoint_is_private,
{
    let mut taps: Vec<SubTapProperties> = Vec::new();
    taps.push(SubTapProperties { uid: tap_uid.to_owned(), drift_compensation: true });
    AggregateProperties {
        name: TAP_NAME,
        uid: "com.jacoblincool.gemini-live-transcribe.system-audio.".to_owned().concat(
            decimal_text(process_id as u128).as_str(),
        ),
        taps,
        tap_auto_start: false,
        is_private: true,
        endpoint_is_private: true,
    }
}

} // verus!
