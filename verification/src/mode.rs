//! What the program does, as its arguments ask for.

use vstd::prelude::*;
use vstd::string::*;

use crate::single::{equal, equal_spec, greater, greater_spec};

verus! {

/// What the program does.
#[derive(Clone, Copy, Debug, PartialEq, Eq, Structural)]
pub enum Mode {
    /// List the audio devices.
    ListDevices,
    /// Record from the microphone for a while, then transcribe.
    Record,
    /// Transcribe the microphone as it goes.
    Stream,
    /// Transcribe a file.
    File,
}

/// What the arguments ask for: a list of devices before anything else; the microphone where it is
/// named, as an option or in place of a file, for a while where a duration is given; and else a
/// file.
pub open spec fn mode_for(
    list_devices: bool,
    mic: bool,
    in_file: Seq<char>,
    has_duration: bool,
) -> Mode {
    if list_devices {
        Mode::ListDevices
    } else if mic || in_file == "--mic"@ {
        if has_duration {
            Mode::Record
        } else {
            Mode::Stream
        }
    } else {
        Mode::File
    }
}

/// Decides what the program does.
pub fn choose_mode(list_devices: bool, mic: bool, in_file: &String, has_duration: bool) -> (mode:
    Mode)
    ensures
        mode == mode_for(list_devices, mic, in_file@, has_duration),
{
    if list_devices {
        Mode::ListDevices
    } else if mic || *in_file == String::from_str("--mic") {
        if has_duration {
            Mode::Record
        } else {
            Mode::Stream
        }
    } else {
        Mode::File
    }
}

/// The bit pattern of 1, the gain that changes nothing.
pub const UNIT_GAIN_BITS: u32 = 0x3f80_0000;

/// The bit pattern of 10: a gain above it may distort.
pub const HIGH_GAIN_BITS: u32 = 0x4120_0000;

/// What is to be said of a gain.
#[derive(Clone, Copy, Debug, PartialEq, Eq, Structural)]
pub enum GainCheck {
    /// It is zero or less, and refused.
    NotPositive,
    /// It is taken as it is.
    Fine,
    /// It is taken, with a warning that it may distort.
    VeryHigh,
}

/// What is to be said of the gain with this bit pattern.
pub open spec fn gain_check(gain: u32) -> GainCheck {
    if greater_spec(0, gain) || equal_spec(0, gain) {
        GainCheck::NotPositive
    } else if greater_spec(gain, HIGH_GAIN_BITS) {
        GainCheck::VeryHigh
    } else {
        GainCheck::Fine
    }
}

/// Checks a gain, given by the bit pattern of a single-precision number.
pub fn check_gain(gain: u32) -> (check: GainCheck)
    ensures
        check == gain_check(gain),
{
    if greater(0, gain) || equal(0, gain) {
        GainCheck::NotPositive
    } else if greater(gain, HIGH_GAIN_BITS) {
        GainCheck::VeryHigh
    } else {
        GainCheck::Fine
    }
}

/// Whether the gain changes the audio, so that it is worth a remark.
pub fn changes_volume(gain: u32) -> (r: bool)
    ensures
        r == !equal_spec(gain, UNIT_GAIN_BITS),
{
    !equal(gain, UNIT_GAIN_BITS)
}

/// A number above zero is never refused as gain, and a number that is not is always refused.
pub proof fn law_gain_is_positive(gain: u32)
    requires
        !crate::single::is_nan(gain),
    ensures
        gain_check(gain) == GainCheck::NotPositive <==> !greater_spec(gain, 0),
{
}

/// What the program does, told from what its arguments have in common with the answer: devices are
/// listed exactly where that is asked for; otherwise the microphone is used exactly where it is
/// named, as an option or in place of the file; and it is recorded for a while exactly where a
/// duration is given.
pub proof fn law_mode_is_as_asked(
    list_devices: bool,
    mic: bool,
    in_file: String,
    has_duration: bool,
    mode: Mode,
)
    requires
        call_ensures(choose_mode, (list_devices, mic, &in_file, has_duration), mode),
    ensures
        mode is ListDevices <==> list_devices,
        !list_devices ==> (mode is File <==> !mic && in_file@ != seq!['-', '-', 'm', 'i', 'c']),
        mode is Record ==> has_duration,
        mode is Stream ==> !has_duration,
{
    reveal_strlit("--mic");
    assert("--mic"@ =~= seq!['-', '-', 'm', 'i', 'c']);
}

/// A gain is refused exactly where it is zero or below, and warned of exactly where it is above ten;
/// and it changes the volume exactly where it is not one. All patterns from that of negative zero to
/// that of negative infinity stand for numbers of zero or below, and all from behind that of ten to
/// that of infinity for numbers above ten.
pub proof fn law_gains_are_told_apart(gain: u32, check: GainCheck, changes: bool)
    requires
        call_ensures(check_gain, (gain,), check),
        call_ensures(changes_volume, (gain,), changes),
    ensures
        check is NotPositive <==> gain == 0 || 0x8000_0000 <= gain <= 0xff80_0000,
        check is VeryHigh <==> 0x4120_0000 < gain <= 0x7f80_0000,
        changes <==> gain != 0x3f80_0000,
{
}

} // verus!
