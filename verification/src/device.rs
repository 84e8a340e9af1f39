//! The choice of devices: where the model runs and where audio comes from.

use vstd::prelude::*;
use vstd::string::*;

use crate::text::{decimal, decimal_text, is_numeral, lemma_decimal_is_numeral};

verus! {

/// A device that a model can run on; the number tells devices of one kind apart.
#[derive(Clone, Copy, Debug, PartialEq, Eq, Structural)]
pub enum DeviceKind {
    Cpu,
    Cuda(usize),
    Metal(usize),
}

/// The device for a model: the processor where it was asked for or there is nothing else, and
/// otherwise the first graphics device.
pub open spec fn device_for(cpu: bool, cuda: bool, metal: bool) -> DeviceKind {
    if cpu {
        DeviceKind::Cpu
    } else if cuda {
        DeviceKind::Cuda(0)
    } else if metal {
        DeviceKind::Metal(0)
    } else {
        DeviceKind::Cpu
    }
}

/// Chooses the device for a model, given what is available.
pub fn choose_device(cpu: bool, cuda: bool, metal: bool) -> (device: DeviceKind)
    ensures
        device == device_for(cpu, cuda, metal),
{
    if cpu {
        DeviceKind::Cpu
    } else if cuda {
        DeviceKind::Cuda(0)
    } else if metal {
        DeviceKind::Metal(0)
    } else {
        DeviceKind::Cpu
    }
}

/// Calls `candle_core::utils::cuda_is_available`, which tells whether candle was built for CUDA.
/// Nothing is claimed of the answer: it depends on the build.
#[verifier::external_body]
fn cuda_is_available() -> (r: bool) {
    candle_core::utils::cuda_is_available()
}

/// Calls `candle_core::utils::metal_is_available`, which tells whether candle was built for Metal.
/// Nothing is claimed of the answer: it depends on the build.
#[verifier::external_body]
fn metal_is_available() -> (r: bool) {
    candle_core::utils::metal_is_available()
}

/// Whether `cuda` can be the answer of `candle_core::utils::cuda_is_available`.
pub closed spec fn answers_on_cuda(cuda: bool) -> bool {
    call_ensures(cuda_is_available, (), cuda)
}

/// Whether `metal` can be the answer of `candle_core::utils::metal_is_available`.
pub closed spec fn answers_on_metal(metal: bool) -> bool {
    call_ensures(metal_is_available, (), metal)
}

/// Chooses the device for a model from what candle was built for: the one for the answers that it
/// gives on CUDA and on Metal.
pub fn device(cpu: bool) -> (device: DeviceKind)
    ensures
        cpu ==> device == DeviceKind::Cpu,
        exists|cuda: bool, metal: bool|
            answers_on_cuda(cuda) && answers_on_metal(metal) && device == #[trigger] device_for(
                cpu,
                cuda,
                metal,
            ),
{
    let cuda = cuda_is_available();
    let metal = metal_is_available();
    choose_device(cpu, cuda, metal)
}

/// What the list of audio devices says of one, line by line. A device whose name cannot be told is
/// called unknown; rate and channels are left out where they cannot be told.
pub open spec fn device_entry(
    index: nat,
    name: Option<Seq<char>>,
    format: Option<(nat, nat)>,
) -> Seq<Seq<char>> {
    let title = "  ["@ + decimal(index) + "] "@ + (match name {
        Some(name) => name,
        None => "Unknown"@,
    });
    match format {
        Some((sample_rate, channels)) => seq![
            title,
            "      Sample rate: "@ + decimal(sample_rate) + " Hz"@,
            "      Channels: "@ + decimal(channels),
            ""@,
        ],
        None => seq![title, ""@],
    }
}

/// What the list of audio devices says of one, line by line.
pub fn device_lines(index: usize, name: Option<String>, format: Option<(u32, u16)>) -> (lines: Vec<
    String,
>)
    ensures
        lines@.map_values(|line: String| line@) == device_entry(
            index as nat,
            match name {
                Some(name) => Some(name@),
                None => None,
            },
            match format {
                Some((sample_rate, channels)) => Some((sample_rate as nat, channels as nat)),
                None => None,
            },
        ),
{
    let name = match name {
        Some(name) => name,
        None => String::from_str("Unknown"),
    };
    let mut lines: Vec<String> = Vec::new();
    let digits = decimal_text(index as u128);
    lines.push(
        String::from_str("  [").concat(digits.as_str()).concat("] ").concat(name.as_str()),
    );
    if let Some((sample_rate, channels)) = format {
        let digits = decimal_text(sample_rate as u128);
        lines.push(String::from_str("      Sample rate: ").concat(digits.as_str()).concat(" Hz"));
        let digits = decimal_text(channels as u128);
        lines.push(String::from_str("      Channels: ").concat(digits.as_str()));
    }
    lines.push(String::from_str(""));
    lines
}

/// What is said where the audio device that was asked for does not exist.
pub open spec fn missing_device(index: Option<nat>) -> Seq<char> {
    match index {
        Some(index) => "No input device at index "@ + decimal(index),
        None => "No default input device available"@,
    }
}

/// The message for an audio device that does not exist: the one at an index, or the default one.
pub fn missing_device_message(index: Option<usize>) -> (s: String)
    ensures
        s@ == missing_device(
            match index {
                Some(index) => Some(index as nat),
                None => None,
            },
        ),
{
    match index {
        Some(index) => {
            let digits = decimal_text(index as u128);
            String::from_str("No input device at index ").concat(digits.as_str())
        },
        None => String::from_str("No default input device available"),
    }
}

/// The processor is chosen exactly where it is asked for or there is nothing else; Metal only where
/// there is no CUDA; and always the first device of its kind.
pub proof fn law_best_device_is_chosen(cpu: bool, cuda: bool, metal: bool, device: DeviceKind)
    requires
        call_ensures(choose_device, (cpu, cuda, metal), device),
    ensures
        match device {
            DeviceKind::Cpu => cpu || (!cuda && !metal),
            DeviceKind::Cuda(index) => !cpu && cuda && index == 0,
            DeviceKind::Metal(index) => !cpu && !cuda && metal && index == 0,
        },
{
}

/// Where the processor is not asked for, the model runs on a device that candle was built for, and on
/// the processor only where it was built for none.
pub proof fn law_device_is_available(cpu: bool, chosen: DeviceKind)
    requires
        call_ensures(device, (cpu,), chosen),
    ensures
        match chosen {
            DeviceKind::Cpu => cpu || (answers_on_cuda(false) && answers_on_metal(false)),
            DeviceKind::Cuda(index) => !cpu && answers_on_cuda(true) && index == 0,
            DeviceKind::Metal(index) => !cpu && answers_on_cuda(false) && answers_on_metal(true)
                && index == 0,
        },
{
}

/// What can be answered on CUDA and on Metal is what the two questions to candle can return, each for
/// itself.
proof fn law_answers_are_those_of_candle(answer: bool)
    ensures
        answers_on_cuda(answer) <==> call_ensures(cuda_is_available, (), answer),
        answers_on_metal(answer) <==> call_ensures(metal_is_available, (), answer),
{
}

/// The list names each device by its number and its name, and gives its rate and its channels where
/// they can be told; an empty line follows.
pub proof fn law_device_is_listed_as_it_is(
    index: usize,
    name: Option<String>,
    format: Option<(u32, u16)>,
    lines: Vec<String>,
)
    requires
        call_ensures(device_lines, (index, name, format), lines),
    ensures
        lines@.len() == if format is Some {
            4int
        } else {
            2
        },
        lines@.last()@.len() == 0,
        exists|digits: Seq<char>|
            is_numeral(digits, index as nat) && lines@[0]@ == "  ["@ + digits + "] "@ + (
            match name {
                Some(name) => name@,
                None => "Unknown"@,
            }),
        format matches Some((rate, channels)) ==> {
            &&& exists|digits: Seq<char>|
                is_numeral(digits, rate as nat) && lines@[1]@ == "      Sample rate: "@ + digits
                    + " Hz"@
            &&& exists|digits: Seq<char>|
                is_numeral(digits, channels as nat) && lines@[2]@ == "      Channels: "@ + digits
        },
{
    let views = lines@.map_values(|line: String| line@);
    reveal_strlit("");
    assert(views.last() == lines@.last()@);
    assert(views[0] == lines@[0]@);
    lemma_decimal_is_numeral(index as nat);
    if let Some((rate, channels)) = format {
        assert(views[1] == lines@[1]@);
        assert(views[2] == lines@[2]@);
        lemma_decimal_is_numeral(rate as nat);
        lemma_decimal_is_numeral(channels as nat);
    }
}

/// The message for a missing device ends in the number that was asked for, where one was.
pub proof fn law_missing_device_is_named(index: Option<usize>, message: String)
    requires
        call_ensures(missing_device_message, (index,), message),
    ensures
        match index {
            Some(index) => exists|digits: Seq<char>|
                is_numeral(digits, index as nat) && message@ == "No input device at index "@
                    + digits,
            None => message@ == "No default input device available"@,
        },
{
    if let Some(index) = index {
        lemma_decimal_is_numeral(index as nat);
    }
}

} // verus!
