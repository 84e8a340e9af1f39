use stt::clock::elapsed;
use stt::device::{choose_device, device, device_lines, missing_device_message, DeviceKind};
use stt::text::{decimal_text, decoded_word};

#[test]
fn the_processor_can_be_asked_for() {
    assert_eq!(choose_device(true, true, true), DeviceKind::Cpu);
    assert_eq!(device(true), DeviceKind::Cpu);
}

#[test]
fn graphics_devices_come_first() {
    assert_eq!(choose_device(false, true, true), DeviceKind::Cuda(0));
    assert_eq!(choose_device(false, true, false), DeviceKind::Cuda(0));
    assert_eq!(choose_device(false, false, true), DeviceKind::Metal(0));
    assert_eq!(choose_device(false, false, false), DeviceKind::Cpu);
}

#[test]
fn the_device_follows_what_candle_was_built_for() {
    let cuda = candle_core::utils::cuda_is_available();
    let metal = candle_core::utils::metal_is_available();
    assert_eq!(device(false), choose_device(false, cuda, metal));
}

#[test]
fn devices_are_listed() {
    assert_eq!(
        device_lines(0, Some("Mic".to_string()), Some((48_000, 2))),
        vec!["  [0] Mic", "      Sample rate: 48000 Hz", "      Channels: 2", ""]
    );
    assert_eq!(device_lines(12, None, None), vec!["  [12] Unknown", ""]);
}

#[test]
fn missing_devices_are_named() {
    assert_eq!(missing_device_message(Some(3)), "No input device at index 3");
    assert_eq!(missing_device_message(None), "No default input device available");
}

#[test]
fn numbers_read_as_decimals() {
    for n in [0, 1, 9, 10, 99, 100, 1234567890, u64::MAX as u128, u128::MAX] {
        assert_eq!(decimal_text(n), n.to_string());
        assert_eq!(decimal_text(n).parse::<u128>(), Ok(n));
    }
}

#[test]
fn failed_decodings_are_empty_words() {
    assert_eq!(decoded_word(Some("word".to_string())), "word");
    assert_eq!(decoded_word(None), "");
}

#[test]
fn time_never_runs_back() {
    assert_eq!(elapsed(3, 10), 7);
    assert_eq!(elapsed(10, 10), 0);
    assert_eq!(elapsed(10, 3), 0);
}
