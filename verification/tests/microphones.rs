use transcribe_rs::microphones::{available_microphones, current_microphone, update_service_content};
use transcribe_rs::text::{split_words, std_lines};

const UNIT: &str = "[Unit]\nDescription=Recording daemon\n\n[Service]\nExecStart=/usr/bin/recording-daemon\n";

#[test]
fn std_lines_and_words() {
    assert_eq!(std_lines("a\r\nb\n"), vec!["a", "b"]);
    assert_eq!(std_lines("a\n\nb"), vec!["a", "", "b"]);
    assert_eq!(std_lines("a\r"), vec!["a\r"]);
    assert!(std_lines("").is_empty());
    assert_eq!(std_lines("\n"), vec![""]);
    assert_eq!(split_words("  one\ttwo  three\n"), vec!["one", "two", "three"]);
    assert!(split_words(" \t ").is_empty());
}

#[test]
fn microphone_setting_added_after_service_section() {
    let updated = update_service_content(UNIT, "alsa_input.usb-mic").unwrap();
    assert_eq!(
        updated,
        "[Unit]\nDescription=Recording daemon\n\n[Service]\nEnvironment=\"RECORDING_MICROPHONE=alsa_input.usb-mic\"\nExecStart=/usr/bin/recording-daemon\n"
    );
    assert_eq!(current_microphone(&updated), Some("alsa_input.usb-mic".to_string()));
}

#[test]
fn microphone_setting_replaced() {
    let unit = "[Service]\nEnvironment=\"RECORDING_MICROPHONE=old\"\nExecStart=x";
    let updated = update_service_content(unit, "new").unwrap();
    assert_eq!(updated, "[Service]\nEnvironment=\"RECORDING_MICROPHONE=new\"\nExecStart=x\n");
    assert_eq!(current_microphone(unit), Some("old".to_string()));
}

#[test]
fn microphone_setting_needs_service_section() {
    assert_eq!(
        update_service_content("[Unit]\nDescription=x\n", "m"),
        Err("Could not find [Service] section in service file".to_string())
    );
    assert_eq!(current_microphone("[Unit]\n"), None);
}

#[test]
fn pactl_sources() {
    let out = "49\talsa_output.pci.analog-stereo.monitor\tPipeWire\ts32le 2ch 48000Hz\tSUSPENDED\n\
               50\talsa_input.usb-mic\tPipeWire\ts16le 1ch 16000Hz\tRUNNING\n\
               bad-line\n";
    assert_eq!(
        available_microphones(out),
        vec![("alsa_input.usb-mic".to_string(), "RUNNING".to_string())]
    );
    assert!(available_microphones("").is_empty());
}
