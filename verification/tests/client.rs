//! The client handle and the conversions between client arguments and results and the C API's.

use mts_client_rs::{
    midi_channel, midi_data_length, midi_note, note_and_channel_from_c, note_from_c, optional_key,
    scale_name_from_c, Client, MtsTuning,
};

#[test]
fn null_registration_is_an_allocation_failure() {
    let result = Client::new(0);
    assert!(matches!(result, Err("Failed to allocate the MTS-ESP client")));
}

#[test]
fn registered_client_keeps_its_address() {
    let client = Client::new(0x7f00_1000).expect("a non-null client registers");
    assert_eq!(client.address(), 0x7f00_1000);
}

#[test]
fn tuning_reads_its_client_on_its_channel() {
    let client = Client::new(0x2000).unwrap();
    let tuning = MtsTuning::new(&client, Some(9));
    assert_eq!(tuning.channel(), Some(9));
    assert_eq!(tuning.client().address(), 0x2000);
    let agnostic = MtsTuning::new(&client, None);
    assert_eq!(agnostic.channel(), None);
}

#[test]
fn channel_argument_is_minus_one_or_clamped() {
    assert_eq!(midi_channel(None), -1);
    assert_eq!(midi_channel(Some(0)), 0);
    assert_eq!(midi_channel(Some(9)), 9);
    assert_eq!(midi_channel(Some(15)), 15);
    assert_eq!(midi_channel(Some(16)), 15);
    assert_eq!(midi_channel(Some(255)), 15);
}

#[test]
fn note_argument_is_clamped_to_the_keyboard() {
    for note in [0u8, 1, 60, 69, 126, 127] {
        assert_eq!(midi_note(note), note as i8);
    }
    assert_eq!(midi_note(128), 127);
    assert_eq!(midi_note(255), 127);
}

#[test]
fn negative_map_query_means_no_map() {
    assert_eq!(optional_key(-1), None);
    assert_eq!(optional_key(-128), None);
    assert_eq!(optional_key(0), Some(0));
    assert_eq!(optional_key(12), Some(12));
    assert_eq!(optional_key(127), Some(127));
}

#[test]
fn nearest_note_reads_the_byte_unsigned() {
    assert_eq!(note_from_c(69), 69);
    assert_eq!(note_from_c(0), 0);
    assert_eq!(note_from_c(-1), 255);
    assert_eq!(note_from_c(-128), 128);
}

#[test]
fn nearest_note_and_channel_are_masked() {
    assert_eq!(note_and_channel_from_c(69, 3), (69, 3));
    assert_eq!(note_and_channel_from_c(-1, -1), (127, 15));
    // 0xC5 is note 69 with the high bit set; 20 is channel 4 past the mask.
    assert_eq!(note_and_channel_from_c(-59, 20), (69, 4));
    let (note, channel) = note_and_channel_from_c(-128, 127);
    assert!(note < 128 && channel < 16);
}

#[test]
fn midi_block_length_is_cut_to_an_int() {
    assert_eq!(midi_data_length(0), 0);
    assert_eq!(midi_data_length(3), 3);
    assert_eq!(midi_data_length(i32::MAX as usize), i32::MAX);
    assert_eq!(midi_data_length(i32::MAX as usize + 1), i32::MAX);
    assert_eq!(midi_data_length(usize::MAX), i32::MAX);
}

#[test]
fn scale_name_decodes_the_masters_bytes() {
    assert_eq!(scale_name_from_c(None), "");
    assert_eq!(scale_name_from_c(Some(b"12-TET")), "12-TET");
    assert_eq!(scale_name_from_c(Some(b"")), "");
    assert_eq!(scale_name_from_c(Some("Bohlen\u{2013}Pierce".as_bytes())), "Bohlen\u{2013}Pierce");
}

#[test]
fn scale_name_replaces_invalid_bytes() {
    assert_eq!(scale_name_from_c(Some(&[0x66, 0xff, 0x6f])), "f\u{fffd}o");
}
