use serial_bridge::codec::MsgCode;
use serial_bridge::errors::SpError;
use serial_bridge::manage::MsgHandle;

const BUFFER_UTF8: [u8; 6] = [0xE5, 0x95, 0x8A, 0xE5, 0x95, 0x8A];
const BUFFER_GBK: [u8; 4] = [0xB0, 0xA1, 0xB0, 0xA1];

#[test]
fn test_add_buffer() {
    let mut handle = MsgHandle::new();
    handle.add_buffer(BUFFER_UTF8.to_vec());
    println!("{:?}", &handle);
}

#[test]
fn test_recv_buffer_to_string() {
    let mut handle = MsgHandle::new();
    handle.add_buffer(BUFFER_UTF8.to_vec());
    handle.add_buffer(BUFFER_GBK.to_vec());

    handle.set_display_show_time(true);
    handle.set_display_hex(true);
    println!("{}", &handle.recv_buffer_to_string());
    handle.set_display_show_time(true);
    handle.set_display_hex(false);
    println!("{}", &handle.recv_buffer_to_string());
    handle.set_display_show_time(false);
    handle.set_display_hex(true);
    println!("{}", &handle.recv_buffer_to_string());
    handle.set_display_show_time(false);
    handle.set_display_hex(false);
    println!("{}", &handle.recv_buffer_to_string());

    handle.set_display_hex(false);
    handle.set_display_code(MsgCode::GBK);
    println!("{}", &handle.recv_buffer_to_string());
}

#[test]
fn recv_counter_equals_sum_of_appended_lengths() {
    let mut handle = MsgHandle::new();
    handle.add_buffer(vec![1, 2, 3]);
    handle.add_buffer(vec![4]);
    assert_eq!(handle.recv_count(), 4);
    handle.clear_count(true);
    assert_eq!(handle.recv_count(), 0);
    handle.add_buffer(vec![5, 6]);
    handle.add_buffer(vec![]);
    handle.add_buffer(vec![7, 8, 9]);
    assert_eq!(handle.recv_count(), 5);
}

#[test]
fn counters_are_independent_of_each_other_and_of_the_buffer() {
    let mut handle = MsgHandle::new();
    handle.add_buffer(vec![1, 2]);
    handle.add_send_count(&vec![9, 9, 9]);
    assert_eq!(handle.recv_count(), 2);
    assert_eq!(handle.send_count(), 3);
    handle.clear_count(false);
    assert_eq!(handle.recv_count(), 2);
    assert_eq!(handle.send_count(), 0);
    handle.add_send_count(&vec![1]);
    handle.clear_count(true);
    assert_eq!(handle.recv_count(), 0);
    assert_eq!(handle.send_count(), 1);
}

#[test]
fn clear_buffer_empties_render_and_keeps_counters() {
    let mut handle = MsgHandle::new();
    handle.add_buffer(BUFFER_UTF8.to_vec());
    handle.add_send_count(&vec![1, 2]);
    assert_ne!(handle.recv_buffer_to_string(), "");
    handle.clear_buffer();
    assert_eq!(handle.recv_buffer_to_string(), "");
    assert_eq!(handle.recv_count(), 6);
    assert_eq!(handle.send_count(), 2);
}

#[test]
fn hex_rendering_of_one_chunk() {
    let mut handle = MsgHandle::new();
    handle.add_buffer(vec![0xE5, 0x95, 0x8A]);
    handle.set_display_hex(true);
    handle.set_display_show_time(false);
    assert_eq!(handle.recv_buffer_to_string(), "E5 95 8A");
}

#[test]
fn hex_entries_are_joined_by_a_single_space() {
    let mut handle = MsgHandle::new();
    handle.add_buffer(vec![0x00, 0xFF]);
    handle.add_buffer(vec![0x0A]);
    handle.set_display_hex(true);
    assert_eq!(handle.recv_buffer_to_string(), "00 FF 0A");
}

#[test]
fn utf8_text_rendering_joins_entries_without_separator() {
    let mut handle = MsgHandle::new();
    handle.add_buffer(vec![0xE5, 0x95, 0x8A]);
    handle.add_buffer(vec![0xE5, 0x95, 0x8A]);
    assert_eq!(handle.recv_buffer_to_string(), "\u{554a}\u{554a}");
}

#[test]
fn gbk_rendering_differs_from_utf8_of_same_bytes() {
    let mut handle = MsgHandle::new();
    handle.add_buffer(BUFFER_GBK.to_vec());
    handle.set_display_code(MsgCode::GBK);
    let gbk = handle.recv_buffer_to_string();
    assert_eq!(gbk, "\u{554a}\u{554a}");
    handle.set_display_code(MsgCode::UTF8);
    let utf8 = handle.recv_buffer_to_string();
    assert_eq!(utf8, "");
    assert_ne!(gbk, utf8);
}

#[test]
fn undecodable_utf8_chunk_degrades_to_empty_not_abort() {
    let mut handle = MsgHandle::new();
    handle.add_buffer(vec![0xB0, 0xA1]);
    handle.add_buffer(vec![0x41, 0x42]);
    assert_eq!(handle.recv_buffer_to_string(), "AB");
}

#[test]
fn to_code_string_decodes_and_reports_failures() {
    let utf8_ok = MsgCode::UTF8.to_code_string(&vec![0xE5, 0x95, 0x8A]);
    assert_eq!(utf8_ok.unwrap(), "\u{554a}");
    let utf8_bad = MsgCode::UTF8.to_code_string(&vec![0xB0, 0xA1]);
    assert_eq!(utf8_bad.unwrap_err(), SpError::DecodeFailure);
    let gbk = MsgCode::GBK.to_code_string(&vec![0xB0, 0xA1]);
    assert_eq!(gbk.unwrap(), "\u{554a}");
}

#[test]
fn timestamped_hex_rendering_gives_one_prefixed_line_per_entry() {
    let mut handle = MsgHandle::new();
    handle.add_buffer_at(vec![0xE5, 0x95, 0x8A], "11:22:33.000001".to_string());
    handle.add_buffer_at(vec![0xB0, 0xA1], "11:22:33.000002".to_string());
    handle.set_display_show_time(true);
    handle.set_display_hex(true);
    assert_eq!(
        handle.recv_buffer_to_string(),
        "[11:22:33.000001]: E5 95 8A\r\n[11:22:33.000002]: B0 A1\r\n"
    );
}

#[test]
fn timestamped_text_rendering_prefixes_decoded_text() {
    let mut handle = MsgHandle::new();
    handle.add_buffer_at(vec![0x68, 0x69], "08:00:00.500000".to_string());
    handle.set_display_show_time(true);
    assert_eq!(handle.recv_buffer_to_string(), "[08:00:00.500000]: hi\r\n");
}

#[test]
fn capture_time_is_fifteen_characters_in_rendered_lines() {
    let mut handle = MsgHandle::new();
    handle.add_buffer(vec![0x41]);
    handle.set_display_show_time(true);
    let line = handle.recv_buffer_to_string();
    let chars: Vec<char> = line.chars().collect();
    assert_eq!(chars[0], '[');
    assert_eq!(chars[16], ']');
    assert_eq!(chars[17], ':');
    assert_eq!(chars[18], ' ');
    assert!(line.ends_with("\r\n"));
}

#[test]
fn retention_bound_evicts_oldest_entries_first() {
    let mut handle = MsgHandle::new();
    handle.set_max_retained(Some(4));
    handle.set_display_hex(true);
    handle.add_buffer(vec![0x01, 0x02, 0x03]);
    assert_eq!(handle.recv_buffer_to_string(), "01 02 03");
    handle.add_buffer(vec![0x04, 0x05]);
    assert_eq!(handle.recv_buffer_to_string(), "04 05");
    handle.add_buffer(vec![0x06]);
    assert_eq!(handle.recv_buffer_to_string(), "04 05 06");
}

#[test]
fn retention_bound_is_inclusive() {
    let mut handle = MsgHandle::new();
    handle.set_max_retained(Some(3));
    handle.set_display_hex(true);
    handle.add_buffer(vec![0x01]);
    handle.add_buffer(vec![0x02, 0x03]);
    assert_eq!(handle.recv_buffer_to_string(), "01 02 03");
}

#[test]
fn retention_bound_of_zero_keeps_nothing() {
    let mut handle = MsgHandle::new();
    handle.set_max_retained(Some(0));
    handle.add_buffer(vec![1, 2, 3]);
    assert_eq!(handle.recv_buffer_to_string(), "");
    assert_eq!(handle.recv_count(), 3);
}

#[test]
fn lifting_the_retention_bound_stops_eviction() {
    let mut handle = MsgHandle::new();
    handle.set_max_retained(Some(2));
    handle.set_display_hex(true);
    handle.add_buffer(vec![0x01, 0x02]);
    handle.set_max_retained(None);
    handle.add_buffer(vec![0x03, 0x04, 0x05]);
    assert_eq!(handle.recv_buffer_to_string(), "01 02 03 04 05");
}
