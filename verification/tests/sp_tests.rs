use serial_bridge::errors::SpError;
use serial_bridge::sp::rw_error_handler;
use serial_bridge::sp::LoopState;
use serial_bridge::sp::ReadEvent;
use serial_bridge::sp::ReaderAction;
use serial_bridge::sp::Serial;
use serial_bridge::sp::WriteEvent;
use serial_bridge::sp::WriterAction;
use serial_bridge::sp::{loop_poll, reader_dispatch, writer_dispatch};
use serial_bridge::sp_list::list_available_ports;

#[test]
fn new_handle_starts_disconnected_with_defaults() {
    let serial = Serial::new("/dev/ttyUSB0", 115200);
    assert_eq!(serial.path, "/dev/ttyUSB0");
    assert_eq!(serial.baud_rate, 115200);
    assert_eq!(serial.timeout_millis, 100);
    assert_eq!(serial.buffer_size, 2048);
    assert!(!serial.is_connected());
}

#[test]
fn set_buffer_size_reconfigures_capacity() {
    let mut serial = Serial::new("/dev/ttyUSB0", 9600);
    serial.set_buffer_size(64);
    assert_eq!(serial.buffer_size, 64);
}

#[test]
fn failed_open_surfaces_as_open_failed() {
    let serial = Serial::new("/dev/ttyUSB0", 9600);
    let r = serial.connect(false);
    assert_eq!(r.unwrap_err(), SpError::OpenFailed);
}

#[test]
fn disconnect_clears_liveness_and_blocks_send_once() {
    let serial = Serial::new("/dev/ttyUSB0", 9600);
    let mut serial = serial.connect(true).unwrap();
    assert!(serial.is_connected());
    let sent = serial.send_once(vec![1, 2, 3]);
    assert_eq!(sent.unwrap(), vec![1, 2, 3]);

    serial.disconnect();
    assert!(!serial.is_connected());
    let refused = serial.send_once(vec![4, 5]);
    assert_eq!(refused.unwrap_err(), SpError::NotConnected);

    serial.disconnect();
    assert!(!serial.is_connected());
}

#[test]
fn send_once_needs_an_attached_device() {
    let serial = Serial::new("/dev/ttyUSB0", 9600);
    let refused = serial.send_once(vec![1]);
    assert_eq!(refused.unwrap_err(), SpError::NotConnected);
}

#[test]
fn loop_stops_at_the_liveness_check_after_disconnect() {
    assert_eq!(loop_poll(LoopState::Running, true), LoopState::Running);
    assert_eq!(loop_poll(LoopState::Running, false), LoopState::Terminated);
    assert_eq!(loop_poll(LoopState::Terminated, true), LoopState::Terminated);
    assert_eq!(loop_poll(LoopState::Terminated, false), LoopState::Terminated);
}

#[test]
fn reader_forwards_a_copy_of_the_first_n_bytes() {
    let action = reader_dispatch(ReadEvent::Data(vec![1, 2, 3, 4], 2));
    match action {
        ReaderAction::Forward(chunk) => assert_eq!(chunk, vec![1, 2]),
        _ => panic!("a read with bytes must be forwarded"),
    }
}

#[test]
fn reader_forwards_the_whole_buffer_when_it_was_filled() {
    let action = reader_dispatch(ReadEvent::Data(vec![9, 8, 7], 3));
    match action {
        ReaderAction::Forward(chunk) => assert_eq!(chunk, vec![9, 8, 7]),
        _ => panic!("a full read must be forwarded"),
    }
}

#[test]
fn reader_skips_empty_reads_and_failures_and_pauses_on_timeout() {
    assert!(matches!(
        reader_dispatch(ReadEvent::Data(vec![1, 2], 0)),
        ReaderAction::Skip
    ));
    assert!(matches!(
        reader_dispatch(ReadEvent::Timeout),
        ReaderAction::Pause
    ));
    assert!(matches!(
        reader_dispatch(ReadEvent::Failure),
        ReaderAction::Skip
    ));
}

#[test]
fn writer_writes_messages_pauses_on_empty_and_stops_on_closure() {
    match writer_dispatch(WriteEvent::Message(vec![7, 8])) {
        WriterAction::Write(msg) => assert_eq!(msg, vec![7, 8]),
        _ => panic!("a message must be written"),
    }
    assert!(matches!(writer_dispatch(WriteEvent::Empty), WriterAction::Pause));
    assert!(matches!(writer_dispatch(WriteEvent::Closed), WriterAction::Stop));
}

#[test]
fn lock_poisoning_maps_to_lock_failure() {
    let ok: Result<u32, std::sync::PoisonError<u32>> = Ok(5);
    assert_eq!(rw_error_handler(ok).unwrap(), 5);
    let poisoned: Result<u32, std::sync::PoisonError<u32>> =
        Err(std::sync::PoisonError::new(7));
    assert_eq!(rw_error_handler(poisoned).unwrap_err(), SpError::LockFailure);
}

#[test]
fn listed_ports_keep_names_and_report_available() {
    let names: Vec<String> = vec!["/dev/ttyS0".to_string(), "/dev/ttyUSB1".to_string()];
    let infos = list_available_ports(names);
    assert_eq!(infos.len(), 2);
    assert_eq!(infos[0].name, "/dev/ttyS0");
    assert!(infos[0].state);
    assert_eq!(infos[1].name, "/dev/ttyUSB1");
    assert!(infos[1].state);
}

#[test]
fn error_messages_name_each_failure() {
    assert_eq!(SpError::OpenFailed.message(), "failed to open the serial port");
    assert_eq!(SpError::NotConnected.message(), "serial port not connected");
    assert_eq!(
        SpError::LockFailure.message(),
        "shared connection state is poisoned"
    );
    assert_eq!(
        SpError::DecodeFailure.message(),
        "could not decode bytes with the configured codec"
    );
}
