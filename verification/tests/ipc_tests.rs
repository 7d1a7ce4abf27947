use ratatui_testlib::ipc::{
    cell_index, check_grid_contains, daemon_wait_step, grid_layout_text, grid_span, grid_text, sequence_remaining, shm_open_step,
    ControlMessage, DaemonConfig, DaemonWaitStep, IpcError, ShmHeader, ShmOpenAction, ShmOpenEvent,
};
use std::path::PathBuf;
use std::time::Duration;

#[test]
fn test_control_message_serialization() {
    let msg = ControlMessage::Input(b"hello".to_vec());
    let bytes = msg.to_bytes();
    assert_eq!(bytes[0], 0); // Type 0 = Input
    assert_eq!(&bytes[1..5], &5u32.to_le_bytes()); // Length
    assert_eq!(&bytes[5..], b"hello");
}

#[test]
fn test_control_message_resize() {
    let msg = ControlMessage::Resize { cols: 80, rows: 24 };
    let bytes = msg.to_bytes();
    assert_eq!(bytes[0], 1); // Type 1 = Resize
    assert_eq!(&bytes[1..3], &80u16.to_le_bytes());
    assert_eq!(&bytes[3..5], &24u16.to_le_bytes());
}

#[test]
fn test_control_message_refresh() {
    let msg = ControlMessage::Refresh;
    let bytes = msg.to_bytes();
    assert_eq!(bytes, vec![2]);
}

#[test]
fn test_control_message_shutdown() {
    let msg = ControlMessage::Shutdown;
    let bytes = msg.to_bytes();
    assert_eq!(bytes, vec![3]);
}

#[test]
fn test_config_builder() {
    let config = DaemonConfig::builder()
        .socket_path("/custom/socket.sock")
        .shm_path("/custom_shm")
        .spawn_daemon(true)
        .daemon_command("my-daemon")
        .dimensions(120, 40)
        .connect_timeout(Duration::from_secs(10))
        .build();

    assert_eq!(config.socket_path, PathBuf::from("/custom/socket.sock"));
    assert_eq!(config.shm_path, "/custom_shm");
    assert!(config.spawn_daemon);
    assert_eq!(config.daemon_command, "my-daemon");
    assert_eq!(config.dimensions, Some((120, 40)));
    assert_eq!(config.connect_timeout, Duration::from_secs(10));
}

fn header(magic: u32, version: u32) -> ShmHeader {
    ShmHeader {
        magic,
        version,
        cols: 80,
        rows: 24,
        cursor_col: 0,
        cursor_row: 0,
        sequence_number: 1,
        grid_offset: 36,
        grid_size: 1920,
        attrs_offset: 0,
        attrs_size: 0,
    }
}

#[test]
fn test_shm_header_validation() {
    let valid_header = ShmHeader {
        magic: ShmHeader::DEFAULT_MAGIC,
        version: ShmHeader::DEFAULT_VERSION,
        cols: 80,
        rows: 24,
        cursor_col: 0,
        cursor_row: 0,
        sequence_number: 1,
        grid_offset: 36,
        grid_size: 1920,
        attrs_offset: 0,
        attrs_size: 0,
    };
    assert!(valid_header.validate().is_ok());

    let invalid_magic = ShmHeader { magic: 0xDEADBEEF, ..valid_header };
    assert!(invalid_magic.validate().is_err());

    let invalid_version = ShmHeader { version: 999, ..valid_header };
    assert!(invalid_version.validate().is_err());
}

#[test]
fn test_custom_magic_validation() {
    let header = ShmHeader {
        magic: 0x5343_5241, // "SCRA"
        version: 1,
        cols: 80,
        rows: 24,
        cursor_col: 0,
        cursor_row: 0,
        sequence_number: 1,
        grid_offset: 36,
        grid_size: 1920,
        attrs_offset: 0,
        attrs_size: 0,
    };

    // Should fail with default magic
    assert!(header.validate().is_err());

    // Should pass with custom magic
    assert!(header.validate_with(0x5343_5241, 1).is_ok());
}

#[test]
fn test_validation_messages() {
    match header(0xDEADBEEF, 1).validate() {
        Err(IpcError::InvalidData(m)) => assert_eq!(m, "Invalid magic: expected 0x5445524D, got 0xDEADBEEF"),
        other => panic!("unexpected: {:?}", other),
    }
    match header(0x0000_00AB, 1).validate_with(0xAB, 7) {
        Err(IpcError::InvalidData(m)) => assert_eq!(m, "Unsupported version: expected 7, got 1"),
        other => panic!("unexpected: {:?}", other),
    }
    match header(1, 1).validate_with(0x1F, 1) {
        Err(e) => assert_eq!(e.message(), "Invalid shared memory data: Invalid magic: expected 0x0000001F, got 0x00000001"),
        Ok(()) => panic!("expected an error"),
    }
}

#[test]
fn test_input_length_prefix() {
    let data: Vec<u8> = (0..300u32).map(|i| (i % 256) as u8).collect();
    let bytes = ControlMessage::Input(data.clone()).to_bytes();
    assert_eq!(&bytes[1..5], &300u32.to_le_bytes());
    assert_eq!(&bytes[5..], &data[..]);
}

#[test]
fn test_default_config() {
    let c = DaemonConfig::default();
    assert_eq!(c.socket_path, PathBuf::from("/tmp/term-daemon.sock"));
    assert_eq!(c.shm_path, "/term_shm_v1");
    assert_eq!(c.daemon_command, "term-daemon");
    assert_eq!(c.dimensions, Some((80, 24)));
    assert_eq!(c.connect_timeout, Duration::from_secs(5));
    assert_eq!(c.default_timeout, Duration::from_secs(10));
    let d = c.clone();
    assert_eq!(d.shm_path, c.shm_path);
}

#[test]
fn test_grid_text_layout() {
    assert_eq!(grid_text(b"abcdef", 2), "ab\ncd\nef");
    assert_eq!(grid_text(b"abcde", 2), "ab\ncd\ne");
    assert_eq!(grid_text(b"", 3), "");
    assert_eq!(grid_text(&[b'a', 0xff, b'b'], 10), "a\u{fffd}b");
}

#[test]
fn test_grid_span_and_cells() {
    let h = header(ShmHeader::DEFAULT_MAGIC, 1);
    assert_eq!(grid_span(&h, 1956).ok(), Some((36, 1920)));
    assert!(matches!(grid_span(&h, 1955), Err(IpcError::InvalidData(_))));
    assert_eq!(cell_index(&h, 4000, 1, 2).ok(), Some(36 + 80 + 2));
    match cell_index(&h, 4000, 24, 0) {
        Err(IpcError::InvalidData(m)) => assert_eq!(m, "Position (24, 0) out of bounds (24x80)"),
        other => panic!("unexpected: {:?}", other),
    }
    match cell_index(&h, 100, 1, 0) {
        Err(IpcError::InvalidData(m)) => assert_eq!(m, "Cell index out of bounds"),
        other => panic!("unexpected: {:?}", other),
    }
}

#[test]
fn test_check_grid_contains() {
    assert!(check_grid_contains("hello world", "world").is_ok());
    match check_grid_contains("abc", "xyz") {
        Err(IpcError::InvalidData(m)) => assert_eq!(m, "Expected grid to contain 'xyz', but it didn't.\nGrid:\nabc"),
        other => panic!("unexpected: {:?}", other),
    }
}

#[test]
fn test_shm_open_steps() {
    assert!(matches!(shm_open_step("/x", 1, 1, ShmOpenEvent::Start), ShmOpenAction::Open));
    assert!(matches!(shm_open_step("/x", 1, 1, ShmOpenEvent::Opened), ShmOpenAction::Stat));
    assert!(matches!(shm_open_step("/x", 1, 1, ShmOpenEvent::Sized(36)), ShmOpenAction::MapBytes(36)));
    match shm_open_step("/x", 1, 1, ShmOpenEvent::Sized(35)) {
        ShmOpenAction::Fail(IpcError::InvalidData(m)) => assert_eq!(m, "Shared memory too small for header"),
        _ => panic!("expected a failure"),
    }
    match shm_open_step("/seg", 1, 1, ShmOpenEvent::OpenFailed) {
        ShmOpenAction::Fail(IpcError::SharedMemoryNotFound(p)) => assert_eq!(p, "/seg"),
        _ => panic!("expected a failure"),
    }
    assert!(matches!(
        shm_open_step("/x", ShmHeader::DEFAULT_MAGIC, 1, ShmOpenEvent::HeaderRead(header(ShmHeader::DEFAULT_MAGIC, 1))),
        ShmOpenAction::Ready(_)
    ));
    assert!(matches!(shm_open_step("/x", 5, 1, ShmOpenEvent::HeaderRead(header(4, 1))), ShmOpenAction::Fail(_)));
}

#[test]
fn test_ipc_error_messages() {
    assert_eq!(IpcError::TestingDisabled.message(), "RTL_IPC_TEST environment variable not set - IPC testing disabled");
    assert_eq!(IpcError::SharedMemoryNotFound("/a".to_string()).message(), "Shared memory not found at: /a");
    assert_eq!(
        IpcError::SocketNotFound(PathBuf::from("/tmp/s.sock")).message(),
        "Daemon socket not found at: /tmp/s.sock"
    );
    assert_eq!(IpcError::Timeout(Duration::from_millis(1500)).message(), "Timeout after 1.5s waiting for condition");
}

#[test]
fn test_daemon_wait_step() {
    assert_eq!(daemon_wait_step(true, 10, 5), DaemonWaitStep::Done);
    assert_eq!(daemon_wait_step(false, 5, 5), DaemonWaitStep::TimedOut);
    assert_eq!(daemon_wait_step(false, 4, 5), DaemonWaitStep::Poll);
}

#[test]
fn test_sequence_remaining() {
    assert_eq!(sequence_remaining(100, 30), Some(70));
    assert_eq!(sequence_remaining(100, 100), None);
    assert_eq!(sequence_remaining(100, 150), None);
}

#[test]
fn test_grid_layout_text() {
    assert_eq!(grid_layout_text("abcdefg", 3), "abc\ndef\ng");
    assert_eq!(grid_layout_text("abcdef", 3), "abc\ndef");
    assert_eq!(grid_layout_text("", 3), "");
}

#[test]
fn test_shm_open_bad_header_errors() {
    match shm_open_step("/x", 5, 1, ShmOpenEvent::HeaderRead(header(4, 1))) {
        ShmOpenAction::Fail(IpcError::InvalidData(m)) => {
            assert_eq!(m, "Invalid magic: expected 0x00000005, got 0x00000004")
        },
        _ => panic!("expected a failure"),
    }
    match shm_open_step("/x", 5, 2, ShmOpenEvent::HeaderRead(header(5, 1))) {
        ShmOpenAction::Fail(IpcError::InvalidData(m)) => assert_eq!(m, "Unsupported version: expected 2, got 1"),
        _ => panic!("expected a failure"),
    }
}
