//! The server: frames, history, sessions and connections.

use krust::server::connection::{
    on_client_frame, on_output, replay_frames, ClientFrame, ClientMessage, Connection,
    ConnectionAction, ConnectionEvent, InputAction,
    OutputAction, OutputEvent, Phase, Protocol,
};
use krust::server::frames::{
    binary_chunks, binary_frame, push_history, text_frame, ByteBudget, Message, BINARY_FRAME_MAX,
    MAX_HISTORY_BYTES, MAX_PENDING_BYTES,
};
use krust::server::session::{
    add_connection, drop_connection, listen_addr, listen_port, pkg_dir, pty_size, pty_write,
    release_client, session_id, shell_launch, Opened, SessionTable,
};

#[test]
fn main_binary_frame_wraps_bytes_verbatim() {
    let bytes = b"\x1b[31mred\x1b[0m".to_vec();
    match binary_frame(bytes.clone()) {
        Message::Binary(b) => assert_eq!(b, bytes),
        _ => panic!("expected Message::Binary"),
    }
}

#[test]
fn binary_frame_wraps_bytes_verbatim() {
    let bytes = b"\x1b[31mred\x1b[0m".to_vec();
    match binary_frame(bytes.clone()) {
        Message::Binary(b) => assert_eq!(b, bytes),
        _ => panic!("expected Message::Binary"),
    }
}

#[test]
fn main_binary_chunks_large_history_into_16kb_frames() {
    let big = vec![b'a'; 200_000];
    let chunked = binary_chunks(big.clone());
    assert!(!chunked.is_empty());
    assert!(chunked.iter().all(|m| matches!(m, Message::Binary(b) if !b.is_empty() && b.len() <= BINARY_FRAME_MAX)));
    let total: usize = chunked
        .iter()
        .map(|m| match m {
            Message::Binary(b) => b.len(),
            _ => 0,
        })
        .sum();
    assert_eq!(total, big.len());
}

#[test]
fn binary_chunks_large_history_into_16kb_frames() {
    let big = vec![b'a'; 200_000];
    let chunked = binary_chunks(big.clone());
    assert!(!chunked.is_empty());
    assert!(chunked.iter().all(|m| matches!(m, Message::Binary(b) if !b.is_empty() && b.len() <= BINARY_FRAME_MAX)));
    let total: usize = chunked
        .iter()
        .map(|m| match m {
            Message::Binary(b) => b.len(),
            _ => 0,
        })
        .sum();
    assert_eq!(total, big.len());
}

#[test]
fn chunks_join_to_the_whole() {
    let bytes: Vec<u8> = (0..BINARY_FRAME_MAX * 2 + 5).map(|i| (i % 251) as u8).collect();
    let frames = binary_chunks(bytes.clone());
    assert_eq!(frames.len(), 3);
    let mut joined = Vec::new();
    for frame in &frames {
        if let Message::Binary(b) = frame {
            joined.extend_from_slice(b);
        }
    }
    assert_eq!(joined, bytes);
    assert!(binary_chunks(Vec::new()).is_empty());
    assert_eq!(binary_chunks(vec![7; BINARY_FRAME_MAX]).len(), 1);
}

#[test]
fn main_raw_input_binary_bytes_write_verbatim_to_pty() {
    let mut sink: Vec<u8> = Vec::new();
    pty_write(&mut sink, b"\x03");
    pty_write(&mut sink, b"\x1b[A");
    assert_eq!(sink, b"\x03\x1b[A");
}

#[test]
fn raw_input_binary_bytes_write_verbatim_to_pty() {
    let mut sink: Vec<u8> = Vec::new();
    pty_write(&mut sink, b"\x03");
    pty_write(&mut sink, b"\x1b[A");
    assert_eq!(sink, b"\x03\x1b[A");
}

#[test]
fn main_pty_size_maps_dimensions() {
    let size = pty_size(132, 43, 1056, 688);
    assert_eq!(size.cols, 132);
    assert_eq!(size.rows, 43);
    assert_eq!(size.pixel_width, 1056);
    assert_eq!(size.pixel_height, 688);
}

#[test]
fn pty_size_maps_dimensions() {
    let size = pty_size(132, 43, 1056, 688);
    assert_eq!(size.cols, 132);
    assert_eq!(size.rows, 43);
    assert_eq!(size.pixel_width, 1056);
    assert_eq!(size.pixel_height, 688);
}

#[test]
fn main_pty_size_defaults_pixels_to_zero() {
    let size = pty_size(80, 24, 0, 0);
    assert_eq!(size.cols, 80);
    assert_eq!(size.rows, 24);
    assert_eq!(size.pixel_width, 0);
    assert_eq!(size.pixel_height, 0);
}

#[test]
fn pty_size_defaults_pixels_to_zero() {
    let size = pty_size(80, 24, 0, 0);
    assert_eq!(size.cols, 80);
    assert_eq!(size.rows, 24);
    assert_eq!(size.pixel_width, 0);
    assert_eq!(size.pixel_height, 0);
}

#[test]
fn main_last_connection_drop_marks_session_for_cleanup() {
    let mut c: usize = 1;
    assert!(drop_connection(&mut c), "last drop should request cleanup");
    assert_eq!(c, 0);
}

#[test]
fn last_connection_drop_marks_session_for_cleanup() {
    let mut c: usize = 1;
    assert!(drop_connection(&mut c), "last drop should request cleanup");
    assert_eq!(c, 0);
}

#[test]
fn main_remaining_connections_keep_session_alive() {
    let mut connections: usize = 2;
    assert!(!drop_connection(&mut connections));
    assert!(drop_connection(&mut connections));
    assert_eq!(connections, 0);
}

#[test]
fn remaining_connections_keep_session_alive() {
    let mut connections: usize = 2;
    assert!(!drop_connection(&mut connections));
    assert!(drop_connection(&mut connections));
    assert_eq!(connections, 0);
}

#[test]
fn connections_are_counted_up_and_down() {
    let mut connections: usize = 0;
    add_connection(&mut connections);
    add_connection(&mut connections);
    assert_eq!(connections, 2);
    assert!(!release_client(true, &mut connections));
    assert!(release_client(true, &mut connections));
    assert!(!drop_connection(&mut connections));
    assert_eq!(connections, usize::MAX);
    let mut connections: usize = 1;
    assert!(!release_client(false, &mut connections));
    assert_eq!(connections, 0);
}

#[test]
fn budget_is_strict_and_starts_over() {
    let mut budget = ByteBudget::default();
    assert!(budget.accept(MAX_PENDING_BYTES));
    assert!(!budget.accept(1));
    assert_eq!(budget.pending, 0);
    assert!(budget.accept(1));
    assert_eq!(budget.pending, 1);
    assert!(!budget.accept(MAX_PENDING_BYTES));
    budget.accept(5);
    budget.reset();
    assert_eq!(budget.pending, 0);
}

#[test]
fn history_keeps_the_last_bytes() {
    let mut history = Vec::new();
    push_history(&mut history, b"abc");
    push_history(&mut history, b"");
    assert_eq!(history, b"abc");
    push_history(&mut history, &vec![1u8; MAX_HISTORY_BYTES - 1]);
    assert_eq!(history.len(), MAX_HISTORY_BYTES);
    assert_eq!(history[0], b'c');
    push_history(&mut history, b"z");
    assert_eq!(history.len(), MAX_HISTORY_BYTES);
    assert_eq!(history[0], 1);
    assert_eq!(history[MAX_HISTORY_BYTES - 1], b'z');
    let mut at_once = Vec::new();
    let mut all = b"abc".to_vec();
    all.extend(vec![1u8; MAX_HISTORY_BYTES - 1]);
    all.push(b'z');
    push_history(&mut at_once, &all);
    assert_eq!(at_once, history);
}

#[test]
fn blank_session_names_mean_the_default() {
    assert_eq!(session_id(None), "default");
    assert_eq!(session_id(Some(String::new())), "default");
    assert_eq!(session_id(Some(" \t\u{3000}\u{85}".to_string())), "default");
    assert_eq!(session_id(Some(" work ".to_string())), " work ");
    assert_eq!(session_id(Some("\u{200b}".to_string())), "\u{200b}");
}

#[test]
fn white_space_is_what_the_standard_library_says() {
    for cp in 0..0x11_0000u32 {
        if let Some(c) = char::from_u32(cp) {
            let blank = session_id(Some(c.to_string())) == "default";
            assert_eq!(blank, c.to_string().trim().is_empty());
        }
    }
}

#[test]
fn shell_is_started_in_a_terminal() {
    let launch = shell_launch(None, Some("/tmp".to_string()));
    assert_eq!(launch.program, "/bin/sh");
    assert_eq!(launch.term, "xterm-256color");
    assert_eq!(launch.colorterm, "truecolor");
    assert_eq!(launch.dir, Some("/tmp".to_string()));
    assert!(launch.size == pty_size(80, 24, 0, 0));
    assert_eq!(shell_launch(Some("/usr/bin/fish".to_string()), None).program, "/usr/bin/fish");
}

#[test]
fn configuration_falls_back_step_by_step() {
    let s = |t: &str| Some(t.to_string());
    assert_eq!(pkg_dir(s("/a"), s("/b"), "client/pkg"), "/a");
    assert_eq!(pkg_dir(None, s("/b"), "client/pkg"), "/b");
    assert_eq!(pkg_dir(None, None, "client/pkg"), "client/pkg");
    assert_eq!(listen_port(None), "3000");
    assert_eq!(listen_port(s("8080")), "8080");
    assert_eq!(listen_addr("8080"), "0.0.0.0:8080");
}

#[test]
fn sessions_are_found_again_until_they_are_closed() {
    let mut table = SessionTable::new();
    assert_eq!(table.lookup("a"), None);
    assert!(table.open("a") == Opened::Fresh(0));
    assert!(table.open("b") == Opened::Fresh(1));
    assert!(table.open("a") == Opened::Existing(0));
    assert_eq!(table.lookup("b"), Some(1));
    assert!(!table.close("a", 1));
    assert!(!table.close("c", 0));
    assert!(table.close("a", 0));
    assert_eq!(table.lookup("a"), None);
    assert!(table.open("a") == Opened::Fresh(2));
    assert!(!table.close("a", 0));
    assert_eq!(table.lookup("a"), Some(2));
    assert_eq!(table.lookup("b"), Some(1));
}

#[test]
fn binary_output_is_forwarded_until_the_budget_is_spent() {
    let mut budget = ByteBudget::default();
    match on_output(Protocol::Binary, &mut budget, OutputEvent::Output(b"x\xff".to_vec())) {
        OutputAction::Send(Message::Binary(b)) => assert_eq!(b, b"x\xff"),
        other => panic!("unexpected {:?}", other),
    }
    assert_eq!(budget.pending, 2);
    let big = OutputEvent::Output(vec![0; MAX_PENDING_BYTES]);
    assert!(matches!(on_output(Protocol::Binary, &mut budget, big), OutputAction::Replay));
    assert_eq!(budget.pending, 0);
    on_output(Protocol::Binary, &mut budget, OutputEvent::Output(vec![1]));
    assert!(matches!(on_output(Protocol::Binary, &mut budget, OutputEvent::Lagged), OutputAction::Replay));
    assert_eq!(budget.pending, 0);
    assert!(matches!(on_output(Protocol::Binary, &mut budget, OutputEvent::Closed), OutputAction::Stop));
}

#[test]
fn text_output_is_decoded_and_never_replayed() {
    let mut budget = ByteBudget::default();
    match on_output(Protocol::Text, &mut budget, OutputEvent::Output(b"a\xffb".to_vec())) {
        OutputAction::Send(Message::Text(t)) => assert_eq!(t, "a\u{fffd}b"),
        other => panic!("unexpected {:?}", other),
    }
    assert!(matches!(on_output(Protocol::Text, &mut budget, OutputEvent::Lagged), OutputAction::Stop));
    assert!(matches!(on_output(Protocol::Text, &mut budget, OutputEvent::Closed), OutputAction::Stop));
    match text_frame("gr\u{fc}n".as_bytes()) {
        Message::Text(t) => assert_eq!(t, "gr\u{fc}n"),
        Message::Binary(_) => panic!("expected Message::Text"),
    }
}

#[test]
fn clients_are_brought_up_to_date_from_the_history() {
    assert!(replay_frames(Protocol::Binary, Vec::new()).is_empty());
    assert!(replay_frames(Protocol::Text, Vec::new()).is_empty());
    assert_eq!(replay_frames(Protocol::Binary, vec![1; MAX_HISTORY_BYTES]).len(), 32);
    let text = replay_frames(Protocol::Text, b"hi".to_vec());
    assert_eq!(text.len(), 1);
    assert!(matches!(&text[0], Message::Text(t) if t == "hi"));
}

#[test]
fn client_frames_are_written_or_resize_or_are_ignored() {
    let input = || ClientFrame::Text(Some(ClientMessage::Input { data: "gr\u{fc}n\x03".to_string() }));
    for protocol in [Protocol::Binary, Protocol::Text] {
        match on_client_frame(protocol, input()) {
            InputAction::Write(b) => assert_eq!(b, b"gr\xc3\xbcn\x03"),
            other => panic!("unexpected {:?}", other),
        }
        let resize = ClientMessage::Resize { cols: 100, rows: 30, pixel_width: 800, pixel_height: 600 };
        match on_client_frame(protocol, ClientFrame::Text(Some(resize))) {
            InputAction::Resize(size) => assert!(size == pty_size(100, 30, 800, 600)),
            other => panic!("unexpected {:?}", other),
        }
        assert!(matches!(on_client_frame(protocol, ClientFrame::Text(None)), InputAction::Ignore));
        assert!(matches!(on_client_frame(protocol, ClientFrame::Other), InputAction::Ignore));
    }
    match on_client_frame(Protocol::Binary, ClientFrame::Binary(vec![0, 255])) {
        InputAction::Write(b) => assert_eq!(b, vec![0, 255]),
        other => panic!("unexpected {:?}", other),
    }
    let binary = ClientFrame::Binary(vec![0, 255]);
    assert!(matches!(on_client_frame(Protocol::Text, binary), InputAction::Ignore));
}

#[test]
fn a_connection_sends_the_history_before_output() {
    let (mut c, frames) = Connection::new(Protocol::Binary, b"old".to_vec());
    assert_eq!(frames.len(), 1);
    assert!(matches!(&frames[0], Message::Binary(b) if b == b"old"));
    let early = ConnectionEvent::Output(OutputEvent::Output(b"new".to_vec()));
    assert!(matches!(c.on_event(early), ConnectionAction::Wait));
    let replayed = ConnectionEvent::Replayed { sent: true };
    assert!(matches!(c.on_event(replayed), ConnectionAction::Subscribe));
    let output = ConnectionEvent::Output(OutputEvent::Output(b"new".to_vec()));
    match c.on_event(output) {
        ConnectionAction::Send(Message::Binary(b)) => assert_eq!(b, b"new"),
        other => panic!("unexpected {:?}", other),
    }
    let flood = ConnectionEvent::Output(OutputEvent::Output(vec![0; MAX_PENDING_BYTES]));
    assert!(matches!(c.on_event(flood), ConnectionAction::Replay));
    let lagged = ConnectionEvent::Output(OutputEvent::Lagged);
    assert!(matches!(c.on_event(lagged), ConnectionAction::Replay));
}

#[test]
fn a_failed_replay_ends_binary_connections_only() {
    let (mut c, _) = Connection::new(Protocol::Binary, b"old".to_vec());
    let failed = ConnectionEvent::Replayed { sent: false };
    assert!(matches!(c.on_event(failed), ConnectionAction::Release));
    assert!(matches!(c.on_event(ConnectionEvent::ClientGone), ConnectionAction::Wait));
    let (mut c, frames) = Connection::new(Protocol::Text, b"old".to_vec());
    assert!(matches!(&frames[0], Message::Text(t) if t == "old"));
    let failed = ConnectionEvent::Replayed { sent: false };
    assert!(matches!(c.on_event(failed), ConnectionAction::Subscribe));
}

#[test]
fn a_client_is_released_once() {
    let ends = [
        || ConnectionEvent::SendFailed,
        || ConnectionEvent::ClientGone,
        || ConnectionEvent::Output(OutputEvent::Closed),
    ];
    for end in ends {
        let (mut c, frames) = Connection::new(Protocol::Binary, Vec::new());
        assert!(frames.is_empty());
        let replayed = ConnectionEvent::Replayed { sent: true };
        assert!(matches!(c.on_event(replayed), ConnectionAction::Subscribe));
        assert!(matches!(c.on_event(end()), ConnectionAction::Release));
        assert!(matches!(c.on_event(end()), ConnectionAction::Wait));
        assert!(c.phase == Phase::Ended);
    }
}

#[test]
fn delivered_output_is_no_longer_queued() {
    let (mut c, _) = Connection::new(Protocol::Binary, Vec::new());
    c.on_event(ConnectionEvent::Replayed { sent: true });
    let piece = || ConnectionEvent::Output(OutputEvent::Output(vec![0; 600_000]));
    assert!(matches!(c.on_event(piece()), ConnectionAction::Send(_)));
    assert_eq!(c.budget.pending, 600_000);
    assert!(matches!(c.on_event(ConnectionEvent::Drained), ConnectionAction::Wait));
    assert_eq!(c.budget.pending, 0);
    assert!(matches!(c.on_event(piece()), ConnectionAction::Send(_)));
    assert!(matches!(c.on_event(piece()), ConnectionAction::Replay));
}
