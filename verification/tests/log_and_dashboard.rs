use tcp_log_lab::dashboard::{log_color, server_button_style, status_style, ActiveView, App, Repaint, Rgb};
use tcp_log_lab::models::{LogEntry, MessageDirection, MAX_LOGS};

fn entry(ts: u64, msg: &str, dir: MessageDirection) -> LogEntry {
    LogEntry::new(ts, msg.to_string(), dir)
}

#[test]
fn format_incoming_line() {
    let e = entry(65_123, "hi", MessageDirection::Incoming);
    assert_eq!(e.format(), "[01:05.123] [IN] hi");
}

#[test]
fn format_outgoing_line() {
    let e = entry(1_000, "ping", MessageDirection::Outgoing);
    assert_eq!(e.format(), "[00:01.000] [OUT] ping");
}

#[test]
fn format_system_line_at_zero() {
    let e = entry(0, "Ready.", MessageDirection::System);
    assert_eq!(e.format(), "[00:00.000] Ready.");
}

#[test]
fn format_many_minutes_keeps_all_digits() {
    let e = entry(6_000_007, "x", MessageDirection::System);
    assert_eq!(e.format(), "[100:00.007] x");
}

#[test]
fn format_clock_parts_add_up() {
    let ts: u64 = 3_723_456;
    let line = entry(ts, "", MessageDirection::System).format();
    assert_eq!(line, "[62:03.456] ");
    assert_eq!(62 * 60_000 + 3 * 1_000 + 456, ts);
}

#[test]
fn new_entry_keeps_fields() {
    let e = entry(42, "abc", MessageDirection::Outgoing);
    assert_eq!(e.timestamp_ms, 42);
    assert_eq!(e.message, "abc");
    assert_eq!(e.direction, MessageDirection::Outgoing);
}

#[test]
fn new_app_starts_with_greeting() {
    let app = App::new();
    assert_eq!(app.logs().len(), 1);
    assert_eq!(app.logs()[0].message, "Ready. Click Start Server to begin listening.");
    assert_eq!(app.logs()[0].timestamp_ms, 0);
    assert_eq!(app.logs()[0].direction, MessageDirection::System);
    assert_eq!(app.port(), 8080);
    assert_eq!(app.active_view(), ActiveView::TcpLogs);
    assert_eq!(app.input_text(), "");
    assert!(app.shows_log_tools());
}

#[test]
fn log_is_bounded_and_keeps_latest() {
    let mut app = App::new();
    for i in 0..600u64 {
        app.add_log(i, format!("m{}", i), MessageDirection::Incoming);
    }
    assert_eq!(app.logs().len(), MAX_LOGS);
    // 601 entries were added in all (greeting + 600): the oldest 101 went.
    assert_eq!(app.logs()[0].message, "m100");
    assert_eq!(app.logs()[MAX_LOGS - 1].message, "m599");
}

#[test]
fn newest_entry_is_last() {
    let mut app = App::new();
    app.add_log(7, "last".to_string(), MessageDirection::Outgoing);
    assert_eq!(app.logs().len(), 2);
    assert_eq!(app.logs()[1].message, "last");
    assert_eq!(app.logs()[1].timestamp_ms, 7);
}

#[test]
fn toggle_starts_then_stops() {
    let mut app = App::new();
    let running = app.toggle_server(false, 10);
    assert!(running);
    assert_eq!(app.logs()[1].message, "Server started on 127.0.0.1:8080");
    assert_eq!(app.logs()[1].direction, MessageDirection::System);
    let running = app.toggle_server(running, 20);
    assert!(!running);
    assert_eq!(app.logs()[2].message, "Server stopping...");
    assert_eq!(app.logs()[2].timestamp_ms, 20);
}

#[test]
fn send_needs_text_and_running_server() {
    let mut app = App::new();
    assert_eq!(app.send_message(true, 1), None);
    app.set_input_text("hello".to_string());
    assert!(!app.can_send(false));
    assert_eq!(app.send_message(false, 1), None);
    assert_eq!(app.input_text(), "hello");
    assert_eq!(app.logs().len(), 1);
    assert!(app.can_send(true));
    assert_eq!(app.send_message(true, 5), Some("hello".to_string()));
    assert_eq!(app.input_text(), "");
    assert_eq!(app.logs()[1].message, "hello");
    assert_eq!(app.logs()[1].direction, MessageDirection::Outgoing);
    assert_eq!(app.logs()[1].format(), "[00:00.005] [OUT] hello");
    // Sending again sends nothing: the input is empty now.
    assert_eq!(app.send_message(true, 6), None);
    assert_eq!(app.logs().len(), 2);
}

#[test]
fn received_messages_are_logged_in_order() {
    let mut app = App::new();
    assert!(!app.receive_messages(3, Vec::new()));
    assert_eq!(app.logs().len(), 1);
    assert!(app.receive_messages(4, vec!["a".to_string(), "b".to_string()]));
    assert_eq!(app.logs().len(), 3);
    assert_eq!(app.logs()[1].message, "a");
    assert_eq!(app.logs()[2].message, "b");
    assert_eq!(app.logs()[2].direction, MessageDirection::Incoming);
    assert_eq!(app.logs()[2].timestamp_ms, 4);
}

#[test]
fn clear_empties_the_log() {
    let mut app = App::new();
    app.clear_logs();
    assert_eq!(app.logs().len(), 0);
    assert_eq!(app.message_count_label(), "0 messages");
}

#[test]
fn views_can_be_selected() {
    let mut app = App::new();
    app.select_view(ActiveView::Canvas2);
    assert_eq!(app.active_view(), ActiveView::Canvas2);
    assert!(!app.shows_log_tools());
    app.select_view(ActiveView::TcpLogs);
    assert!(app.shows_log_tools());
}

#[test]
fn repaint_decisions() {
    let mut app = App::new();
    assert_eq!(app.repaint(false, false), Repaint::After(500));
    assert_eq!(app.repaint(true, false), Repaint::Now);
    assert_eq!(app.repaint(false, true), Repaint::Now);
    app.set_input_text("x".to_string());
    assert_eq!(app.repaint(false, false), Repaint::Now);
}

#[test]
fn toolbar_labels() {
    let app = App::new();
    assert_eq!(app.port_label(), "Port: 8080");
    assert_eq!(app.message_count_label(), "1 messages");
}

#[test]
fn status_and_button_styles() {
    let (label, color) = status_style(true);
    assert_eq!(label, "RUNNING");
    assert_eq!(color, Rgb { r: 46, g: 204, b: 113 });
    let (label, color) = status_style(false);
    assert_eq!(label, "STOPPED");
    assert_eq!(color, Rgb { r: 149, g: 165, b: 166 });
    let (label, color) = server_button_style(true);
    assert_eq!(label, "Stop Server");
    assert_eq!(color, Rgb { r: 192, g: 57, b: 43 });
    let (label, color) = server_button_style(false);
    assert_eq!(label, "Start Server");
    assert_eq!(color, Rgb { r: 39, g: 174, b: 96 });
}

#[test]
fn log_colors_by_direction_and_content() {
    assert_eq!(log_color(&entry(0, "x", MessageDirection::Incoming)), Rgb { r: 46, g: 204, b: 113 });
    assert_eq!(log_color(&entry(0, "x", MessageDirection::Outgoing)), Rgb { r: 52, g: 152, b: 219 });
    assert_eq!(
        log_color(&entry(0, "Server started on 127.0.0.1:8080", MessageDirection::System)),
        Rgb { r: 39, g: 174, b: 96 }
    );
    assert_eq!(log_color(&entry(0, "Server stopping...", MessageDirection::System)), Rgb { r: 192, g: 57, b: 43 });
    assert_eq!(
        log_color(&entry(0, "Ready. Click Start Server to begin listening.", MessageDirection::System)),
        Rgb { r: 200, g: 200, b: 200 }
    );
    // A sent message that mentions a start keeps the outgoing colour.
    assert_eq!(log_color(&entry(0, "started", MessageDirection::Outgoing)), Rgb { r: 52, g: 152, b: 219 });
}
