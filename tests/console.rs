use luge::accounting::{decimal_string, measure_partition, table_header, table_row, PartitionUsage, COLUMN_WIDTH};
use luge::command::{interpret, parse_command, split_tokens, Command, EventMode, Request};
use luge::error::ConsoleError;
use luge::projection::{project_state, project_timeline, RenderedEvent};
use luge::report::{rooms_listing, size_report};
use luge::room::{alias_to_look_up, parse_room_reference, resolve, RoomReference};
use luge::selection::select_blocks;
use luge::text::contains;

fn ev(ts: u64, text: &str) -> RenderedEvent {
    RenderedEvent { origin_server_ts: ts, text: text.to_string() }
}

fn stamps(events: &[RenderedEvent]) -> Vec<u64> {
    events.iter().map(|e| e.origin_server_ts).collect()
}

#[test]
fn state_events_come_out_in_timestamp_order() {
    let out = project_state(vec![ev(300, "c"), ev(100, "a"), ev(200, "b")]);
    assert_eq!(stamps(&out), vec![100, 200, 300]);
    let texts: Vec<&str> = out.iter().map(|e| e.text.as_str()).collect();
    assert_eq!(texts, vec!["a", "b", "c"]);
}

#[test]
fn equal_timestamps_keep_store_order() {
    let out = project_state(vec![ev(5, "x"), ev(1, "first"), ev(5, "y"), ev(1, "second")]);
    let texts: Vec<&str> = out.iter().map(|e| e.text.as_str()).collect();
    assert_eq!(texts, vec!["first", "second", "x", "y"]);
}

#[test]
fn timeline_drops_undecodable_entries_and_sorts() {
    let out = project_timeline(vec![Some(ev(30, "c")), None, Some(ev(10, "a")), None, Some(ev(20, "b"))]);
    assert_eq!(stamps(&out), vec![10, 20, 30]);
}

#[test]
fn timeline_order_independent_of_insertion_order() {
    let a = project_timeline(vec![Some(ev(3, "c")), Some(ev(1, "a")), None, Some(ev(2, "b"))]);
    let b = project_timeline(vec![Some(ev(2, "b")), None, Some(ev(3, "c")), Some(ev(1, "a"))]);
    assert_eq!(stamps(&a), vec![1, 2, 3]);
    assert_eq!(stamps(&a), stamps(&b));
}

#[test]
fn empty_room_projects_to_nothing() {
    assert!(project_state(vec![]).is_empty());
    assert!(project_timeline(vec![None, None]).is_empty());
}

#[test]
fn pdus_by_alias_lists_state_in_order() {
    let req = interpret("pdus #test:example.org").unwrap();
    let (mode, room, filter) = match req {
        Request::Events { mode, room, filter } => (mode, room, filter),
        other => panic!("unexpected request {:?}", other),
    };
    assert_eq!(mode, EventMode::State);
    assert!(filter.is_none());
    assert_eq!(alias_to_look_up(&room).map(|s| s.as_str()), Some("#test:example.org"));
    let id = resolve(room, Some("!abc:example.org".to_string())).unwrap();
    assert_eq!(id, "!abc:example.org");
    let out = project_state(vec![ev(300, "{\"t\":300}"), ev(100, "{\"t\":100}"), ev(200, "{\"t\":200}")]);
    assert_eq!(stamps(&out), vec![100, 200, 300]);
}

#[test]
fn rooms_with_no_public_rooms_prints_only_heading() {
    let lines = rooms_listing("example.org", &vec![]);
    assert_eq!(lines, vec!["Rooms for server: example.org".to_string()]);
}

#[test]
fn rooms_lists_each_public_room() {
    let lines = rooms_listing("example.org", &vec!["!a:example.org".to_string(), "!b:example.org".to_string()]);
    assert_eq!(lines, vec!["Rooms for server: example.org", "!a:example.org", "!b:example.org"]);
}

#[test]
fn unknown_verb_is_a_command_error() {
    assert_eq!(interpret("frobnicate").unwrap_err(), ConsoleError::Command);
    assert_eq!(parse_command("frobnicate").unwrap_err(), ConsoleError::Command);
}

#[test]
fn wrong_arity_is_a_command_error() {
    assert_eq!(parse_command("pdus").unwrap_err(), ConsoleError::Command);
    assert_eq!(parse_command("all !a:b x y").unwrap_err(), ConsoleError::Command);
    assert_eq!(parse_command("rooms now").unwrap_err(), ConsoleError::Command);
    assert_eq!(parse_command("exit now").unwrap_err(), ConsoleError::Command);
}

#[test]
fn blank_line_asks_for_help() {
    assert!(matches!(parse_command(""), Ok(Command::Help)));
    assert!(matches!(parse_command("   \t "), Ok(Command::Help)));
    assert!(matches!(interpret("help\n"), Ok(Request::Help)));
}

#[test]
fn simple_verbs_parse() {
    assert!(matches!(parse_command("rooms"), Ok(Command::Rooms)));
    assert!(matches!(parse_command("size\n"), Ok(Command::Size)));
    assert!(matches!(parse_command("exit"), Ok(Command::Exit)));
    assert!(matches!(parse_command("e"), Ok(Command::Exit)));
    assert!(matches!(interpret("  rooms  "), Ok(Request::ListRooms)));
    assert!(matches!(interpret("size"), Ok(Request::Size)));
    assert!(matches!(interpret("e"), Ok(Request::Exit)));
}

#[test]
fn all_with_filter_parses() {
    match parse_command("all\t!abc:example.org   hello\n") {
        Ok(Command::Events { mode, room, filter }) => {
            assert_eq!(mode, EventMode::Timeline);
            assert_eq!(room, "!abc:example.org");
            assert_eq!(filter.as_deref(), Some("hello"));
        }
        other => panic!("unexpected {:?}", other),
    }
}

#[test]
fn split_tokens_on_runs_of_whitespace() {
    assert_eq!(split_tokens("  a \t bb\nccc  "), vec!["a", "bb", "ccc"]);
    assert!(split_tokens("").is_empty());
}

#[test]
fn unparsable_room_reference_is_a_parse_error() {
    assert_eq!(interpret("pdus abc:example.org").unwrap_err(), ConsoleError::Parse);
    assert_eq!(parse_room_reference("room").unwrap_err(), ConsoleError::Parse);
    assert_eq!(parse_room_reference("").unwrap_err(), ConsoleError::Parse);
}

#[test]
fn room_references_keep_their_text() {
    match parse_room_reference("!abc:example.org") {
        Ok(RoomReference::CanonicalId(x)) => assert_eq!(x, "!abc:example.org"),
        other => panic!("unexpected {:?}", other),
    }
    match parse_room_reference("#test:example.org") {
        Ok(RoomReference::Alias(a)) => assert_eq!(a, "#test:example.org"),
        other => panic!("unexpected {:?}", other),
    }
}

#[test]
fn canonical_ids_resolve_to_themselves() {
    let r = RoomReference::CanonicalId("!abc:example.org".to_string());
    assert!(alias_to_look_up(&r).is_none());
    assert_eq!(resolve(r, Some("!other:example.org".to_string())).unwrap(), "!abc:example.org");
}

#[test]
fn unknown_alias_is_a_resolution_error() {
    let r = RoomReference::Alias("#missing:example.org".to_string());
    assert_eq!(resolve(r, None).unwrap_err(), ConsoleError::Resolution);
}

#[test]
fn filter_keeps_blocks_containing_text() {
    let events = vec![ev(1, "{\n  \"body\": \"hello\"\n}"), ev(2, "{\n  \"body\": \"bye\"\n}"), ev(3, "say hello")];
    let all = select_blocks(&events, None);
    assert_eq!(all.len(), 3);
    let some = select_blocks(&events, Some("hello"));
    assert_eq!(some, vec![events[0].text.clone(), events[2].text.clone()]);
    assert!(select_blocks(&events, Some("Hello")).is_empty());
}

#[test]
fn filtering_twice_is_filtering_once() {
    let events = vec![ev(1, "abc"), ev(2, "xbz"), ev(3, "b")];
    let once = select_blocks(&events, Some("b"));
    let again: Vec<RenderedEvent> = once.iter().map(|t| ev(0, t)).collect();
    assert_eq!(select_blocks(&again, Some("b")), once);
    let narrower = select_blocks(&events, Some("bc"));
    assert_eq!(narrower, vec!["abc".to_string()]);
}

#[test]
fn substring_containment() {
    assert!(contains("abcdef", "cde"));
    assert!(contains("abc", ""));
    assert!(contains("abc", "abc"));
    assert!(!contains("abc", "abcd"));
    assert!(!contains("abc", "C"));
    assert!(contains("héllo wörld", "ö"));
}

#[test]
fn decimal_rendering() {
    assert_eq!(decimal_string(0), "0");
    assert_eq!(decimal_string(7), "7");
    assert_eq!(decimal_string(10), "10");
    assert_eq!(decimal_string(1234567890), "1234567890");
    assert_eq!(decimal_string(u64::MAX), u64::MAX.to_string());
}

#[test]
fn partition_with_two_entries_of_fifty_bytes() {
    let usage = measure_partition("pduid_pdu".to_string(), &vec![Some((10, 20)), Some((5, 15))]).unwrap();
    assert_eq!(usage.elements, 2);
    assert_eq!(usage.bytes, 50);
    let row = table_row(&usage, COLUMN_WIDTH);
    let expected = format!("{:<30}{:<30}{}", "pduid_pdu", "2", "50");
    assert_eq!(row, expected);
    assert_eq!(&row[30..31], "2");
    assert_eq!(&row[60..], "50");
}

#[test]
fn unreadable_entries_count_but_add_no_bytes() {
    let usage = measure_partition("t".to_string(), &vec![Some((1, 2)), None, Some((3, 4))]).unwrap();
    assert_eq!(usage.elements, 3);
    assert_eq!(usage.bytes, 10);
}

#[test]
fn byte_total_overflow_is_reported() {
    assert!(measure_partition("t".to_string(), &vec![Some((usize::MAX, usize::MAX))]).is_none());
    assert!(measure_partition("t".to_string(), &vec![Some((usize::MAX, 0)), Some((usize::MAX, 0))]).is_none());
}

#[test]
fn empty_partition_has_no_bytes() {
    let usage = measure_partition("empty".to_string(), &vec![]).unwrap();
    assert_eq!((usage.elements, usage.bytes), (0, 0));
}

#[test]
fn table_header_layout() {
    let h = table_header(COLUMN_WIDTH);
    assert_eq!(h, format!("NAME{}ELEMENTS{}BYTES", " ".repeat(26), " ".repeat(22)));
}

#[test]
fn long_names_get_no_padding() {
    let name = "x".repeat(35);
    let usage = PartitionUsage { name: name.clone(), elements: 1, bytes: 9 };
    let row = table_row(&usage, COLUMN_WIDTH);
    assert_eq!(row, format!("{}1{}9", name, " ".repeat(29)));
}

#[test]
fn width_changes_only_whitespace() {
    let usage = PartitionUsage { name: "tree".to_string(), elements: 12, bytes: 345 };
    let narrow = table_row(&usage, 5);
    let wide = table_row(&usage, 40);
    assert_ne!(narrow, wide);
    let strip = |s: &str| s.chars().filter(|c| *c != ' ').collect::<String>();
    assert_eq!(strip(&narrow), strip(&wide));
    assert_eq!(strip(&wide), "tree12345");
}

#[test]
fn size_report_lines() {
    let parts = vec![PartitionUsage { name: "a".to_string(), elements: 2, bytes: 50 }];
    let lines = size_report("example.org", &parts, COLUMN_WIDTH);
    assert_eq!(lines.len(), 3);
    assert_eq!(lines[0], "Size for server: example.org");
    assert_eq!(lines[1], table_header(COLUMN_WIDTH));
    assert_eq!(lines[2], format!("{:<30}{:<30}50", "a", "2"));
}
