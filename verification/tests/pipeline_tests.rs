use trace::codec::{encode, event, Layout, STACK_ABSENT};
use trace::comm::{CommRecord, CommTable, COMM_LEN};
use trace::consumer::{ConsumerState, PerCpuConsumer, StopReason};
use trace::filter::FilterConfig;
use trace::resolver::{Domain, Frame, StackStore, SymbolTable};
use trace::sink::{render_event_line, render_frame_line};

fn comm_bytes(name: &str) -> Vec<u8> {
    let mut b = name.as_bytes().to_vec();
    assert!(b.len() <= COMM_LEN);
    b.resize(COMM_LEN, 0);
    b
}

fn record(pid: u32, kernel_stackid: u32, user_stackid: u32) -> Vec<u8> {
    encode(&event { pid, kernel_stackid, user_stackid }, Layout::ThreeField)
}

#[test]
fn event_line_renders_exactly() {
    let rec = CommRecord::new(&comm_bytes("sshd")).unwrap();
    let line = render_event_line(0, 4242, &Some(rec));
    assert_eq!(line, "cpu0: pid(4242)(sshd) hit!");
}

#[test]
fn event_line_renders_empty_name_for_absent_comm() {
    let line = render_event_line(1, 99, &None);
    assert_eq!(line, "cpu1: pid(99)() hit!");
}

#[test]
fn event_line_renders_multibyte_utf8_names() {
    // The two bytes C3 A9 decode to the single character é.
    let mut raw = vec![b'c', b'a', b'f', 0xC3, 0xA9];
    raw.resize(COMM_LEN, 0);
    let rec = CommRecord::new(&raw).unwrap();
    let line = render_event_line(0, 1, &Some(rec));
    assert_eq!(line, "cpu0: pid(1)(café) hit!");
}

#[test]
fn event_line_name_rendering_matches_lossy_decode() {
    // The rendered name must be exactly std's lossy decode of the
    // trimmed bytes, for well-formed and ill-formed input alike.
    let cases: Vec<Vec<u8>> = vec![
        b"sshd".to_vec(),                        // plain ASCII
        vec![0xC3, 0xA9, b'!'],                  // 2-byte char
        vec![0xE2, 0x82, 0xAC],                  // 3-byte char (€)
        vec![0xF0, 0x9F, 0x98, 0x80],            // 4-byte char
        vec![0xFF, b'a'],                        // invalid lead byte
        vec![0x80, 0x80],                        // stray continuations
        vec![b'a', 0xC3],                        // truncated 2-byte tail
        vec![0xE2, 0x82, b'x'],                  // truncated 3-byte
        vec![0xF0, 0x9F, 0x98],                  // truncated 4-byte tail
        vec![0xE0, 0x80, 0x80],                  // overlong 3-byte
        vec![0xED, 0xA0, 0x80],                  // surrogate encoding
        vec![0xF4, 0x90, 0x80, 0x80],            // beyond U+10FFFF
        vec![b'a', 0x00, 0xC3, 0xA9],            // interior NUL kept
    ];
    for bytes in cases {
        let mut raw = bytes.clone();
        raw.resize(COMM_LEN, 0);
        let rec = CommRecord::new(&raw).unwrap();
        let line = render_event_line(3, 9, &Some(rec));
        let expected = format!("cpu3: pid(9)({}) hit!", String::from_utf8_lossy(&bytes));
        assert_eq!(line, expected, "bytes {:x?}", bytes);
    }
}

#[test]
fn drained_lines_come_out_once_and_in_order() {
    let comms = CommTable::new();
    let store = StackStore::new();
    let syms = SymbolTable::new();
    let cfg = FilterConfig::new(None, false);

    let mut consumer = PerCpuConsumer::new(4, Layout::ThreeField, cfg);
    consumer.start_wait();
    consumer.accept_batch(
        &vec![
            record(1, STACK_ABSENT, STACK_ABSENT),
            record(2, STACK_ABSENT, STACK_ABSENT),
        ],
        &comms,
        &store,
        &syms,
    );
    let first = consumer.drain_lines();
    assert_eq!(
        first,
        vec!["cpu4: pid(1)() hit!".to_string(), "cpu4: pid(2)() hit!".to_string()]
    );
    assert!(consumer.lines().is_empty());
    assert!(consumer.drain_lines().is_empty());

    consumer.start_wait();
    consumer.accept_batch(&vec![record(3, STACK_ABSENT, STACK_ABSENT)], &comms, &store, &syms);
    let second = consumer.drain_lines();
    assert_eq!(second, vec!["cpu4: pid(3)() hit!".to_string()]);
}

#[test]
fn event_line_decimal_extremes() {
    let line = render_event_line(u32::MAX, 0, &None);
    assert_eq!(line, "cpu4294967295: pid(0)() hit!");
}

#[test]
fn frame_line_renders_known_and_unknown_symbols() {
    let known = Frame { ip: 0xdead, symbol_name: Some("do_read".to_string()) };
    assert_eq!(render_frame_line(Domain::Kernel, &known), "kernel: 0xdead do_read");
    let unknown = Frame { ip: 0xbeef, symbol_name: None };
    assert_eq!(
        render_frame_line(Domain::User, &unknown),
        "user: 0xbeef [unknown symbol name]"
    );
}

#[test]
fn frame_line_hex_extremes() {
    let zero = Frame { ip: 0, symbol_name: None };
    assert_eq!(render_frame_line(Domain::Kernel, &zero), "kernel: 0x0 [unknown symbol name]");
    let max = Frame { ip: u64::MAX, symbol_name: None };
    assert_eq!(
        render_frame_line(Domain::Kernel, &max),
        "kernel: 0xffffffffffffffff [unknown symbol name]"
    );
}

#[test]
fn twelve_byte_record_full_scenario() {
    // A 12-byte record {pid=4242, kernel_stackid=7, user_stackid=absent},
    // the name table knowing 4242 as "sshd", stack 7 stored as
    // [0xdead, 0xbeef], and only 0xdead covered by a symbol.
    let mut comms = CommTable::new();
    comms.insert(4242, CommRecord::new(&comm_bytes("sshd")).unwrap());
    let mut store = StackStore::new();
    store.insert(7, vec![0xdead, 0xbeef]);
    let mut syms = SymbolTable::new();
    assert!(syms.insert_symbol(0xdead, "do_read".to_string()));

    let cfg = FilterConfig::new(None, true);
    let mut consumer = PerCpuConsumer::new(0, Layout::ThreeField, cfg);
    consumer.start_wait();
    let batch = vec![record(4242, 7, STACK_ABSENT)];
    let dropped = consumer.accept_batch(&batch, &comms, &store, &syms);
    assert_eq!(dropped, 0);

    let lines = consumer.lines();
    assert_eq!(
        lines.as_slice(),
        &[
            "cpu0: pid(4242)(sshd) hit!".to_string(),
            "kernel: 0xdead do_read".to_string(),
            "kernel: 0xbeef [unknown symbol name]".to_string(),
        ]
    );
    for line in lines {
        assert!(!line.starts_with("user:"));
    }
}

#[test]
fn capture_disabled_emits_no_frame_lines() {
    let comms = CommTable::new();
    let mut store = StackStore::new();
    store.insert(7, vec![0xdead]);
    let mut syms = SymbolTable::new();
    assert!(syms.insert_symbol(0xdead, "do_read".to_string()));

    let cfg = FilterConfig::new(None, false);
    let mut consumer = PerCpuConsumer::new(3, Layout::ThreeField, cfg);
    consumer.start_wait();
    let batch = vec![record(5, 7, 7)];
    consumer.accept_batch(&batch, &comms, &store, &syms);
    assert_eq!(consumer.lines().as_slice(), &["cpu3: pid(5)() hit!".to_string()]);
}

#[test]
fn three_records_keep_arrival_order_under_interleaving() {
    let comms = CommTable::new();
    let store = StackStore::new();
    let syms = SymbolTable::new();
    let cfg = FilterConfig::new(None, false);

    let mut ours = PerCpuConsumer::new(5, Layout::ThreeField, cfg);
    let mut sibling = PerCpuConsumer::new(6, Layout::ThreeField, cfg);

    // e1 arrives alone, then the sibling interleaves, then e2 and e3.
    ours.start_wait();
    ours.accept_batch(&vec![record(1, STACK_ABSENT, STACK_ABSENT)], &comms, &store, &syms);
    sibling.start_wait();
    sibling.accept_batch(&vec![record(9, STACK_ABSENT, STACK_ABSENT)], &comms, &store, &syms);
    ours.start_wait();
    ours.accept_batch(
        &vec![
            record(2, STACK_ABSENT, STACK_ABSENT),
            record(3, STACK_ABSENT, STACK_ABSENT),
        ],
        &comms,
        &store,
        &syms,
    );

    assert_eq!(
        ours.lines().as_slice(),
        &[
            "cpu5: pid(1)() hit!".to_string(),
            "cpu5: pid(2)() hit!".to_string(),
            "cpu5: pid(3)() hit!".to_string(),
        ]
    );
    assert_eq!(sibling.lines().as_slice(), &["cpu6: pid(9)() hit!".to_string()]);
}

#[test]
fn core_filter_keeps_other_cpus_streams_empty() {
    // A stub producer emitting one event on every CPU, with the filter
    // set to core 2: the producer-side check delivers only CPU 2's.
    let comms = CommTable::new();
    let store = StackStore::new();
    let syms = SymbolTable::new();
    let cfg = FilterConfig::new(Some(2), false);

    let mut consumers: Vec<PerCpuConsumer> =
        (0..4).map(|cpu| PerCpuConsumer::new(cpu, Layout::ThreeField, cfg)).collect();
    for consumer in consumers.iter_mut() {
        let cpu = consumer.cpu_id();
        if cfg.matches_core(cpu) {
            consumer.start_wait();
            consumer.accept_batch(
                &vec![record(100 + cpu, STACK_ABSENT, STACK_ABSENT)],
                &comms,
                &store,
                &syms,
            );
        }
    }

    assert!(consumers[0].lines().is_empty());
    assert!(consumers[1].lines().is_empty());
    assert_eq!(consumers[2].lines().as_slice(), &["cpu2: pid(102)() hit!".to_string()]);
    assert!(consumers[3].lines().is_empty());
}

#[test]
fn truncated_records_are_dropped_and_counted() {
    let comms = CommTable::new();
    let store = StackStore::new();
    let syms = SymbolTable::new();
    let cfg = FilterConfig::new(None, false);

    let mut consumer = PerCpuConsumer::new(0, Layout::ThreeField, cfg);
    consumer.start_wait();
    let batch = vec![
        record(1, STACK_ABSENT, STACK_ABSENT),
        vec![0u8; 11],
        record(2, STACK_ABSENT, STACK_ABSENT),
    ];
    let dropped = consumer.accept_batch(&batch, &comms, &store, &syms);
    assert_eq!(dropped, 1);
    assert_eq!(
        consumer.lines().as_slice(),
        &["cpu0: pid(1)() hit!".to_string(), "cpu0: pid(2)() hit!".to_string()]
    );
    assert_eq!(consumer.state(), ConsumerState::Idle);
}

#[test]
fn shutdown_is_orderly_and_keeps_emitted_lines() {
    let comms = CommTable::new();
    let store = StackStore::new();
    let syms = SymbolTable::new();
    let cfg = FilterConfig::new(None, false);

    let mut consumer = PerCpuConsumer::new(1, Layout::ThreeField, cfg);
    assert_eq!(consumer.state(), ConsumerState::Idle);
    assert_eq!(consumer.stop_reason(), None);
    consumer.start_wait();
    assert_eq!(consumer.state(), ConsumerState::Waiting);
    consumer.accept_batch(&vec![record(8, STACK_ABSENT, STACK_ABSENT)], &comms, &store, &syms);
    consumer.observe_shutdown();
    assert_eq!(consumer.state(), ConsumerState::Stopped);
    assert_eq!(consumer.stop_reason(), Some(StopReason::Shutdown));
    assert_eq!(consumer.lines().as_slice(), &["cpu1: pid(8)() hit!".to_string()]);
}

#[test]
fn channel_failure_stops_only_the_owning_consumer() {
    let comms = CommTable::new();
    let store = StackStore::new();
    let syms = SymbolTable::new();
    let cfg = FilterConfig::new(None, false);

    let mut failing = PerCpuConsumer::new(0, Layout::ThreeField, cfg);
    let mut sibling = PerCpuConsumer::new(1, Layout::ThreeField, cfg);

    failing.start_wait();
    failing.observe_channel_closed();
    assert_eq!(failing.state(), ConsumerState::Stopped);
    assert_eq!(failing.stop_reason(), Some(StopReason::ChannelClosed));

    // The sibling goes on consuming, untouched.
    sibling.start_wait();
    sibling.accept_batch(&vec![record(4, STACK_ABSENT, STACK_ABSENT)], &comms, &store, &syms);
    assert_eq!(sibling.state(), ConsumerState::Idle);
    assert_eq!(sibling.lines().as_slice(), &["cpu1: pid(4)() hit!".to_string()]);

    let mut transport = PerCpuConsumer::new(2, Layout::ThreeField, cfg);
    transport.start_wait();
    transport.observe_transport_error();
    assert_eq!(transport.stop_reason(), Some(StopReason::TransportError));
}

#[test]
fn legacy_layout_runs_through_the_pipeline() {
    let mut comms = CommTable::new();
    comms.insert(77, CommRecord::new(&comm_bytes("init")).unwrap());
    let store = StackStore::new();
    let syms = SymbolTable::new();
    let cfg = FilterConfig::new(None, true);

    let mut consumer = PerCpuConsumer::new(0, Layout::TwoField, cfg);
    consumer.start_wait();
    let batch = vec![encode(
        &event { pid: 77, kernel_stackid: STACK_ABSENT, user_stackid: STACK_ABSENT },
        Layout::TwoField,
    )];
    consumer.accept_batch(&batch, &comms, &store, &syms);
    assert_eq!(consumer.lines().as_slice(), &["cpu0: pid(77)(init) hit!".to_string()]);
}
