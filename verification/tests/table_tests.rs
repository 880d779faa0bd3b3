use trace::codec::STACK_ABSENT;
use trace::comm::{CommRecord, CommTable, COMM_LEN};
use trace::filter::FilterConfig;
use trace::resolver::{resolve, Domain, StackStore, SymbolTable};
use trace::UNSPECIFIED;

fn comm_bytes(name: &str) -> Vec<u8> {
    let mut b = name.as_bytes().to_vec();
    assert!(b.len() <= COMM_LEN);
    b.resize(COMM_LEN, 0);
    b
}

#[test]
fn comm_record_requires_exactly_sixteen_bytes() {
    assert!(CommRecord::new(&[0u8; 15]).is_none());
    assert!(CommRecord::new(&[0u8; 17]).is_none());
    assert!(CommRecord::new(&[0u8; 16]).is_some());
}

#[test]
fn comm_name_trims_trailing_nuls_only() {
    let rec = CommRecord::new(&comm_bytes("sshd")).unwrap();
    assert_eq!(rec.name_bytes(), b"sshd".to_vec());

    let mut raw = vec![0u8; COMM_LEN];
    raw[0] = b'a';
    raw[1] = 0;
    raw[2] = b'b';
    let rec = CommRecord::new(&raw).unwrap();
    assert_eq!(rec.name_bytes(), vec![b'a', 0, b'b']);
}

#[test]
fn comm_name_multibyte_utf8_renders_as_its_characters() {
    // "café" — the two bytes C3 A9 are one character, not two
    // replacement characters.
    let mut raw = vec![b'c', b'a', b'f', 0xC3, 0xA9];
    raw.resize(COMM_LEN, 0);
    let rec = CommRecord::new(&raw).unwrap();
    let trimmed = rec.name_bytes();
    assert_eq!(trimmed, vec![b'c', b'a', b'f', 0xC3, 0xA9]);
    assert_eq!(String::from_utf8_lossy(&trimmed), "café");
}

#[test]
fn comm_name_of_all_nuls_is_empty() {
    let rec = CommRecord::new(&[0u8; 16]).unwrap();
    assert_eq!(rec.name_bytes(), Vec::<u8>::new());
}

#[test]
fn comm_table_lookup_present_and_absent() {
    let mut table = CommTable::new();
    assert!(table.lookup(4242).is_none());
    let rec = CommRecord::new(&comm_bytes("sshd")).unwrap();
    table.insert(4242, rec);
    let found = table.lookup(4242).unwrap();
    assert_eq!(found.name_bytes(), b"sshd".to_vec());
    assert!(table.lookup(1).is_none());
}

#[test]
fn comm_table_last_write_wins() {
    let mut table = CommTable::new();
    table.insert(7, CommRecord::new(&comm_bytes("old")).unwrap());
    table.insert(7, CommRecord::new(&comm_bytes("new")).unwrap());
    assert_eq!(table.lookup(7).unwrap().name_bytes(), b"new".to_vec());
}

#[test]
fn symbol_table_rejects_non_increasing_addresses() {
    let mut syms = SymbolTable::new();
    assert!(syms.insert_symbol(0x10, "a".to_string()));
    assert!(!syms.insert_symbol(0x10, "b".to_string()));
    assert!(!syms.insert_symbol(0x05, "c".to_string()));
    assert!(syms.insert_symbol(0x20, "d".to_string()));
    assert_eq!(syms.len(), 2);
}

#[test]
fn symbol_lookup_finds_greatest_address_not_above() {
    let mut syms = SymbolTable::new();
    assert!(syms.insert_symbol(10, "low".to_string()));
    assert!(syms.insert_symbol(20, "mid".to_string()));
    assert!(syms.insert_symbol(30, "high".to_string()));
    assert_eq!(syms.lookup(5), None);
    assert_eq!(syms.lookup(10), Some("low".to_string()));
    assert_eq!(syms.lookup(19), Some("low".to_string()));
    assert_eq!(syms.lookup(25), Some("mid".to_string()));
    assert_eq!(syms.lookup(30), Some("high".to_string()));
    assert_eq!(syms.lookup(u64::MAX), Some("high".to_string()));
}

#[test]
fn sentinel_stack_id_is_never_resolved() {
    // Even a store that holds an entry filed under the sentinel itself
    // yields nothing: the store is observably not consulted.
    let mut store = StackStore::new();
    store.insert(STACK_ABSENT, vec![0x1, 0x2]);
    let syms = SymbolTable::new();
    assert!(store.get(STACK_ABSENT).is_some());
    assert!(resolve(&store, &syms, STACK_ABSENT, Domain::Kernel).is_none());
    assert!(resolve(&store, &syms, STACK_ABSENT, Domain::User).is_none());
}

#[test]
fn unknown_stack_id_resolves_to_nothing() {
    let store = StackStore::new();
    let syms = SymbolTable::new();
    assert!(resolve(&store, &syms, 7, Domain::Kernel).is_none());
}

#[test]
fn resolve_annotates_frames_in_stored_order() {
    let mut store = StackStore::new();
    store.insert(7, vec![0xdead, 0xbeef]);
    let mut syms = SymbolTable::new();
    assert!(syms.insert_symbol(0xdead, "do_read".to_string()));
    let st = resolve(&store, &syms, 7, Domain::Kernel).unwrap();
    assert_eq!(st.domain, Domain::Kernel);
    assert_eq!(st.frames.len(), 2);
    assert_eq!(st.frames[0].ip, 0xdead);
    assert_eq!(st.frames[0].symbol_name, Some("do_read".to_string()));
    assert_eq!(st.frames[1].ip, 0xbeef);
    assert_eq!(st.frames[1].symbol_name, None);
}

#[test]
fn resolving_twice_yields_identical_frames() {
    let mut store = StackStore::new();
    store.insert(3, vec![0x100, 0x200, 0x300]);
    let mut syms = SymbolTable::new();
    assert!(syms.insert_symbol(0x100, "start".to_string()));
    assert!(syms.insert_symbol(0x250, "later".to_string()));
    let first = resolve(&store, &syms, 3, Domain::User).unwrap();
    let second = resolve(&store, &syms, 3, Domain::User).unwrap();
    assert_eq!(first.frames.len(), second.frames.len());
    for (a, b) in first.frames.iter().zip(second.frames.iter()) {
        assert_eq!(a.ip, b.ip);
        assert_eq!(a.symbol_name, b.symbol_name);
    }
}

#[test]
fn filter_config_sentinel_and_accessors() {
    let any = FilterConfig::new(None, false);
    assert_eq!(any.core_selector(), None);
    assert_eq!(any.core_slot(), UNSPECIFIED);
    assert_eq!(any.core_slot(), u32::MAX);
    assert!(!any.capture_stack());

    let two = FilterConfig::new(Some(2), true);
    assert_eq!(two.core_selector(), Some(2));
    assert_eq!(two.core_slot(), 2);
    assert!(two.capture_stack());
}

#[test]
fn filter_matches_only_the_configured_core() {
    let two = FilterConfig::new(Some(2), false);
    assert!(!two.matches_core(0));
    assert!(!two.matches_core(1));
    assert!(two.matches_core(2));
    assert!(!two.matches_core(3));

    let any = FilterConfig::new(None, false);
    for cpu in 0..8 {
        assert!(any.matches_core(cpu));
    }
}
