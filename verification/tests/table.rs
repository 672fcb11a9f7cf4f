use chat_application::table::PresenceTable;

fn bv(s: &str) -> Vec<u8> {
    s.as_bytes().to_vec()
}

#[test]
fn empty_table_has_no_entries() {
    let table = PresenceTable::new();
    assert_eq!(table.len(), 0);
    assert_eq!(table.lookup(&bv("alice")), None);
}

#[test]
fn upsert_then_lookup() {
    let mut table = PresenceTable::new();
    table.upsert(bv("peer-a"), bv("alice"));
    table.upsert(bv("peer-b"), bv("bob"));
    assert_eq!(table.len(), 2);
    assert_eq!(table.lookup(&bv("peer-a")), Some(&bv("alice")));
    assert_eq!(table.lookup(&bv("peer-b")), Some(&bv("bob")));
    assert_eq!(table.lookup(&bv("peer-c")), None);
}

#[test]
fn upsert_overwrites_instead_of_merging() {
    let mut table = PresenceTable::new();
    table.upsert(bv("peer-a"), bv("alice"));
    table.upsert(bv("peer-a"), bv("alicia"));
    assert_eq!(table.len(), 1);
    assert_eq!(table.lookup(&bv("peer-a")), Some(&bv("alicia")));
}

#[test]
fn remove_deletes_the_entry() {
    let mut table = PresenceTable::new();
    table.upsert(bv("peer-a"), bv("alice"));
    table.remove(&bv("peer-a"));
    assert_eq!(table.len(), 0);
    assert_eq!(table.lookup(&bv("peer-a")), None);
}

#[test]
fn remove_of_absent_peer_is_a_no_op() {
    let mut table = PresenceTable::new();
    table.upsert(bv("peer-a"), bv("alice"));
    table.remove(&bv("peer-b"));
    assert_eq!(table.len(), 1);
    assert_eq!(table.lookup(&bv("peer-a")), Some(&bv("alice")));
}
