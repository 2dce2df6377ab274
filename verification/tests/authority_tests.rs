use dnsd::authority::{
    begin_lookup, begin_search, finish_lookup, is_address_type, search_failed, search_succeeded,
};
use dnsd::stats::{DomainStats, Statistics};

#[test]
fn search_bookkeeping() {
    let mut st = Statistics::new();
    let mut d = DomainStats::new();
    begin_search(&mut st, &mut d, b"a.");
    assert_eq!(st.queries, 1);
    assert_eq!(st.pending(), 1);
    assert_eq!(d.try_get_count(), Some(0));
    search_failed(&mut st, &mut d, b"a.");
    assert_eq!(st.failed, 1);
    assert_eq!(st.pending(), 0);
    assert_eq!(d.get(b"a.").unwrap().failed, 1);
    begin_search(&mut st, &mut d, b"a.");
    search_succeeded(&mut st, &mut d, b"a.");
    assert_eq!(st.success, 1);
    assert_eq!(st.pending(), 0);
    let e = d.get(b"a.").unwrap();
    assert_eq!(e.queries, 1);
    assert_eq!(e.success, 1);
}

#[test]
fn lookup_bookkeeping() {
    let mut st = Statistics::new();
    let mut d = DomainStats::new();
    assert!(!begin_lookup(&mut d, b"r."));
    d.need_refresh(b"r.", true);
    assert!(begin_lookup(&mut d, b"r."));
    assert!(!begin_lookup(&mut d, b"r."));
    finish_lookup(&mut st, &mut d, b"r.", 1, 0);
    assert_eq!(st.empty, 1);
    assert_eq!(d.get(b"r.").unwrap().empty, 1);
    finish_lookup(&mut st, &mut d, b"r.", 28, 2);
    finish_lookup(&mut st, &mut d, b"r.", 15, 0);
    finish_lookup(&mut st, &mut d, b"unwatched.", 28, 0);
    assert_eq!(st.empty, 2);
    assert_eq!(d.get(b"r.").unwrap().empty, 1);
    assert!(d.get(b"unwatched.").is_none());
    assert!(is_address_type(1) && is_address_type(28) && !is_address_type(5));
}
