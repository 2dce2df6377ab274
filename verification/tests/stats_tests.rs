use dnsd::stats::{DomainStats, Statistics, StatsPerDomain};

#[test]
fn unwatched_domain_is_not_high_risk() {
    let d = DomainStats::new();
    assert!(!d.check(b"example.com."));
    assert_eq!(d.try_get_count(), Some(0));
}

#[test]
fn need_refresh_marks_high_risk_and_read_clears() {
    let mut d = DomainStats::new();
    d.need_refresh(b"example.com.", true);
    assert!(d.check(b"example.com."));
    assert!(d.refresh_needed(b"example.com.", true));
    assert!(!d.refresh_needed(b"example.com.", true));
    assert!(!d.check(b"example.com."));
    assert_eq!(d.try_get_count(), Some(1));
}

#[test]
fn refresh_read_without_reset_keeps_flag() {
    let mut d = DomainStats::new();
    d.need_refresh(b"a.", true);
    assert!(d.refresh_needed(b"a.", false));
    assert!(d.refresh_needed(b"a.", false));
    assert!(!d.refresh_needed(b"b.", true));
    assert_eq!(d.try_get_count(), Some(1));
}

#[test]
fn unforced_counts_skip_unwatched_domains() {
    let mut d = DomainStats::new();
    assert_eq!(d.add_query(b"x.", false), 0);
    assert_eq!(d.add_success(b"x.", false), 0);
    assert_eq!(d.add_empty(b"x.", false), 0);
    assert_eq!(d.get(b"x."), None);
    assert_eq!(d.try_get_count(), Some(0));
}

#[test]
fn forced_counts_start_watching() {
    let mut d = DomainStats::new();
    // add_query hands back the count before the increment
    assert_eq!(d.add_query(b"x.", true), 0);
    assert_eq!(d.add_query(b"x.", false), 1);
    // the others hand back the new count
    assert_eq!(d.add_success(b"x.", false), 1);
    assert_eq!(d.add_empty(b"x.", true), 1);
    let e = d.get(b"x.").unwrap();
    assert_eq!(e.queries, 2);
    assert_eq!(e.success, 1);
    assert_eq!(e.empty, 1);
    assert_eq!(e.suspect, 0);
}

#[test]
fn suspect_and_failed_always_count() {
    let mut d = DomainStats::new();
    assert_eq!(d.add_suspect(b"s."), 1);
    assert_eq!(d.add_suspect(b"s."), 2);
    assert_eq!(d.add_failed(b"f."), 1);
    assert_eq!(d.try_get_count(), Some(2));
    assert_eq!(d.get(b"s.").unwrap().suspect, 2);
    assert_eq!(d.get(b"f.").unwrap().failed, 1);
}

#[test]
fn one_in_ten_suspect_threshold() {
    let mut d = DomainStats::new();
    d.add_suspect(b"t.");
    // 1 suspect, 0 successes: 1 > 0
    assert!(d.check(b"t."));
    for _ in 0..8 {
        d.add_success(b"t.", false);
    }
    // 8 successes: 8 / 9 == 0, still high risk
    assert!(d.check(b"t."));
    d.add_success(b"t.", false);
    // 9 successes: 9 / 9 == 1, and 1 > 1 fails
    assert!(!d.check(b"t."));
    d.add_suspect(b"t.");
    assert!(d.check(b"t."));
}

#[test]
fn names_are_separate_keys() {
    let mut d = DomainStats::new();
    d.add_suspect(b"a.");
    d.add_failed(b"ab.");
    assert_eq!(d.get(b"a.").unwrap().failed, 0);
    assert_eq!(d.get(b"ab.").unwrap().suspect, 0);
    assert!(d.check(b"a."));
    assert!(!d.check(b"ab."));
}

#[test]
fn statistics_pending_saturates() {
    let mut s = Statistics::new();
    s.queries = 10;
    s.success = 3;
    s.failed = 2;
    assert_eq!(s.pending(), 5);
    s.success = 12;
    assert_eq!(s.pending(), 0);
    s.success = 4;
    s.failed = 9;
    assert_eq!(s.pending(), 0);
    assert_eq!(Statistics::default(), Statistics::new());
}

#[test]
fn per_domain_rule() {
    let mut e = StatsPerDomain::default();
    assert!(!e.is_high_risk());
    e.refresh_needed = true;
    assert!(e.is_high_risk());
    e.refresh_needed = false;
    e.success = 18;
    e.suspect = 2;
    assert!(!e.is_high_risk());
    e.suspect = 3;
    assert!(e.is_high_risk());
}

#[test]
fn counter_wraps_like_fetch_add() {
    assert_eq!(dnsd::stats::bump(u64::MAX), 0);
    assert_eq!(dnsd::stats::bump(41), 42);
}
