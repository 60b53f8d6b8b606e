use cf_downloader::submitter::AccountList;

#[test]
fn acquire_spacing_two_accounts() {
    // Two accounts, global spacing 5 s, per-account cooldown 15 s:
    // three sequential acquisitions complete in at least 10 s overall.
    let mut pool = AccountList::new(0);
    pool.expand(0, 2);
    assert_eq!(pool.len(), 2);

    let (id1, wake1) = pool.get();
    let (id2, wake2) = pool.get();
    let (id3, wake3) = pool.get();

    assert_eq!((id1, wake1), (0, 0));
    assert_eq!((id2, wake2), (1, 5_000));
    // The third acquisition must reuse account 0 before its cooldown
    // elapsed, so it completes at that account's eligibility.
    assert_eq!((id3, wake3), (0, 15_000));
    assert!(wake3 - wake1 >= 10_000);
}

#[test]
fn acquire_prefers_idle_account() {
    let mut pool = AccountList::new(0);
    pool.expand(0, 3);
    let (id1, _) = pool.get();
    let (id2, _) = pool.get();
    let (id3, _) = pool.get();
    // All three start equally eligible: ids rotate in order.
    assert_eq!((id1, id2, id3), (0, 1, 2));
}

#[test]
fn acquire_waits_for_global_gate() {
    // A single account: the first acquisition departs immediately; the
    // second must wait for the account's cooldown (15 s > 5 s spacing).
    let mut pool = AccountList::new(100);
    pool.expand(100, 1);
    let (_, wake1) = pool.get();
    assert_eq!(wake1, 100);
    let (_, wake2) = pool.get();
    assert_eq!(wake2, 15_100);
}

#[test]
fn expand_continues_numbering() {
    let mut pool = AccountList::new(0);
    pool.expand(0, 1);
    let (first, _) = pool.get();
    assert_eq!(first, 0);
    pool.expand(10_000, 1);
    assert_eq!(pool.len(), 2);
    // The fresh account (id 1) is eligible at 10 s, before account 0
    // leaves its 15 s cooldown.
    let (second, wake) = pool.get();
    assert_eq!(second, 1);
    assert_eq!(wake, 10_000);
}

#[test]
fn clear_empties_pool() {
    let mut pool = AccountList::new(0);
    pool.expand(0, 4);
    assert!(!pool.is_empty());
    pool.clear();
    assert!(pool.is_empty());
    assert_eq!(pool.len(), 0);
}
