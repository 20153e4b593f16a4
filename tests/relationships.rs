use arcade::relationships::Relationships;

fn sorted(mut v: Vec<usize>) -> Vec<usize> {
    v.sort();
    v
}

#[test]
fn links_are_seen_from_both_ends() {
    let mut r = Relationships::new(3);
    assert_eq!(r.len(), 3);
    assert_eq!(r.target_of(0), None);
    r.link(0, 2);
    r.link(1, 2);
    assert_eq!(r.target_of(0), Some(2));
    assert_eq!(sorted(r.referrers_of(2)), vec![0, 1]);
    assert!(r.referrers_of(0).is_empty());
}

#[test]
fn relinking_moves_the_referrer() {
    let mut r = Relationships::new(3);
    r.link(0, 2);
    r.link(0, 1);
    assert_eq!(r.target_of(0), Some(1));
    assert!(r.referrers_of(2).is_empty());
    assert_eq!(r.referrers_of(1), vec![0]);
    r.link(0, 1);
    assert_eq!(r.referrers_of(1), vec![0]);
}

#[test]
fn unlinking_clears_both_ends() {
    let mut r = Relationships::new(2);
    r.link(1, 0);
    r.unlink(1);
    assert_eq!(r.target_of(1), None);
    assert!(r.referrers_of(0).is_empty());
    r.unlink(1);
    assert_eq!(r.target_of(1), None);
}

#[test]
fn added_entities_start_unlinked() {
    let mut r = Relationships::new(1);
    let e = r.add_entity();
    assert_eq!(e, 1);
    assert_eq!(r.len(), 2);
    r.link(e, 0);
    r.link(0, 0);
    assert_eq!(sorted(r.referrers_of(0)), vec![0, 1]);
    assert_eq!(r.target_of(e), Some(0));
}
