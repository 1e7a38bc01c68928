use users::{
    get_current_gid, get_current_uid, get_effective_gid, get_effective_uid, set_both_gid,
    set_both_uid, set_current_gid, set_current_uid, set_effective_gid, set_effective_uid,
    switch_user_group, CredEvent, SimCreds,
};

#[test]
fn elementary_setters_change_exactly_one_id() {
    let mut sim = SimCreds::new(1, 2, 3, 4);
    set_current_uid(&mut sim, 10).expect("accepted");
    assert_eq!(get_current_uid(&sim), 10);
    assert_eq!(get_effective_uid(&sim), 2);
    assert_eq!(get_current_gid(&sim), 3);
    assert_eq!(get_effective_gid(&sim), 4);
    set_effective_uid(&mut sim, 20).expect("accepted");
    assert_eq!(get_effective_uid(&sim), 20);
    assert_eq!(get_current_uid(&sim), 10);
    set_current_gid(&mut sim, 30).expect("accepted");
    assert_eq!(get_current_gid(&sim), 30);
    assert_eq!(get_effective_gid(&sim), 4);
    set_effective_gid(&mut sim, 40).expect("accepted");
    assert_eq!(get_effective_gid(&sim), 40);
    assert_eq!(get_current_gid(&sim), 30);
    assert_eq!(sim.events(), &vec![
        CredEvent::RealUid(10),
        CredEvent::EffUid(20),
        CredEvent::RealGid(30),
        CredEvent::EffGid(40),
    ]);
}

#[test]
fn combined_setters_change_the_pair_in_one_event() {
    let mut sim = SimCreds::new(1, 2, 3, 4);
    set_both_uid(&mut sim, 11, 12).expect("accepted");
    assert_eq!(get_current_uid(&sim), 11);
    assert_eq!(get_effective_uid(&sim), 12);
    set_both_gid(&mut sim, 13, 14).expect("accepted");
    assert_eq!(get_current_gid(&sim), 13);
    assert_eq!(get_effective_gid(&sim), 14);
    assert_eq!(sim.events(), &vec![CredEvent::BothUid(11, 12), CredEvent::BothGid(13, 14)]);
}

#[test]
fn refused_setter_reports_the_code_and_changes_nothing() {
    let mut sim = SimCreds::new(1, 2, 3, 4);
    sim.refuse_uid_changes(1);
    let err = set_effective_uid(&mut sim, 0).expect_err("refused");
    assert_eq!(err.code, 1);
    assert_eq!(get_current_uid(&sim), 1);
    assert_eq!(get_effective_uid(&sim), 2);
    assert!(sim.events().is_empty());
}

#[test]
fn switch_then_release_restores_starting_identity() {
    let mut sim = SimCreds::new(10, 10, 20, 20);
    let guard = switch_user_group(&mut sim, 1001, 2002).expect("accepted");
    assert_eq!(guard.uid(), 10, "guard snapshots the pre-switch effective uid");
    assert_eq!(guard.gid(), 20, "guard snapshots the pre-switch effective gid");
    assert_eq!(get_effective_uid(&sim), 1001);
    assert_eq!(get_effective_gid(&sim), 2002);
    assert_eq!(get_current_uid(&sim), 10, "real ids are untouched");
    assert_eq!(get_current_gid(&sim), 20);
    guard.release(&mut sim);
    assert_eq!(get_effective_uid(&sim), 10);
    assert_eq!(get_effective_gid(&sim), 20);
    // Group before user on the drop; user before group on the restore.
    assert_eq!(sim.events(), &vec![
        CredEvent::EffGid(2002),
        CredEvent::EffUid(1001),
        CredEvent::EffUid(10),
        CredEvent::EffGid(20),
    ]);
}

#[test]
fn switch_failing_on_gid_half_leaves_uid_untouched() {
    let mut sim = SimCreds::new(10, 10, 20, 20);
    sim.refuse_gid_changes(1);
    let err = switch_user_group(&mut sim, 1001, 2002).expect_err("gid half refused");
    assert_eq!(err.code, 1);
    assert_eq!(get_effective_uid(&sim), 10, "effective uid unchanged on failure");
    assert_eq!(get_effective_gid(&sim), 20, "nothing was attempted after the gid half");
    assert!(sim.events().is_empty(), "no credential-changed event at all");
}

#[test]
fn switch_failing_on_uid_half_rolls_the_gid_back() {
    let mut sim = SimCreds::new(10, 10, 20, 20);
    sim.refuse_uid_changes(1);
    let err = switch_user_group(&mut sim, 1001, 2002).expect_err("uid half refused");
    assert_eq!(err.code, 1);
    assert_eq!(get_effective_uid(&sim), 10);
    assert_eq!(get_effective_gid(&sim), 20, "the gid change was rolled back");
    assert_eq!(sim.events(), &vec![CredEvent::EffGid(2002), CredEvent::EffGid(20)]);
}

#[test]
fn nested_guards_released_in_reverse_order_restore_the_original() {
    let mut sim = SimCreds::new(0, 0, 0, 0);
    let outer = switch_user_group(&mut sim, 100, 100).expect("accepted");
    let inner = switch_user_group(&mut sim, 200, 200).expect("accepted");
    assert_eq!(get_effective_uid(&sim), 200);
    inner.release(&mut sim);
    assert_eq!(get_effective_uid(&sim), 100);
    assert_eq!(get_effective_gid(&sim), 100);
    outer.release(&mut sim);
    assert_eq!(get_effective_uid(&sim), 0);
    assert_eq!(get_effective_gid(&sim), 0);
}

#[test]
fn release_applies_each_half_the_oracle_accepts() {
    let mut sim = SimCreds::new(10, 10, 20, 20);
    let guard = switch_user_group(&mut sim, 1001, 2002).expect("accepted");
    sim.refuse_gid_changes(1);
    guard.release(&mut sim);
    assert_eq!(get_effective_uid(&sim), 10, "the uid half was accepted and applied");
    assert_eq!(get_effective_gid(&sim), 2002, "the gid half was refused; no error surfaces");
}
