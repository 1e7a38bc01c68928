use users::{
    all_users, get_current_groupname, get_current_uid, get_current_username, get_effective_groupname,
    get_effective_username, get_group_by_gid, get_group_by_name, get_user_by_name, get_user_by_uid,
    get_user_groups, group_access_list, Cache, Group, SimCreds, TableOracle, User,
};

fn seeded_oracle() -> TableOracle {
    let mut t = TableOracle::new();
    assert!(t.add_user(User::new(501, b"stevedore".to_vec(), 100)));
    assert!(t.add_group(Group::new(100, b"crew".to_vec())));
    t
}

#[test]
fn user_new_accessors_return_arguments() {
    let user = User::new(501, b"stevedore".to_vec(), 100);
    assert_eq!(user.uid(), 501);
    assert_eq!(user.name(), &b"stevedore".to_vec());
    assert_eq!(user.primary_group_id(), 100);
}

#[test]
fn group_new_accessors_return_arguments() {
    let group = Group::new(102, b"database".to_vec());
    assert_eq!(group.gid(), 102);
    assert_eq!(group.name(), &b"database".to_vec());
}

#[test]
fn clone_keeps_all_fields() {
    let user = User::new(7, b"seven".to_vec(), 8);
    let copy = user.clone();
    assert_eq!(copy.uid(), 7);
    assert_eq!(copy.name(), &b"seven".to_vec());
    assert_eq!(copy.primary_group_id(), 8);
    let group = Group::new(9, b"nine".to_vec());
    let gcopy = group.clone();
    assert_eq!(gcopy.gid(), 9);
    assert_eq!(gcopy.name(), &b"nine".to_vec());
}

#[test]
fn null_byte_names_are_never_found() {
    let mut cache = Cache::new(seeded_oracle());
    // Even a name that extends a real one past a null byte must not match,
    // and the oracle must not be consulted at all.
    let tricky = b"stevedore\0".to_vec();
    assert!(get_user_by_name(&mut cache, &tricky).is_none());
    let tricky2 = b"stevedore\0x".to_vec();
    assert!(get_user_by_name(&mut cache, &tricky2).is_none());
    let gname = b"crew\0".to_vec();
    assert!(get_group_by_name(&mut cache, &gname).is_none());
    let leading = b"\0crew".to_vec();
    assert!(get_group_by_name(&mut cache, &leading).is_none());
    assert_eq!(cache.oracle().calls(), 0);
}

#[test]
fn null_byte_name_user_groups_not_found() {
    let mut cache = Cache::new(seeded_oracle());
    let tricky = b"steve\0dore".to_vec();
    assert!(get_user_groups(&mut cache, &tricky, 100).is_none());
    assert_eq!(cache.oracle().calls(), 0);
}

#[test]
fn lookup_is_idempotent_and_second_call_hits_cache() {
    let mut cache = Cache::new(seeded_oracle());
    let first = get_user_by_uid(&mut cache, 501).expect("seeded user");
    assert_eq!(cache.oracle().calls(), 1);
    let second = get_user_by_uid(&mut cache, 501).expect("seeded user");
    assert_eq!(cache.oracle().calls(), 1, "cache hit must not reach the oracle");
    assert_eq!(first.uid(), second.uid());
    assert_eq!(first.name(), second.name());
    assert_eq!(first.primary_group_id(), second.primary_group_id());
}

#[test]
fn name_fetch_populates_id_side_too() {
    let mut cache = Cache::new(seeded_oracle());
    let name = b"stevedore".to_vec();
    let by_name = get_user_by_name(&mut cache, &name).expect("seeded user");
    assert_eq!(cache.oracle().calls(), 1);
    let by_id = get_user_by_uid(&mut cache, by_name.uid()).expect("now cached");
    assert_eq!(cache.oracle().calls(), 1, "id side was populated by the name fetch");
    assert_eq!(by_id.name(), &name);
}

#[test]
fn round_trip_name_then_uid_yields_equal_entity() {
    let mut t = TableOracle::new();
    assert!(t.add_user(User::new(42, b"deckhand".to_vec(), 7)));
    let mut cache = Cache::new(t);
    let name = b"deckhand".to_vec();
    let by_name = get_user_by_name(&mut cache, &name).expect("seeded user");
    let by_id = get_user_by_uid(&mut cache, by_name.uid()).expect("same user");
    assert_eq!(by_id.uid(), by_name.uid());
    assert_eq!(by_id.name(), by_name.name());
    assert_eq!(by_id.primary_group_id(), by_name.primary_group_id());
}

#[test]
fn not_found_is_not_cached_so_retry_reaches_oracle() {
    let mut cache = Cache::new(seeded_oracle());
    assert!(get_user_by_uid(&mut cache, 999).is_none());
    let calls_after_first = cache.oracle().calls();
    assert!(get_user_by_uid(&mut cache, 999).is_none());
    assert_eq!(cache.oracle().calls(), calls_after_first + 1, "absence is retried");
}

#[test]
fn seeded_scenario_stevedore_and_crew() {
    let mut cache = Cache::new(seeded_oracle());
    let user = get_user_by_uid(&mut cache, 501).expect("seeded user");
    assert_eq!(user.name(), &b"stevedore".to_vec());
    let group = get_group_by_gid(&mut cache, 100).expect("seeded group");
    assert_eq!(group.name(), &b"crew".to_vec());
    let missing = b"nonexistent".to_vec();
    assert!(get_user_by_name(&mut cache, &missing).is_none());
}

#[test]
fn all_users_yields_each_seeded_record_and_caches_them() {
    let mut t = TableOracle::new();
    assert!(t.add_user(User::new(1, b"alpha".to_vec(), 10)));
    assert!(t.add_user(User::new(2, b"bravo".to_vec(), 10)));
    assert!(t.add_user(User::new(3, b"chard".to_vec(), 11)));
    let mut cache = Cache::new(t);
    let everyone = all_users(&mut cache);
    assert_eq!(everyone.len(), 3);
    assert_eq!(everyone[0].name(), &b"alpha".to_vec());
    assert_eq!(everyone[1].name(), &b"bravo".to_vec());
    assert_eq!(everyone[2].name(), &b"chard".to_vec());
    let calls_after_enumeration = cache.oracle().calls();
    for uid in [1u32, 2, 3] {
        let u = get_user_by_uid(&mut cache, uid).expect("cached by enumeration");
        assert_eq!(u.uid(), uid);
    }
    let name = b"bravo".to_vec();
    assert!(get_user_by_name(&mut cache, &name).is_some());
    assert_eq!(cache.oracle().calls(), calls_after_enumeration, "no further oracle call");
}

#[test]
fn empty_oracle_is_the_degenerate_mode() {
    let mut cache = Cache::new(TableOracle::new());
    assert!(get_user_by_uid(&mut cache, 0).is_none());
    let root = b"root".to_vec();
    assert!(get_user_by_name(&mut cache, &root).is_none());
    assert!(get_group_by_gid(&mut cache, 0).is_none());
    let everyone = all_users(&mut cache);
    assert!(everyone.is_empty());
}

#[test]
fn table_refuses_duplicate_keys_and_null_names() {
    let mut t = TableOracle::new();
    assert!(t.add_user(User::new(1, b"one".to_vec(), 1)));
    assert!(!t.add_user(User::new(1, b"other".to_vec(), 1)), "duplicate uid");
    assert!(!t.add_user(User::new(2, b"one".to_vec(), 1)), "duplicate name");
    assert!(!t.add_user(User::new(3, b"bad\0name".to_vec(), 1)), "null byte");
    assert!(t.add_group(Group::new(1, b"one".to_vec())));
    assert!(!t.add_group(Group::new(1, b"other".to_vec())), "duplicate gid");
    assert!(!t.add_group(Group::new(2, b"one".to_vec())), "duplicate name");
}

#[test]
fn user_groups_lists_primary_group_first() {
    let mut t = TableOracle::new();
    assert!(t.add_user(User::new(501, b"stevedore".to_vec(), 100)));
    assert!(t.add_group(Group::new(100, b"crew".to_vec())));
    assert!(t.add_group(Group::new(200, b"dock".to_vec())));
    assert!(t.add_supp_gids(b"stevedore".to_vec(), vec![200]));
    let mut cache = Cache::new(t);
    let name = b"stevedore".to_vec();
    let groups = get_user_groups(&mut cache, &name, 100).expect("user resolvable");
    assert_eq!(groups.len(), 2);
    assert_eq!(groups[0].gid(), 100);
    assert_eq!(groups[0].name(), &b"crew".to_vec());
    assert_eq!(groups[1].gid(), 200);
    assert_eq!(groups[1].name(), &b"dock".to_vec());
}

#[test]
fn user_groups_skips_gids_without_records() {
    let mut t = TableOracle::new();
    assert!(t.add_user(User::new(501, b"stevedore".to_vec(), 100)));
    assert!(t.add_group(Group::new(200, b"dock".to_vec())));
    assert!(t.add_supp_gids(b"stevedore".to_vec(), vec![200, 300]));
    let mut cache = Cache::new(t);
    let name = b"stevedore".to_vec();
    // The primary gid 100 and the supplementary 300 have no group records.
    let groups = get_user_groups(&mut cache, &name, 100).expect("user resolvable");
    assert_eq!(groups.len(), 1);
    assert_eq!(groups[0].gid(), 200);
}

#[test]
fn user_groups_of_unknown_name_is_soft_unavailable() {
    let mut cache = Cache::new(seeded_oracle());
    let name = b"vanished".to_vec();
    assert!(get_user_groups(&mut cache, &name, 100).is_none());
}

#[test]
fn user_groups_method_re_resolves_through_oracle() {
    let mut t = TableOracle::new();
    assert!(t.add_user(User::new(501, b"stevedore".to_vec(), 100)));
    assert!(t.add_group(Group::new(100, b"crew".to_vec())));
    let mut cache = Cache::new(t);
    let user = get_user_by_uid(&mut cache, 501).expect("seeded user");
    let groups = user.groups(&mut cache).expect("resolvable");
    assert_eq!(groups.len(), 1);
    assert_eq!(groups[0].name(), &b"crew".to_vec());
    let synthetic = User::new(777, b"nobody-here".to_vec(), 1);
    assert!(synthetic.groups(&mut cache).is_none());
}

#[test]
fn group_access_list_dedups_and_resolves_in_order() {
    let mut t = TableOracle::new();
    assert!(t.add_group(Group::new(100, b"crew".to_vec())));
    assert!(t.add_group(Group::new(200, b"dock".to_vec())));
    let mut cache = Cache::new(t);
    let mut sim = SimCreds::new(501, 501, 100, 100);
    sim.set_supp_gids(vec![100, 200, 100, 300, 200]);
    let groups = group_access_list(&mut cache, &sim).expect("never an error");
    assert_eq!(groups.len(), 2);
    assert_eq!(groups[0].gid(), 100);
    assert_eq!(groups[1].gid(), 200);
}

#[test]
fn group_access_list_empty_when_no_supplementary_groups() {
    let mut cache = Cache::new(TableOracle::new());
    let sim = SimCreds::new(0, 0, 0, 0);
    let groups = group_access_list(&mut cache, &sim).expect("never an error");
    assert!(groups.is_empty());
}

#[test]
fn current_username_resolves_the_real_uid() {
    let mut cache = Cache::new(seeded_oracle());
    let sim = SimCreds::new(501, 0, 100, 0);
    assert_eq!(get_current_uid(&sim), 501);
    let name = get_current_username(&mut cache, &sim).expect("record exists");
    assert_eq!(name, b"stevedore".to_vec());
    let gname = get_current_groupname(&mut cache, &sim).expect("record exists");
    assert_eq!(gname, b"crew".to_vec());
}

#[test]
fn current_username_absent_when_account_vanished() {
    let mut cache = Cache::new(TableOracle::new());
    let sim = SimCreds::new(501, 501, 100, 100);
    assert!(get_current_username(&mut cache, &sim).is_none());
}

#[test]
fn effective_names_resolve_the_effective_ids() {
    let mut cache = Cache::new(seeded_oracle());
    let sim = SimCreds::new(0, 501, 0, 100);
    let name = get_effective_username(&mut cache, &sim).expect("record exists");
    assert_eq!(name, b"stevedore".to_vec());
    let gname = get_effective_groupname(&mut cache, &sim).expect("record exists");
    assert_eq!(gname, b"crew".to_vec());
    assert!(get_current_username(&mut cache, &sim).is_none(), "real uid 0 has no record");
}
