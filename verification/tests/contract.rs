use dragon_battle::Contract;
use dragon_battle::Error;
use dragon_battle::account::DAY_DURATION;
use dragon_battle::battle::BATTLE_MAX_DURATION;

fn s(x: &str) -> String {
    String::from(x)
}

/// A system with accounts for alice and bob, one creature each (ids 0 and
/// 1), both selected at `sel_now`.
fn two_player_setup(sel_now: u64) -> Contract {
    let mut c = Contract::new(s("owner"));
    c.create_account(&s("alice")).unwrap();
    c.create_account(&s("bob")).unwrap();
    let a = c.dragon_create(&s("owner"), &s("alice"), 5).unwrap();
    let b = c.dragon_create(&s("owner"), &s("bob"), 5).unwrap();
    assert_eq!(a, 0);
    assert_eq!(b, 1);
    c.dragon_select(&s("alice"), a, sel_now).unwrap();
    c.dragon_select(&s("bob"), b, sel_now).unwrap();
    c
}

#[test]
fn test_basic() {
    let mut contract = Contract::new(s("owner"));
    contract.create_account(&s("alice")).unwrap();
    contract.create_account(&s("bob")).unwrap();
    let d0 = contract.dragon_create(&s("owner"), &s("alice"), 3).unwrap();
    let d1 = contract.dragon_create(&s("owner"), &s("bob"), 4).unwrap();
    let now = 2 * DAY_DURATION;
    contract.dragon_select(&s("alice"), d0, now).unwrap();
    assert!(!contract.battle_start(&s("alice"), now).unwrap());
    contract.dragon_select(&s("bob"), d1, now).unwrap();
    assert!(contract.battle_start(&s("bob"), now).unwrap());
}

#[test]
fn duplicate_account_fails() {
    let mut c = Contract::new(s("owner"));
    c.create_account(&s("alice")).unwrap();
    assert_eq!(c.create_account(&s("alice")).unwrap_err(), Error::AlreadyExists);
    // the first record is still there, untouched
    let a = c.get_account(&s("alice")).unwrap();
    assert_eq!(a.cluster_id, 0);
    assert_eq!(a.current_dragon, None);
    assert_eq!(a.dragon_change_timestamp, 0);
}

#[test]
fn mint_is_privileged() {
    let mut c = Contract::new(s("owner"));
    c.create_account(&s("alice")).unwrap();
    assert_eq!(c.dragon_create(&s("alice"), &s("alice"), 0).unwrap_err(), Error::Unauthorized);
    assert_eq!(c.dragon_create(&s("owner"), &s("alice"), 13).unwrap(), 0);
    let d = c.get_dragon(0).unwrap();
    assert_eq!(d.owner_id, s("alice"));
    assert_eq!(d.level, 0);
    assert_eq!(d.exp, 0);
    assert_eq!(d.generation, 0);
    assert_eq!(d.skills.len(), 1);
    // max hp is 10 + entropy % 10
    assert_eq!(d.constitution.max_hp, 13);
    assert_eq!(d.constitution.attack, [1, 1, 1, 1, 1]);
    assert_eq!(d.constitution.defense, [1, 1, 1, 1, 1]);
}

#[test]
fn select_by_non_owner_fails_and_owner_succeeds() {
    let mut c = Contract::new(s("owner"));
    c.create_account(&s("alice")).unwrap();
    c.create_account(&s("bob")).unwrap();
    let d = c.dragon_create(&s("owner"), &s("alice"), 0).unwrap();
    let now = 2 * DAY_DURATION;
    assert_eq!(c.dragon_select(&s("bob"), d, now).unwrap_err(), Error::NotOwner);
    c.dragon_select(&s("alice"), d, now).unwrap();
    let a = c.get_account(&s("alice")).unwrap();
    assert_eq!(a.current_dragon, Some(d));
    assert_eq!(a.dragon_change_timestamp, now);
}

#[test]
fn select_unknown_creature_fails() {
    let mut c = Contract::new(s("owner"));
    c.create_account(&s("alice")).unwrap();
    assert_eq!(c.dragon_select(&s("alice"), 7, 2 * DAY_DURATION).unwrap_err(), Error::NotFound);
    assert_eq!(c.dragon_select(&s("nobody"), 0, 2 * DAY_DURATION).unwrap_err(), Error::NotFound);
}

#[test]
fn reselect_within_cooldown_is_rate_limited() {
    // The direction pinned here: a change is admitted only when strictly
    // more than one day has elapsed since the stored selection timestamp.
    let mut c = Contract::new(s("owner"));
    c.create_account(&s("alice")).unwrap();
    let d = c.dragon_create(&s("owner"), &s("alice"), 0).unwrap();
    let t0 = 2 * DAY_DURATION;
    c.dragon_select(&s("alice"), d, t0).unwrap();
    // one microsecond later: inside the window
    assert_eq!(c.dragon_select(&s("alice"), d, t0 + 1).unwrap_err(), Error::RateLimited);
    // exactly one day later: still inside (strict comparison)
    assert_eq!(
        c.dragon_select(&s("alice"), d, t0 + DAY_DURATION).unwrap_err(),
        Error::RateLimited
    );
    // one day and a microsecond later: admitted
    c.dragon_select(&s("alice"), d, t0 + DAY_DURATION + 1).unwrap();
    let a = c.get_account(&s("alice")).unwrap();
    assert_eq!(a.dragon_change_timestamp, t0 + DAY_DURATION + 1);
}

#[test]
fn fresh_account_must_wait_out_the_epoch_cooldown() {
    // A fresh account carries the epoch timestamp, so the first selection
    // is only admitted once the clock has passed one day.
    let mut c = Contract::new(s("owner"));
    c.create_account(&s("alice")).unwrap();
    let d = c.dragon_create(&s("owner"), &s("alice"), 0).unwrap();
    assert_eq!(c.dragon_select(&s("alice"), d, DAY_DURATION).unwrap_err(), Error::RateLimited);
    c.dragon_select(&s("alice"), d, DAY_DURATION + 1).unwrap();
}

#[test]
fn clearing_selection_with_sentinel() {
    let mut c = Contract::new(s("owner"));
    c.create_account(&s("alice")).unwrap();
    let d = c.dragon_create(&s("owner"), &s("alice"), 0).unwrap();
    let t0 = 2 * DAY_DURATION;
    c.dragon_select(&s("alice"), d, t0).unwrap();
    c.dragon_select(&s("alice"), u64::MAX, t0 + DAY_DURATION + 1).unwrap();
    assert_eq!(c.get_account(&s("alice")).unwrap().current_dragon, None);
}

#[test]
fn cluster_select_is_unchecked() {
    let mut c = Contract::new(s("owner"));
    c.create_account(&s("alice")).unwrap();
    // no validation that cluster 42 exists
    c.cluster_select(&s("alice"), 42).unwrap();
    assert_eq!(c.get_account(&s("alice")).unwrap().cluster_id, 42);
    // but matchmaking from a nonexistent cluster then fails NotFound
    let d = c.dragon_create(&s("owner"), &s("alice"), 0).unwrap();
    c.dragon_select(&s("alice"), d, 2 * DAY_DURATION).unwrap();
    assert_eq!(c.battle_start(&s("alice"), 2 * DAY_DURATION).unwrap_err(), Error::NotFound);
    assert_eq!(c.cluster_select(&s("nobody"), 0).unwrap_err(), Error::NotFound);
}

#[test]
fn matchmaking_pairs_two_creatures() {
    let now = 2 * DAY_DURATION;
    let mut c = two_player_setup(now);
    // empty slot: alice waits, no battle yet
    assert!(!c.battle_start(&s("alice"), now).unwrap());
    assert_eq!(c.get_cluster(0).unwrap().waiting_for_battle, Some(0));
    assert!(c.get_battle(&s("1:0")).is_err());
    // occupied slot: bob pairs with alice, slot empties, one battle exists
    assert!(c.battle_start(&s("bob"), now).unwrap());
    assert_eq!(c.get_cluster(0).unwrap().waiting_for_battle, None);
    let b = c.get_battle(&s("1:0")).unwrap();
    assert_eq!(b.dragon_a, 1);
    assert_eq!(b.dragon_b, 0);
    assert_eq!(b.start_timestamp, now);
    assert_eq!(b.hash_actions_a, None);
    assert_eq!(b.actions_a, None);
    // the key is in pairing order: nothing under "0:1"
    assert_eq!(c.get_battle(&s("0:1")).unwrap_err(), Error::NotFound);
}

#[test]
fn battle_key_uses_decimal_ids() {
    let mut c = Contract::new(s("owner"));
    c.create_account(&s("alice")).unwrap();
    c.create_account(&s("bob")).unwrap();
    for _ in 0..11 {
        c.dragon_create(&s("owner"), &s("alice"), 0).unwrap();
    }
    let d11 = c.dragon_create(&s("owner"), &s("bob"), 0).unwrap();
    assert_eq!(d11, 11);
    let now = 2 * DAY_DURATION;
    c.dragon_select(&s("alice"), 10, now).unwrap();
    c.dragon_select(&s("bob"), 11, now).unwrap();
    assert!(!c.battle_start(&s("alice"), now).unwrap());
    assert!(c.battle_start(&s("bob"), now).unwrap());
    let b = c.get_battle(&s("11:10")).unwrap();
    assert_eq!(b.dragon_a, 11);
    assert_eq!(b.dragon_b, 10);
}

#[test]
fn battle_start_without_selection_fails() {
    let mut c = Contract::new(s("owner"));
    c.create_account(&s("alice")).unwrap();
    assert_eq!(c.battle_start(&s("alice"), 0).unwrap_err(), Error::NotFound);
}

#[test]
fn commit_and_reveal_are_guarded() {
    let now = 2 * DAY_DURATION;
    let mut c = two_player_setup(now);
    assert!(!c.battle_start(&s("alice"), now).unwrap());
    assert!(c.battle_start(&s("bob"), now).unwrap());
    // a third player with its own creature is no participant
    c.create_account(&s("carol")).unwrap();
    let dc = c.dragon_create(&s("owner"), &s("carol"), 0).unwrap();
    c.dragon_select(&s("carol"), dc, now).unwrap();
    assert_eq!(
        c.battle_commit_actions(&s("carol"), &s("1:0"), [0u8; 32]).unwrap_err(),
        Error::NotParticipant
    );
    assert_eq!(
        c.battle_reveal_actions(&s("carol"), &s("1:0"), vec![0], now).unwrap_err(),
        Error::NotParticipant
    );
    // an unknown battle id, well-formed or not, is NotFound
    assert_eq!(
        c.battle_commit_actions(&s("alice"), &s("0:1"), [0u8; 32]).unwrap_err(),
        Error::NotFound
    );
    assert_eq!(
        c.battle_reveal_actions(&s("alice"), &s("no-such-battle"), vec![0], now).unwrap_err(),
        Error::NotFound
    );
    // participants may commit
    c.battle_commit_actions(&s("alice"), &s("1:0"), [7u8; 32]).unwrap();
    c.battle_commit_actions(&s("bob"), &s("1:0"), [9u8; 32]).unwrap();
    let b = c.get_battle(&s("1:0")).unwrap();
    assert_eq!(b.hash_actions_a, Some([9u8; 32]));
    assert_eq!(b.hash_actions_b, Some([7u8; 32]));
}

#[test]
fn reveal_ignores_commitment() {
    // committing one hash then revealing an unrelated sequence succeeds:
    // the commitment is never validated against the reveal.
    let now = 2 * DAY_DURATION;
    let mut c = two_player_setup(now);
    assert!(!c.battle_start(&s("alice"), now).unwrap());
    assert!(c.battle_start(&s("bob"), now).unwrap());
    c.battle_commit_actions(&s("alice"), &s("1:0"), [0xAB; 32]).unwrap();
    c.battle_reveal_actions(&s("alice"), &s("1:0"), vec![0, 0, 0], now).unwrap();
    let b = c.get_battle(&s("1:0")).unwrap();
    // alice's creature is side B of the pairing "1:0"
    assert_eq!(b.actions_b, Some(vec![0, 0, 0]));
    assert_eq!(b.hash_actions_b, Some([0xAB; 32]));
}

#[test]
fn battle_resolves_when_both_reveal() {
    let now = 2 * DAY_DURATION;
    let mut c = two_player_setup(now);
    assert!(!c.battle_start(&s("alice"), now).unwrap());
    assert!(c.battle_start(&s("bob"), now).unwrap());
    let hp0 = c.get_dragon(0).unwrap().constitution.max_hp;
    let hp1 = c.get_dragon(1).unwrap().constitution.max_hp;
    assert_eq!(hp0, 15);
    assert_eq!(hp1, 15);
    // first reveal alone does not resolve
    c.battle_reveal_actions(&s("alice"), &s("1:0"), vec![0], now).unwrap();
    assert_eq!(c.get_dragon(0).unwrap().constitution.max_hp, hp0);
    // second reveal completes the battle: one round, each side's starter
    // attack deals max(1, 1 - 1) = 1 damage to the other
    c.battle_reveal_actions(&s("bob"), &s("1:0"), vec![0], now).unwrap();
    assert_eq!(c.get_dragon(0).unwrap().constitution.max_hp, hp0 - 1);
    assert_eq!(c.get_dragon(1).unwrap().constitution.max_hp, hp1 - 1);
}

#[test]
fn battle_resolves_on_timeout_with_default_actions() {
    let now = 2 * DAY_DURATION;
    let mut c = two_player_setup(now);
    assert!(!c.battle_start(&s("alice"), now).unwrap());
    assert!(c.battle_start(&s("bob"), now).unwrap());
    // bob reveals after the deadline: the battle resolves even though
    // alice never revealed (her side defaults to the neutral action)
    let late = now + BATTLE_MAX_DURATION;
    c.battle_reveal_actions(&s("bob"), &s("1:0"), vec![0, 0], late).unwrap();
    assert_eq!(c.get_dragon(0).unwrap().constitution.max_hp, 13);
    assert_eq!(c.get_dragon(1).unwrap().constitution.max_hp, 13);
}

#[test]
fn reveal_with_unknown_skill_index_fails_resolution() {
    let now = 2 * DAY_DURATION;
    let mut c = two_player_setup(now);
    assert!(!c.battle_start(&s("alice"), now).unwrap());
    assert!(c.battle_start(&s("bob"), now).unwrap());
    c.battle_reveal_actions(&s("alice"), &s("1:0"), vec![0], now).unwrap();
    // a level-0 creature has exactly one skill; index 3 names none, and
    // the completing reveal aborts without committing anything
    assert_eq!(
        c.battle_reveal_actions(&s("bob"), &s("1:0"), vec![3], now).unwrap_err(),
        Error::NotFound
    );
    assert_eq!(c.get_battle(&s("1:0")).unwrap().actions_a, None);
    assert_eq!(c.get_dragon(0).unwrap().constitution.max_hp, 15);
}
