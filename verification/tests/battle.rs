use dragon_battle::account::{Account, VAccount};
use dragon_battle::battle::{BATTLE_MAX_DURATION, Battle, VBattle};
use dragon_battle::cluster::{Cluster, VCluster};
use dragon_battle::dragon::{Dragon, VDragon};

fn s(x: &str) -> String {
    String::from(x)
}

#[test]
fn completion_needs_two_nonempty_reveals_or_the_deadline() {
    let mut b = Battle::new(0, 1, 100);
    assert!(!b.complete(100));
    assert!(!b.complete(100 + BATTLE_MAX_DURATION - 1));
    assert!(b.complete(100 + BATTLE_MAX_DURATION));
    b.set_actions(0, vec![0]).unwrap();
    assert!(!b.complete(100));
    b.set_actions(1, vec![]).unwrap();
    // an empty reveal does not count towards completion
    assert!(!b.complete(100));
    b.set_actions(1, vec![0, 0]).unwrap();
    assert!(b.complete(100));
}

#[test]
fn battle_sides_are_kept_apart() {
    let mut b = Battle::new(7, 9, 0);
    assert_eq!(b.set_hash_actions(8, [1u8; 32]).unwrap_err(), dragon_battle::Error::NotParticipant);
    b.set_hash_actions(9, [1u8; 32]).unwrap();
    b.set_actions(7, vec![2, 2]).unwrap();
    assert_eq!(b.hash_actions_a, None);
    assert_eq!(b.hash_actions_b, Some([1u8; 32]));
    assert_eq!(b.actions_a, Some(vec![2, 2]));
    assert_eq!(b.actions_b, None);
    // a later commit overwrites the earlier one
    b.set_hash_actions(9, [3u8; 32]).unwrap();
    assert_eq!(b.hash_actions_b, Some([3u8; 32]));
}

#[test]
fn versioned_records_unwrap() {
    let a = Account::new();
    assert_eq!(Account::from(VAccount::V1(a)), a);
    let c = Cluster { max_lvl: 3, waiting_for_battle: Some(4) };
    assert_eq!(Cluster::from(VCluster::V1(c)), c);
    let d = Dragon::from(VDragon::V1(Dragon::random(&s("alice"), 2)));
    assert_eq!(d.owner_id, s("alice"));
    assert_eq!(d.constitution.max_hp, 12);
    let b = Battle::from(VBattle::V1(Battle::new(1, 2, 5)));
    assert_eq!(b.dragon_a, 1);
    assert_eq!(b.dragon_b, 2);
    assert_eq!(b.start_timestamp, 5);
}
