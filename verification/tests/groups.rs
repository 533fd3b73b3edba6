use mewchain::groups::{GroupMember, JoinError, NodeGroup, PingError};

fn group() -> NodeGroup {
    NodeGroup::create("alpha".to_string(), "mew013owner".to_string(), 1_000)
}

#[test]
fn creator_is_the_only_member() {
    let g = group();
    assert_eq!(g.id, "alpha");
    assert_eq!(g.owner, "mew013owner");
    assert_eq!(g.members.len(), 1);
    assert_eq!(g.members[0].address, "mew013owner");
    assert_eq!(g.members[0].joined_at, 1_000);
    assert_eq!(g.members[0].last_ping, 1_000);
}

#[test]
fn join_adds_member_at_the_end() {
    let mut g = group();
    assert_eq!(g.join("mew013bob", 2_000), Ok(()));
    assert_eq!(g.members.len(), 2);
    assert_eq!(g.members[1].address, "mew013bob");
    assert_eq!(g.members[1].joined_at, 2_000);
    assert_eq!(g.members[1].last_ping, 2_000);
}

#[test]
fn second_join_is_refused() {
    let mut g = group();
    g.join("mew013bob", 2_000).unwrap();
    assert_eq!(g.join("mew013bob", 9_000), Err(JoinError::AlreadyMember));
    assert_eq!(g.join("mew013owner", 9_000), Err(JoinError::AlreadyMember));
    assert_eq!(g.members.len(), 2);
    assert_eq!(JoinError::AlreadyMember.message(), "Already a member");
}

#[test]
fn ping_of_stranger_is_refused() {
    let mut g = group();
    assert_eq!(g.ping("mew013eve", 100_000), Err(PingError::NotMember));
    assert_eq!(PingError::NotMember.message(), "You are not in this group");
}

#[test]
fn ping_within_the_hour_is_refused() {
    let mut g = group();
    assert_eq!(g.ping("mew013owner", 1_000 + 3_599), Err(PingError::TooEarly));
    assert_eq!(g.members[0].last_ping, 1_000);
    assert_eq!(PingError::TooEarly.message(), "Too early for ping");
}

#[test]
fn ping_counts_whole_days() {
    let mut g = group();
    let now = 1_000 + 3 * 86_400 + 500;
    assert_eq!(g.ping("mew013owner", now), Ok(3));
    assert_eq!(g.members[0].last_ping, now);
    assert_eq!(g.members[0].joined_at, 1_000);
    assert_eq!(g.ping("mew013owner", now + 3_599), Err(PingError::TooEarly));
    assert_eq!(g.ping("mew013owner", now + 3_600), Ok(3));
}

#[test]
fn ping_before_joining_time_rounds_towards_zero() {
    let mut g = NodeGroup {
        id: "beta".to_string(),
        owner: "a".to_string(),
        members: vec![GroupMember { address: "a".to_string(), joined_at: 2 * 86_400 + 10_000, last_ping: 0 }],
    };
    assert_eq!(g.ping("a", 5_000), Ok(-2));
}

#[test]
fn ping_updates_first_matching_member_only() {
    let mut g = NodeGroup {
        id: "gamma".to_string(),
        owner: "a".to_string(),
        members: vec![
            GroupMember { address: "a".to_string(), joined_at: 0, last_ping: 0 },
            GroupMember { address: "a".to_string(), joined_at: 0, last_ping: 0 },
        ],
    };
    assert_eq!(g.ping("a", 4_000), Ok(0));
    assert_eq!(g.members[0].last_ping, 4_000);
    assert_eq!(g.members[1].last_ping, 0);
}

#[test]
fn new_member_waits_an_hour_to_ping() {
    let mut g = group();
    g.join("mew013bob", 50_000).unwrap();
    assert_eq!(g.ping("mew013bob", 50_000 + 3_599), Err(PingError::TooEarly));
    assert_eq!(g.ping("mew013bob", 50_000 + 3_600), Ok(0));
    assert_eq!(g.members[1].last_ping, 53_600);
}

#[test]
fn joins_keep_addresses_distinct() {
    let mut g = group();
    for (i, name) in ["a", "b", "a", "c", "b", "mew013owner"].iter().enumerate() {
        let _ = g.join(name, 10_000 + i as i64);
    }
    let addresses: Vec<&str> = g.members.iter().map(|m| m.address.as_str()).collect();
    assert_eq!(addresses, vec!["mew013owner", "a", "b", "c"]);
    assert_eq!(g.members[3].joined_at, 10_003);
}

#[test]
fn ping_keeps_membership() {
    let mut g = group();
    g.join("mew013bob", 2_000).unwrap();
    g.ping("mew013bob", 2_000 + 86_400).unwrap();
    assert_eq!(g.members.len(), 2);
    assert_eq!(g.members[0].address, "mew013owner");
    assert_eq!(g.members[1].address, "mew013bob");
    assert_eq!(g.members[1].joined_at, 2_000);
    assert_eq!(g.id, "alpha");
    assert_eq!(g.owner, "mew013owner");
}

#[test]
fn ping_at_an_earlier_clock_reading_is_refused() {
    let mut g = group();
    g.ping("mew013owner", 100_000).unwrap();
    assert_eq!(g.ping("mew013owner", 90_000), Err(PingError::TooEarly));
}

#[test]
fn too_early_ping_needs_no_joining_arithmetic() {
    let mut g = NodeGroup {
        id: "delta".to_string(),
        owner: "a".to_string(),
        members: vec![GroupMember { address: "a".to_string(), joined_at: i64::MIN, last_ping: 0 }],
    };
    assert_eq!(g.ping("a", 0), Err(PingError::TooEarly));
}
