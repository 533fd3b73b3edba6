//! Node groups: members join once, and each member may ping once an hour;
//! a ping reports how many whole days the member has been in the group.

use vstd::prelude::*;
use vstd::string::*;

verus! {

/// One member of a node group, with the Unix times at which it joined and
/// last pinged.
#[derive(Debug, Clone)]
pub struct GroupMember {
    pub address: String,
    pub joined_at: i64,
    pub last_ping: i64,
}

#[verifier::ext_equal]
pub struct MemberView {
    pub address: Seq<char>,
    pub joined_at: i64,
    pub last_ping: i64,
}

impl View for GroupMember {
    type V = MemberView;

    open spec fn view(&self) -> MemberView {
        MemberView { address: self.address@, joined_at: self.joined_at, last_ping: self.last_ping }
    }
}

/// A node group: its identifier, the address that created it, and its
/// members in the order in which they joined.
#[derive(Debug, Clone)]
pub struct NodeGroup {
    pub id: String,
    pub owner: String,
    pub members: Vec<GroupMember>,
}

#[verifier::ext_equal]
pub struct GroupView {
    pub id: Seq<char>,
    pub owner: Seq<char>,
    pub members: Seq<MemberView>,
}

pub open spec fn members_view(members: Seq<GroupMember>) -> Seq<MemberView> {
    members.map_values(|m: GroupMember| m@)
}

impl View for NodeGroup {
    type V = GroupView;

    open spec fn view(&self) -> GroupView {
        GroupView { id: self.id@, owner: self.owner@, members: members_view(self.members@) }
    }
}

/// Why a join is refused.
#[derive(Debug, Clone, Copy, PartialEq, Eq, Structural)]
pub enum JoinError {
    AlreadyMember,
}

/// Why a ping is refused.
#[derive(Debug, Clone, Copy, PartialEq, Eq, Structural)]
pub enum PingError {
    NotMember,
    TooEarly,
}

/// Seconds a member waits between two pings.
pub const PING_INTERVAL: i64 = 3600;

/// Seconds in a day of membership.
pub const SECONDS_PER_DAY: i64 = 86400;

pub open spec fn is_member(members: Seq<MemberView>, address: Seq<char>) -> bool {
    exists|i: int| 0 <= i < members.len() && (#[trigger] members[i]).address == address
}

/// `i` is the first member with the address.
pub open spec fn is_first_match(members: Seq<MemberView>, address: Seq<char>, i: int) -> bool {
    &&& 0 <= i < members.len()
    &&& members[i].address == address
    &&& forall|j: int| 0 <= j < i ==> (#[trigger] members[j]).address != address
}

/// The position of the first member with the address.
pub open spec fn first_match(members: Seq<MemberView>, address: Seq<char>) -> int {
    choose|i: int| is_first_match(members, address, i)
}

/// Whole days in `seconds`, rounded towards zero.
pub open spec fn whole_days(seconds: int) -> int {
    if seconds >= 0 {
        seconds / 86400
    } else {
        -((-seconds) / 86400)
    }
}

/// The members of a new group: its creator alone.
pub open spec fn founding_members(owner: Seq<char>, now: i64) -> Seq<MemberView> {
    seq![MemberView { address: owner, joined_at: now, last_ping: now }]
}

/// Why `address` may not join, if it may not.
pub open spec fn join_refusal(members: Seq<MemberView>, address: Seq<char>) -> Option<JoinError> {
    if is_member(members, address) {
        Some(JoinError::AlreadyMember)
    } else {
        None
    }
}

/// The members after `address` joined at `now`.
pub open spec fn joined_members(members: Seq<MemberView>, address: Seq<char>, now: i64) -> Seq<
    MemberView,
> {
    members.push(MemberView { address, joined_at: now, last_ping: now })
}

/// Why a ping of `address` at `now` is refused, if it is.
pub open spec fn ping_refusal(members: Seq<MemberView>, address: Seq<char>, now: int) -> Option<
    PingError,
> {
    if !is_member(members, address) {
        Some(PingError::NotMember)
    } else if now - members[first_match(members, address)].last_ping < 3600 {
        Some(PingError::TooEarly)
    } else {
        None
    }
}

/// The whole days the pinging member has been in the group.
pub open spec fn ping_days(members: Seq<MemberView>, address: Seq<char>, now: int) -> int {
    whole_days(now - members[first_match(members, address)].joined_at)
}

/// The members after a ping of `address` at `now`: that member's last ping is now.
pub open spec fn pinged_members(members: Seq<MemberView>, address: Seq<char>, now: i64) -> Seq<
    MemberView,
> {
    let i: int = first_match(members, address);
    members.update(i, MemberView { last_ping: now, ..members[i] })
}

/// A ping's arithmetic stays within `i64`, as the service computes it: the
/// time since the last ping, and, for a ping that is not too early, the time
/// since joining.
pub open spec fn ping_fits(members: Seq<MemberView>, address: Seq<char>, now: i64) -> bool {
    is_member(members, address) ==> {
        let m = members[first_match(members, address)];
        &&& i64::MIN <= now - m.last_ping <= i64::MAX
        &&& now - m.last_ping >= 3600 ==> i64::MIN <= now - m.joined_at <= i64::MAX
    }
}

pub open spec fn distinct_addresses(members: Seq<MemberView>) -> bool {
    forall|i: int, j: int|
        0 <= i < j < members.len() ==> (#[trigger] members[i]).address != (#[trigger] members[j]).address
}

proof fn lemma_first_match_unique(members: Seq<MemberView>, address: Seq<char>, i: int, k: int)
    requires
        is_first_match(members, address, i),
        is_first_match(members, address, k),
    ensures
        i == k,
{
    if i < k {
        assert(members[i].address == address);
    } else if k < i {
        assert(members[k].address == address);
    }
}

proof fn lemma_first_match_exists(members: Seq<MemberView>, address: Seq<char>, k: int)
    requires
        0 <= k < members.len(),
        members[k].address == address,
    ensures
        is_first_match(members, address, first_match(members, address)),
    decreases k,
{
    if exists|j: int| 0 <= j < k && (#[trigger] members[j]).address == address {
        let j: int = choose|j: int| 0 <= j < k && (#[trigger] members[j]).address == address;
        lemma_first_match_exists(members, address, j);
    } else {
        assert(is_first_match(members, address, k));
    }
}

/// Where `first_match` is known to lie.
proof fn lemma_first_match_is(members: Seq<MemberView>, address: Seq<char>, i: int)
    requires
        is_first_match(members, address, i),
    ensures
        first_match(members, address) == i,
{
    lemma_first_match_exists(members, address, i);
    lemma_first_match_unique(members, address, i, first_match(members, address));
}

/// The first member with the address, if there is one.
fn find_member(members: &Vec<GroupMember>, address: &String) -> (found: Option<usize>)
    ensures
        match found {
            Some(i) => is_first_match(members_view(members@), address@, i as int),
            None => !is_member(members_view(members@), address@),
        },
{
    let ghost view = members_view(members@);
    let mut i: usize = 0;
    while i < members.len()
        invariant
            i <= members@.len(),
            view == members_view(members@),
            forall|j: int| 0 <= j < i ==> (#[trigger] view[j]).address != address@,
        decreases members@.len() - i,
    {
        if members[i].address == *address {
            return Some(i);
        }
        i = i + 1;
    }
    None
}

/// Whole days in `seconds`, rounded towards zero.
fn days_in(seconds: i64) -> (days: i64)
    ensures
        days == whole_days(seconds as int),
{
    if seconds >= 0 {
        seconds / 86400
    } else {
        let wide: i128 = seconds as i128;
        let magnitude: i128 = (-wide) / 86400;
        -(magnitude as i64)
    }
}

impl NodeGroup {
    /// A new group whose creator is its only member, joined and pinged now.
    pub fn create(id: String, owner: String, now: i64) -> (group: NodeGroup)
        ensures
            group@ == (GroupView { id: id@, owner: owner@, members: founding_members(owner@, now) }),
    {
        let first = GroupMember { address: owner.clone(), joined_at: now, last_ping: now };
        let group = NodeGroup { id, owner, members: vec![first] };
        assert(group@.members =~= founding_members(owner@, now));
        group
    }

    /// Adds `address` as a member, joined and pinged now, unless it already
    /// is a member.
    pub fn join(&mut self, address: &str, now: i64) -> (result: Result<(), JoinError>)
        ensures
            final(self)@.id == old(self)@.id,
            final(self)@.owner == old(self)@.owner,
            match result {
                Ok(()) => {
                    &&& join_refusal(old(self)@.members, address@) is None
                    &&& final(self)@.members == joined_members(old(self)@.members, address@, now)
                },
                Err(e) => {
                    &&& join_refusal(old(self)@.members, address@) == Some(e)
                    &&& final(self)@ == old(self)@
                },
            },
    {
        let target = address.to_owned();
        match find_member(&self.members, &target) {
            Some(_) => Err(JoinError::AlreadyMember),
            None => {
                self.members.push(GroupMember { address: target, joined_at: now, last_ping: now });
                assert(self@.members =~= joined_members(old(self)@.members, address@, now));
                Ok(())
            },
        }
    }

    /// Records a ping of `address` at `now` and gives the whole days it has
    /// been a member. Refused where `address` is not a member, or where its
    /// last ping is less than an hour old.
    pub fn ping(&mut self, address: &str, now: i64) -> (result: Result<i64, PingError>)
        requires
            ping_fits(old(self)@.members, address@, now),
        ensures
            final(self)@.id == old(self)@.id,
            final(self)@.owner == old(self)@.owner,
            match result {
                Ok(days) => {
                    &&& ping_refusal(old(self)@.members, address@, now as int) is None
                    &&& days == ping_days(old(self)@.members, address@, now as int)
                    &&& final(self)@.members == pinged_members(old(self)@.members, address@, now)
                },
                Err(e) => {
                    &&& ping_refusal(old(self)@.members, address@, now as int) == Some(e)
                    &&& final(self)@ == old(self)@
                },
            },
    {
        let ghost before = self@.members;
        let target = address.to_owned();
        let i: usize = match find_member(&self.members, &target) {
            Some(i) => i,
            None => {
                return Err(PingError::NotMember);
            },
        };
        proof {
            lemma_first_match_is(before, address@, i as int);
        }
        let joined_at: i64 = self.members[i].joined_at;
        let last_ping: i64 = self.members[i].last_ping;
        if now - last_ping < PING_INTERVAL {
            return Err(PingError::TooEarly);
        }
        let days: i64 = days_in(now - joined_at);
        let member_address = self.members[i].address.clone();
        self.members.set(i, GroupMember { address: member_address, joined_at, last_ping: now });
        assert(self@.members =~= pinged_members(before, address@, now));
        Ok(days)
    }
}

/// A join keeps the members' addresses distinct.
pub proof fn lemma_join_keeps_addresses_distinct(
    members: Seq<MemberView>,
    address: Seq<char>,
    now: i64,
)
    requires
        distinct_addresses(members),
        join_refusal(members, address) is None,
    ensures
        distinct_addresses(joined_members(members, address, now)),
{
    let after = joined_members(members, address, now);
    assert forall|i: int, j: int|
        0 <= i < j < after.len() implies (#[trigger] after[i]).address != (
        #[trigger] after[j]).address by {
        if j == members.len() {
            assert(members[i].address != address);
        } else {
            assert(after[i] == members[i] && after[j] == members[j]);
        }
    }
}

/// Once `address` has joined, joining again is refused.
pub proof fn lemma_second_join_refused(members: Seq<MemberView>, address: Seq<char>, now: i64)
    requires
        join_refusal(members, address) is None,
    ensures
        join_refusal(joined_members(members, address, now), address) == Some(JoinError::AlreadyMember),
{
    let after = joined_members(members, address, now);
    assert(after[members.len() as int].address == address);
}

/// A member that has just joined may ping only an hour or more after joining,
/// whatever the time of the ping.
pub proof fn lemma_no_ping_within_hour_of_joining(
    members: Seq<MemberView>,
    address: Seq<char>,
    joined: i64,
    now: i64,
)
    requires
        join_refusal(members, address) is None,
    ensures
        now < joined + 3600 ==> ping_refusal(joined_members(members, address, joined), address, now as int)
            == Some(PingError::TooEarly),
        ping_refusal(joined_members(members, address, joined), address, now as int) is None ==> now
            - joined >= 3600,
{
    let after = joined_members(members, address, joined);
    let k: int = members.len() as int;
    assert forall|j: int| 0 <= j < k implies (#[trigger] after[j]).address != address by {
        assert(after[j] == members[j]);
    }
    assert(is_first_match(after, address, k));
    lemma_first_match_is(after, address, k);
}

/// After an accepted ping, another ping of the same member is accepted only an
/// hour or more after it, whatever its time: at most one accepted ping per hour.
pub proof fn lemma_no_second_ping_within_hour(
    members: Seq<MemberView>,
    address: Seq<char>,
    pinged: i64,
    now: i64,
)
    requires
        ping_refusal(members, address, pinged as int) is None,
    ensures
        now < pinged + 3600 ==> ping_refusal(pinged_members(members, address, pinged), address, now as int)
            == Some(PingError::TooEarly),
        ping_refusal(pinged_members(members, address, pinged), address, now as int) is None ==> now
            - pinged >= 3600,
{
    let i: int = choose|i: int| 0 <= i < members.len() && (#[trigger] members[i]).address == address;
    lemma_first_match_exists(members, address, i);
    let k: int = first_match(members, address);
    let after = pinged_members(members, address, pinged);
    assert forall|j: int| 0 <= j < k implies (#[trigger] after[j]).address != address by {
        assert(after[j] == members[j]);
    }
    assert(is_first_match(after, address, k));
    lemma_first_match_is(after, address, k);
}

/// A ping changes no address and no joining time, so the members stay the same.
pub proof fn lemma_ping_keeps_membership(
    members: Seq<MemberView>,
    address: Seq<char>,
    now: i64,
    other: Seq<char>,
)
    requires
        ping_refusal(members, address, now as int) is None,
    ensures
        pinged_members(members, address, now).len() == members.len(),
        forall|j: int|
            0 <= j < members.len() ==> {
                &&& (#[trigger] pinged_members(members, address, now)[j]).address
                    == members[j].address
                &&& pinged_members(members, address, now)[j].joined_at == members[j].joined_at
            },
        is_member(pinged_members(members, address, now), other) == is_member(members, other),
{
    let i: int = choose|i: int| 0 <= i < members.len() && (#[trigger] members[i]).address == address;
    lemma_first_match_exists(members, address, i);
    let after = pinged_members(members, address, now);
    if is_member(members, other) {
        let j: int = choose|j: int| 0 <= j < members.len() && (#[trigger] members[j]).address == other;
        assert(after[j].address == other);
    }
    if is_member(after, other) {
        let j: int = choose|j: int| 0 <= j < after.len() && (#[trigger] after[j]).address == other;
        assert(members[j].address == other);
    }
}

} // verus!

verus! {

impl JoinError {
    /// The text of the refusal.
    pub fn message(&self) -> (text: String)
        ensures
            text@ == "Already a member"@,
    {
        String::from_str("Already a member")
    }
}

impl PingError {
    /// The text of the refusal.
    pub fn message(&self) -> (text: String)
        ensures
            text@ == match self {
                PingError::NotMember => "You are not in this group"@,
                PingError::TooEarly => "Too early for ping"@,
            },
    {
        match self {
            PingError::NotMember => String::from_str("You are not in this group"),
            PingError::TooEarly => String::from_str("Too early for ping"),
        }
    }
}


/// An accepted ping reports the whole days since the pinging member joined,
/// with no upper limit: a ping `d` days and `r` seconds (`r` under a day)
/// after joining reports `d`, and one that far before joining reports `-d`.
pub proof fn lemma_ping_reports_whole_days(
    members: Seq<MemberView>,
    address: Seq<char>,
    i: int,
    now: i64,
    d: int,
    r: int,
)
    requires
        is_first_match(members, address, i),
        d >= 0,
        0 <= r < 86400,
    ensures
        now == members[i].joined_at + d * 86400 + r ==> ping_days(members, address, now as int) == d,
        now == members[i].joined_at - (d * 86400 + r) ==> ping_days(members, address, now as int)
            == -d,
{
    lemma_first_match_is(members, address, i);
    assert((d * 86400 + r) / 86400 == d);
}

/// A join is refused exactly when the address is among the members, whatever
/// their number; an accepted join appends the newcomer, joined and pinged now,
/// and leaves every earlier member as it was.
pub proof fn lemma_join_accepts_every_newcomer(members: Seq<MemberView>, address: Seq<char>, now: i64)
    ensures
        (forall|i: int| 0 <= i < members.len() ==> (#[trigger] members[i]).address != address)
            ==> join_refusal(members, address) is None,
        (exists|i: int| 0 <= i < members.len() && (#[trigger] members[i]).address == address)
            ==> join_refusal(members, address) == Some(JoinError::AlreadyMember),
        joined_members(members, address, now).len() == members.len() + 1,
        forall|i: int|
            0 <= i < members.len() ==> #[trigger] joined_members(members, address, now)[i]
                == members[i],
        joined_members(members, address, now)[members.len() as int] == (MemberView {
            address,
            joined_at: now,
            last_ping: now,
        }),
{
}


/// A ping is refused as `NotMember` exactly when no member has the address;
/// otherwise, for the first member with it, it is refused as `TooEarly`
/// exactly when that member's last ping is less than an hour (3600 seconds)
/// old, and an accepted ping sets that member's last ping to now and changes
/// nothing else.
pub proof fn lemma_ping_accepts_once_an_hour(
    members: Seq<MemberView>,
    address: Seq<char>,
    i: int,
    now: i64,
)
    ensures
        (forall|j: int| 0 <= j < members.len() ==> (#[trigger] members[j]).address != address)
            ==> ping_refusal(members, address, now as int) == Some(PingError::NotMember),
        is_first_match(members, address, i) ==> {
            &&& now - members[i].last_ping < 3600 ==> ping_refusal(members, address, now as int)
                == Some(PingError::TooEarly)
            &&& now - members[i].last_ping >= 3600 ==> ping_refusal(members, address, now as int)
                is None
            &&& pinged_members(members, address, now).len() == members.len()
            &&& pinged_members(members, address, now)[i] == (MemberView {
                address: members[i].address,
                joined_at: members[i].joined_at,
                last_ping: now,
            })
            &&& forall|j: int|
                0 <= j < members.len() && j != i ==> #[trigger] pinged_members(members, address, now)[j]
                    == members[j]
        },
{
    if is_first_match(members, address, i) {
        lemma_first_match_is(members, address, i);
    }
}

} // verus!
