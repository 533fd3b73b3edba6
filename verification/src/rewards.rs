//! Faucet tasks and interest: when a wallet may claim a task reward, what it
//! is paid, and how long it still has to wait.

use vstd::prelude::*;
use vstd::string::*;
use crate::text::{decimal, push_decimal};

verus! {

/// The reward of the daily faucet task, in MEW.
pub const FAUCET_REWARD: u32 = 10;

/// Seconds between two task claims of a wallet.
pub const CLAIM_COOLDOWN: i64 = 86400;

/// The task identifier of the daily faucet.
pub open spec fn faucet_task() -> Seq<char> {
    "faucet_daily"@
}

/// What a claimed task pays: a fixed amount of MEW, or the amount the
/// request names.
#[derive(Debug, Clone, Copy, PartialEq, Eq, Structural)]
pub enum TaskReward {
    Fixed(u32),
    Requested,
}

/// An accepted claim: the reward, and the wallet's new task count and claim time.
#[derive(Debug, Clone, Copy, PartialEq, Eq, Structural)]
pub struct TaskClaim {
    pub reward: TaskReward,
    pub tasks_completed: u32,
    pub last_claim: i64,
}

/// A refused claim: the time left until the next claim, in whole hours and
/// the whole minutes beyond them.
#[derive(Debug, Clone, Copy, PartialEq, Eq, Structural)]
pub struct Cooldown {
    pub hours: u64,
    pub minutes: u64,
}

/// What a claim of `task_id` at `now` gives, for a wallet that has completed
/// `tasks_completed` tasks and last claimed at `last_claim`.
pub open spec fn claim_outcome(
    task_id: Seq<char>,
    tasks_completed: u32,
    last_claim: i64,
    now: i64,
) -> Result<TaskClaim, Cooldown> {
    let passed: int = now - last_claim;
    if passed < 86400 {
        let remaining: int = 86400 - passed;
        Err(Cooldown { hours: (remaining / 3600) as u64, minutes: ((remaining % 3600) / 60) as u64 })
    } else {
        Ok(
            TaskClaim {
                reward: if task_id == faucet_task() {
                    TaskReward::Fixed(10)
                } else {
                    TaskReward::Requested
                },
                tasks_completed: (tasks_completed + 1) as u32,
                last_claim: now,
            },
        )
    }
}

/// A claim's arithmetic stays within its integer types, as the service
/// computes it.
pub open spec fn claim_fits(tasks_completed: u32, last_claim: i64, now: i64) -> bool {
    let passed: int = now - last_claim;
    &&& i64::MIN <= passed <= i64::MAX
    &&& passed < 86400 ==> 86400 - passed <= i64::MAX
    &&& passed >= 86400 ==> tasks_completed < u32::MAX
}

/// Claims the reward of `task_id` at `now`: refused while fewer than
/// `CLAIM_COOLDOWN` seconds have passed since the last claim; otherwise the
/// daily faucet pays `FAUCET_REWARD` and any other task what was requested.
pub fn claim_task(task_id: &str, tasks_completed: u32, last_claim: i64, now: i64) -> (result:
    Result<TaskClaim, Cooldown>)
    requires
        claim_fits(tasks_completed, last_claim, now),
    ensures
        result == claim_outcome(task_id@, tasks_completed, last_claim, now),
{
    let passed: i64 = now - last_claim;
    if passed < CLAIM_COOLDOWN {
        let remaining: i64 = CLAIM_COOLDOWN - passed;
        let hours: u64 = (remaining / 3600) as u64;
        let minutes: u64 = ((remaining % 3600) / 60) as u64;
        return Err(Cooldown { hours, minutes });
    }
    let given = String::from_str(task_id);
    let faucet = String::from_str("faucet_daily");
    let reward = if given == faucet {
        TaskReward::Fixed(FAUCET_REWARD)
    } else {
        TaskReward::Requested
    };
    Ok(TaskClaim { reward, tasks_completed: tasks_completed + 1, last_claim: now })
}

/// The text of a refused claim.
pub fn cooldown_message(cooldown: &Cooldown) -> (message: String)
    ensures
        message@ == "Cooldown active. Wait "@ + decimal(cooldown.hours as nat) + "h "@ + decimal(
            cooldown.minutes as nat,
        ) + "m"@,
{
    let mut message = String::from_str("Cooldown active. Wait ");
    push_decimal(&mut message, cooldown.hours);
    message.append("h ");
    push_decimal(&mut message, cooldown.minutes);
    message.append("m");
    message
}

/// The seconds of interest a wallet has earned since its last claim: only a
/// wallet that has claimed before (`last_claim > 0`) and only while time has
/// passed since.
pub fn accrual_seconds(last_claim: i64, now: i64) -> (seconds: Option<i64>)
    ensures
        seconds == (if last_claim > 0 && now > last_claim {
            Some((now - last_claim) as i64)
        } else {
            None::<i64>
        }),
{
    if last_claim > 0 && now > last_claim {
        Some(now - last_claim)
    } else {
        None
    }
}

/// A refusal tells the time left to the next claim, rounded down to the minute.
pub proof fn lemma_cooldown_is_time_left(
    task_id: Seq<char>,
    tasks_completed: u32,
    last_claim: i64,
    now: i64,
)
    requires
        claim_fits(tasks_completed, last_claim, now),
        claim_outcome(task_id, tasks_completed, last_claim, now) is Err,
    ensures
        ({
            let c = claim_outcome(task_id, tasks_completed, last_claim, now)->Err_0;
            let left: int = 86400 - (now - last_claim);
            &&& c.minutes < 60
            &&& 3600 * c.hours + 60 * c.minutes <= left < 3600 * c.hours + 60 * c.minutes + 60
        }),
{
}

/// After an accepted claim, the wallet's next claim, for whatever task and at
/// whatever time, is accepted only 86400 seconds or more after it: at most one
/// accepted claim per day.
pub proof fn lemma_claim_starts_cooldown(
    task_id: Seq<char>,
    tasks_completed: u32,
    last_claim: i64,
    now: i64,
    next_task: Seq<char>,
    next: i64,
)
    requires
        claim_outcome(task_id, tasks_completed, last_claim, now) is Ok,
    ensures
        ({
            let claim = claim_outcome(task_id, tasks_completed, last_claim, now)->Ok_0;
            &&& next < now + 86400 ==> claim_outcome(
                next_task,
                claim.tasks_completed,
                claim.last_claim,
                next,
            ) is Err
            &&& claim_outcome(next_task, claim.tasks_completed, claim.last_claim, next) is Ok
                ==> next - now >= 86400
        }),
{
}


/// An accepted claim comes exactly when a day (86400 seconds) or more has
/// passed since the last one; it pays the fixed 10 MEW exactly when the task
/// is `faucet_daily` and the requested reward for every other task, adds one
/// to the task count and records the claim time.
pub proof fn lemma_claim_pays_faucet_only(
    task_id: Seq<char>,
    tasks_completed: u32,
    last_claim: i64,
    now: i64,
)
    ensures
        claim_outcome(task_id, tasks_completed, last_claim, now) is Ok <==> now - last_claim >= 86400,
        claim_outcome(task_id, tasks_completed, last_claim, now) is Ok ==> {
            let claim = claim_outcome(task_id, tasks_completed, last_claim, now)->Ok_0;
            &&& task_id == "faucet_daily"@ ==> claim.reward == TaskReward::Fixed(10)
            &&& task_id != "faucet_daily"@ ==> claim.reward == TaskReward::Requested
            &&& claim.tasks_completed == tasks_completed + 1 || tasks_completed == u32::MAX
            &&& claim.last_claim == now
        },
{
}

} // verus!
