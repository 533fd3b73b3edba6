use mewchain::rewards::{
    accrual_seconds, claim_task, cooldown_message, Cooldown, TaskClaim, TaskReward,
};

#[test]
fn faucet_pays_fixed_reward() {
    let claim = claim_task("faucet_daily", 4, 1_000, 1_000 + 86_400).unwrap();
    assert_eq!(
        claim,
        TaskClaim { reward: TaskReward::Fixed(10), tasks_completed: 5, last_claim: 87_400 }
    );
}

#[test]
fn other_task_pays_requested_reward() {
    let claim = claim_task("survey", 0, 0, 1_700_000_000).unwrap();
    assert_eq!(claim.reward, TaskReward::Requested);
    assert_eq!(claim.tasks_completed, 1);
    assert_eq!(claim.last_claim, 1_700_000_000);
}

#[test]
fn claim_within_a_day_is_refused() {
    let now = 1_000 + 5 * 3600 + 2 * 60 + 7;
    let refused = claim_task("faucet_daily", 3, 1_000, now).unwrap_err();
    assert_eq!(refused, Cooldown { hours: 18, minutes: 57 });
    assert_eq!(cooldown_message(&refused), "Cooldown active. Wait 18h 57m");
}

#[test]
fn claim_one_second_early_is_refused() {
    let refused = claim_task("x", 0, 0, 86_399).unwrap_err();
    assert_eq!(refused, Cooldown { hours: 0, minutes: 0 });
    assert_eq!(cooldown_message(&refused), "Cooldown active. Wait 0h 0m");
}

#[test]
fn claim_from_the_future_reports_long_wait() {
    let refused = claim_task("x", 0, 10_000, 0).unwrap_err();
    assert_eq!(refused, Cooldown { hours: 26, minutes: 46 });
}

#[test]
fn second_claim_right_after_is_refused() {
    let first = claim_task("faucet_daily", 0, 0, 100_000).unwrap();
    assert!(claim_task("other", first.tasks_completed, first.last_claim, 100_000 + 86_399).is_err());
    assert!(claim_task("other", first.tasks_completed, first.last_claim, 100_000 + 86_400).is_ok());
}

#[test]
fn interest_accrues_only_after_a_claim() {
    assert_eq!(accrual_seconds(0, 1_000), None);
    assert_eq!(accrual_seconds(500, 500), None);
    assert_eq!(accrual_seconds(500, 400), None);
    assert_eq!(accrual_seconds(500, 1_250), Some(750));
}

#[test]
fn claim_at_an_earlier_clock_reading_is_refused() {
    let first = claim_task("faucet_daily", 0, 0, 200_000).unwrap();
    assert!(claim_task("faucet_daily", first.tasks_completed, first.last_claim, 150_000).is_err());
}
