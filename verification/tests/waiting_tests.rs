use pyflow::error::SubstrateError;
use pyflow::waiting::WAIT_TICK_LIMIT;
use pyflow::waiting::WAIT_TICK_MILLIS;
use pyflow::waiting::WaitStep;
use pyflow::waiting::all_dirs_exist;
use pyflow::waiting::wait_step;

#[test]
fn polling_policy_is_a_thousand_ticks_of_ten_millis() {
    assert_eq!(WAIT_TICK_LIMIT, 1000);
    assert_eq!(WAIT_TICK_MILLIS, 10);
}

#[test]
fn all_dirs_exist_demands_every_flag() {
    assert!(all_dirs_exist(&vec![]));
    assert!(all_dirs_exist(&vec![true]));
    assert!(all_dirs_exist(&vec![true, true, true]));
    assert!(!all_dirs_exist(&vec![false]));
    assert!(!all_dirs_exist(&vec![true, false, true]));
    assert!(!all_dirs_exist(&vec![true, true, false]));
}

#[test]
fn directories_already_present_succeed_on_the_first_poll() {
    // No sleep happens before the first poll, so this is immediate success.
    assert_eq!(wait_step(0, true), WaitStep::Ready);
}

#[test]
fn a_directory_that_never_appears_times_out_at_the_full_budget() {
    // Every failed poll but the last asks for another tick...
    assert_eq!(wait_step(0, false), WaitStep::Retry);
    assert_eq!(wait_step(500, false), WaitStep::Retry);
    assert_eq!(wait_step(WAIT_TICK_LIMIT - 2, false), WaitStep::Retry);
    // ...and only the very last failed poll reports the timeout.
    assert_eq!(wait_step(WAIT_TICK_LIMIT - 1, false), WaitStep::TimedOut);
}

#[test]
fn success_is_possible_on_the_last_tick() {
    assert_eq!(wait_step(WAIT_TICK_LIMIT - 1, true), WaitStep::Ready);
}

#[test]
fn only_a_timed_out_step_maps_to_the_wait_error() {
    assert_eq!(WaitStep::TimedOut.to_error(), Some(SubstrateError::DirWaitTimedOut));
    assert_eq!(WaitStep::Ready.to_error(), None);
    assert_eq!(WaitStep::Retry.to_error(), None);
}
