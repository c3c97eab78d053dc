use monero_frost_keys::dkg::{senders_for, Action, Batch, Event, Phase};
use monero_frost_keys::error::KeyError;
use monero_frost_keys::params::{Cli, Mode, ThresholdParams};
use monero_frost_keys::recovery::select_shares;

fn cli(t: Option<u16>, n: Option<u16>, load: bool) -> Cli {
    Cli { t, n, path: "keys".to_string(), load }
}

fn p(t: u16, n: u16, i: u16) -> ThresholdParams {
    ThresholdParams { t, n, i }
}

#[test]
fn generation_refuses_existing_path() {
    assert_eq!(cli(Some(2), Some(3), false).mode(true), Err(KeyError::PathState));
    assert_eq!(cli(Some(0), Some(3), false).mode(true), Err(KeyError::PathState));
    assert_eq!(cli(Some(4), Some(3), false).mode(true), Err(KeyError::PathState));
    assert_eq!(cli(Some(2), Some(3), false).mode(false), Ok(Mode::Generate { t: 2, n: 3 }));
}

#[test]
fn recovery_refuses_missing_path() {
    assert_eq!(cli(None, None, true).mode(false), Err(KeyError::PathState));
    assert_eq!(cli(None, None, true).mode(true), Ok(Mode::Recover));
}

#[test]
fn generation_needs_valid_threshold() {
    assert_eq!(cli(None, Some(3), false).mode(false), Err(KeyError::Config));
    assert_eq!(cli(Some(2), None, false).mode(false), Err(KeyError::Config));
    assert_eq!(cli(Some(0), Some(3), false).mode(false), Err(KeyError::Config));
    assert_eq!(cli(Some(4), Some(3), false).mode(false), Err(KeyError::Config));
    assert_eq!(cli(Some(1), Some(1), false).mode(false), Ok(Mode::Generate { t: 1, n: 1 }));
    assert_eq!(ThresholdParams::new(2, 3, 4), Err(KeyError::Config));
    assert_eq!(ThresholdParams::new(2, 3, 3), Ok(p(2, 3, 3)));
}

#[test]
fn senders_exclude_the_recipient() {
    assert_eq!(senders_for(2, 3), vec![1, 3]);
    assert_eq!(senders_for(1, 1), Vec::<u16>::new());
    assert_eq!(senders_for(5, 5), vec![1, 2, 3, 4]);
}

fn run(batch: &mut Batch, key_of: impl Fn(u16) -> Vec<u8>) -> Result<(), KeyError> {
    loop {
        let event = match batch.next_action() {
            Action::Commit { i } => Event::Committed { i },
            Action::Share { i } => Event::Shared { i },
            Action::Complete { i, senders } => {
                assert_eq!(senders, senders_for(i, batch.n));
                Event::Completed { i, group_key: key_of(i) }
            },
            Action::Finished => return Ok(()),
            Action::Halted => panic!("halted batch asked for work"),
        };
        batch.record(event)?;
    }
}

#[test]
fn batch_runs_three_rounds_in_order() {
    let mut b = Batch::new(2, 3).unwrap();
    let mut seen = Vec::new();
    for _ in 0..9 {
        let a = b.next_action();
        let e = match a {
            Action::Commit { i } => {
                seen.push(("commit", i));
                Event::Committed { i }
            },
            Action::Share { i } => {
                seen.push(("share", i));
                Event::Shared { i }
            },
            Action::Complete { i, .. } => {
                seen.push(("complete", i));
                Event::Completed { i, group_key: vec![7, 7] }
            },
            _ => panic!("batch ended early"),
        };
        assert_eq!(b.record(e), Ok(()));
    }
    assert_eq!(
        seen,
        vec![
            ("commit", 1), ("commit", 2), ("commit", 3),
            ("share", 1), ("share", 2), ("share", 3),
            ("complete", 1), ("complete", 2), ("complete", 3)
        ]
    );
    assert_eq!(b.phase, Phase::Done);
    assert_eq!(b.group_key, Some(vec![7, 7]));
}

#[test]
fn group_key_mismatch_aborts_batch() {
    let mut b = Batch::new(2, 3).unwrap();
    let r = run(&mut b, |i| if i == 3 { vec![1] } else { vec![2] });
    assert_eq!(r, Err(KeyError::GroupKeyMismatch));
    assert_eq!(b.phase, Phase::Aborted);
    assert!(matches!(b.next_action(), Action::Halted));
}

#[test]
fn out_of_order_report_aborts_batch() {
    let mut b = Batch::new(1, 2).unwrap();
    assert_eq!(b.record(Event::Shared { i: 1 }), Err(KeyError::OutOfOrder));
    assert_eq!(b.phase, Phase::Aborted);
    let mut c = Batch::new(1, 2).unwrap();
    assert_eq!(c.record(Event::Committed { i: 2 }), Err(KeyError::OutOfOrder));
    assert!(Batch::new(3, 2).is_err());
}

#[test]
fn single_participant_batch_finishes() {
    let mut b = Batch::new(1, 1).unwrap();
    assert_eq!(run(&mut b, |_| vec![9]), Ok(()));
    assert_eq!(b.phase, Phase::Done);
}

#[test]
fn one_short_of_threshold_is_insufficient() {
    assert_eq!(select_shares(&vec![p(2, 3, 1)]), Err(KeyError::InsufficientShares));
    assert_eq!(select_shares(&vec![p(3, 5, 2), p(3, 5, 4)]), Err(KeyError::InsufficientShares));
    assert_eq!(select_shares(&vec![]), Err(KeyError::InsufficientShares));
}

#[test]
fn deleting_records_below_threshold_stops_recovery() {
    let all = vec![p(2, 3, 2), p(2, 3, 1), p(2, 3, 3)];
    assert_eq!(select_shares(&all), Ok(vec![0, 1, 2]));
    let two = vec![p(2, 3, 2), p(2, 3, 3)];
    assert_eq!(select_shares(&two), Ok(vec![0, 1]));
    let one = vec![p(2, 3, 3)];
    assert_eq!(select_shares(&one), Err(KeyError::InsufficientShares));
}

#[test]
fn repeated_index_counts_once() {
    let s = vec![p(2, 3, 1), p(2, 3, 1)];
    assert_eq!(select_shares(&s), Err(KeyError::InsufficientShares));
    let s = vec![p(2, 3, 1), p(2, 3, 2), p(2, 3, 1)];
    assert_eq!(select_shares(&s), Ok(vec![1, 2]));
}

#[test]
fn inconsistent_records_are_refused() {
    assert_eq!(select_shares(&vec![p(2, 3, 1), p(2, 4, 2)]), Err(KeyError::MismatchedParams));
    assert_eq!(select_shares(&vec![p(2, 3, 1), p(3, 3, 2)]), Err(KeyError::MismatchedParams));
    assert_eq!(select_shares(&vec![p(2, 3, 1), p(2, 3, 4)]), Err(KeyError::MalformedRecord));
    assert_eq!(select_shares(&vec![p(0, 3, 1)]), Err(KeyError::MalformedRecord));
}
