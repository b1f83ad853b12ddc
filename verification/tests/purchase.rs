use pie_bakeoff::purchase::{
    purchase_step, PurchaseAction, PurchaseEvent, PurchaseStage, PurchaseStatus, ALLOWED_PIES,
};

/// Runs a purchase against a store holding these values; gives the status
/// and the blacklisting of the recorded purchase, if one was recorded.
fn run(amount: isize, blacklisted: bool, previous: Option<isize>, num_left: isize) -> (PurchaseStatus, Option<bool>) {
    let mut stage = PurchaseStage::Start;
    let mut event = PurchaseEvent::Begin;
    let mut recorded = None;
    for _ in 0..10 {
        let (next, action) = purchase_step(amount, stage, event);
        stage = next;
        event = match action {
            PurchaseAction::CheckBlacklist => PurchaseEvent::Blacklisted(blacklisted),
            PurchaseAction::ReadStock => PurchaseEvent::Stock {
                previous_purchase: previous.is_some(),
                num_left,
            },
            PurchaseAction::ReadPreviousAmount => PurchaseEvent::PreviousAmount(previous.unwrap()),
            PurchaseAction::Record { blacklist_user } => {
                assert!(recorded.is_none());
                recorded = Some(blacklist_user);
                PurchaseEvent::Recorded
            }
            PurchaseAction::Reply(status) => return (status, recorded),
        };
    }
    panic!("purchase did not finish");
}

#[test]
fn too_many_slices_at_once_is_gluttony() {
    assert_eq!(run(4, false, None, 10), (PurchaseStatus::Fatty, None));
    assert_eq!(ALLOWED_PIES, 3);
}

#[test]
fn blacklisted_users_are_refused() {
    assert_eq!(run(1, true, None, 10), (PurchaseStatus::Fatty, None));
}

#[test]
fn sold_out_pies_are_gone() {
    assert_eq!(run(1, false, None, 0), (PurchaseStatus::Gone, None));
    assert_eq!(run(1, false, Some(1), -2), (PurchaseStatus::Gone, None));
}

#[test]
fn first_purchase_is_recorded() {
    assert_eq!(run(2, false, None, 10), (PurchaseStatus::Success, Some(false)));
    assert_eq!(run(3, false, None, 10), (PurchaseStatus::Success, Some(true)));
    // A first purchase is not checked against the slices left.
    assert_eq!(run(3, false, None, 1), (PurchaseStatus::Success, Some(true)));
}

#[test]
fn repeat_purchase_respects_allowance_and_stock() {
    assert_eq!(run(2, false, Some(2), 10), (PurchaseStatus::Fatty, None));
    assert_eq!(run(1, false, Some(2), 10), (PurchaseStatus::Success, Some(true)));
    assert_eq!(run(1, false, Some(1), 10), (PurchaseStatus::Success, Some(false)));
    assert_eq!(run(2, false, Some(0), 1), (PurchaseStatus::Gone, None));
}

#[test]
fn mismatched_answers_repeat_the_request() {
    let (stage, action) = purchase_step(1, PurchaseStage::CheckingBlacklist, PurchaseEvent::Recorded);
    assert_eq!(stage, PurchaseStage::CheckingBlacklist);
    assert_eq!(action, PurchaseAction::CheckBlacklist);
    let done = PurchaseStage::Done(PurchaseStatus::Gone);
    assert_eq!(
        purchase_step(1, done, PurchaseEvent::Begin),
        (done, PurchaseAction::Reply(PurchaseStatus::Gone))
    );
}

#[test]
fn a_full_allowance_refuses_every_later_purchase() {
    // A first purchase of three slices blacklists the user.
    assert_eq!(run(3, false, None, 10), (PurchaseStatus::Success, Some(true)));
    for amount in [-2, 0, 1, 3, 4] {
        assert_eq!(run(amount, true, Some(3), 7), (PurchaseStatus::Fatty, None));
    }
}

#[test]
fn a_purchase_moves_slices_from_stock_to_user() {
    for (amount, previous, left) in [(2isize, None, 10isize), (1, Some(2), 4), (3, None, 1), (-1, Some(1), 5)] {
        let (status, _) = run(amount, false, previous, left);
        let held = previous.unwrap_or(0);
        let (held_after, left_after) = if status == PurchaseStatus::Success {
            (held + amount, left - amount)
        } else {
            (held, left)
        };
        assert_eq!(held_after + left_after, held + left);
    }
}
