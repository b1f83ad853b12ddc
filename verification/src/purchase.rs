//! The rules of buying slices of a pie.
//!
//! A purchase reads and writes the shared store between its decisions, so
//! it is a state machine: `purchase_step` takes the stage reached and the
//! answer to the last request, and gives the next stage and the next request
//! (or the reply). The caller performs each request against the store.
use vstd::prelude::*;

verus! {

/// The most slices of one pie that one user may buy.
pub const ALLOWED_PIES: isize = 3;

/// How a purchase ended.
#[derive(Clone, Copy, Debug, PartialEq, Eq, Structural)]
pub enum PurchaseStatus {
    /// The user asked for more than the allowance.
    Fatty,
    /// Not enough of the pie is left.
    Gone,
    /// The purchase was recorded.
    Success,
}

/// How far a purchase has come.
#[derive(Clone, Copy, Debug, PartialEq, Eq, Structural)]
pub enum PurchaseStage {
    /// Nothing asked yet.
    Start,
    /// Waiting for whether the user is blacklisted for the pie.
    CheckingBlacklist,
    /// Waiting for whether the user bought before, and how many slices are left.
    ReadingStock,
    /// Waiting for how many slices the user bought before.
    ReadingPreviousAmount { num_left: isize },
    /// Waiting for the purchase to be written.
    Recording { blacklist_user: bool },
    /// Finished.
    Done(PurchaseStatus),
}

/// The answer to the last request.
#[derive(Clone, Copy, Debug, PartialEq, Eq, Structural)]
pub enum PurchaseEvent {
    /// The purchase is asked for.
    Begin,
    /// Whether the user's blacklist bit for the pie is set.
    Blacklisted(bool),
    /// Whether the user bought the pie before, and the slices left.
    Stock { previous_purchase: bool, num_left: isize },
    /// The slices the user bought before.
    PreviousAmount(isize),
    /// The purchase was written.
    Recorded,
}

/// What the caller is to do next.
#[derive(Clone, Copy, Debug, PartialEq, Eq, Structural)]
pub enum PurchaseAction {
    /// Read the user's blacklist bit for the pie.
    CheckBlacklist,
    /// Read whether the user bought the pie before, and the slices left.
    ReadStock,
    /// Read the slices the user bought before.
    ReadPreviousAmount,
    /// Add the amount to the user's purchases, take it from the slices left,
    /// and first set the user's blacklist bit when `blacklist_user` holds.
    Record { blacklist_user: bool },
    /// Answer with the status.
    Reply(PurchaseStatus),
}

/// The request that a stage waits on an answer to.
pub open spec fn pending_action(stage: PurchaseStage) -> PurchaseAction {
    match stage {
        PurchaseStage::Start => PurchaseAction::CheckBlacklist,
        PurchaseStage::CheckingBlacklist => PurchaseAction::CheckBlacklist,
        PurchaseStage::ReadingStock => PurchaseAction::ReadStock,
        PurchaseStage::ReadingPreviousAmount { .. } => PurchaseAction::ReadPreviousAmount,
        PurchaseStage::Recording { blacklist_user } => PurchaseAction::Record { blacklist_user },
        PurchaseStage::Done(s) => PurchaseAction::Reply(s),
    }
}

/// Finishing with `status`.
pub open spec fn finish(status: PurchaseStatus) -> (PurchaseStage, PurchaseAction) {
    (PurchaseStage::Done(status), PurchaseAction::Reply(status))
}

/// The purchase rules, one step at a time. At the start: more than the
/// allowance is refused. Then a blacklisted user is refused. Then nothing
/// left means gone. A user who bought before is refused past the allowance
/// in all, and gone when asking for more than is left; a first purchase is
/// recorded as it stands. The user is blacklisted when the purchase brings
/// the total to exactly the allowance. An answer that does not fit the stage
/// leaves the stage as it is and repeats its request.
pub open spec fn purchase_transition(amount: isize, stage: PurchaseStage, event: PurchaseEvent) -> (
    PurchaseStage,
    PurchaseAction,
) {
    match stage {
        PurchaseStage::Start => if amount > ALLOWED_PIES {
            finish(PurchaseStatus::Fatty)
        } else {
            (PurchaseStage::CheckingBlacklist, PurchaseAction::CheckBlacklist)
        },
        PurchaseStage::CheckingBlacklist => match event {
            PurchaseEvent::Blacklisted(true) => finish(PurchaseStatus::Fatty),
            PurchaseEvent::Blacklisted(false) => (
                PurchaseStage::ReadingStock,
                PurchaseAction::ReadStock,
            ),
            _ => (stage, pending_action(stage)),
        },
        PurchaseStage::ReadingStock => match event {
            PurchaseEvent::Stock { previous_purchase, num_left } => if num_left <= 0 {
                finish(PurchaseStatus::Gone)
            } else if previous_purchase {
                (
                    PurchaseStage::ReadingPreviousAmount { num_left },
                    PurchaseAction::ReadPreviousAmount,
                )
            } else {
                (
                    PurchaseStage::Recording { blacklist_user: amount == ALLOWED_PIES },
                    PurchaseAction::Record { blacklist_user: amount == ALLOWED_PIES },
                )
            },
            _ => (stage, pending_action(stage)),
        },
        PurchaseStage::ReadingPreviousAmount { num_left } => match event {
            PurchaseEvent::PreviousAmount(previous) => if previous + amount > ALLOWED_PIES {
                finish(PurchaseStatus::Fatty)
            } else if amount > num_left {
                finish(PurchaseStatus::Gone)
            } else {
                (
                    PurchaseStage::Recording { blacklist_user: previous + amount == ALLOWED_PIES },
                    PurchaseAction::Record { blacklist_user: previous + amount == ALLOWED_PIES },
                )
            },
            _ => (stage, pending_action(stage)),
        },
        PurchaseStage::Recording { .. } => match event {
            PurchaseEvent::Recorded => finish(PurchaseStatus::Success),
            _ => (stage, pending_action(stage)),
        },
        PurchaseStage::Done(status) => finish(status),
    }
}

/// One step of a purchase of `amount` slices.
pub fn purchase_step(amount: isize, stage: PurchaseStage, event: PurchaseEvent) -> (r: (
    PurchaseStage,
    PurchaseAction,
))
    ensures
        r == purchase_transition(amount, stage, event),
{
    match stage {
        PurchaseStage::Start => {
            if amount > ALLOWED_PIES {
                (PurchaseStage::Done(PurchaseStatus::Fatty), PurchaseAction::Reply(PurchaseStatus::Fatty))
            } else {
                (PurchaseStage::CheckingBlacklist, PurchaseAction::CheckBlacklist)
            }
        },
        PurchaseStage::CheckingBlacklist => match event {
            PurchaseEvent::Blacklisted(true) => (
                PurchaseStage::Done(PurchaseStatus::Fatty),
                PurchaseAction::Reply(PurchaseStatus::Fatty),
            ),
            PurchaseEvent::Blacklisted(false) => (
                PurchaseStage::ReadingStock,
                PurchaseAction::ReadStock,
            ),
            _ => (stage, PurchaseAction::CheckBlacklist),
        },
        PurchaseStage::ReadingStock => match event {
            PurchaseEvent::Stock { previous_purchase, num_left } => {
                if num_left <= 0 {
                    (PurchaseStage::Done(PurchaseStatus::Gone), PurchaseAction::Reply(PurchaseStatus::Gone))
                } else if previous_purchase {
                    (
                        PurchaseStage::ReadingPreviousAmount { num_left },
                        PurchaseAction::ReadPreviousAmount,
                    )
                } else {
                    let blacklist_user = amount == ALLOWED_PIES;
                    (
                        PurchaseStage::Recording { blacklist_user },
                        PurchaseAction::Record { blacklist_user },
                    )
                }
            },
            _ => (stage, PurchaseAction::ReadStock),
        },
        PurchaseStage::ReadingPreviousAmount { num_left } => match event {
            PurchaseEvent::PreviousAmount(previous) => {
                let total: i128 = previous as i128 + amount as i128;
                if total > ALLOWED_PIES as i128 {
                    (PurchaseStage::Done(PurchaseStatus::Fatty), PurchaseAction::Reply(PurchaseStatus::Fatty))
                } else if amount > num_left {
                    (PurchaseStage::Done(PurchaseStatus::Gone), PurchaseAction::Reply(PurchaseStatus::Gone))
                } else {
                    let blacklist_user = total == ALLOWED_PIES as i128;
                    (
                        PurchaseStage::Recording { blacklist_user },
                        PurchaseAction::Record { blacklist_user },
                    )
                }
            },
            _ => (stage, PurchaseAction::ReadPreviousAmount),
        },
        PurchaseStage::Recording { blacklist_user } => match event {
            PurchaseEvent::Recorded => (
                PurchaseStage::Done(PurchaseStatus::Success),
                PurchaseAction::Reply(PurchaseStatus::Success),
            ),
            _ => (stage, PurchaseAction::Record { blacklist_user }),
        },
        PurchaseStage::Done(status) => (stage, PurchaseAction::Reply(status)),
    }
}

/// What the store holds for one user and one pie when a purchase runs.
pub struct PurchaseWorld {
    pub blacklisted: bool,
    pub previous: Option<isize>,
    pub num_left: isize,
}

/// The store's answer to a request.
pub open spec fn answer(w: PurchaseWorld, action: PurchaseAction) -> PurchaseEvent {
    match action {
        PurchaseAction::CheckBlacklist => PurchaseEvent::Blacklisted(w.blacklisted),
        PurchaseAction::ReadStock => PurchaseEvent::Stock {
            previous_purchase: w.previous is Some,
            num_left: w.num_left,
        },
        PurchaseAction::ReadPreviousAmount => PurchaseEvent::PreviousAmount(
            match w.previous {
                Some(p) => p,
                None => 0,
            },
        ),
        PurchaseAction::Record { .. } => PurchaseEvent::Recorded,
        PurchaseAction::Reply(_) => PurchaseEvent::Begin,
    }
}

/// The requests the machine makes, `steps + 1` of them, from `stage` on,
/// the store answering each.
pub open spec fn drive(
    amount: isize,
    w: PurchaseWorld,
    stage: PurchaseStage,
    event: PurchaseEvent,
    steps: nat,
) -> Seq<PurchaseAction>
    decreases steps,
{
    let (next, action) = purchase_transition(amount, stage, event);
    if steps == 0 {
        seq![action]
    } else {
        seq![action] + drive(amount, w, next, answer(w, action), (steps - 1) as nat)
    }
}

/// The requests of a whole purchase, from the start to the reply.
pub open spec fn purchase_trace(amount: isize, w: PurchaseWorld) -> Seq<PurchaseAction> {
    drive(amount, w, PurchaseStage::Start, PurchaseEvent::Begin, 4)
}

/// The slices the user held before the purchase.
pub open spec fn prior_amount(w: PurchaseWorld) -> int {
    match w.previous {
        Some(p) => p as int,
        None => 0,
    }
}

/// The outcome of a purchase: its status, and, where it is recorded,
/// whether the user is blacklisted with it.
pub open spec fn purchase_decision(amount: isize, w: PurchaseWorld) -> (PurchaseStatus, Option<bool>) {
    if amount > ALLOWED_PIES || w.blacklisted {
        (PurchaseStatus::Fatty, None)
    } else if w.num_left <= 0 {
        (PurchaseStatus::Gone, None)
    } else {
        match w.previous {
            Some(p) => if p + amount > ALLOWED_PIES {
                (PurchaseStatus::Fatty, None)
            } else if amount > w.num_left {
                (PurchaseStatus::Gone, None)
            } else {
                (PurchaseStatus::Success, Some(p + amount == ALLOWED_PIES))
            },
            None => (PurchaseStatus::Success, Some(amount == ALLOWED_PIES)),
        }
    }
}

/// Run against a store, the machine replies with the status that the rules
/// decide, and writes the purchase exactly when the rules record it, with
/// the blacklisting that they decide.
pub proof fn law_machine_follows_rules(amount: isize, w: PurchaseWorld)
    ensures
        purchase_trace(amount, w).last() == PurchaseAction::Reply(purchase_decision(amount, w).0),
        forall|b: bool|
            purchase_trace(amount, w).contains(PurchaseAction::Record { blacklist_user: b })
                <==> purchase_decision(amount, w).1 == Some(b),
{
    reveal_with_fuel(drive, 5);
    let t = purchase_trace(amount, w);
    assert forall|b: bool|
        t.contains(PurchaseAction::Record { blacklist_user: b }) <==> purchase_decision(
            amount,
            w,
        ).1 == Some(b) by {
        if purchase_decision(amount, w).1 == Some(b) {
            if w.previous is Some {
                assert(t[3] == PurchaseAction::Record { blacklist_user: b });
            } else {
                assert(t[2] == PurchaseAction::Record { blacklist_user: b });
            }
        }
    }
}

/// A purchase is recorded exactly when it succeeds.
pub proof fn law_recorded_iff_success(amount: isize, w: PurchaseWorld)
    ensures
        (purchase_decision(amount, w).1 is Some) <==> purchase_decision(amount, w).0
            == PurchaseStatus::Success,
{
}

/// No recorded purchase takes a user past the allowance for the pie.
pub proof fn law_within_allowance(amount: isize, w: PurchaseWorld)
    ensures
        purchase_decision(amount, w).1 is Some ==> prior_amount(w) + amount <= ALLOWED_PIES,
{
}

/// A recorded purchase blacklists the user exactly when it brings the total
/// to the allowance.
pub proof fn law_blacklist_at_allowance(amount: isize, w: PurchaseWorld)
    ensures
        purchase_decision(amount, w).1 matches Some(b) ==> b == (prior_amount(w) + amount
            == ALLOWED_PIES),
{
}

/// A blacklisted user is refused.
pub proof fn law_blacklisted_refused(amount: isize, w: PurchaseWorld)
    requires
        w.blacklisted,
    ensures
        purchase_decision(amount, w).0 == PurchaseStatus::Fatty,
{
}

/// Nothing is sold of a pie with no slices left.
pub proof fn law_nothing_left_nothing_sold(amount: isize, w: PurchaseWorld)
    requires
        w.num_left <= 0,
    ensures
        purchase_decision(amount, w).0 != PurchaseStatus::Success,
{
}

/// A first purchase of at most the allowance, by a user who is not
/// blacklisted, of a pie with slices left, succeeds whatever the amount: it
/// is not checked against the slices left. It blacklists the user exactly
/// when it is the whole allowance.
pub proof fn law_first_purchase_succeeds(amount: isize, w: PurchaseWorld)
    requires
        amount <= ALLOWED_PIES,
        !w.blacklisted,
        w.previous is None,
        w.num_left > 0,
    ensures
        purchase_decision(amount, w) == (PurchaseStatus::Success, Some(amount == ALLOWED_PIES)),
{
}

/// A repeat purchase of at most the allowance that keeps the user's total
/// within the allowance and takes no more than the slices left, by a user
/// who is not blacklisted, succeeds.
pub proof fn law_repeat_purchase_succeeds(amount: isize, w: PurchaseWorld)
    requires
        amount <= ALLOWED_PIES,
        !w.blacklisted,
        w.previous is Some,
        w.num_left > 0,
        prior_amount(w) + amount <= ALLOWED_PIES,
        amount <= w.num_left,
    ensures
        purchase_decision(amount, w) == (PurchaseStatus::Success, Some(prior_amount(w) + amount
            == ALLOWED_PIES)),
{
}

/// A user who bought before gets no more slices than are left.
pub proof fn law_repeat_purchase_within_stock(amount: isize, w: PurchaseWorld)
    requires
        w.previous is Some,
        purchase_decision(amount, w).0 == PurchaseStatus::Success,
    ensures
        amount <= w.num_left,
{
}

/// The store after a purchase: the recorded amount added to the user's
/// total and taken from the slices left, the blacklist bit set where the
/// purchase says so.
pub open spec fn after_purchase(amount: isize, w: PurchaseWorld) -> PurchaseWorld {
    match purchase_decision(amount, w).1 {
        Some(b) => PurchaseWorld {
            blacklisted: w.blacklisted || b,
            previous: Some((prior_amount(w) + amount) as isize),
            num_left: (w.num_left - amount) as isize,
        },
        None => w,
    }
}

/// What the store keeps true of one user and one pie: the user holds at
/// most the allowance, and holding all of it means being blacklisted.
pub open spec fn within_allowance(w: PurchaseWorld) -> bool {
    &&& prior_amount(w) <= ALLOWED_PIES
    &&& prior_amount(w) == ALLOWED_PIES ==> w.blacklisted
}

/// Every purchase keeps what the store keeps true, so that no sequence of
/// purchases takes a user past the allowance.
pub proof fn law_purchases_keep_allowance(amount: isize, w: PurchaseWorld)
    requires
        within_allowance(w),
        isize::MIN <= prior_amount(w) + amount <= isize::MAX,
        isize::MIN <= w.num_left - amount <= isize::MAX,
    ensures
        within_allowance(after_purchase(amount, w)),
{
}

/// Once a purchase has brought a user's total for a pie to the allowance,
/// every later purchase of that pie by that user is refused and leaves the
/// store as it is.
pub proof fn law_full_allowance_refuses_later_purchases(
    earlier: isize,
    w: PurchaseWorld,
    amount: isize,
)
    requires
        purchase_decision(earlier, w).0 == PurchaseStatus::Success,
        isize::MIN <= prior_amount(w) + earlier <= isize::MAX,
        isize::MIN <= w.num_left - earlier <= isize::MAX,
        prior_amount(after_purchase(earlier, w)) == ALLOWED_PIES,
    ensures
        purchase_decision(amount, after_purchase(earlier, w)).0 == PurchaseStatus::Fatty,
        after_purchase(amount, after_purchase(earlier, w)) == after_purchase(earlier, w),
{
}

/// A purchase moves slices from the stock to the user: slices left plus
/// slices the user holds is the same after it as before.
pub proof fn law_purchase_keeps_slices(amount: isize, w: PurchaseWorld)
    requires
        isize::MIN <= prior_amount(w) + amount <= isize::MAX,
        isize::MIN <= w.num_left - amount <= isize::MAX,
    ensures
        prior_amount(after_purchase(amount, w)) + after_purchase(amount, w).num_left
            == prior_amount(w) + w.num_left,
{
}

} // verus!
