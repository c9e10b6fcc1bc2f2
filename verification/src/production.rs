//! Work: what a request for credits takes, what it earns and how the new
//! total is reported.

use crate::failure::Failure;
use crate::ledger::{credited, Ledger, PlayerView};
use crate::message::{bold_mark, build, new_message, push, push_bold_safe};
use crate::text::{
    decimal_string, decimal_text, lemma_decimal_text_is_digits, parse_number, spelled_number,
};
use vstd::prelude::*;

verus! {

/// The largest request that is worked off. A larger one earns nothing.
pub const UNIT_LIMIT: usize = 50;

/// The pause before each unit of work, in milliseconds.
pub const UNIT_PAUSE_MILLIS: u64 = 500;

/// The pause that a request above the limit is answered with, in
/// milliseconds.
pub const REFUSAL_PAUSE_MILLIS: u64 = 1000;

/// The question for the amount of work.
pub const AMOUNT_PROMPT: &'static str = "How long?: ";

/// What is said when work begins.
pub const WORK_NOTICE: &'static str = "Procuring credits...";

/// The number of units that a request for `amount` units is worked off as:
/// all of them up to the limit, none above it.
pub open spec fn effective_units(amount: nat) -> nat {
    if amount > UNIT_LIMIT {
        0
    } else {
        amount
    }
}

/// What a request takes: one pause at the start, then for each unit a pause
/// followed by one tick.
#[derive(Clone, Copy, Debug, PartialEq, Eq, Structural)]
pub struct WorkPlan {
    /// The pause before anything else, in milliseconds.
    pub opening_pause_millis: u64,
    /// The number of units to work off.
    pub units: usize,
    /// The pause before each unit's tick, in milliseconds.
    pub unit_pause_millis: u64,
}

/// The plan for a request of `amount` units.
pub open spec fn planned_work(amount: usize) -> WorkPlan {
    if amount > UNIT_LIMIT {
        WorkPlan {
            opening_pause_millis: REFUSAL_PAUSE_MILLIS,
            units: 0,
            unit_pause_millis: UNIT_PAUSE_MILLIS,
        }
    } else {
        WorkPlan { opening_pause_millis: 0, units: amount, unit_pause_millis: UNIT_PAUSE_MILLIS }
    }
}

/// Plans a request of `amount` units.
pub fn plan_work(amount: usize) -> (plan: WorkPlan)
    ensures
        plan == planned_work(amount),
        plan.units == effective_units(amount as nat),
{
    if amount > UNIT_LIMIT {
        WorkPlan {
            opening_pause_millis: REFUSAL_PAUSE_MILLIS,
            units: 0,
            unit_pause_millis: UNIT_PAUSE_MILLIS,
        }
    } else {
        WorkPlan { opening_pause_millis: 0, units: amount, unit_pause_millis: UNIT_PAUSE_MILLIS }
    }
}

// ---------------------------------------------------------------------------
// Laws of accrual
// ---------------------------------------------------------------------------

/// No units earned: the ledger as it was.
pub proof fn lemma_no_units(l: Map<Seq<char>, PlayerView>, key: Seq<char>)
    ensures
        credited(l, key, 0) == l,
{
    assert(credited(l, key, 0) =~= l);
}

/// Units add up: `a` units and then `b` units are `a + b` units. So an
/// amount is earned as that many single units, one after the other.
pub proof fn lemma_units_add_up(l: Map<Seq<char>, PlayerView>, key: Seq<char>, a: nat, b: nat)
    ensures
        credited(credited(l, key, a), key, b) == credited(l, key, a + b),
{
    assert(credited(credited(l, key, a), key, b) =~= credited(l, key, a + b));
}

/// Accrual only adds: it leaves every key in place, lowers nobody's credits
/// and changes nothing but the credits of the player it is for.
pub proof fn lemma_accrual_only_adds(
    l: Map<Seq<char>, PlayerView>,
    key: Seq<char>,
    units: nat,
    other: Seq<char>,
)
    ensures
        credited(l, key, units).contains_key(other) == l.contains_key(other),
        l.contains_key(other) ==> credited(l, key, units)[other].credits >= l[other].credits,
        l.contains_key(other) ==> credited(l, key, units)[other].username == l[other].username,
        l.contains_key(other) ==> credited(l, key, units)[other].cuties == l[other].cuties,
        l.contains_key(other) && other != key ==> credited(l, key, units)[other] == l[other],
{
}

/// A request of 1 to 50 units raises the player's credits by exactly the
/// amount asked for.
pub proof fn lemma_request_within_limit(
    l: Map<Seq<char>, PlayerView>,
    key: Seq<char>,
    amount: nat,
)
    requires
        1 <= amount <= UNIT_LIMIT,
        l.contains_key(key),
    ensures
        credited(l, key, effective_units(amount))[key].credits == l[key].credits + amount,
{
}

/// A request above 50 units earns nothing: the ledger stays as it was.
pub proof fn lemma_request_above_limit(
    l: Map<Seq<char>, PlayerView>,
    key: Seq<char>,
    amount: nat,
)
    requires
        amount > UNIT_LIMIT,
    ensures
        credited(l, key, effective_units(amount)) == l,
{
    lemma_no_units(l, key);
}

impl Ledger {
    /// Works off a request of `amount` units for the player that `key`
    /// stands for, tick by tick.
    pub fn accrue(&mut self, key: &str, amount: usize)
        requires
            old(self)@.contains_key(key@) ==> old(self)@[key@].credits + effective_units(
                amount as nat,
            ) <= usize::MAX,
        ensures
            final(self)@ == credited(old(self)@, key@, effective_units(amount as nat)),
            amount > UNIT_LIMIT ==> final(self)@ == old(self)@,
            amount <= UNIT_LIMIT && old(self)@.contains_key(key@) ==> final(self)@.contains_key(
                key@,
            ) && final(self)@[key@].credits == old(self)@[key@].credits + amount,
    {
        let plan = plan_work(amount);
        let mut done: usize = 0;
        proof {
            lemma_no_units(self@, key@);
        }
        while done < plan.units
            invariant
                done <= plan.units,
                plan.units == effective_units(amount as nat),
                old(self)@.contains_key(key@) ==> old(self)@[key@].credits + plan.units
                    <= usize::MAX,
                self@ == credited(old(self)@, key@, done as nat),
            decreases plan.units - done,
        {
            self.tick(key);
            proof {
                lemma_units_add_up(old(self)@, key@, done as nat, 1);
            }
            done += 1;
        }
        proof {
            if amount > UNIT_LIMIT {
                lemma_no_units(old(self)@, key@);
            }
        }
    }
}

// ---------------------------------------------------------------------------
// The amount asked for
// ---------------------------------------------------------------------------

/// Reads the answer to the question for an amount. An answer that spells
/// no number is fatal.
pub fn parse_amount(answer: &str) -> (outcome: Result<usize, Failure>)
    ensures
        match outcome {
            Ok(amount) => spelled_number(answer@) == Some(amount as nat),
            Err(failure) => failure == Failure::InputParseFailure && spelled_number(answer@)
                is None,
        },
{
    match parse_number(answer) {
        Some(amount) => Ok(amount),
        None => Err(Failure::InputParseFailure),
    }
}

// ---------------------------------------------------------------------------
// The report
// ---------------------------------------------------------------------------

/// How the report of a new total begins.
pub open spec fn report_lead() -> Seq<char> {
    "Produced credit! New count: "@
}

/// The report of the new total `credits`: the lead, then the total in bold.
pub open spec fn report_text(credits: nat) -> Seq<char> {
    report_lead() + bold_mark() + decimal_text(credits) + bold_mark()
}

/// The report of a new total.
pub fn production_report(credits: usize) -> (report: String)
    ensures
        report@ == report_text(credits as nat),
{
    let total = decimal_string(credits);
    proof {
        lemma_decimal_text_is_digits(credits as nat);
    }
    let mut builder = new_message();
    push(&mut builder, "Produced credit! New count: ");
    push_bold_safe(&mut builder, total.as_str());
    let report = build(&mut builder);
    assert(report@ =~= report_text(credits as nat));
    report
}

} // verus!
