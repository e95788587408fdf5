//! `StateValidator`: consistency checks on a `TableState`.

use vstd::prelude::*;

use crate::state::{SeatState, TableState, TableStateView};
use crate::types::{Card, SeatId, Street, TablePhase};

verus! {

#[derive(Debug, Clone, Copy, PartialEq, Eq, Structural)]
pub enum ValidationIssue {
    /// The pot and the seats' bets disagree (amounts in hundredths of a chip).
    PotBetMismatch { pot: i64, total_bets: i128 },
    NegativeStack { seat_id: SeatId, stack: i64 },
    CardStreetMismatch { cards: usize, street: Street },
    DuplicateCards,
    HeroNotConfigured,
    BlindsNotConfigured,
}

#[derive(Debug, Clone)]
pub enum ValidationResult {
    Valid,
    Issues(Vec<ValidationIssue>),
}

pub struct StateValidator;

/// Sum of what every seat has bet this hand.
pub open spec fn bets_sum(seats: Seq<SeatState>) -> int
    decreases seats.len(),
{
    if seats.len() == 0 {
        0
    } else {
        bets_sum(seats.drop_last()) + seats.last().total_bet_this_hand
    }
}

pub open spec fn abs(x: int) -> int {
    if x < 0 { -x } else { x }
}

/// The pot differs from the seats' bets by more than the tolerance:
/// half a big blind (at least one hundredth of a chip), or 2% of the pot,
/// whichever is larger.
pub open spec fn pot_mismatch(s: TableStateView) -> bool {
    let d = abs(s.pot.total - bets_sum(s.seats));
    let bb: int = if s.blinds.big_blind >= 1 { s.blinds.big_blind as int } else { 1 };
    2 * d > bb && 50 * d > s.pot.total
}

/// How many community cards a street shows.
pub open spec fn expected_cards(st: Street) -> int {
    match st {
        Street::Preflop => 0,
        Street::Flop => 3,
        Street::Turn => 4,
        Street::River => 5,
        Street::Showdown => 5,
    }
}

/// Community cards followed by the hole cards (if known).
pub open spec fn all_cards(s: TableStateView) -> Seq<Card> {
    match s.hole_cards {
        Some(h) => s.community_cards + h@,
        None => s.community_cards,
    }
}

/// Some suit and rank appears twice.
pub open spec fn has_duplicate(cards: Seq<Card>) -> bool {
    exists|i: int, j: int|
        0 <= i < j < cards.len() && #[trigger] cards[i].suit == #[trigger] cards[j].suit && cards[i].rank == cards[j].rank
}

pub open spec fn negative_stack_issues(seats: Seq<SeatState>) -> Seq<ValidationIssue>
    decreases seats.len(),
{
    if seats.len() == 0 {
        Seq::empty()
    } else {
        let rest = negative_stack_issues(seats.drop_last());
        let s = seats.last();
        if s.stack < 0 {
            rest.push(ValidationIssue::NegativeStack { seat_id: s.seat_id, stack: s.stack })
        } else {
            rest
        }
    }
}

/// `x` as a one-element list when `b` holds, else nothing.
pub open spec fn when(b: bool, x: ValidationIssue) -> Seq<ValidationIssue> {
    if b { seq![x] } else { Seq::empty() }
}

/// Every issue of a state, in the order they are checked.
pub open spec fn issues_of(s: TableStateView) -> Seq<ValidationIssue> {
    when(pot_mismatch(s), ValidationIssue::PotBetMismatch { pot: s.pot.total, total_bets: bets_sum(s.seats) as i128 })
        + negative_stack_issues(s.seats)
        + when(
            s.phase == TablePhase::Playing && s.community_cards.len() != expected_cards(s.street),
            ValidationIssue::CardStreetMismatch { cards: s.community_cards.len() as usize, street: s.street },
        )
        + when(has_duplicate(all_cards(s)), ValidationIssue::DuplicateCards)
        + when(s.hero_seat.is_none(), ValidationIssue::HeroNotConfigured)
        + when(s.blinds.big_blind <= 0, ValidationIssue::BlindsNotConfigured)
}

proof fn lemma_stack_issues_are_stack_issues(seats: Seq<SeatState>)
    ensures
        forall|i: int|
            0 <= i < negative_stack_issues(seats).len() ==> (#[trigger] negative_stack_issues(seats)[i]) is NegativeStack,
    decreases seats.len(),
{
    if seats.len() > 0 {
        lemma_stack_issues_are_stack_issues(seats.drop_last());
    }
}

/// A board of the size its street shows (none before the flop, three on the
/// flop, four on the turn, five on the river and at showdown) raises no
/// card-count issue; on a table in play any other size raises exactly one,
/// naming the number of cards and the street.
pub proof fn lemma_board_size_by_street(s: TableStateView)
    ensures
        ({
            let n = s.community_cards.len();
            let fits = (s.street == Street::Preflop && n == 0) || (s.street == Street::Flop && n == 3)
                || (s.street == Street::Turn && n == 4) || (s.street == Street::River && n == 5)
                || (s.street == Street::Showdown && n == 5);
            &&& (fits || s.phase != TablePhase::Playing) ==> forall|i: int|
                0 <= i < issues_of(s).len() ==> !((#[trigger] issues_of(s)[i]) is CardStreetMismatch)
            &&& (!fits && s.phase == TablePhase::Playing) ==> exists|i: int|
                0 <= i < issues_of(s).len() && #[trigger] issues_of(s)[i]
                    == (ValidationIssue::CardStreetMismatch { cards: n as usize, street: s.street })
        }),
{
    lemma_stack_issues_are_stack_issues(s.seats);
    let n = s.community_cards.len();
    let a = when(pot_mismatch(s), ValidationIssue::PotBetMismatch { pot: s.pot.total, total_bets: bets_sum(s.seats) as i128 });
    let b = negative_stack_issues(s.seats);
    let c = when(
        s.phase == TablePhase::Playing && n != expected_cards(s.street),
        ValidationIssue::CardStreetMismatch { cards: n as usize, street: s.street },
    );
    let d = when(has_duplicate(all_cards(s)), ValidationIssue::DuplicateCards);
    let e = when(s.hero_seat.is_none(), ValidationIssue::HeroNotConfigured);
    let f = when(s.blinds.big_blind <= 0, ValidationIssue::BlindsNotConfigured);
    let all = issues_of(s);
    assert(all == a + b + c + d + e + f);
    let fits = (s.street == Street::Preflop && n == 0) || (s.street == Street::Flop && n == 3)
        || (s.street == Street::Turn && n == 4) || (s.street == Street::River && n == 5)
        || (s.street == Street::Showdown && n == 5);
    assert(fits == (n == expected_cards(s.street)));
    if fits || s.phase != TablePhase::Playing {
        assert(c.len() == 0);
        assert forall|i: int| 0 <= i < all.len() implies !((#[trigger] all[i]) is CardStreetMismatch) by {
            if i < a.len() {
                assert(all[i] == a[i]);
            } else if i < a.len() + b.len() {
                assert(all[i] == b[i - a.len()]);
            } else if i < a.len() + b.len() + d.len() {
                assert(all[i] == d[i - a.len() - b.len()]);
            } else if i < a.len() + b.len() + d.len() + e.len() {
                assert(all[i] == e[i - a.len() - b.len() - d.len()]);
            } else {
                assert(all[i] == f[i - a.len() - b.len() - d.len() - e.len()]);
            }
        }
    } else {
        let k = a.len() + b.len();
        assert(all[k as int] == c[0]);
    }
}

proof fn lemma_bets_sum_bound(s: Seq<SeatState>)
    ensures
        -(s.len() as int) * 0x8000_0000_0000_0000 <= bets_sum(s) <= (s.len() as int) * 0x7fff_ffff_ffff_ffff,
    decreases s.len(),
{
    if s.len() > 0 {
        lemma_bets_sum_bound(s.drop_last());
        let n = s.len() as int;
        assert(-(n - 1) * 0x8000_0000_0000_0000 - 0x8000_0000_0000_0000 == -n * 0x8000_0000_0000_0000) by (nonlinear_arith);
        assert((n - 1) * 0x7fff_ffff_ffff_ffff + 0x7fff_ffff_ffff_ffff == n * 0x7fff_ffff_ffff_ffff) by (nonlinear_arith);
    }
}

proof fn lemma_len_bound(n: int)
    requires
        0 <= n <= 0xffff_ffff_ffff_ffff,
    ensures
        n * 0x8000_0000_0000_0000 <= 0xffff_ffff_ffff_ffff * 0x8000_0000_0000_0000,
        n * 0x7fff_ffff_ffff_ffff <= 0xffff_ffff_ffff_ffff * 0x7fff_ffff_ffff_ffff,
{
    assert(n * 0x8000_0000_0000_0000 <= 0xffff_ffff_ffff_ffff * 0x8000_0000_0000_0000) by (nonlinear_arith)
        requires
            0 <= n <= 0xffff_ffff_ffff_ffff,
    ;
    assert(n * 0x7fff_ffff_ffff_ffff <= 0xffff_ffff_ffff_ffff * 0x7fff_ffff_ffff_ffff) by (nonlinear_arith)
        requires
            0 <= n <= 0xffff_ffff_ffff_ffff,
    ;
}

fn total_bets(seats: &Vec<SeatState>) -> (t: i128)
    ensures
        t == bets_sum(seats@),
        -0x7fff_ffff_ffff_ffff_8000_0000_0000_0000 <= t <= 0x7fff_ffff_ffff_fffe_8000_0000_0000_0001,
{
    let mut t: i128 = 0;
    let n = seats.len();
    for i in 0..n
        invariant
            n == seats@.len(),
            t == bets_sum(seats@.take(i as int)),
    {
        proof {
            assert(seats@.take(i + 1).drop_last() =~= seats@.take(i as int));
            lemma_bets_sum_bound(seats@.take(i + 1));
            lemma_len_bound(i + 1);
        }
        t = t + seats[i].total_bet_this_hand as i128;
    }
    proof {
        assert(seats@.take(n as int) =~= seats@);
        lemma_bets_sum_bound(seats@);
        lemma_len_bound(n as int);
    }
    t
}

proof fn lemma_half(x: int, b: int)
    requires
        x >= 0,
        b >= 0,
    ensures
        (2 * x > b) == (x > b / 2),
{
    vstd::arithmetic::div_mod::lemma_fundamental_div_mod(b, 2);
}

proof fn lemma_fiftieth(x: int, p: int)
    requires
        x >= 0,
        p >= 0,
    ensures
        (50 * x > p) == (x > p / 50),
{
    vstd::arithmetic::div_mod::lemma_fundamental_div_mod(p, 50);
}

fn pot_disagrees(state: &TableState) -> (r: bool)
    ensures
        r == pot_mismatch(state@),
{
    let total = total_bets(&state.seats);
    let d: i128 = state.pot.total as i128 - total;
    let x: u128 = if d < 0 { (-d) as u128 } else { d as u128 };
    let bb: i64 = if state.blinds.big_blind >= 1 { state.blinds.big_blind } else { 1 };
    let pot = state.pot.total;
    proof {
        lemma_half(x as int, bb as int);
        if pot >= 0 {
            lemma_fiftieth(x as int, pot as int);
        }
    }
    x > (bb / 2) as u128 && (pot < 0 || x > (pot / 50) as u128)
}

fn stack_issues(seats: &Vec<SeatState>, issues: &mut Vec<ValidationIssue>)
    ensures
        final(issues)@ == old(issues)@ + negative_stack_issues(seats@),
{
    let n = seats.len();
    let ghost start = issues@;
    for i in 0..n
        invariant
            n == seats@.len(),
            start == old(issues)@,
            issues@ == start + negative_stack_issues(seats@.take(i as int)),
    {
        proof {
            assert(seats@.take(i + 1).drop_last() =~= seats@.take(i as int));
        }
        let s = seats[i];
        if s.stack < 0 {
            issues.push(ValidationIssue::NegativeStack { seat_id: s.seat_id, stack: s.stack });
        }
        proof {
            assert(issues@ =~= start + negative_stack_issues(seats@.take(i + 1)));
        }
    }
    proof {
        assert(seats@.take(n as int) =~= seats@);
    }
}

fn duplicate_cards(cards: &Vec<Card>) -> (r: bool)
    ensures
        r == has_duplicate(cards@),
{
    let n = cards.len();
    for j in 0..n
        invariant
            n == cards@.len(),
            forall|a: int, b: int|
                0 <= a < b < j ==> !(#[trigger] cards@[a].suit == #[trigger] cards@[b].suit && cards@[a].rank == cards@[b].rank),
    {
        for i in 0..j
            invariant
                n == cards@.len(),
                j < n,
                forall|a: int| 0 <= a < i ==> !(#[trigger] cards@[a].suit == cards@[j as int].suit && cards@[a].rank == cards@[j as int].rank),
        {
            if cards[i].suit == cards[j].suit && cards[i].rank == cards[j].rank {
                return true;
            }
        }
    }
    false
}

impl StateValidator {
    pub fn validate(state: &TableState) -> (r: ValidationResult)
        ensures
            match r {
                ValidationResult::Valid => issues_of(state@).len() == 0,
                ValidationResult::Issues(v) => v@ == issues_of(state@) && v@.len() > 0,
            },
    {
        let mut issues: Vec<ValidationIssue> = Vec::new();
        let ghost s = state@;

        if pot_disagrees(state) {
            let total = total_bets(&state.seats);
            issues.push(ValidationIssue::PotBetMismatch { pot: state.pot.total, total_bets: total });
        }
        proof {
            assert(issues@ =~= when(pot_mismatch(s), ValidationIssue::PotBetMismatch { pot: s.pot.total, total_bets: bets_sum(s.seats) as i128 }));
        }
        let ghost i1 = issues@;

        stack_issues(&state.seats, &mut issues);
        let ghost i2 = issues@;

        if state.phase == TablePhase::Playing {
            let expected: usize = match state.street {
                Street::Preflop => 0,
                Street::Flop => 3,
                Street::Turn => 4,
                Street::River | Street::Showdown => 5,
            };
            if state.community_cards.len() != expected {
                issues.push(ValidationIssue::CardStreetMismatch { cards: state.community_cards.len(), street: state.street });
            }
        }
        proof {
            assert(issues@ =~= i2 + when(
                s.phase == TablePhase::Playing && s.community_cards.len() != expected_cards(s.street),
                ValidationIssue::CardStreetMismatch { cards: s.community_cards.len() as usize, street: s.street },
            ));
        }
        let ghost i3 = issues@;

        let mut all: Vec<Card> = state.community_cards.clone();
        match state.hole_cards {
            Some(h) => {
                all.push(h[0]);
                all.push(h[1]);
            },
            None => {},
        }
        proof {
            match s.hole_cards {
                Some(h) => {
                    assert(h@.len() == 2);
                    assert(all@ =~= all_cards(s));
                },
                None => {
                    assert(all@ =~= all_cards(s));
                },
            }
        }
        if duplicate_cards(&all) {
            issues.push(ValidationIssue::DuplicateCards);
        }
        proof {
            assert(issues@ =~= i3 + when(has_duplicate(all_cards(s)), ValidationIssue::DuplicateCards));
        }
        let ghost i4 = issues@;

        if state.hero_seat.is_none() {
            issues.push(ValidationIssue::HeroNotConfigured);
        }
        proof {
            assert(issues@ =~= i4 + when(s.hero_seat.is_none(), ValidationIssue::HeroNotConfigured));
        }
        let ghost i5 = issues@;

        if state.blinds.big_blind <= 0 {
            issues.push(ValidationIssue::BlindsNotConfigured);
        }
        proof {
            assert(issues@ =~= i5 + when(s.blinds.big_blind <= 0, ValidationIssue::BlindsNotConfigured));
            assert(issues@ =~= issues_of(s));
        }

        if issues.len() == 0 {
            ValidationResult::Valid
        } else {
            ValidationResult::Issues(issues)
        }
    }
}

} // verus!
