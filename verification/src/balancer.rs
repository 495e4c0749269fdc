//! Spreading requests over candidates by weight.
use vstd::prelude::*;

use crate::error::{Error, ErrorView};
use crate::text::{decimal, write_u64};

verus! {

/// The largest weight.
pub const MAX_WEIGHT: u32 = 0x7fff_ffff;

/// A model that requests may go to, and its share of them.
#[derive(Debug, PartialEq)]
pub struct Candidate {
    pub model: String,
    pub weight: u32,
}

/// The value of a [`Candidate`].
#[verifier::ext_equal]
pub struct CandidateView {
    pub model: Seq<char>,
    pub weight: u32,
}

impl View for Candidate {
    type V = CandidateView;

    open spec fn view(&self) -> CandidateView {
        CandidateView {
            model: self.model@,
            weight: self.weight,
        }
    }
}

impl DeepView for Candidate {
    type V = CandidateView;

    open spec fn deep_view(&self) -> CandidateView {
        self@
    }
}

/// The weights of the candidates up to `n`, together.
pub open spec fn weight_before(candidates: Seq<CandidateView>, n: nat) -> nat
    decreases n,
{
    if n == 0 {
        0
    } else {
        weight_before(candidates, (n - 1) as nat) + candidates[n - 1].weight as nat
    }
}

/// All the weights together.
pub open spec fn total_weight(candidates: Seq<CandidateView>) -> nat {
    weight_before(candidates, candidates.len())
}

/// The candidate whose turn it is at a position of the rotation: each has as many
/// turns in a row as its weight.
pub open spec fn turn_at(candidates: Seq<CandidateView>, position: nat, from: nat) -> nat
    decreases candidates.len() - from,
{
    if from >= candidates.len() {
        candidates.len()
    } else if position < weight_before(candidates, from + 1) {
        from
    } else {
        turn_at(candidates, position, from + 1)
    }
}

/// Hands out candidates in rotation.
#[derive(Debug)]
pub struct Balancer {
    candidates: Vec<Candidate>,
    position: u128,
}

/// The value of a [`Balancer`].
#[verifier::ext_equal]
pub struct BalancerView {
    pub candidates: Seq<CandidateView>,
    pub position: nat,
}

impl View for Balancer {
    type V = BalancerView;

    closed spec fn view(&self) -> BalancerView {
        BalancerView { candidates: self.candidates.deep_view(), position: self.position as nat }
    }
}

/// A weight that is too large.
pub open spec fn too_heavy(candidate: CandidateView) -> ErrorView {
    ErrorView::InvalidInput(
        "weight "@ + decimal(candidate.weight as nat) + " exceeds the maximum of 2147483647"@,
    )
}

/// The first candidate whose weight is too large.
pub open spec fn first_heavy(candidates: Seq<CandidateView>) -> Option<CandidateView>
    decreases candidates.len(),
{
    if candidates.len() == 0 {
        None
    } else if candidates[0].weight > MAX_WEIGHT {
        Some(candidates[0])
    } else {
        first_heavy(candidates.drop_first())
    }
}

/// A rotation over the candidates, from its start, or what is wrong with them.
pub open spec fn balancer_for(candidates: Seq<CandidateView>) -> Result<BalancerView, ErrorView> {
    match first_heavy(candidates) {
        Some(candidate) => Err(too_heavy(candidate)),
        None => if total_weight(candidates) == 0 {
            Err(ErrorView::InvalidInput("every candidate has weight 0"@))
        } else {
            Ok(BalancerView { candidates, position: 0 })
        },
    }
}

/// A rotation that can go on: there is weight to hand out, and the position is
/// within it.
pub open spec fn turning(balancer: BalancerView) -> bool {
    &&& balancer.position < total_weight(balancer.candidates)
    &&& first_heavy(balancer.candidates) is None
}

/// The rotation after one turn.
pub open spec fn turned(balancer: BalancerView) -> BalancerView {
    let next = balancer.position + 1;
    BalancerView {
        position: if next == total_weight(balancer.candidates) {
            0
        } else {
            next
        },
        ..balancer
    }
}

/// The candidate whose turn it is.
pub open spec fn turn_of(balancer: BalancerView) -> nat {
    turn_at(balancer.candidates, balancer.position, 0)
}

proof fn lemma_light(candidates: Seq<CandidateView>, i: int)
    requires
        first_heavy(candidates) is None,
        0 <= i < candidates.len(),
    ensures
        candidates[i].weight <= MAX_WEIGHT,
    decreases candidates.len(),
{
    if i > 0 {
        lemma_light(candidates.drop_first(), i - 1);
    }
}

proof fn lemma_weight_bound(candidates: Seq<CandidateView>, n: nat)
    requires
        n <= candidates.len(),
    ensures
        weight_before(candidates, n) <= n * u32::MAX,
    decreases n,
{
    if n > 0 {
        lemma_weight_bound(candidates, (n - 1) as nat);
        assert((n - 1) * u32::MAX + u32::MAX == n * u32::MAX) by (nonlinear_arith);
    }
}

/// Weights only add up.
proof fn lemma_weight_grows(candidates: Seq<CandidateView>, a: nat, b: nat)
    requires
        a <= b <= candidates.len(),
    ensures
        weight_before(candidates, a) <= weight_before(candidates, b),
    decreases b,
{
    if a < b {
        lemma_weight_grows(candidates, a, (b - 1) as nat);
    }
}

proof fn lemma_turn_at(candidates: Seq<CandidateView>, position: nat, from: nat, i: nat)
    requires
        from <= i < candidates.len(),
        weight_before(candidates, i) <= position < weight_before(candidates, i + 1),
    ensures
        turn_at(candidates, position, from) == i,
    decreases candidates.len() - from,
{
    if from < i {
        lemma_weight_grows(candidates, from + 1, i);
        lemma_turn_at(candidates, position, from + 1, i);
    }
}

/// Each candidate has as many turns in a full rotation as its weight: those from
/// the weight before it on.
pub proof fn law_a_candidate_has_its_weight_in_turns(
    candidates: Seq<CandidateView>,
    position: nat,
    i: nat,
)
    requires
        i < candidates.len(),
        position < total_weight(candidates),
    ensures
        turn_at(candidates, position, 0) == i <==> weight_before(candidates, i) <= position
            < weight_before(candidates, i) + candidates[i as int].weight,
{
    assert(weight_before(candidates, i + 1) == weight_before(candidates, i)
        + candidates[i as int].weight);
    if weight_before(candidates, i) <= position < weight_before(candidates, i + 1) {
        lemma_turn_at(candidates, position, 0, i);
    } else if turn_at(candidates, position, 0) == i {
        lemma_turn_found(candidates, position, 0);
    }
}

/// The candidate found holds the position.
proof fn lemma_turn_found(candidates: Seq<CandidateView>, position: nat, from: nat)
    requires
        from <= candidates.len(),
        weight_before(candidates, from) <= position < total_weight(candidates),
    ensures
        ({
            let i = turn_at(candidates, position, from);
            &&& from <= i < candidates.len()
            &&& weight_before(candidates, i) <= position < weight_before(candidates, i + 1)
        }),
    decreases candidates.len() - from,
{
    if from < candidates.len() && position >= weight_before(candidates, from + 1) {
        lemma_turn_found(candidates, position, from + 1);
    }
}

/// A turn falls to a candidate with some weight, and the rotation goes on.
pub proof fn law_no_turn_falls_to_weight_zero(balancer: BalancerView)
    requires
        turning(balancer),
    ensures
        turn_of(balancer) < balancer.candidates.len(),
        balancer.candidates[turn_of(balancer) as int].weight > 0,
        turning(turned(balancer)),
{
    lemma_turn_found(balancer.candidates, balancer.position, 0);
}

/// The weights of several candidates, together.
pub open spec fn all_weights(candidates: Seq<CandidateView>) -> int
    decreases candidates.len(),
{
    if candidates.len() == 0 {
        0
    } else {
        candidates[0].weight + all_weights(candidates.drop_first())
    }
}

/// How many of the next turns fall to a candidate.
pub open spec fn turns_given(balancer: BalancerView, i: nat, turns: nat) -> nat
    decreases turns,
{
    if turns == 0 {
        0
    } else {
        (if turn_of(balancer) == i {
            1nat
        } else {
            0nat
        }) + turns_given(turned(balancer), i, (turns - 1) as nat)
    }
}

proof fn lemma_all_weights(candidates: Seq<CandidateView>, n: nat)
    requires
        n <= candidates.len(),
    ensures
        weight_before(candidates, n) == all_weights(candidates.take(n as int)),
    decreases n,
{
    if n > 0 {
        lemma_all_weights(candidates, (n - 1) as nat);
        lemma_all_weights_push(candidates.take(n - 1), candidates[n - 1]);
        assert(candidates.take(n - 1).push(candidates[n - 1]) =~= candidates.take(n as int));
    }
}

proof fn lemma_all_weights_push(candidates: Seq<CandidateView>, last: CandidateView)
    ensures
        all_weights(candidates.push(last)) == all_weights(candidates) + last.weight,
    decreases candidates.len(),
{
    let all = candidates.push(last);
    if candidates.len() > 0 {
        assert(all.drop_first() =~= candidates.drop_first().push(last));
        lemma_all_weights_push(candidates.drop_first(), last);
    } else {
        assert(all.drop_first() =~= Seq::<CandidateView>::empty());
        assert(all_weights(all.drop_first()) == 0);
    }
}

/// How many positions of a stretch fall to a candidate.
proof fn lemma_turns_given(balancer: BalancerView, i: nat, turns: nat)
    requires
        i < balancer.candidates.len(),
        balancer.position + turns <= total_weight(balancer.candidates),
        turns > 0 ==> balancer.position < total_weight(balancer.candidates),
    ensures
        ({
            let from = weight_before(balancer.candidates, i) as int;
            let to = from + balancer.candidates[i as int].weight;
            let start = balancer.position as int;
            let end = start + turns;
            turns_given(balancer, i, turns) == (if start >= to || end <= from {
                0
            } else {
                (if end < to {
                    end
                } else {
                    to
                }) - (if start > from {
                    start
                } else {
                    from
                })
            })
        }),
    decreases turns,
{
    if turns > 0 {
        law_a_candidate_has_its_weight_in_turns(balancer.candidates, balancer.position, i);
        if turns > 1 {
            lemma_turns_given(turned(balancer), i, (turns - 1) as nat);
        } else {
            assert(turns_given(turned(balancer), i, 0) == 0);
        }
    }
}

/// A rotation is as long as all the weights together. From its start each candidate
/// has as many turns in it as its weight says, and after it the rotation is where it
/// started.
pub proof fn law_a_rotation_gives_each_candidate_its_weight(
    candidates: Seq<CandidateView>,
    i: nat,
)
    requires
        i < candidates.len(),
        balancer_for(candidates) is Ok,
    ensures
        ({
            let balancer = balancer_for(candidates)->Ok_0;
            let turns = all_weights(candidates) as nat;
            &&& all_weights(candidates) > 0
            &&& balancer.candidates == candidates
            &&& turns_given(balancer, i, turns) == candidates[i as int].weight
            &&& after_turns(balancer, turns) == balancer
        }),
{
    let balancer = balancer_for(candidates)->Ok_0;
    lemma_all_weights(candidates, candidates.len());
    assert(candidates.take(candidates.len() as int) =~= candidates);
    lemma_turns_given(balancer, i, total_weight(candidates));
    lemma_weight_grows(candidates, i + 1, candidates.len());
    lemma_after_turns(balancer, total_weight(candidates));
}

/// The rotation after several turns.
pub open spec fn after_turns(balancer: BalancerView, turns: nat) -> BalancerView
    decreases turns,
{
    if turns == 0 {
        balancer
    } else {
        after_turns(turned(balancer), (turns - 1) as nat)
    }
}

proof fn lemma_after_turns(balancer: BalancerView, turns: nat)
    requires
        turns > 0,
        balancer.position + turns == total_weight(balancer.candidates),
    ensures
        after_turns(balancer, turns) == (BalancerView { position: 0, ..balancer }),
    decreases turns,
{
    if turns > 1 {
        lemma_after_turns(turned(balancer), (turns - 1) as nat);
    } else {
        assert(after_turns(turned(balancer), 0) == turned(balancer));
    }
}

/// Candidates are refused exactly where one weighs more than can be counted, or where
/// none weighs anything.
pub proof fn law_candidates_are_refused_for_their_weights(candidates: Seq<CandidateView>)
    ensures
        balancer_for(candidates) is Err <==> (all_weights(candidates) == 0 || exists|i: int|
            0 <= i < candidates.len() && (#[trigger] candidates[i]).weight > 2147483647),
        balancer_for(candidates) matches Ok(balancer) ==> balancer.candidates == candidates
            && balancer.position == 0,
{
    lemma_all_weights(candidates, candidates.len());
    assert(candidates.take(candidates.len() as int) =~= candidates);
    lemma_heavy(candidates);
}

proof fn lemma_heavy(candidates: Seq<CandidateView>)
    ensures
        first_heavy(candidates) is Some <==> exists|i: int|
            0 <= i < candidates.len() && (#[trigger] candidates[i]).weight > 2147483647,
    decreases candidates.len(),
{
    if candidates.len() > 0 {
        let rest = candidates.drop_first();
        lemma_heavy(rest);
        if candidates[0].weight <= 2147483647 {
            if first_heavy(rest) is Some {
                let i = choose|i: int|
                    0 <= i < rest.len() && (#[trigger] rest[i]).weight > 2147483647;
                assert(candidates[i + 1] == rest[i]);
            } else {
                assert forall|i: int| 0 <= i < candidates.len() implies (
                #[trigger] candidates[i]).weight <= 2147483647 by {
                    if i > 0 {
                        assert(rest[i - 1] == candidates[i]);
                    }
                }
            }
        }
    }
}

impl Balancer {
    /// The rotation can always go on.
    #[verifier::type_invariant]
    closed spec fn goes_on(self) -> bool {
        turning(self@)
    }

    /// Starts a rotation. A weight above [`MAX_WEIGHT`] is refused, and so are
    /// candidates that all have weight zero.
    pub fn new(candidates: Vec<Candidate>) -> (r: Result<Balancer, Error>)
        ensures
            match r {
                Ok(balancer) => balancer_for(candidates.deep_view()) == Ok::<
                    BalancerView,
                    ErrorView,
                >(balancer@),
                Err(error) => balancer_for(candidates.deep_view()) == Err::<
                    BalancerView,
                    ErrorView,
                >(error@),
            },
    {
        let ghost all = candidates.deep_view();
        assert(all.skip(0) =~= all);
        let mut positive = false;
        for i in 0..candidates.len()
            invariant
                all == candidates.deep_view(),
                first_heavy(all) == first_heavy(all.skip(i as int)),
                positive == (weight_before(all, i as nat) > 0),
        {
            assert(all.skip(i as int).drop_first() =~= all.skip(i + 1));
            assert(all.skip(i as int)[0] == candidates@[i as int]@);
            if candidates[i].weight > MAX_WEIGHT {
                let weight = write_u64(candidates[i].weight as u64);
                return Err(
                    Error::InvalidInput(
                        crate::text::join3(
                            "weight ",
                            weight.as_str(),
                            " exceeds the maximum of 2147483647",
                        ),
                    ),
                );
            }
            positive = positive || candidates[i].weight > 0;
        }
        if !positive {
            return Err(Error::InvalidInput("every candidate has weight 0".to_owned()));
        }
        Ok(Balancer { candidates, position: 0 })
    }

    /// The model whose turn it is; the rotation goes on.
    pub fn select(&mut self) -> (r: String)
        ensures
            turning(old(self)@),
            turn_of(old(self)@) < old(self)@.candidates.len(),
            r@ == old(self)@.candidates[turn_of(old(self)@) as int].model,
            final(self)@ == turned(old(self)@),
    {
        proof {
            use_type_invariant(&*self);
            law_no_turn_falls_to_weight_zero(self@);
        }
        let ghost all = self.candidates.deep_view();
        let ghost turn = turn_of(self@);
        let n: usize = self.candidates.len();
        let mut before: u128 = 0;
        let mut chosen: usize = 0;
        let mut found = false;
        for i in 0..n
            invariant
                all == self.candidates.deep_view(),
                n == all.len(),
                n <= usize::MAX,
                before == weight_before(all, i as nat),
                turn == turn_at(all, self.position as nat, 0),
                turn < n,
                !found ==> turn == turn_at(all, self.position as nat, i as nat),
                found ==> chosen == turn,
        {
            proof {
                lemma_weight_bound(all, (i + 1) as nat);
                assert((i + 1) * u32::MAX <= usize::MAX * u32::MAX) by (nonlinear_arith)
                    requires
                        i + 1 <= usize::MAX,
                ;
                assert(all[i as int] == self.candidates@[i as int]@);
            }
            before = before + self.candidates[i].weight as u128;
            if !found && self.position < before {
                found = true;
                chosen = i;
            }
        }
        let model = self.candidates[chosen].model.clone();
        let next: u128 = self.position + 1;
        self.position = if next == before {
            0
        } else {
            next
        };
        model
    }
}

} // verus!
