use crate::contract::ElectionContract;
use crate::power::rounded_votes;
use crate::registry::{
    candidate_codes_unique, chain, has_voter, powers_sum, user_ids_unique, voter_ids_unique,
    voter_index,
};
use crate::types::{fails_with, ErrorKind};
use vstd::prelude::*;

verus! {

/// Candidate codes, voter identifiers and user identifiers are each unique
/// in every state the operations produce.
pub proof fn keys_are_unique(c: &ElectionContract)
    requires
        c.wf(),
    ensures
        candidate_codes_unique(c.candidate_list()),
        voter_ids_unique(c.voter_list()),
        user_ids_unique(c.user_list()),
{
}

/// Following delegation links from any voter never comes back to it.
pub proof fn delegation_has_no_cycle(c: &ElectionContract, id: Seq<char>, k: nat)
    requires
        c.wf(),
        k >= 1,
    ensures
        chain(c.voter_list(), Some(id), k) != Some(id),
{
}

/// A voter's weight is its own power plus the powers of the voters that
/// delegated to it, each pushed once when it delegated.
pub proof fn weight_is_own_plus_delegated(c: &ElectionContract, i: int)
    requires
        c.wf(),
        0 <= i < c.voter_list().len(),
    ensures
        c.voter_list()[i].vote_weight == c.voter_list()[i].voting_power + powers_sum(
            c.voter_list(),
            c.voter_list()[i].delegated_from@,
        ),
{
}

/// After a voter has voted, a second vote by the same voter fails with
/// InvalidInput and changes nothing.
pub proof fn second_vote_is_refused(
    s0: ElectionContract,
    s1: ElectionContract,
    s2: ElectionContract,
    voter_id: Seq<char>,
    code1: u64,
    code2: u64,
    now1: u64,
    now2: u64,
    r1: Result<(), crate::types::ContractError>,
    r2: Result<(), crate::types::ContractError>,
)
    requires
        s0.wf(),
        s0.place_vote_outcome(&s1, voter_id, code1, now1, r1),
        r1 is Ok,
        s1.place_vote_outcome(&s2, voter_id, code2, now2, r2),
    ensures
        fails_with(r2, ErrorKind::InvalidInput),
        s2 == s1,
{
    let vs0 = s0.voter_list();
    let vi = voter_index(vs0, voter_id);
    let vs1 = s1.voter_list();
    assert(vs1[vi].identifier@ == voter_id);
    assert(has_voter(vs1, voter_id));
    crate::registry::lemma_voter_index(vs0, vi);
    assert(voter_ids_unique(vs1)) by {
        assert forall|i: int, j: int|
            0 <= i < vs1.len() && 0 <= j < vs1.len() && i != j implies #[trigger] vs1[i].identifier@
            != #[trigger] vs1[j].identifier@ by {
            assert(vs1[i].identifier@ == vs0[i].identifier@);
            assert(vs1[j].identifier@ == vs0[j].identifier@);
        }
    }
    crate::registry::lemma_voter_index(vs1, vi);
    assert(vs1[vi].has_voted);
}

/// Casting a vote never lowers a candidate's total: the chosen candidate
/// gains the voter's rounded weight, without wrapping, and the others keep
/// theirs.
pub proof fn vote_totals_never_decrease(
    s0: ElectionContract,
    s1: ElectionContract,
    voter_id: Seq<char>,
    code: u64,
    now: u64,
    r: Result<(), crate::types::ContractError>,
)
    requires
        s0.wf(),
        s0.place_vote_outcome(&s1, voter_id, code, now, r),
    ensures
        s1.candidate_list().len() == s0.candidate_list().len(),
        forall|i: int|
            0 <= i < s0.candidate_list().len() ==> #[trigger] s1.candidate_list()[i].num_votes
                >= s0.candidate_list()[i].num_votes,
        forall|i: int|
            0 <= i < s0.candidate_list().len() && s0.candidate_list()[i].code == code && r is Ok
                ==> #[trigger] s1.candidate_list()[i].num_votes == s0.candidate_list()[i].num_votes
                + rounded_votes(
                s0.voter_list()[voter_index(s0.voter_list(), voter_id)].vote_weight as nat,
            ),
{
    if r is Ok {
        let cs = s0.candidate_list();
        let ci = crate::registry::candidate_index(cs, code);
        assert forall|i: int| 0 <= i < cs.len() && cs[i].code == code implies i == ci by {
            assert(cs[ci].code == code);
        }
    }
}

} // verus!
