use crate::types::{Candidate, User, Voter};
use vstd::prelude::*;
use vstd::relations::injective_on;
use vstd::set_lib::{lemma_int_range, lemma_len_subset, lemma_map_size, set_int_range};

verus! {

// ---------------------------------------------------------------------------
// Keys and lookups
// ---------------------------------------------------------------------------

pub open spec fn voter_ids_unique(vs: Seq<Voter>) -> bool {
    forall|i: int, j: int|
        0 <= i < vs.len() && 0 <= j < vs.len() && i != j ==> #[trigger] vs[i].identifier@
            != #[trigger] vs[j].identifier@
}

pub open spec fn user_ids_unique(us: Seq<User>) -> bool {
    forall|i: int, j: int|
        0 <= i < us.len() && 0 <= j < us.len() && i != j ==> #[trigger] us[i].identifier@
            != #[trigger] us[j].identifier@
}

pub open spec fn candidate_codes_unique(cs: Seq<Candidate>) -> bool {
    forall|i: int, j: int|
        0 <= i < cs.len() && 0 <= j < cs.len() && i != j ==> #[trigger] cs[i].code
            != #[trigger] cs[j].code
}

pub open spec fn has_voter(vs: Seq<Voter>, id: Seq<char>) -> bool {
    exists|i: int| 0 <= i < vs.len() && #[trigger] vs[i].identifier@ == id
}

pub open spec fn voter_index(vs: Seq<Voter>, id: Seq<char>) -> int {
    choose|i: int| 0 <= i < vs.len() && #[trigger] vs[i].identifier@ == id
}

pub open spec fn has_user(us: Seq<User>, id: Seq<char>) -> bool {
    exists|i: int| 0 <= i < us.len() && #[trigger] us[i].identifier@ == id
}

pub open spec fn user_index(us: Seq<User>, id: Seq<char>) -> int {
    choose|i: int| 0 <= i < us.len() && #[trigger] us[i].identifier@ == id
}

pub open spec fn has_candidate(cs: Seq<Candidate>, code: u64) -> bool {
    exists|i: int| 0 <= i < cs.len() && #[trigger] cs[i].code == code
}

pub open spec fn candidate_index(cs: Seq<Candidate>, code: u64) -> int {
    choose|i: int| 0 <= i < cs.len() && #[trigger] cs[i].code == code
}

// ---------------------------------------------------------------------------
// The delegation graph
// ---------------------------------------------------------------------------

pub open spec fn opt_id(o: Option<String>) -> Option<Seq<char>> {
    match o {
        Some(s) => Some(s@),
        None => None,
    }
}

/// Whom the voter `id` has delegated to (`None` also for an unknown voter).
pub open spec fn delegate_of(vs: Seq<Voter>, id: Seq<char>) -> Option<Seq<char>> {
    if has_voter(vs, id) {
        opt_id(vs[voter_index(vs, id)].delegated_to)
    } else {
        None
    }
}

/// The voting power of the voter `id` (0 for an unknown voter).
pub open spec fn power_of(vs: Seq<Voter>, id: Seq<char>) -> int {
    if has_voter(vs, id) {
        vs[voter_index(vs, id)].voting_power as int
    } else {
        0
    }
}

/// The sum of the voting powers of the voters listed in `from`.
pub open spec fn powers_sum(vs: Seq<Voter>, from: Seq<String>) -> int
    decreases from.len(),
{
    if from.len() == 0 {
        0
    } else {
        powers_sum(vs, from.drop_last()) + power_of(vs, from.last()@)
    }
}

/// Each voter's weight is its own power plus the powers delegated to it.
pub open spec fn weights_consistent(vs: Seq<Voter>) -> bool {
    forall|i: int|
        0 <= i < vs.len() ==> #[trigger] vs[i].vote_weight == vs[i].voting_power + powers_sum(
            vs,
            vs[i].delegated_from@,
        )
}

/// Every voter listed as having delegated is a registered voter.
pub open spec fn delegators_registered(vs: Seq<Voter>) -> bool {
    forall|i: int, j: int|
        0 <= i < vs.len() && 0 <= j < vs[i].delegated_from@.len() ==> has_voter(
            vs,
            #[trigger] vs[i].delegated_from@[j]@,
        )
}

/// Every voter that a delegation link points to is registered.
pub open spec fn delegates_registered(vs: Seq<Voter>) -> bool {
    forall|i: int|
        0 <= i < vs.len() && (#[trigger] vs[i].delegated_to) is Some ==> has_voter(
            vs,
            vs[i].delegated_to->Some_0@,
        )
}

pub open spec fn next_in_chain(vs: Seq<Voter>, cur: Option<Seq<char>>) -> Option<Seq<char>> {
    match cur {
        Some(id) => delegate_of(vs, id),
        None => None,
    }
}

/// Where `k` steps along the delegation links, starting at `cur`, lead.
pub open spec fn chain(vs: Seq<Voter>, cur: Option<Seq<char>>, k: nat) -> Option<Seq<char>>
    decreases k,
{
    if k == 0 {
        cur
    } else {
        chain(vs, next_in_chain(vs, cur), (k - 1) as nat)
    }
}

/// Following the delegation links from `d` reaches `a` (in zero or more steps).
pub open spec fn leads_to(vs: Seq<Voter>, d: Seq<char>, a: Seq<char>) -> bool {
    exists|j: nat| #[trigger] chain(vs, Some(d), j) == Some(a)
}

/// No voter reaches itself again by following delegation links.
pub open spec fn delegation_acyclic(vs: Seq<Voter>) -> bool {
    forall|id: Seq<char>, k: nat| k >= 1 ==> #[trigger] chain(vs, Some(id), k) != Some(id)
}

/// The invariant of the voter registry.
pub open spec fn voters_wf(vs: Seq<Voter>) -> bool {
    &&& voter_ids_unique(vs)
    &&& delegators_registered(vs)
    &&& delegates_registered(vs)
    &&& weights_consistent(vs)
    &&& delegation_acyclic(vs)
}

/// The fields of a voter that the delegation graph and the weights depend on.
pub open spec fn same_links(a: Voter, b: Voter) -> bool {
    &&& a.identifier@ == b.identifier@
    &&& a.voting_power == b.voting_power
    &&& opt_id(a.delegated_to) == opt_id(b.delegated_to)
    &&& a.delegated_from@ == b.delegated_from@
    &&& a.vote_weight == b.vote_weight
}

// ---------------------------------------------------------------------------
// Lemmas
// ---------------------------------------------------------------------------

pub proof fn lemma_voter_index(vs: Seq<Voter>, i: int)
    requires
        voter_ids_unique(vs),
        0 <= i < vs.len(),
    ensures
        has_voter(vs, vs[i].identifier@),
        voter_index(vs, vs[i].identifier@) == i,
{
    let id = vs[i].identifier@;
    assert(vs[i].identifier@ == id);
    let k = voter_index(vs, id);
    assert(vs[k].identifier@ == id);
}

pub proof fn lemma_chain_none(vs: Seq<Voter>, k: nat)
    ensures
        chain(vs, None, k) == None::<Seq<char>>,
    decreases k,
{
    if k > 0 {
        lemma_chain_none(vs, (k - 1) as nat);
    }
}

pub proof fn lemma_chain_add(vs: Seq<Voter>, c: Option<Seq<char>>, a: nat, b: nat)
    ensures
        chain(vs, c, a + b) == chain(vs, chain(vs, c, a), b),
    decreases a,
{
    if a > 0 {
        lemma_chain_add(vs, next_in_chain(vs, c), (a - 1) as nat, b);
        assert((a + b - 1) as nat == ((a - 1) as nat + b));
    }
}

pub proof fn lemma_chain_succ(vs: Seq<Voter>, c: Option<Seq<char>>, k: nat)
    ensures
        chain(vs, c, k + 1) == next_in_chain(vs, chain(vs, c, k)),
{
    lemma_chain_add(vs, c, k, 1);
    let m = chain(vs, c, k);
    assert(chain(vs, next_in_chain(vs, m), 0) == next_in_chain(vs, m));
}

/// Two registries with the same delegation links have the same chains.
pub proof fn lemma_chain_same(vs1: Seq<Voter>, vs2: Seq<Voter>, c: Option<Seq<char>>, k: nat)
    requires
        forall|id: Seq<char>| #[trigger] delegate_of(vs1, id) == delegate_of(vs2, id),
    ensures
        chain(vs1, c, k) == chain(vs2, c, k),
    decreases k,
{
    if k > 0 {
        assert(next_in_chain(vs1, c) == next_in_chain(vs2, c));
        lemma_chain_same(vs1, vs2, next_in_chain(vs1, c), (k - 1) as nat);
    }
}

pub proof fn lemma_powers_sum_same(vs1: Seq<Voter>, vs2: Seq<Voter>, from: Seq<String>)
    requires
        forall|id: Seq<char>| #[trigger] power_of(vs1, id) == power_of(vs2, id),
    ensures
        powers_sum(vs1, from) == powers_sum(vs2, from),
    decreases from.len(),
{
    if from.len() > 0 {
        lemma_powers_sum_same(vs1, vs2, from.drop_last());
    }
}

pub proof fn lemma_powers_sum_push(vs: Seq<Voter>, from: Seq<String>, s: String)
    ensures
        powers_sum(vs, from.push(s)) == powers_sum(vs, from) + power_of(vs, s@),
{
    assert(from.push(s).drop_last() =~= from);
}

/// Replacing voters by ones with the same links keeps lookups of links and powers.
pub proof fn lemma_same_links_lookups(vs1: Seq<Voter>, vs2: Seq<Voter>)
    requires
        voter_ids_unique(vs1),
        vs1.len() == vs2.len(),
        forall|i: int| 0 <= i < vs1.len() ==> same_links(#[trigger] vs1[i], vs2[i]),
    ensures
        voter_ids_unique(vs2),
        forall|id: Seq<char>| #[trigger] has_voter(vs1, id) == has_voter(vs2, id),
        forall|id: Seq<char>| #[trigger] delegate_of(vs1, id) == delegate_of(vs2, id),
        forall|id: Seq<char>| #[trigger] power_of(vs1, id) == power_of(vs2, id),
{
    assert(voter_ids_unique(vs2)) by {
        assert forall|i: int, j: int|
            0 <= i < vs2.len() && 0 <= j < vs2.len() && i != j implies #[trigger] vs2[i].identifier@
            != #[trigger] vs2[j].identifier@ by {
            assert(same_links(vs1[i], vs2[i]));
            assert(same_links(vs1[j], vs2[j]));
        }
    }
    assert forall|id: Seq<char>| #[trigger] has_voter(vs1, id) == has_voter(vs2, id) by {
        if has_voter(vs1, id) {
            let i = voter_index(vs1, id);
            assert(same_links(vs1[i], vs2[i]));
            assert(vs2[i].identifier@ == id);
        }
        if has_voter(vs2, id) {
            let i = voter_index(vs2, id);
            assert(same_links(vs1[i], vs2[i]));
            assert(vs1[i].identifier@ == id);
        }
    }
    assert forall|id: Seq<char>|
        #[trigger] delegate_of(vs1, id) == delegate_of(vs2, id) && power_of(vs1, id) == power_of(
            vs2,
            id,
        ) by {
        assert(has_voter(vs1, id) == has_voter(vs2, id));
        if has_voter(vs1, id) {
            let i = voter_index(vs1, id);
            assert(same_links(vs1[i], vs2[i]));
            lemma_voter_index(vs2, i);
        }
    }
    assert forall|id: Seq<char>| #[trigger] power_of(vs1, id) == power_of(vs2, id) by {
        assert(delegate_of(vs1, id) == delegate_of(vs2, id));
    }
}

/// Changing voters without touching their links keeps the invariant.
pub proof fn lemma_same_links_wf(vs1: Seq<Voter>, vs2: Seq<Voter>)
    requires
        voters_wf(vs1),
        vs1.len() == vs2.len(),
        forall|i: int| 0 <= i < vs1.len() ==> same_links(#[trigger] vs1[i], vs2[i]),
    ensures
        voters_wf(vs2),
{
    lemma_same_links_lookups(vs1, vs2);
    assert forall|i: int, j: int|
        0 <= i < vs2.len() && 0 <= j < vs2[i].delegated_from@.len() implies has_voter(
        vs2,
        #[trigger] vs2[i].delegated_from@[j]@,
    ) by {
        assert(same_links(vs1[i], vs2[i]));
        assert(has_voter(vs1, vs1[i].delegated_from@[j]@));
    }
    assert forall|i: int|
        0 <= i < vs2.len() && (#[trigger] vs2[i].delegated_to) is Some implies has_voter(
        vs2,
        vs2[i].delegated_to->Some_0@,
    ) by {
        assert(same_links(vs1[i], vs2[i]));
        assert(opt_id(vs1[i].delegated_to) == opt_id(vs2[i].delegated_to));
        assert(vs1[i].delegated_to is Some);
        assert(has_voter(vs1, vs1[i].delegated_to->Some_0@));
    }
    assert forall|i: int| 0 <= i < vs2.len() implies #[trigger] vs2[i].vote_weight
        == vs2[i].voting_power + powers_sum(vs2, vs2[i].delegated_from@) by {
        assert(same_links(vs1[i], vs2[i]));
        assert(vs1[i].vote_weight == vs1[i].voting_power + powers_sum(
            vs1,
            vs1[i].delegated_from@,
        ));
        lemma_powers_sum_same(vs1, vs2, vs1[i].delegated_from@);
    }
    assert forall|id: Seq<char>, k: nat| k >= 1 implies #[trigger] chain(vs2, Some(id), k)
        != Some(id) by {
        lemma_chain_same(vs1, vs2, Some(id), k);
        assert(chain(vs1, Some(id), k) != Some(id));
    }
}

/// Adding a fresh voter with no links keeps the invariant.
pub proof fn lemma_push_wf(vs: Seq<Voter>, v: Voter)
    requires
        voters_wf(vs),
        !has_voter(vs, v.identifier@),
        v.delegated_to is None,
        v.delegated_from@.len() == 0,
        v.vote_weight == v.voting_power,
    ensures
        voters_wf(vs.push(v)),
        has_voter(vs.push(v), v.identifier@),
{
    let vs2 = vs.push(v);
    let n = vs.len() as int;
    assert(vs2[n].identifier@ == v.identifier@);
    assert(voter_ids_unique(vs2)) by {
        assert forall|i: int, j: int|
            0 <= i < vs2.len() && 0 <= j < vs2.len() && i != j implies #[trigger] vs2[i].identifier@
            != #[trigger] vs2[j].identifier@ by {
            if i < n && j < n {
                assert(vs2[i] == vs[i] && vs2[j] == vs[j]);
            } else if i < n {
                assert(vs2[i] == vs[i]);
                assert(vs[i].identifier@ == vs2[i].identifier@);
            } else {
                assert(vs2[j] == vs[j]);
                assert(vs[j].identifier@ == vs2[j].identifier@);
            }
        }
    }
    assert forall|id: Seq<char>| has_voter(vs, id) implies #[trigger] has_voter(vs2, id)
        && voter_index(vs2, id) == voter_index(vs, id) by {
        let i = voter_index(vs, id);
        assert(vs2[i] == vs[i]);
        lemma_voter_index(vs2, i);
    }
    assert forall|id: Seq<char>|
        #[trigger] delegate_of(vs, id) == delegate_of(vs2, id) && (id != v.identifier@
            ==> power_of(vs, id) == power_of(vs2, id)) by {
        if has_voter(vs, id) {
            assert(has_voter(vs2, id));
        } else if id == v.identifier@ {
            lemma_voter_index(vs2, n);
        } else {
            if has_voter(vs2, id) {
                let i = voter_index(vs2, id);
                if i < n {
                    assert(vs2[i] == vs[i]);
                }
            }
        }
    }
    assert forall|i: int, j: int|
        0 <= i < vs2.len() && 0 <= j < vs2[i].delegated_from@.len() implies has_voter(
        vs2,
        #[trigger] vs2[i].delegated_from@[j]@,
    ) by {
        assert(i < n);
        assert(vs2[i] == vs[i]);
        assert(has_voter(vs, vs[i].delegated_from@[j]@));
    }
    assert forall|i: int|
        0 <= i < vs2.len() && (#[trigger] vs2[i].delegated_to) is Some implies has_voter(
        vs2,
        vs2[i].delegated_to->Some_0@,
    ) by {
        assert(i < n);
        assert(vs2[i] == vs[i]);
        assert(has_voter(vs, vs[i].delegated_to->Some_0@));
    }
    assert forall|i: int| 0 <= i < vs2.len() implies #[trigger] vs2[i].vote_weight
        == vs2[i].voting_power + powers_sum(vs2, vs2[i].delegated_from@) by {
        if i < n {
            assert(vs2[i] == vs[i]);
            assert(vs[i].vote_weight == vs[i].voting_power + powers_sum(
                vs,
                vs[i].delegated_from@,
            ));
            lemma_powers_sum_registered(vs, vs2, v.identifier@, vs[i].delegated_from@);
        } else {
            assert(vs2[i] == v);
        }
    }
    assert forall|id: Seq<char>, k: nat| k >= 1 implies #[trigger] chain(vs2, Some(id), k)
        != Some(id) by {
        lemma_chain_same(vs, vs2, Some(id), k);
        assert(chain(vs, Some(id), k) != Some(id));
    }
}

/// Sums over registered voters agree when only an unregistered voter's power changed.
pub proof fn lemma_powers_sum_registered(
    vs1: Seq<Voter>,
    vs2: Seq<Voter>,
    fresh: Seq<char>,
    from: Seq<String>,
)
    requires
        forall|id: Seq<char>| id != fresh ==> #[trigger] power_of(vs1, id) == power_of(vs2, id),
        forall|j: int| 0 <= j < from.len() ==> has_voter(vs1, #[trigger] from[j]@),
        !has_voter(vs1, fresh),
    ensures
        powers_sum(vs1, from) == powers_sum(vs2, from),
    decreases from.len(),
{
    if from.len() > 0 {
        let rest = from.drop_last();
        assert forall|j: int| 0 <= j < rest.len() implies has_voter(vs1, #[trigger] rest[j]@) by {
            assert(rest[j] == from[j]);
        }
        lemma_powers_sum_registered(vs1, vs2, fresh, rest);
        assert(has_voter(vs1, from[from.len() - 1]@));
        assert(from.last()@ != fresh);
    }
}

/// Following the new links from `c` agrees with the old ones until `a` is met.
proof fn lemma_chain_before(
    vs1: Seq<Voter>,
    vs2: Seq<Voter>,
    a: Seq<char>,
    c: Option<Seq<char>>,
    k: nat,
)
    requires
        forall|x: Seq<char>| x != a ==> #[trigger] delegate_of(vs2, x) == delegate_of(vs1, x),
        forall|j: nat| j < k ==> #[trigger] chain(vs2, c, j) != Some(a),
    ensures
        chain(vs2, c, k) == chain(vs1, c, k),
    decreases k,
{
    if k > 0 {
        let k1 = (k - 1) as nat;
        lemma_chain_before(vs1, vs2, a, c, k1);
        lemma_chain_succ(vs1, c, k1);
        lemma_chain_succ(vs2, c, k1);
        assert(chain(vs2, c, k1) != Some(a));
    }
}

/// Adding the link `a -> d`, where `d` does not lead back to `a`, keeps the
/// delegation graph free of cycles.
pub proof fn lemma_delegate_acyclic(vs1: Seq<Voter>, vs2: Seq<Voter>, a: Seq<char>, d: Seq<char>)
    requires
        delegation_acyclic(vs1),
        a != d,
        delegate_of(vs2, a) == Some(d),
        forall|x: Seq<char>| x != a ==> #[trigger] delegate_of(vs2, x) == delegate_of(vs1, x),
        forall|k: nat| #[trigger] chain(vs1, Some(d), k) != Some(a),
    ensures
        delegation_acyclic(vs2),
{
    // From `d` the new links agree with the old ones, since `a` is never met.
    assert forall|k: nat| #[trigger] chain(vs2, Some(d), k) == chain(vs1, Some(d), k) by {
        assert forall|j: nat| j < k implies #[trigger] chain(vs2, Some(d), j) != Some(a) by {
            lemma_chain_from_d(vs1, vs2, a, d, j);
        }
        lemma_chain_before(vs1, vs2, a, Some(d), k);
    }
    assert forall|id: Seq<char>, k: nat| k >= 1 implies #[trigger] chain(vs2, Some(id), k)
        != Some(id) by {
        if chain(vs2, Some(id), k) == Some(id) {
            if forall|j: nat| j < k ==> #[trigger] chain(vs2, Some(id), j) != Some(a) {
                lemma_chain_before(vs1, vs2, a, Some(id), k);
                assert(chain(vs1, Some(id), k) != Some(id));
            } else {
                let j = choose|j: nat| j < k && #[trigger] chain(vs2, Some(id), j) == Some(a);
                // One step after `a` comes `d`.
                lemma_chain_succ(vs2, Some(id), j);
                assert(chain(vs2, Some(id), j + 1) == Some(d));
                // Going round the cycle once more reaches `a` again ...
                lemma_chain_add(vs2, Some(id), k, j);
                assert(chain(vs2, Some(id), k + j) == Some(a));
                // ... which is `k - 1` steps after `d`.
                lemma_chain_add(vs2, Some(id), j + 1, (k - 1) as nat);
                assert(j + 1 + (k - 1) as nat == k + j);
                assert(chain(vs2, Some(d), (k - 1) as nat) == chain(vs1, Some(d), (k - 1) as nat));
                assert(chain(vs1, Some(d), (k - 1) as nat) != Some(a));
            }
        }
    }
}

proof fn lemma_chain_from_d(vs1: Seq<Voter>, vs2: Seq<Voter>, a: Seq<char>, d: Seq<char>, k: nat)
    requires
        forall|x: Seq<char>| x != a ==> #[trigger] delegate_of(vs2, x) == delegate_of(vs1, x),
        forall|k: nat| #[trigger] chain(vs1, Some(d), k) != Some(a),
    ensures
        chain(vs2, Some(d), k) == chain(vs1, Some(d), k),
        chain(vs2, Some(d), k) != Some(a),
    decreases k,
{
    if k > 0 {
        let k1 = (k - 1) as nat;
        lemma_chain_from_d(vs1, vs2, a, d, k1);
        lemma_chain_succ(vs1, Some(d), k1);
        lemma_chain_succ(vs2, Some(d), k1);
        assert(chain(vs1, Some(d), k) != Some(a));
    }
}

/// `vs2` is `vs1` after voter `ai` delegated to voter `di`: `ai` now points at
/// `di`, and `di` lists `ai` and carries its power on top of its weight.
pub open spec fn delegation_applied(vs1: Seq<Voter>, vs2: Seq<Voter>, ai: int, di: int) -> bool {
    &&& vs2.len() == vs1.len()
    &&& forall|i: int| 0 <= i < vs1.len() && i != ai && i != di ==> #[trigger] vs2[i] == vs1[i]
    &&& vs2[ai] == (Voter { delegated_to: vs2[ai].delegated_to, ..vs1[ai] })
    &&& opt_id(vs2[ai].delegated_to) == Some(vs1[di].identifier@)
    &&& vs2[di] == (Voter {
        delegated_from: vs2[di].delegated_from,
        vote_weight: vs2[di].vote_weight,
        ..vs1[di]
    })
    &&& vs2[di].delegated_from@.len() == vs1[di].delegated_from@.len() + 1
    &&& vs2[di].delegated_from@.drop_last() == vs1[di].delegated_from@
    &&& vs2[di].delegated_from@.last()@ == vs1[ai].identifier@
    &&& vs2[di].vote_weight == vs1[di].vote_weight + vs1[ai].voting_power
}

/// A delegation whose delegate never leads back to the delegator keeps the invariant.
pub proof fn lemma_delegate_wf(vs1: Seq<Voter>, vs2: Seq<Voter>, ai: int, di: int)
    requires
        voters_wf(vs1),
        0 <= ai < vs1.len(),
        0 <= di < vs1.len(),
        ai != di,
        delegation_applied(vs1, vs2, ai, di),
        forall|k: nat| #[trigger] chain(vs1, Some(vs1[di].identifier@), k) != Some(
            vs1[ai].identifier@,
        ),
    ensures
        voters_wf(vs2),
{
    let a = vs1[ai].identifier@;
    let d = vs1[di].identifier@;
    assert(vs2[ai].identifier@ == a);
    assert(vs2[di].identifier@ == d);
    assert forall|i: int| 0 <= i < vs1.len() implies #[trigger] vs2[i].identifier@
        == vs1[i].identifier@ && vs2[i].voting_power == vs1[i].voting_power by {
        if i != ai && i != di {
            assert(vs2[i] == vs1[i]);
        }
    }
    assert(voter_ids_unique(vs2)) by {
        assert forall|i: int, j: int|
            0 <= i < vs2.len() && 0 <= j < vs2.len() && i != j implies #[trigger] vs2[i].identifier@
            != #[trigger] vs2[j].identifier@ by {
            assert(vs1[i].identifier@ != vs1[j].identifier@);
        }
    }
    assert forall|id: Seq<char>|
        #[trigger] has_voter(vs1, id) == has_voter(vs2, id) && (has_voter(vs1, id) ==> voter_index(
            vs1,
            id,
        ) == voter_index(vs2, id)) by {
        if has_voter(vs1, id) {
            let i = voter_index(vs1, id);
            assert(vs2[i].identifier@ == id);
            lemma_voter_index(vs2, i);
        }
        if has_voter(vs2, id) {
            let i = voter_index(vs2, id);
            assert(vs1[i].identifier@ == id);
        }
    }
    assert forall|id: Seq<char>| #[trigger] power_of(vs1, id) == power_of(vs2, id) by {
        assert(has_voter(vs1, id) == has_voter(vs2, id));
    }
    lemma_voter_index(vs1, ai);
    lemma_voter_index(vs1, di);
    assert forall|x: Seq<char>| x != a implies #[trigger] delegate_of(vs2, x) == delegate_of(
        vs1,
        x,
    ) by {
        assert(has_voter(vs1, x) == has_voter(vs2, x));
        if has_voter(vs1, x) {
            let i = voter_index(vs1, x);
            assert(i != ai);
            if i != di {
                assert(vs2[i] == vs1[i]);
            }
        }
    }
    assert(delegate_of(vs2, a) == Some(d)) by {
        assert(has_voter(vs1, a));
    }
    lemma_delegate_acyclic(vs1, vs2, a, d);
    assert forall|i: int, j: int|
        0 <= i < vs2.len() && 0 <= j < vs2[i].delegated_from@.len() implies has_voter(
        vs2,
        #[trigger] vs2[i].delegated_from@[j]@,
    ) by {
        if i == di {
            let f1 = vs1[di].delegated_from@;
            let f2 = vs2[di].delegated_from@;
            if j < f1.len() {
                assert(f2[j] == f2.drop_last()[j]);
                assert(has_voter(vs1, f1[j]@));
            } else {
                assert(f2[j]@ == a);
            }
        } else if i == ai {
            assert(has_voter(vs1, vs1[ai].delegated_from@[j]@));
        } else {
            assert(vs2[i] == vs1[i]);
            assert(has_voter(vs1, vs1[i].delegated_from@[j]@));
        }
    }
    assert forall|i: int|
        0 <= i < vs2.len() && (#[trigger] vs2[i].delegated_to) is Some implies has_voter(
        vs2,
        vs2[i].delegated_to->Some_0@,
    ) by {
        if i == ai {
            assert(vs2[di].identifier@ == d);
        } else {
            assert(vs2[i].delegated_to == vs1[i].delegated_to);
            assert(has_voter(vs1, vs1[i].delegated_to->Some_0@));
        }
    }
    assert forall|i: int| 0 <= i < vs2.len() implies #[trigger] vs2[i].vote_weight
        == vs2[i].voting_power + powers_sum(vs2, vs2[i].delegated_from@) by {
        assert(vs1[i].vote_weight == vs1[i].voting_power + powers_sum(
            vs1,
            vs1[i].delegated_from@,
        ));
        lemma_powers_sum_same(vs1, vs2, vs1[i].delegated_from@);
        if i == di {
            let f2 = vs2[di].delegated_from@;
            assert(f2 =~= vs1[di].delegated_from@.push(f2.last()));
            lemma_powers_sum_push(vs2, vs1[di].delegated_from@, f2.last());
            assert(power_of(vs1, a) == vs1[ai].voting_power);
        } else if i != ai {
            assert(vs2[i] == vs1[i]);
        }
    }
}

/// Each step of a chain from a registered voter lands on a registered voter,
/// if anywhere.
pub proof fn lemma_chain_registered(vs: Seq<Voter>, d: Seq<char>, j: nat)
    requires
        voters_wf(vs),
        has_voter(vs, d),
    ensures
        chain(vs, Some(d), j) is Some ==> has_voter(vs, chain(vs, Some(d), j)->Some_0),
    decreases j,
{
    if j > 0 {
        let j1 = (j - 1) as nat;
        lemma_chain_registered(vs, d, j1);
        lemma_chain_succ(vs, Some(d), j1);
        let c = chain(vs, Some(d), j1);
        if c is Some {
            let x = c->Some_0;
            let i = voter_index(vs, x);
            assert(vs[i].identifier@ == x);
            if vs[i].delegated_to is Some {
                assert(has_voter(vs, vs[i].delegated_to->Some_0@));
            }
        }
    }
}

/// In a registry without cycles, a chain from a registered voter ends within
/// as many steps as there are voters.
pub proof fn lemma_chain_ends(vs: Seq<Voter>, d: Seq<char>)
    requires
        voters_wf(vs),
        has_voter(vs, d),
    ensures
        chain(vs, Some(d), vs.len() as nat) is None,
{
    let n = vs.len() as int;
    if chain(vs, Some(d), n as nat) is Some {
        assert forall|j: nat| j <= n implies #[trigger] chain(vs, Some(d), j) is Some by {
            if chain(vs, Some(d), j) is None {
                lemma_chain_add(vs, Some(d), j, (n - j) as nat);
                lemma_chain_none(vs, (n - j) as nat);
            }
        }
        let f = |j: int| voter_index(vs, chain(vs, Some(d), j as nat)->Some_0);
        let x = set_int_range(0, n + 1);
        let y = x.map(f);
        lemma_int_range(0, n + 1);
        lemma_int_range(0, n);
        assert forall|j: int| x.contains(j) implies 0 <= #[trigger] f(j) < n && vs[f(j)].identifier@
            == chain(vs, Some(d), j as nat)->Some_0 by {
            assert(chain(vs, Some(d), j as nat) is Some);
            lemma_chain_registered(vs, d, j as nat);
        }
        assert(injective_on(f, x)) by {
            assert forall|i: int, j: int|
                x.contains(i) && x.contains(j) && #[trigger] f(i) == #[trigger] f(j) implies i
                == j by {
                let ci = chain(vs, Some(d), i as nat);
                let cj = chain(vs, Some(d), j as nat);
                assert(ci == cj);
                if i < j {
                    lemma_chain_add(vs, Some(d), i as nat, (j - i) as nat);
                    assert(chain(vs, Some(ci->Some_0), (j - i) as nat) != Some(ci->Some_0));
                } else if j < i {
                    lemma_chain_add(vs, Some(d), j as nat, (i - j) as nat);
                    assert(chain(vs, Some(cj->Some_0), (i - j) as nat) != Some(cj->Some_0));
                }
            }
        }
        lemma_map_size(x, y, f);
        assert(y.subset_of(set_int_range(0, n))) by {
            assert forall|k: int| y.contains(k) implies set_int_range(0, n).contains(k) by {
                let j = choose|j: int| x.contains(j) && f(j) == k;
                assert(0 <= f(j) < n);
            }
        }
        lemma_len_subset(y, set_int_range(0, n));
    }
}

} // verus!
