use crate::outside::{decimal, decimal_string, sha256_hex, sha256_hex_of, trim_str, trimmed, unix_now};
use crate::power::{quadratic_power, round_weight, rounded_votes, voting_power_for, POWER_SCALE};
use crate::registry::{
    candidate_codes_unique, candidate_index, chain, delegation_applied,
    has_candidate, has_user, has_voter, leads_to, lemma_chain_add, lemma_chain_ends,
    lemma_chain_none, lemma_chain_succ,
    lemma_delegate_wf, lemma_push_wf, lemma_same_links_wf, lemma_voter_index, opt_id, same_links,
    user_ids_unique, user_index, voter_ids_unique, voter_index, voters_wf,
};
use crate::types::{
    access_denied, fails_with, invalid_input, operation_failed, state_error, timelock_error,
    Candidate, ContractConfig, ContractError, ElectionState, ErrorKind, Event, Role,
    TimelockAction, User, VoteRecord, Voter,
};
use vstd::prelude::*;
use vstd::string::StringExecFns;

verus! {

/// The election ledger: one administrator, the registries of users, voters
/// and candidates, the election phase, the timelocked actions, the vote
/// records and the audit log.
///
/// Every operation takes `&mut self`; a caller that shares a contract between
/// threads guards the whole of it with one lock, so that each operation is
/// atomic.
pub struct ElectionContract {
    state: ElectionState,
    admin: String,
    voters: Vec<Voter>,
    candidates: Vec<Candidate>,
    events: Vec<Event>,
    voted_addresses: Vec<String>,
    config: ContractConfig,
    users: Vec<User>,
    timelocks: Vec<TimelockAction>,
    vote_records: Vec<VoteRecord>,
}

/// The phase may go from `a` to `b` in one operation.
pub open spec fn phase_step(a: ElectionState, b: ElectionState) -> bool {
    ||| a == b
    ||| b == ElectionState::Announced
    ||| a == ElectionState::Announced && b == ElectionState::Started
    ||| a == ElectionState::Started && b == ElectionState::Happening
    ||| (a == ElectionState::Started || a == ElectionState::Happening) && b
        == ElectionState::Ended
}

/// `post` is `pre` with one event of type `ty`, emitted by `by`, appended.
pub open spec fn logged(pre: Seq<Event>, post: Seq<Event>, ty: Seq<char>, by: Seq<char>) -> bool {
    &&& post.len() == pre.len() + 1
    &&& post.drop_last() == pre
    &&& post.last().event_type@ == ty
    &&& post.last().emitted_by@ == by
}

/// `post` is `pre` with two events appended, of types `ty1` then `ty2`, both emitted by `by`.
pub open spec fn logged_two(
    pre: Seq<Event>,
    post: Seq<Event>,
    ty1: Seq<char>,
    ty2: Seq<char>,
    by: Seq<char>,
) -> bool {
    &&& post.len() == pre.len() + 2
    &&& post.subrange(0, pre.len() as int) == pre
    &&& post[pre.len() as int].event_type@ == ty1
    &&& post[pre.len() as int].emitted_by@ == by
    &&& post[pre.len() as int + 1].event_type@ == ty2
    &&& post[pre.len() as int + 1].emitted_by@ == by
}

/// The time from which an action proposed at `now` may run.
pub open spec fn eligible_time(now: u64, delay: u64) -> u64 {
    if now + delay > u64::MAX {
        u64::MAX
    } else {
        (now + delay) as u64
    }
}

/// The text that a vote's integrity hash is computed from.
pub open spec fn vote_message(voter_id: Seq<char>, code: u64, timestamp: u64) -> Seq<char> {
    voter_id + ":"@ + decimal(code as nat) + ":"@ + decimal(timestamp as nat)
}

/// The text that a candidate's proposal hash is computed from.
pub open spec fn proposal_message(
    name: Seq<char>,
    code: u64,
    description: Seq<char>,
    url: Seq<char>,
) -> Seq<char> {
    name + ":"@ + decimal(code as nat) + ":"@ + description + ":"@ + url
}

/// The record's stored hash is the digest of its own fields.
pub open spec fn record_intact(r: VoteRecord) -> bool {
    r.vote_hash@ == sha256_hex(vote_message(r.voter_id@, r.candidate_code, r.timestamp))
}

/// A timelocked action is not both executed and canceled.
pub open spec fn settled_once(a: TimelockAction) -> bool {
    !(a.executed && a.canceled)
}

pub open spec fn timelocks_wf(ts: Seq<TimelockAction>) -> bool {
    forall|i: int| 0 <= i < ts.len() ==> settled_once(#[trigger] ts[i])
}

pub open spec fn records_wf(rs: Seq<VoteRecord>) -> bool {
    forall|i: int| 0 <= i < rs.len() ==> record_intact(#[trigger] rs[i])
}

/// A timelocked action that is neither executed nor canceled.
pub open spec fn pending(a: TimelockAction) -> bool {
    !a.executed && !a.canceled
}

/// `i` is the first record of voter `id` in `rs`.
pub open spec fn first_record_of(rs: Seq<VoteRecord>, id: Seq<char>, i: int) -> bool {
    &&& 0 <= i < rs.len()
    &&& rs[i].voter_id@ == id
    &&& forall|j: int| 0 <= j < i ==> #[trigger] rs[j].voter_id@ != id
}

/// Some record of `rs` belongs to voter `id`.
pub open spec fn has_record(rs: Seq<VoteRecord>, id: Seq<char>) -> bool {
    exists|i: int| 0 <= i < rs.len() && #[trigger] rs[i].voter_id@ == id
}

/// `c` has the most votes in `cs`, and the lowest code among those that tie with it.
pub open spec fn is_winner(cs: Seq<Candidate>, c: Candidate) -> bool {
    &&& exists|i: int| 0 <= i < cs.len() && cs[i] == c
    &&& forall|j: int| 0 <= j < cs.len() ==> #[trigger] cs[j].num_votes <= c.num_votes
    &&& forall|j: int|
        0 <= j < cs.len() && #[trigger] cs[j].num_votes == c.num_votes ==> c.code <= cs[j].code
}

/// The actions of `ts` that are still pending, in order.
pub open spec fn pending_actions(ts: Seq<TimelockAction>) -> Seq<TimelockAction>
    decreases ts.len(),
{
    if ts.len() == 0 {
        Seq::empty()
    } else if pending(ts.last()) {
        pending_actions(ts.drop_last()).push(ts.last())
    } else {
        pending_actions(ts.drop_last())
    }
}

/// `cs` with candidate `c` inserted, or put in place of the one with its code.
pub open spec fn upsert_candidate(cs: Seq<Candidate>, c: Candidate) -> Seq<Candidate> {
    if has_candidate(cs, c.code) {
        cs.update(candidate_index(cs, c.code), c)
    } else {
        cs.push(c)
    }
}

/// `cs` after upserting each candidate of `loaded` in turn.
pub open spec fn upsert_candidates(cs: Seq<Candidate>, loaded: Seq<Candidate>) -> Seq<Candidate>
    decreases loaded.len(),
{
    if loaded.len() == 0 {
        cs
    } else {
        upsert_candidate(upsert_candidates(cs, loaded.drop_last()), loaded.last())
    }
}

/// A loaded voter record that can join `vs` without disturbing delegations:
/// a new identifier, no delegation links, and a weight equal to its power.
pub open spec fn admissible_voter(vs: Seq<Voter>, v: Voter) -> bool {
    &&& !has_voter(vs, v.identifier@)
    &&& v.delegated_to is None
    &&& v.delegated_from@.len() == 0
    &&& v.vote_weight == v.voting_power
}

/// `vs` after adding, in turn, each admissible voter of `loaded`.
pub open spec fn admit_voters(vs: Seq<Voter>, loaded: Seq<Voter>) -> Seq<Voter>
    decreases loaded.len(),
{
    if loaded.len() == 0 {
        vs
    } else {
        let before = admit_voters(vs, loaded.drop_last());
        if admissible_voter(before, loaded.last()) {
            before.push(loaded.last())
        } else {
            before
        }
    }
}

impl ElectionContract {
    pub closed spec fn phase(&self) -> ElectionState {
        self.state
    }

    pub closed spec fn admin_id(&self) -> Seq<char> {
        self.admin@
    }

    pub closed spec fn voter_list(&self) -> Seq<Voter> {
        self.voters@
    }

    pub closed spec fn candidate_list(&self) -> Seq<Candidate> {
        self.candidates@
    }

    pub closed spec fn user_list(&self) -> Seq<User> {
        self.users@
    }

    pub closed spec fn timelock_list(&self) -> Seq<TimelockAction> {
        self.timelocks@
    }

    pub closed spec fn record_list(&self) -> Seq<VoteRecord> {
        self.vote_records@
    }

    pub closed spec fn event_list(&self) -> Seq<Event> {
        self.events@
    }

    pub closed spec fn settings(&self) -> ContractConfig {
        self.config
    }

    /// The invariant kept by every operation.
    pub open spec fn wf(&self) -> bool {
        &&& voters_wf(self.voter_list())
        &&& user_ids_unique(self.user_list())
        &&& candidate_codes_unique(self.candidate_list())
        &&& timelocks_wf(self.timelock_list())
        &&& records_wf(self.record_list())
    }

    /// A contract in the Announced phase, with no participants and the
    /// default settings.
    pub fn new(admin_address: String) -> (c: ElectionContract)
        ensures
            c.wf(),
            c.phase() == ElectionState::Announced,
            c.admin_id() == admin_address@,
            c.voter_list().len() == 0,
            c.candidate_list().len() == 0,
            c.user_list().len() == 0,
            c.timelock_list().len() == 0,
            c.record_list().len() == 0,
            c.event_list().len() == 0,
            c.settings().timelock_delay == 172800,
            c.settings().min_social_graph_score == 5,
            c.settings().min_account_age_seconds == 604800,
            c.settings().voting_period_seconds == 86400,
            c.settings().quadratic_voting_enabled,
            c.settings().delegation_enabled,
            !c.settings().emergency_stop,
    {
        Self::with_config(admin_address, ContractConfig::default())
    }

    /// A contract in the Announced phase, with no participants and `config`.
    pub fn with_config(admin_address: String, config: ContractConfig) -> (c: ElectionContract)
        ensures
            c.wf(),
            c.phase() == ElectionState::Announced,
            c.admin_id() == admin_address@,
            c.voter_list().len() == 0,
            c.candidate_list().len() == 0,
            c.user_list().len() == 0,
            c.timelock_list().len() == 0,
            c.record_list().len() == 0,
            c.event_list().len() == 0,
            c.settings() == config,
    {
        let c = ElectionContract {
            state: ElectionState::Announced,
            admin: admin_address,
            voters: Vec::new(),
            candidates: Vec::new(),
            events: Vec::new(),
            voted_addresses: Vec::new(),
            config,
            users: Vec::new(),
            timelocks: Vec::new(),
            vote_records: Vec::new(),
        };
        proof {
            assert forall|id: Seq<char>, k: nat| k >= 1 implies #[trigger] chain(
                c.voters@,
                Some(id),
                k,
            ) != Some(id) by {
                lemma_chain_succ(c.voters@, Some(id), 0);
                lemma_chain_add(c.voters@, Some(id), 1, (k - 1) as nat);
                lemma_chain_none(c.voters@, (k - 1) as nat);
            }
        }
        c
    }

    /// Whether `caller` is the administrator.
    pub fn is_admin(&self, caller: &str) -> (r: bool)
        ensures
            r == (caller@ == self.admin_id()),
    {
        let c = String::from_str(caller);
        self.admin == c
    }

    /// Appends an event to the audit log.
    fn emit_event(&mut self, event_type: &str, data: String, emitted_by: &str, now: u64)
        ensures
            logged(old(self).events@, final(self).events@, event_type@, emitted_by@),
            final(self).events@.last().timestamp == now,
            final(self).state == old(self).state,
            final(self).admin == old(self).admin,
            final(self).voters == old(self).voters,
            final(self).candidates == old(self).candidates,
            final(self).voted_addresses == old(self).voted_addresses,
            final(self).config == old(self).config,
            final(self).users == old(self).users,
            final(self).timelocks == old(self).timelocks,
            final(self).vote_records == old(self).vote_records,
    {
        let event = Event {
            event_type: String::from_str(event_type),
            timestamp: now,
            data,
            emitted_by: String::from_str(emitted_by),
            block_number: None,
            transaction_hash: None,
        };
        self.events.push(event);
        proof {
            assert(self.events@.drop_last() =~= old(self).events@);
        }
    }

    /// The administrator and all registries and ledgers of `other` are those of `self`.
    pub open spec fn same_registries(&self, other: &ElectionContract) -> bool {
        &&& other.admin_id() == self.admin_id()
        &&& other.voter_list() == self.voter_list()
        &&& other.candidate_list() == self.candidate_list()
        &&& other.user_list() == self.user_list()
        &&& other.timelock_list() == self.timelock_list()
        &&& other.record_list() == self.record_list()
    }

    /// The first check of an admin-only operation that turns `caller` away:
    /// the admin gate, then the emergency stop.
    pub open spec fn gate_error(&self, caller: Seq<char>) -> Option<ErrorKind> {
        if caller != self.admin_id() {
            Some(ErrorKind::AccessDenied)
        } else if self.settings().emergency_stop {
            Some(ErrorKind::StateError)
        } else {
            None
        }
    }

    /// Only the phase and the audit log of `other` may differ from `self`.
    pub open spec fn only_phase_changed(&self, other: &ElectionContract) -> bool {
        &&& self.same_registries(other)
        &&& other.settings() == self.settings()
    }

    fn check_emergency_stop(&self) -> (r: Result<(), ContractError>)
        ensures
            self.settings().emergency_stop ==> fails_with(r, ErrorKind::StateError),
            !self.settings().emergency_stop ==> r is Ok,
    {
        if self.config.emergency_stop {
            return Err(state_error("Contract is in emergency stop mode"));
        }
        Ok(())
    }

    fn check_gate(&self, caller: &str, denied: &str) -> (r: Result<(), ContractError>)
        ensures
            match self.gate_error(caller@) {
                Some(k) => fails_with(r, k),
                None => r is Ok,
            },
    {
        if !self.is_admin(caller) {
            return Err(access_denied(denied));
        }
        self.check_emergency_stop()
    }

    /// Admin-only: suspends all state-changing operations.
    pub fn emergency_stop(&mut self, caller: &str) -> (r: Result<(), ContractError>)
        requires
            old(self).wf(),
        ensures
            final(self).wf(),
            caller@ != old(self).admin_id() ==> fails_with(r, ErrorKind::AccessDenied)
                && *final(self) == *old(self),
            caller@ == old(self).admin_id() ==> {
                &&& r is Ok
                &&& final(self).settings() == (ContractConfig {
                    emergency_stop: true,
                    ..old(self).settings()
                })
                &&& final(self).phase() == old(self).phase()
                &&& old(self).same_registries(&*final(self))
                &&& logged(
                    old(self).event_list(),
                    final(self).event_list(),
                    "EmergencyStop"@,
                    caller@,
                )
            },
    {
        if !self.is_admin(caller) {
            return Err(access_denied("Only admin can trigger emergency stop"));
        }
        self.config.emergency_stop = true;
        let now = unix_now();
        self.emit_event(
            "EmergencyStop",
            String::from_str("Contract operations suspended"),
            caller,
            now,
        );
        Ok(())
    }

    /// Admin-only: lifts the emergency stop.
    pub fn resume_operations(&mut self, caller: &str) -> (r: Result<(), ContractError>)
        requires
            old(self).wf(),
        ensures
            final(self).wf(),
            caller@ != old(self).admin_id() ==> fails_with(r, ErrorKind::AccessDenied)
                && *final(self) == *old(self),
            caller@ == old(self).admin_id() ==> {
                &&& r is Ok
                &&& final(self).settings() == (ContractConfig {
                    emergency_stop: false,
                    ..old(self).settings()
                })
                &&& final(self).phase() == old(self).phase()
                &&& old(self).same_registries(&*final(self))
                &&& logged(
                    old(self).event_list(),
                    final(self).event_list(),
                    "ResumeOperations"@,
                    caller@,
                )
            },
    {
        if !self.is_admin(caller) {
            return Err(access_denied("Only admin can resume operations"));
        }
        self.config.emergency_stop = false;
        let now = unix_now();
        self.emit_event(
            "ResumeOperations",
            String::from_str("Contract operations resumed"),
            caller,
            now,
        );
        Ok(())
    }

    /// Admin-only: (re)opens an election cycle in the Announced phase, from any phase.
    pub fn announce_election(&mut self, caller: &str) -> (r: Result<(), ContractError>)
        requires
            old(self).wf(),
        ensures
            final(self).wf(),
            phase_step(old(self).phase(), final(self).phase()),
            match old(self).gate_error(caller@) {
                Some(k) => fails_with(r, k) && *final(self) == *old(self),
                None => {
                    &&& r is Ok
                    &&& final(self).phase() == ElectionState::Announced
                    &&& old(self).only_phase_changed(&*final(self))
                    &&& logged(
                        old(self).event_list(),
                        final(self).event_list(),
                        "ElectionAnnounced"@,
                        caller@,
                    )
                },
            },
    {
        self.check_gate(caller, "Only admin can announce elections")?;
        self.state = ElectionState::Announced;
        let now = unix_now();
        self.emit_event(
            "ElectionAnnounced",
            String::from_str("Election has been announced"),
            caller,
            now,
        );
        Ok(())
    }

    /// Admin-only: moves the election from Announced to Started.
    pub fn start_election(&mut self, caller: &str) -> (r: Result<(), ContractError>)
        requires
            old(self).wf(),
        ensures
            final(self).wf(),
            phase_step(old(self).phase(), final(self).phase()),
            match old(self).gate_error(caller@) {
                Some(k) => fails_with(r, k) && *final(self) == *old(self),
                None => if old(self).phase() != ElectionState::Announced {
                    fails_with(r, ErrorKind::StateError) && *final(self) == *old(self)
                } else {
                    &&& r is Ok
                    &&& final(self).phase() == ElectionState::Started
                    &&& old(self).only_phase_changed(&*final(self))
                    &&& logged(
                        old(self).event_list(),
                        final(self).event_list(),
                        "ElectionStarted"@,
                        caller@,
                    )
                },
            },
    {
        self.check_gate(caller, "Only admin can start elections")?;
        if self.state != ElectionState::Announced {
            return Err(state_error("Election must be in Announced state to start"));
        }
        self.state = ElectionState::Started;
        let now = unix_now();
        self.emit_event(
            "ElectionStarted",
            String::from_str("Election has been started"),
            caller,
            now,
        );
        Ok(())
    }

    /// Admin-only: ends an election that is Started or Happening.
    pub fn end_election(&mut self, caller: &str) -> (r: Result<(), ContractError>)
        requires
            old(self).wf(),
        ensures
            final(self).wf(),
            phase_step(old(self).phase(), final(self).phase()),
            match old(self).gate_error(caller@) {
                Some(k) => fails_with(r, k) && *final(self) == *old(self),
                None => if old(self).phase() != ElectionState::Started && old(self).phase()
                    != ElectionState::Happening {
                    fails_with(r, ErrorKind::StateError) && *final(self) == *old(self)
                } else {
                    &&& r is Ok
                    &&& final(self).phase() == ElectionState::Ended
                    &&& old(self).only_phase_changed(&*final(self))
                    &&& logged(
                        old(self).event_list(),
                        final(self).event_list(),
                        "ElectionEnded"@,
                        caller@,
                    )
                },
            },
    {
        self.check_gate(caller, "Only admin can end elections")?;
        if self.state != ElectionState::Started && self.state != ElectionState::Happening {
            return Err(state_error("Election must be in Started or Happening state to end"));
        }
        self.state = ElectionState::Ended;
        let now = unix_now();
        self.emit_event("ElectionEnded", String::from_str("Election has been ended"), caller, now);
        Ok(())
    }

    fn find_voter(&self, id: &String) -> (r: Option<usize>)
        ensures
            match r {
                Some(i) => i < self.voters@.len() && self.voters@[i as int].identifier@ == id@,
                None => !has_voter(self.voters@, id@),
            },
    {
        let mut i: usize = 0;
        while i < self.voters.len()
            invariant
                i <= self.voters@.len(),
                forall|j: int| 0 <= j < i ==> #[trigger] self.voters@[j].identifier@ != id@,
            decreases self.voters@.len() - i,
        {
            if self.voters[i].identifier == *id {
                return Some(i);
            }
            i += 1;
        }
        None
    }

    fn find_user(&self, id: &String) -> (r: Option<usize>)
        ensures
            match r {
                Some(i) => i < self.users@.len() && self.users@[i as int].identifier@ == id@,
                None => !has_user(self.users@, id@),
            },
    {
        let mut i: usize = 0;
        while i < self.users.len()
            invariant
                i <= self.users@.len(),
                forall|j: int| 0 <= j < i ==> #[trigger] self.users@[j].identifier@ != id@,
            decreases self.users@.len() - i,
        {
            if self.users[i].identifier == *id {
                return Some(i);
            }
            i += 1;
        }
        None
    }

    fn find_candidate(&self, code: u64) -> (r: Option<usize>)
        ensures
            match r {
                Some(i) => i < self.candidates@.len() && self.candidates@[i as int].code == code,
                None => !has_candidate(self.candidates@, code),
            },
    {
        let mut i: usize = 0;
        while i < self.candidates.len()
            invariant
                i <= self.candidates@.len(),
                forall|j: int| 0 <= j < i ==> #[trigger] self.candidates@[j].code != code,
            decreases self.candidates@.len() - i,
        {
            if self.candidates[i].code == code {
                return Some(i);
            }
            i += 1;
        }
        None
    }

    /// The first check of `add_candidate` that fails, if any.
    pub open spec fn add_candidate_error(&self, caller: Seq<char>, name: Seq<char>, code: u64) -> Option<
        ErrorKind,
    > {
        if self.gate_error(caller) is Some {
            self.gate_error(caller)
        } else if self.phase() != ElectionState::Announced {
            Some(ErrorKind::StateError)
        } else if trimmed(name).len() == 0 {
            Some(ErrorKind::InvalidInput)
        } else if has_candidate(self.candidate_list(), code) {
            Some(ErrorKind::InvalidInput)
        } else {
            None
        }
    }

    /// What `add_candidate` does at time `now`.
    pub open spec fn add_candidate_outcome(
        &self,
        post: &ElectionContract,
        caller: Seq<char>,
        name: Seq<char>,
        code: u64,
        description: Seq<char>,
        proposal_url: Seq<char>,
        now: u64,
        r: Result<(), ContractError>,
    ) -> bool {
        match self.add_candidate_error(caller, name, code) {
            Some(k) => fails_with(r, k) && *post == *self,
            None => {
                let c = post.candidate_list().last();
                &&& r is Ok
                &&& post.candidate_list().drop_last() == self.candidate_list()
                &&& post.candidate_list().len() == self.candidate_list().len() + 1
                &&& c.name@ == name && c.code == code && c.num_votes == 0
                &&& c.description@ == description && c.proposal_url@ == proposal_url
                &&& c.created_at == now && c.created_by@ == caller
                &&& c.proposal_hash@ == sha256_hex(
                    proposal_message(name, code, description, proposal_url),
                )
                &&& post.phase() == self.phase() && post.settings() == self.settings()
                &&& post.admin_id() == self.admin_id() && post.voter_list() == self.voter_list()
                &&& post.user_list() == self.user_list() && post.timelock_list()
                    == self.timelock_list()
                &&& post.record_list() == self.record_list()
                &&& logged(self.event_list(), post.event_list(), "CandidateAdded"@, caller)
            },
        }
    }

    /// Admin-only, in the Announced phase: adds a candidate with a fresh code
    /// and a non-blank name, stamped with `now`, its author and the digest of
    /// its proposal.
    pub fn add_candidate_at(
        &mut self,
        caller: &str,
        name: &str,
        code: u64,
        description: &str,
        proposal_url: &str,
        now: u64,
    ) -> (r: Result<(), ContractError>)
        requires
            old(self).wf(),
        ensures
            final(self).wf(),
            phase_step(old(self).phase(), final(self).phase()),
            old(self).add_candidate_outcome(
                &*final(self),
                caller@,
                name@,
                code,
                description@,
                proposal_url@,
                now,
                r,
            ),
    {
        self.check_gate(caller, "Only admin can add candidates")?;
        if self.state != ElectionState::Announced {
            return Err(state_error("Candidates can only be added in Announced state"));
        }
        if trim_str(name).is_empty() {
            return Err(invalid_input("Candidate name cannot be empty"));
        }
        if self.find_candidate(code).is_some() {
            return Err(invalid_input("Candidate with this code already exists"));
        }
        let code_text = decimal_string(code);
        let mut text = String::from_str(name);
        text.append(":");
        text.append(code_text.as_str());
        text.append(":");
        text.append(description);
        text.append(":");
        text.append(proposal_url);
        let proposal_hash = sha256_hex_of(text.as_str());
        let candidate = Candidate {
            name: String::from_str(name),
            num_votes: 0,
            code,
            description: String::from_str(description),
            created_at: now,
            created_by: String::from_str(caller),
            proposal_hash,
            proposal_url: String::from_str(proposal_url),
        };
        let ghost pre = self.candidates@;
        self.candidates.push(candidate);
        proof {
            assert(self.candidates@.drop_last() =~= pre);
            assert(candidate_codes_unique(self.candidates@)) by {
                assert forall|i: int, j: int|
                    0 <= i < self.candidates@.len() && 0 <= j < self.candidates@.len() && i
                        != j implies #[trigger] self.candidates@[i].code
                    != #[trigger] self.candidates@[j].code by {
                    if i < pre.len() && j < pre.len() {
                        assert(pre[i] == self.candidates@[i]);
                        assert(pre[j] == self.candidates@[j]);
                    } else if i < pre.len() {
                        assert(pre[i] == self.candidates@[i]);
                    } else {
                        assert(pre[j] == self.candidates@[j]);
                    }
                }
            }
        }
        let mut data = String::from_str("Candidate ");
        data.append(name);
        data.append(" added with code ");
        data.append(code_text.as_str());
        self.emit_event("CandidateAdded", data, caller, now);
        Ok(())
    }

    /// `add_candidate_at`, stamped with the current time.
    pub fn add_candidate(
        &mut self,
        caller: &str,
        name: &str,
        code: u64,
        description: &str,
        proposal_url: &str,
    ) -> (r: Result<(), ContractError>)
        requires
            old(self).wf(),
        ensures
            final(self).wf(),
            phase_step(old(self).phase(), final(self).phase()),
            exists|now: u64|
                old(self).add_candidate_outcome(
                    &*final(self),
                    caller@,
                    name@,
                    code,
                    description@,
                    proposal_url@,
                    now,
                    r,
                ),
    {
        let now = unix_now();
        self.add_candidate_at(caller, name, code, description, proposal_url, now)
    }

    /// The first check of `register_user` that fails, if any.
    pub open spec fn register_user_error(&self, caller: Seq<char>, user_id: Seq<char>, score: u64) -> Option<
        ErrorKind,
    > {
        if self.gate_error(caller) is Some {
            self.gate_error(caller)
        } else if trimmed(user_id).len() == 0 {
            Some(ErrorKind::InvalidInput)
        } else if score < self.settings().min_social_graph_score {
            Some(ErrorKind::InvalidInput)
        } else if has_user(self.user_list(), user_id) {
            Some(ErrorKind::InvalidInput)
        } else {
            None
        }
    }

    /// What `register_user` does at time `now`.
    pub open spec fn register_user_outcome(
        &self,
        post: &ElectionContract,
        caller: Seq<char>,
        user_id: Seq<char>,
        identity_proof: Seq<char>,
        score: u64,
        now: u64,
        r: Result<(), ContractError>,
    ) -> bool {
        match self.register_user_error(caller, user_id, score) {
            Some(k) => fails_with(r, k) && *post == *self,
            None => {
                let u = post.user_list().last();
                &&& r is Ok
                &&& post.user_list().drop_last() == self.user_list()
                &&& post.user_list().len() == self.user_list().len() + 1
                &&& u.identifier@ == user_id && u.identity_proof@ == identity_proof
                &&& u.roles@ == seq![Role::Voter]
                &&& u.reputation_score == score && u.social_graph_score == score
                &&& u.verified && u.registration_time == now
                &&& post.phase() == self.phase() && post.settings() == self.settings()
                &&& post.admin_id() == self.admin_id() && post.voter_list() == self.voter_list()
                &&& post.candidate_list() == self.candidate_list()
                &&& post.timelock_list() == self.timelock_list()
                &&& post.record_list() == self.record_list()
                &&& logged(self.event_list(), post.event_list(), "UserRegistered"@, caller)
            },
        }
    }

    /// Admin-only: admits a verified user whose social-graph score reaches the
    /// configured minimum; the score also becomes the user's reputation.
    pub fn register_user_at(
        &mut self,
        caller: &str,
        user_id: &str,
        identity_proof: &str,
        social_graph_score: u64,
        now: u64,
    ) -> (r: Result<(), ContractError>)
        requires
            old(self).wf(),
        ensures
            final(self).wf(),
            phase_step(old(self).phase(), final(self).phase()),
            old(self).register_user_outcome(
                &*final(self),
                caller@,
                user_id@,
                identity_proof@,
                social_graph_score,
                now,
                r,
            ),
    {
        self.check_gate(caller, "Only admin can register users")?;
        if trim_str(user_id).is_empty() {
            return Err(invalid_input("User ID cannot be empty"));
        }
        if social_graph_score < self.config.min_social_graph_score {
            return Err(invalid_input("Social graph score too low"));
        }
        let id = String::from_str(user_id);
        if self.find_user(&id).is_some() {
            return Err(invalid_input("User with this ID is already registered"));
        }
        let mut roles: Vec<Role> = Vec::new();
        roles.push(Role::Voter);
        proof {
            assert(roles@ =~= seq![Role::Voter]);
        }
        let user = User {
            identifier: id,
            roles,
            reputation_score: social_graph_score,
            verified: true,
            identity_proof: String::from_str(identity_proof),
            social_graph_score,
            registration_time: now,
        };
        let ghost pre = self.users@;
        self.users.push(user);
        proof {
            assert(self.users@.drop_last() =~= pre);
            assert(user_ids_unique(self.users@)) by {
                assert forall|i: int, j: int|
                    0 <= i < self.users@.len() && 0 <= j < self.users@.len() && i
                        != j implies #[trigger] self.users@[i].identifier@
                    != #[trigger] self.users@[j].identifier@ by {
                    if i < pre.len() && j < pre.len() {
                        assert(pre[i] == self.users@[i]);
                        assert(pre[j] == self.users@[j]);
                    } else if i < pre.len() {
                        assert(pre[i] == self.users@[i]);
                    } else {
                        assert(pre[j] == self.users@[j]);
                    }
                }
            }
        }
        let mut data = String::from_str("User ");
        data.append(user_id);
        data.append(" registered");
        self.emit_event("UserRegistered", data, caller, now);
        Ok(())
    }

    /// `register_user_at`, stamped with the current time.
    pub fn register_user(
        &mut self,
        caller: &str,
        user_id: &str,
        identity_proof: &str,
        social_graph_score: u64,
    ) -> (r: Result<(), ContractError>)
        requires
            old(self).wf(),
        ensures
            final(self).wf(),
            phase_step(old(self).phase(), final(self).phase()),
            exists|now: u64|
                old(self).register_user_outcome(
                    &*final(self),
                    caller@,
                    user_id@,
                    identity_proof@,
                    social_graph_score,
                    now,
                    r,
                ),
    {
        let now = unix_now();
        self.register_user_at(caller, user_id, identity_proof, social_graph_score, now)
    }

    /// The first check of `register_voter` that fails at time `now`, if any.
    pub open spec fn register_voter_error(&self, caller: Seq<char>, voter_id: Seq<char>, now: u64) -> Option<
        ErrorKind,
    > {
        let us = self.user_list();
        if self.gate_error(caller) is Some {
            self.gate_error(caller)
        } else if self.phase() != ElectionState::Announced && self.phase()
            != ElectionState::Started {
            Some(ErrorKind::StateError)
        } else if !has_user(us, voter_id) {
            Some(ErrorKind::InvalidInput)
        } else if !us[user_index(us, voter_id)].verified {
            Some(ErrorKind::InvalidInput)
        } else if (now as int) < us[user_index(us, voter_id)].registration_time
            + self.settings().min_account_age_seconds {
            Some(ErrorKind::InvalidInput)
        } else if has_voter(self.voter_list(), voter_id) {
            Some(ErrorKind::InvalidInput)
        } else {
            None
        }
    }

    /// What `register_voter` does at time `now`.
    pub open spec fn register_voter_outcome(
        &self,
        post: &ElectionContract,
        caller: Seq<char>,
        voter_id: Seq<char>,
        now: u64,
        r: Result<(), ContractError>,
    ) -> bool {
        match self.register_voter_error(caller, voter_id, now) {
            Some(k) => fails_with(r, k) && *post == *self,
            None => {
                let v = post.voter_list().last();
                let rep = self.user_list()[user_index(self.user_list(), voter_id)].reputation_score;
                &&& r is Ok
                &&& post.voter_list().drop_last() == self.voter_list()
                &&& post.voter_list().len() == self.voter_list().len() + 1
                &&& v.identifier@ == voter_id && v.choice_code == 0 && !v.has_voted
                &&& v.last_vote_time == 0 && v.delegated_to is None
                &&& v.delegated_from@.len() == 0 && v.vote_weight == v.voting_power
                &&& self.settings().quadratic_voting_enabled ==> quadratic_power(
                    rep as nat,
                    v.voting_power as nat,
                )
                &&& !self.settings().quadratic_voting_enabled ==> v.voting_power == POWER_SCALE
                &&& post.phase() == (if self.phase() == ElectionState::Started {
                    ElectionState::Happening
                } else {
                    self.phase()
                })
                &&& post.settings() == self.settings() && post.admin_id() == self.admin_id()
                &&& post.user_list() == self.user_list() && post.candidate_list()
                    == self.candidate_list()
                &&& post.timelock_list() == self.timelock_list()
                &&& post.record_list() == self.record_list()
                &&& post.event_list().len() > self.event_list().len()
                &&& post.event_list().subrange(0, self.event_list().len() as int)
                    == self.event_list()
                &&& post.event_list()[self.event_list().len() as int].event_type@
                    == "VoterRegistered"@
            },
        }
    }

    /// Admin-only, in the Announced or Started phase: makes a verified user
    /// whose account is old enough a voter, with a voting power derived from
    /// the user's reputation. The first voter registered after the start moves
    /// the election to Happening.
    pub fn register_voter_at(&mut self, caller: &str, voter_id: &str, now: u64) -> (r: Result<
        (),
        ContractError,
    >)
        requires
            old(self).wf(),
        ensures
            final(self).wf(),
            phase_step(old(self).phase(), final(self).phase()),
            old(self).register_voter_outcome(&*final(self), caller@, voter_id@, now, r),
    {
        self.check_gate(caller, "Only admin can register voters")?;
        if self.state != ElectionState::Announced && self.state != ElectionState::Started {
            return Err(state_error("Voters can only be registered in Announced or Started state"));
        }
        let id = String::from_str(voter_id);
        let ui = match self.find_user(&id) {
            Some(ui) => ui,
            None => {
                return Err(invalid_input("User with this ID does not exist"));
            },
        };
        proof {
            assert(has_user(self.users@, id@));
            let k = user_index(self.users@, id@);
            assert(self.users@[k].identifier@ == id@);
            assert(k == ui);
        }
        if !self.users[ui].verified {
            return Err(invalid_input("User is not verified"));
        }
        let registered = self.users[ui].registration_time;
        if now < registered || now - registered < self.config.min_account_age_seconds {
            return Err(invalid_input("Account too new"));
        }
        if self.find_voter(&id).is_some() {
            return Err(invalid_input("Voter with this ID is already registered"));
        }
        let voting_power = voting_power_for(
            self.users[ui].reputation_score,
            self.config.quadratic_voting_enabled,
        );
        let voter = Voter {
            identifier: id,
            choice_code: 0,
            has_voted: false,
            voting_power,
            last_vote_time: 0,
            delegated_to: None,
            delegated_from: Vec::new(),
            vote_weight: voting_power,
        };
        let ghost pre = self.voters@;
        proof {
            lemma_push_wf(pre, voter);
        }
        self.voters.push(voter);
        proof {
            assert(self.voters@.drop_last() =~= pre);
        }
        let ghost events0 = self.events@;
        let mut data = String::from_str("Voter ");
        data.append(voter_id);
        data.append(" registered");
        self.emit_event("VoterRegistered", data, caller, now);
        if self.state == ElectionState::Started {
            self.state = ElectionState::Happening;
            self.emit_event(
                "ElectionStateChanged",
                String::from_str("Election state changed to Happening"),
                caller,
                now,
            );
        }
        proof {
            assert(self.events@.subrange(0, events0.len() as int) =~= events0);
        }
        Ok(())
    }

    /// `register_voter_at`, at the current time.
    pub fn register_voter(&mut self, caller: &str, voter_id: &str) -> (r: Result<
        (),
        ContractError,
    >)
        requires
            old(self).wf(),
        ensures
            final(self).wf(),
            phase_step(old(self).phase(), final(self).phase()),
            exists|now: u64|
                old(self).register_voter_outcome(&*final(self), caller@, voter_id@, now, r),
    {
        let now = unix_now();
        self.register_voter_at(caller, voter_id, now)
    }

    /// Walks the delegation links from `delegate` looking for `delegator`.
    /// The walk is bounded by the number of voters, which a chain in a
    /// registry without cycles never exceeds.
    fn leads_back(&self, delegator: &String, delegate: &String) -> (r: bool)
        requires
            voters_wf(self.voters@),
            has_voter(self.voters@, delegate@),
        ensures
            r == leads_to(self.voters@, delegate@, delegator@),
    {
        let ghost vs = self.voters@;
        let ghost d = delegate@;
        let ghost a = delegator@;
        let n = self.voters.len();
        let mut cur = delegate.clone();
        let mut steps: usize = 0;
        proof {
            lemma_chain_ends(vs, d);
        }
        loop
            invariant
                vs == self.voters@,
                a == delegator@,
                d == delegate@,
                voters_wf(vs),
                chain(vs, Some(d), n as nat) is None,
                n == vs.len(),
                steps <= n,
                chain(vs, Some(d), steps as nat) == Some(cur@),
                forall|j: nat| j < steps ==> #[trigger] chain(vs, Some(d), j) != Some(a),
            decreases n - steps,
        {
            if cur.eq(delegator) {
                assert(chain(vs, Some(d), steps as nat) == Some(a));
                return true;
            }
            proof {
                lemma_chain_succ(vs, Some(d), steps as nat);
            }
            let found = self.find_voter(&cur);
            let next = match found {
                None => None,
                Some(i) => {
                    proof {
                        lemma_voter_index(vs, i as int);
                    }
                    match &self.voters[i].delegated_to {
                        None => None,
                        Some(nx) => Some(nx.clone()),
                    }
                },
            };
            assert(chain(vs, Some(d), (steps + 1) as nat) == opt_id(next));
            match next {
                None => {
                    proof {
                        assert forall|j: nat| j > steps implies #[trigger] chain(vs, Some(d), j)
                            == None::<Seq<char>> by {
                            lemma_chain_add(
                                vs,
                                Some(d),
                                (steps + 1) as nat,
                                (j - steps - 1) as nat,
                            );
                            lemma_chain_none(vs, (j - steps - 1) as nat);
                        }
                        assert forall|j: nat| #[trigger] chain(
                            vs,
                            Some(d),
                            j,
                        ) != Some(a) by {
                            if j > steps {
                                assert(chain(vs, Some(d), j) == None::<Seq<char>>);
                            }
                        }
                    }
                    return false;
                },
                Some(nx) => {
                    if steps == n {
                        return true;
                    }
                    cur = nx;
                    steps = steps + 1;
                },
            }
        }
    }

    /// The first check of `delegate_vote` that fails, if any.
    pub open spec fn delegate_error(&self, voter_id: Seq<char>, delegate_id: Seq<char>) -> Option<
        ErrorKind,
    > {
        let vs = self.voter_list();
        let ai = voter_index(vs, voter_id);
        let di = voter_index(vs, delegate_id);
        if self.settings().emergency_stop {
            Some(ErrorKind::StateError)
        } else if !self.settings().delegation_enabled {
            Some(ErrorKind::OperationFailed)
        } else if self.phase() != ElectionState::Started && self.phase()
            != ElectionState::Happening {
            Some(ErrorKind::StateError)
        } else if !has_voter(vs, voter_id) || !has_voter(vs, delegate_id) {
            Some(ErrorKind::InvalidInput)
        } else if vs[ai].has_voted {
            Some(ErrorKind::InvalidInput)
        } else if leads_to(vs, delegate_id, voter_id) {
            Some(ErrorKind::InvalidInput)
        } else if vs[di].vote_weight + vs[ai].voting_power > u64::MAX {
            Some(ErrorKind::OperationFailed)
        } else {
            None
        }
    }

    /// Voter `voter_id` hands its voting power to voter `delegate_id`, who
    /// gains it on top of its weight at once. Refused when the delegate's own
    /// delegation links lead back to the delegator (this includes delegating
    /// to oneself), so that the links never form a cycle. The delegator may
    /// still vote itself.
    pub fn delegate_vote(&mut self, voter_id: &str, delegate_id: &str) -> (r: Result<
        (),
        ContractError,
    >)
        requires
            old(self).wf(),
        ensures
            final(self).wf(),
            phase_step(old(self).phase(), final(self).phase()),
            match old(self).delegate_error(voter_id@, delegate_id@) {
                Some(k) => fails_with(r, k) && *final(self) == *old(self),
                None => {
                    &&& r is Ok
                    &&& delegation_applied(
                        old(self).voter_list(),
                        final(self).voter_list(),
                        voter_index(old(self).voter_list(), voter_id@),
                        voter_index(old(self).voter_list(), delegate_id@),
                    )
                    &&& final(self).phase() == old(self).phase()
                    &&& final(self).settings() == old(self).settings()
                    &&& final(self).admin_id() == old(self).admin_id()
                    &&& final(self).user_list() == old(self).user_list()
                    &&& final(self).candidate_list() == old(self).candidate_list()
                    &&& final(self).timelock_list() == old(self).timelock_list()
                    &&& final(self).record_list() == old(self).record_list()
                    &&& logged(
                        old(self).event_list(),
                        final(self).event_list(),
                        "VoteDelegated"@,
                        voter_id@,
                    )
                },
            },
    {
        self.check_emergency_stop()?;
        if !self.config.delegation_enabled {
            return Err(operation_failed("Vote delegation is disabled"));
        }
        if self.state != ElectionState::Started && self.state != ElectionState::Happening {
            return Err(state_error("Delegation is only allowed in Started or Happening state"));
        }
        let a = String::from_str(voter_id);
        let d = String::from_str(delegate_id);
        let ai = match self.find_voter(&a) {
            Some(i) => i,
            None => {
                return Err(invalid_input("Voter does not exist"));
            },
        };
        let di = match self.find_voter(&d) {
            Some(i) => i,
            None => {
                return Err(invalid_input("Delegate does not exist"));
            },
        };
        let ghost vs = self.voters@;
        proof {
            lemma_voter_index(vs, ai as int);
            lemma_voter_index(vs, di as int);
        }
        if self.voters[ai].has_voted {
            return Err(invalid_input("Voter has already voted and cannot delegate"));
        }
        if self.leads_back(&a, &d) {
            return Err(invalid_input("Circular delegation detected"));
        }
        proof {
            assert(chain(vs, Some(d@), 0) == Some(d@));
            assert(ai != di);
        }
        let power = self.voters[ai].voting_power;
        let weight = self.voters[di].vote_weight;
        if weight > u64::MAX - power {
            return Err(operation_failed("Vote weight overflow"));
        }
        self.voters[ai].delegated_to = Some(d);
        self.voters[di].delegated_from.push(a);
        self.voters[di].vote_weight = weight + power;
        proof {
            assert(self.voters@[di as int].delegated_from@.drop_last() =~= vs[di as int].delegated_from@);
            lemma_delegate_wf(vs, self.voters@, ai as int, di as int);
        }
        let mut data = String::from_str("Voter ");
        data.append(voter_id);
        data.append(" delegated vote to ");
        data.append(delegate_id);
        let now = unix_now();
        self.emit_event("VoteDelegated", data, voter_id, now);
        Ok(())
    }

    /// The first check of `place_vote` that fails at time `now`, if any.
    pub open spec fn place_vote_error(&self, voter_id: Seq<char>, code: u64, now: u64) -> Option<
        ErrorKind,
    > {
        let vs = self.voter_list();
        let cs = self.candidate_list();
        let v = vs[voter_index(vs, voter_id)];
        let w = rounded_votes(v.vote_weight as nat);
        if self.settings().emergency_stop {
            Some(ErrorKind::StateError)
        } else if self.phase() != ElectionState::Started && self.phase()
            != ElectionState::Happening {
            Some(ErrorKind::StateError)
        } else if !has_voter(vs, voter_id) {
            Some(ErrorKind::InvalidInput)
        } else if v.has_voted {
            Some(ErrorKind::InvalidInput)
        } else if (now as int) < v.last_vote_time + self.settings().voting_period_seconds {
            Some(ErrorKind::OperationFailed)
        } else if !has_candidate(cs, code) {
            Some(ErrorKind::InvalidInput)
        } else if w == 0 {
            Some(ErrorKind::OperationFailed)
        } else if cs[candidate_index(cs, code)].num_votes + w > u64::MAX {
            Some(ErrorKind::OperationFailed)
        } else {
            None
        }
    }

    /// What `place_vote` does at time `now`.
    pub open spec fn place_vote_outcome(
        &self,
        post: &ElectionContract,
        voter_id: Seq<char>,
        code: u64,
        now: u64,
        r: Result<(), ContractError>,
    ) -> bool {
        match self.place_vote_error(voter_id, code, now) {
            Some(k) => fails_with(r, k) && *post == *self,
            None => {
                let vs = self.voter_list();
                let cs = self.candidate_list();
                let vi = voter_index(vs, voter_id);
                let ci = candidate_index(cs, code);
                let v = vs[vi];
                let rec = post.record_list().last();
                &&& r is Ok
                &&& post.voter_list() == vs.update(
                    vi,
                    Voter { has_voted: true, choice_code: code, last_vote_time: now, ..v },
                )
                &&& post.candidate_list() == cs.update(
                    ci,
                    Candidate {
                        num_votes: (cs[ci].num_votes + rounded_votes(v.vote_weight as nat)) as u64,
                        ..cs[ci]
                    },
                )
                &&& post.record_list().drop_last() == self.record_list()
                &&& post.record_list().len() == self.record_list().len() + 1
                &&& rec.voter_id@ == voter_id && rec.candidate_code == code
                &&& rec.timestamp == now && rec.weight == v.vote_weight
                &&& rec.vote_hash@ == sha256_hex(vote_message(voter_id, code, now))
                &&& post.phase() == self.phase() && post.settings() == self.settings()
                &&& post.admin_id() == self.admin_id() && post.user_list() == self.user_list()
                &&& post.timelock_list() == self.timelock_list()
                &&& logged(self.event_list(), post.event_list(), "VoteCast"@, voter_id)
            },
        }
    }

    /// Voter `voter_id` casts its whole weight (its own power and what was
    /// delegated to it), rounded to whole votes, for candidate `code`, once.
    /// The vote is recorded with the digest of (voter, candidate, time).
    pub fn place_vote_at(&mut self, voter_id: &str, candidate_code: u64, now: u64) -> (r: Result<
        (),
        ContractError,
    >)
        requires
            old(self).wf(),
        ensures
            final(self).wf(),
            phase_step(old(self).phase(), final(self).phase()),
            old(self).place_vote_outcome(&*final(self), voter_id@, candidate_code, now, r),
    {
        self.check_emergency_stop()?;
        if self.state != ElectionState::Started && self.state != ElectionState::Happening {
            return Err(state_error("Voting is only allowed in Started or Happening state"));
        }
        let id = String::from_str(voter_id);
        let vi = match self.find_voter(&id) {
            Some(i) => i,
            None => {
                return Err(invalid_input("Voter does not exist"));
            },
        };
        let ghost vs = self.voters@;
        let ghost cs = self.candidates@;
        proof {
            lemma_voter_index(vs, vi as int);
        }
        if self.voters[vi].has_voted {
            return Err(invalid_input("Voter has already voted"));
        }
        let last = self.voters[vi].last_vote_time;
        if now < last || now - last < self.config.voting_period_seconds {
            return Err(operation_failed("Rate limit exceeded, please try again later"));
        }
        let ci = match self.find_candidate(candidate_code) {
            Some(i) => i,
            None => {
                return Err(invalid_input("Candidate does not exist"));
            },
        };
        proof {
            assert(has_candidate(cs, candidate_code));
            let k = candidate_index(cs, candidate_code);
            assert(cs[k].code == candidate_code);
            assert(k == ci);
        }
        let vote_weight = self.voters[vi].vote_weight;
        let votes = round_weight(vote_weight);
        if votes == 0 {
            return Err(operation_failed("Voting power too low to cast a vote"));
        }
        let total = self.candidates[ci].num_votes;
        if total > u64::MAX - votes {
            return Err(operation_failed("Vote count overflow"));
        }
        self.candidates[ci].num_votes = total + votes;
        self.voters[vi].has_voted = true;
        self.voters[vi].choice_code = candidate_code;
        self.voters[vi].last_vote_time = now;
        proof {
            assert(self.voters@ =~= vs.update(
                vi as int,
                Voter { has_voted: true, choice_code: candidate_code, last_vote_time: now, ..vs[vi as int] },
            ));
            assert forall|i: int| 0 <= i < vs.len() implies same_links(
                #[trigger] vs[i],
                self.voters@[i],
            ) by {}
            lemma_same_links_wf(vs, self.voters@);
            assert(candidate_codes_unique(self.candidates@)) by {
                assert forall|i: int, j: int|
                    0 <= i < self.candidates@.len() && 0 <= j < self.candidates@.len() && i
                        != j implies #[trigger] self.candidates@[i].code
                    != #[trigger] self.candidates@[j].code by {
                    assert(cs[i].code == self.candidates@[i].code);
                    assert(cs[j].code == self.candidates@[j].code);
                }
            }
        }
        self.voted_addresses.push(String::from_str(voter_id));
        let code_text = decimal_string(candidate_code);
        let mut message = String::from_str(voter_id);
        message.append(":");
        message.append(code_text.as_str());
        message.append(":");
        message.append(decimal_string(now).as_str());
        let vote_hash = sha256_hex_of(message.as_str());
        let record = VoteRecord {
            voter_id: id,
            candidate_code,
            timestamp: now,
            weight: vote_weight,
            vote_hash,
        };
        let ghost rs = self.vote_records@;
        self.vote_records.push(record);
        proof {
            assert(self.vote_records@.drop_last() =~= rs);
            assert forall|i: int| 0 <= i < self.vote_records@.len() implies record_intact(
                #[trigger] self.vote_records@[i],
            ) by {
                if i < rs.len() {
                    assert(self.vote_records@[i] == rs[i]);
                }
            }
        }
        let mut data = String::from_str("Voter ");
        data.append(voter_id);
        data.append(" cast vote for candidate ");
        data.append(code_text.as_str());
        self.emit_event("VoteCast", data, voter_id, now);
        Ok(())
    }

    /// `place_vote_at`, at the current time.
    pub fn place_vote(&mut self, voter_id: &str, candidate_code: u64) -> (r: Result<
        (),
        ContractError,
    >)
        requires
            old(self).wf(),
        ensures
            final(self).wf(),
            phase_step(old(self).phase(), final(self).phase()),
            exists|now: u64|
                old(self).place_vote_outcome(&*final(self), voter_id@, candidate_code, now, r),
    {
        let now = unix_now();
        self.place_vote_at(voter_id, candidate_code, now)
    }

    /// Whether the vote record of `voter_id` is intact: its stored hash is the
    /// digest of its own voter, candidate and time. A voter with no record
    /// gets `false`.
    pub fn verify_vote(&self, voter_id: &str) -> (r: Result<bool, ContractError>)
        requires
            self.wf(),
        ensures
            r is Ok,
            r->Ok_0 == exists|i: int|
                first_record_of(self.record_list(), voter_id@, i) && #[trigger] record_intact(
                    self.record_list()[i],
                ),
            r->Ok_0 == has_record(self.record_list(), voter_id@),
    {
        let id = String::from_str(voter_id);
        let mut i: usize = 0;
        while i < self.vote_records.len()
            invariant
                self.wf(),
                id@ == voter_id@,
                i <= self.vote_records@.len(),
                forall|j: int| 0 <= j < i ==> #[trigger] self.vote_records@[j].voter_id@ != id@,
            decreases self.vote_records@.len() - i,
        {
            let rec = &self.vote_records[i];
            if rec.voter_id.eq(&id) {
                let code_text = decimal_string(rec.candidate_code);
                let mut message = rec.voter_id.clone();
                message.append(":");
                message.append(code_text.as_str());
                message.append(":");
                message.append(decimal_string(rec.timestamp).as_str());
                let calculated = sha256_hex_of(message.as_str());
                let ok = calculated.eq(&rec.vote_hash);
                proof {
                    assert(first_record_of(self.vote_records@, voter_id@, i as int));
                    assert(record_intact(self.vote_records@[i as int]));
                    assert forall|k: int|
                        first_record_of(self.vote_records@, voter_id@, k) implies k == i by {
                        if k < i {
                            assert(self.vote_records@[k].voter_id@ != id@);
                        }
                        if k > i {
                            assert(self.vote_records@[i as int].voter_id@ != voter_id@);
                        }
                    }
                }
                return Ok(ok);
            }
            i += 1;
        }
        Ok(false)
    }

    /// Once the election has ended: the candidate with the most votes, the one
    /// with the lowest code among equal totals; `None` when there are no
    /// candidates.
    pub fn winning_candidate(&self) -> (r: Result<Option<Candidate>, ContractError>)
        requires
            self.wf(),
        ensures
            self.phase() != ElectionState::Ended ==> fails_with(r, ErrorKind::StateError),
            self.phase() == ElectionState::Ended ==> r is Ok,
            self.phase() == ElectionState::Ended && self.candidate_list().len() == 0 ==> r
                == Ok::<Option<Candidate>, ContractError>(None),
            self.phase() == ElectionState::Ended && self.candidate_list().len() > 0 ==> {
                &&& r is Ok && r->Ok_0 is Some
                &&& is_winner(self.candidate_list(), r->Ok_0->Some_0)
            },
    {
        if self.state != ElectionState::Ended {
            return Err(state_error("Winner can only be determined after election has ended"));
        }
        if self.candidates.len() == 0 {
            return Ok(None);
        }
        let ghost cs = self.candidates@;
        let mut best: usize = 0;
        let mut i: usize = 1;
        while i < self.candidates.len()
            invariant
                cs == self.candidates@,
                0 <= best < i <= cs.len(),
                forall|j: int| 0 <= j < i ==> #[trigger] cs[j].num_votes <= cs[best as int].num_votes,
                forall|j: int|
                    0 <= j < i && #[trigger] cs[j].num_votes == cs[best as int].num_votes
                        ==> cs[best as int].code <= cs[j].code,
            decreases cs.len() - i,
        {
            let c = &self.candidates[i];
            let b = &self.candidates[best];
            if c.num_votes > b.num_votes || (c.num_votes == b.num_votes && c.code < b.code) {
                best = i;
            }
            i += 1;
        }
        let winner = self.candidates[best].duplicate();
        assert(cs[best as int] == winner);
        Ok(Some(winner))
    }

    /// What `propose_timelock_action` does at time `now`.
    pub open spec fn propose_outcome(
        &self,
        post: &ElectionContract,
        caller: Seq<char>,
        action_type: Seq<char>,
        description: Seq<char>,
        data: Seq<char>,
        now: u64,
        r: Result<(), ContractError>,
    ) -> bool {
        match self.gate_error(caller) {
            Some(k) => fails_with(r, k) && *post == *self,
            None => {
                let a = post.timelock_list().last();
                &&& r is Ok
                &&& post.timelock_list().drop_last() == self.timelock_list()
                &&& post.timelock_list().len() == self.timelock_list().len() + 1
                &&& a.action_type@ == action_type && a.description@ == description
                &&& a.proposed_by@ == caller && a.data@ == data
                &&& a.proposed_at == now
                &&& a.execution_time == eligible_time(now, self.settings().timelock_delay)
                &&& !a.executed && !a.canceled
                &&& post.phase() == self.phase() && post.settings() == self.settings()
                &&& post.admin_id() == self.admin_id() && post.voter_list() == self.voter_list()
                &&& post.candidate_list() == self.candidate_list()
                &&& post.user_list() == self.user_list()
                &&& post.record_list() == self.record_list()
                &&& logged(self.event_list(), post.event_list(), "TimelockProposed"@, caller)
            },
        }
    }

    /// Admin-only: records an action that may run once the configured delay
    /// has passed (the eligible time saturates at the largest `u64`).
    pub fn propose_timelock_action_at(
        &mut self,
        caller: &str,
        action_type: &str,
        description: &str,
        data: &str,
        now: u64,
    ) -> (r: Result<(), ContractError>)
        requires
            old(self).wf(),
        ensures
            final(self).wf(),
            phase_step(old(self).phase(), final(self).phase()),
            old(self).propose_outcome(
                &*final(self),
                caller@,
                action_type@,
                description@,
                data@,
                now,
                r,
            ),
    {
        self.check_gate(caller, "Only admin can propose timelock actions")?;
        let execution_time = now.saturating_add(self.config.timelock_delay);
        let action = TimelockAction {
            action_type: String::from_str(action_type),
            description: String::from_str(description),
            proposed_by: String::from_str(caller),
            proposed_at: now,
            execution_time,
            executed: false,
            canceled: false,
            data: String::from_str(data),
        };
        let ghost ts = self.timelocks@;
        self.timelocks.push(action);
        proof {
            assert(self.timelocks@.drop_last() =~= ts);
            assert forall|i: int| 0 <= i < self.timelocks@.len() implies crate::contract::settled_once(
                #[trigger] self.timelocks@[i],
            ) by {
                if i < ts.len() {
                    assert(self.timelocks@[i] == ts[i]);
                }
            }
        }
        let mut text = String::from_str("Timelock action '");
        text.append(description);
        text.append("' proposed, executable at ");
        text.append(decimal_string(execution_time).as_str());
        self.emit_event("TimelockProposed", text, caller, now);
        Ok(())
    }

    /// `propose_timelock_action_at`, at the current time.
    pub fn propose_timelock_action(
        &mut self,
        caller: &str,
        action_type: &str,
        description: &str,
        data: &str,
    ) -> (r: Result<(), ContractError>)
        requires
            old(self).wf(),
        ensures
            final(self).wf(),
            phase_step(old(self).phase(), final(self).phase()),
            exists|now: u64|
                old(self).propose_outcome(
                    &*final(self),
                    caller@,
                    action_type@,
                    description@,
                    data@,
                    now,
                    r,
                ),
    {
        let now = unix_now();
        self.propose_timelock_action_at(caller, action_type, description, data, now)
    }

    /// The first check of `execute_timelock_action` that fails at time `now`, if any.
    pub open spec fn execute_error(&self, caller: Seq<char>, index: usize, now: u64) -> Option<
        ErrorKind,
    > {
        let a = self.timelock_list()[index as int];
        if self.gate_error(caller) is Some {
            self.gate_error(caller)
        } else if index >= self.timelock_list().len() {
            Some(ErrorKind::InvalidInput)
        } else if a.executed || a.canceled || now < a.execution_time {
            Some(ErrorKind::TimelockError)
        } else if a.action_type@ != "ChangeAdmin"@ && a.action_type@ != "UpdateConfig"@ {
            Some(ErrorKind::TimelockError)
        } else {
            None
        }
    }

    /// What `execute_timelock_action` does at time `now`.
    pub open spec fn execute_outcome(
        &self,
        post: &ElectionContract,
        caller: Seq<char>,
        index: usize,
        now: u64,
        r: Result<(), ContractError>,
    ) -> bool {
        match self.execute_error(caller, index, now) {
            Some(k) => fails_with(r, k) && *post == *self,
            None => {
                let a = self.timelock_list()[index as int];
                let change = a.action_type@ == "ChangeAdmin"@;
                &&& r is Ok
                &&& post.timelock_list() == self.timelock_list().update(
                    index as int,
                    TimelockAction { executed: true, ..a },
                )
                &&& post.admin_id() == (if change {
                    a.data@
                } else {
                    self.admin_id()
                })
                &&& post.phase() == self.phase() && post.settings() == self.settings()
                &&& post.voter_list() == self.voter_list()
                &&& post.candidate_list() == self.candidate_list()
                &&& post.user_list() == self.user_list()
                &&& post.record_list() == self.record_list()
                &&& logged_two(
                    self.event_list(),
                    post.event_list(),
                    "TimelockExecuted"@,
                    if change {
                        "AdminChanged"@
                    } else {
                        "ConfigUpdated"@
                    },
                    caller,
                )
            },
        }
    }

    /// Admin-only: runs a pending action whose eligible time has come.
    /// "ChangeAdmin" makes its payload the administrator; "UpdateConfig" is
    /// recorded in the audit log. Any other type is refused and the action
    /// stays pending.
    pub fn execute_timelock_action_at(&mut self, caller: &str, index: usize, now: u64) -> (r:
        Result<(), ContractError>)
        requires
            old(self).wf(),
        ensures
            final(self).wf(),
            phase_step(old(self).phase(), final(self).phase()),
            old(self).execute_outcome(&*final(self), caller@, index, now, r),
    {
        self.check_gate(caller, "Only admin can execute timelock actions")?;
        if index >= self.timelocks.len() {
            return Err(invalid_input("Timelock action index out of bounds"));
        }
        if self.timelocks[index].executed {
            return Err(timelock_error("Timelock action already executed"));
        }
        if self.timelocks[index].canceled {
            return Err(timelock_error("Timelock action was canceled"));
        }
        if now < self.timelocks[index].execution_time {
            return Err(timelock_error("Timelock action not yet executable"));
        }
        let change_admin = String::from_str("ChangeAdmin");
        let update_config = String::from_str("UpdateConfig");
        let is_change = self.timelocks[index].action_type.eq(&change_admin);
        let is_update = self.timelocks[index].action_type.eq(&update_config);
        if !is_change && !is_update {
            return Err(timelock_error("Unknown action type"));
        }
        let ghost ts = self.timelocks@;
        let ghost events0 = self.events@;
        self.timelocks[index].executed = true;
        proof {
            assert(self.timelocks@ =~= ts.update(
                index as int,
                TimelockAction { executed: true, ..ts[index as int] },
            ));
            assert forall|i: int| 0 <= i < self.timelocks@.len() implies crate::contract::settled_once(
                #[trigger] self.timelocks@[i],
            ) by {
                if i != index {
                    assert(self.timelocks@[i] == ts[i]);
                }
            }
        }
        let mut text = String::from_str("Timelock action '");
        text.append(self.timelocks[index].description.as_str());
        text.append("' executed");
        self.emit_event("TimelockExecuted", text, caller, now);
        if is_change {
            let new_admin = self.timelocks[index].data.clone();
            let mut text = String::from_str("Admin changed to ");
            text.append(new_admin.as_str());
            self.admin = new_admin;
            self.emit_event("AdminChanged", text, caller, now);
        } else {
            self.emit_event(
                "ConfigUpdated",
                String::from_str("Contract configuration updated"),
                caller,
                now,
            );
        }
        proof {
            assert(self.events@.subrange(0, events0.len() as int) =~= events0);
        }
        Ok(())
    }

    /// `execute_timelock_action_at`, at the current time.
    pub fn execute_timelock_action(&mut self, caller: &str, index: usize) -> (r: Result<
        (),
        ContractError,
    >)
        requires
            old(self).wf(),
        ensures
            final(self).wf(),
            phase_step(old(self).phase(), final(self).phase()),
            exists|now: u64| old(self).execute_outcome(&*final(self), caller@, index, now, r),
    {
        let now = unix_now();
        self.execute_timelock_action_at(caller, index, now)
    }

    /// The first check of `cancel_timelock_action` that fails, if any.
    pub open spec fn cancel_error(&self, caller: Seq<char>, index: usize) -> Option<ErrorKind> {
        let a = self.timelock_list()[index as int];
        if self.gate_error(caller) is Some {
            self.gate_error(caller)
        } else if index >= self.timelock_list().len() {
            Some(ErrorKind::InvalidInput)
        } else if a.executed || a.canceled {
            Some(ErrorKind::TimelockError)
        } else {
            None
        }
    }

    /// Admin-only: withdraws a pending action for good.
    pub fn cancel_timelock_action(&mut self, caller: &str, index: usize) -> (r: Result<
        (),
        ContractError,
    >)
        requires
            old(self).wf(),
        ensures
            final(self).wf(),
            phase_step(old(self).phase(), final(self).phase()),
            match old(self).cancel_error(caller@, index) {
                Some(k) => fails_with(r, k) && *final(self) == *old(self),
                None => {
                    &&& r is Ok
                    &&& final(self).timelock_list() == old(self).timelock_list().update(
                        index as int,
                        TimelockAction { canceled: true, ..old(self).timelock_list()[index as int] },
                    )
                    &&& final(self).phase() == old(self).phase()
                    &&& final(self).settings() == old(self).settings()
                    &&& final(self).admin_id() == old(self).admin_id()
                    &&& final(self).voter_list() == old(self).voter_list()
                    &&& final(self).candidate_list() == old(self).candidate_list()
                    &&& final(self).user_list() == old(self).user_list()
                    &&& final(self).record_list() == old(self).record_list()
                    &&& logged(
                        old(self).event_list(),
                        final(self).event_list(),
                        "TimelockCanceled"@,
                        caller@,
                    )
                },
            },
    {
        self.check_gate(caller, "Only admin can cancel timelock actions")?;
        if index >= self.timelocks.len() {
            return Err(invalid_input("Timelock action index out of bounds"));
        }
        if self.timelocks[index].executed {
            return Err(timelock_error("Cannot cancel already executed timelock action"));
        }
        if self.timelocks[index].canceled {
            return Err(timelock_error("Timelock action already canceled"));
        }
        let ghost ts = self.timelocks@;
        self.timelocks[index].canceled = true;
        proof {
            assert(self.timelocks@ =~= ts.update(
                index as int,
                TimelockAction { canceled: true, ..ts[index as int] },
            ));
            assert forall|i: int| 0 <= i < self.timelocks@.len() implies crate::contract::settled_once(
                #[trigger] self.timelocks@[i],
            ) by {
                if i != index {
                    assert(self.timelocks@[i] == ts[i]);
                }
            }
        }
        let mut text = String::from_str("Timelock action '");
        text.append(self.timelocks[index].description.as_str());
        text.append("' canceled");
        let now = unix_now();
        self.emit_event("TimelockCanceled", text, caller, now);
        Ok(())
    }

    /// All candidates, in the order they were added.
    pub fn get_all_candidates(&self) -> (r: Result<Vec<Candidate>, ContractError>)
        ensures
            r is Ok && r->Ok_0@ == self.candidate_list(),
    {
        let mut out: Vec<Candidate> = Vec::new();
        let mut i: usize = 0;
        while i < self.candidates.len()
            invariant
                i <= self.candidates@.len(),
                out@ == self.candidates@.subrange(0, i as int),
            decreases self.candidates@.len() - i,
        {
            out.push(self.candidates[i].duplicate());
            i += 1;
            proof {
                assert(out@ =~= self.candidates@.subrange(0, i as int));
            }
        }
        proof {
            assert(out@ =~= self.candidates@);
        }
        Ok(out)
    }

    /// All voters, in the order they were registered.
    pub fn get_all_voters(&self) -> (r: Result<Vec<Voter>, ContractError>)
        ensures
            r is Ok,
            r->Ok_0@.len() == self.voter_list().len(),
            forall|i: int|
                0 <= i < self.voter_list().len() ==> crate::types::same_voter(
                    #[trigger] r->Ok_0@[i],
                    self.voter_list()[i],
                ),
    {
        let mut out: Vec<Voter> = Vec::new();
        let mut i: usize = 0;
        while i < self.voters.len()
            invariant
                i <= self.voters@.len(),
                out@.len() == i,
                forall|j: int| 0 <= j < i ==> crate::types::same_voter(
                    #[trigger] out@[j],
                    self.voters@[j],
                ),
            decreases self.voters@.len() - i,
        {
            out.push(self.voters[i].duplicate());
            i += 1;
        }
        Ok(out)
    }

    /// The current settings.
    pub fn get_config(&self) -> (r: ContractConfig)
        ensures
            r == self.settings(),
    {
        self.config.duplicate()
    }

    /// The current phase.
    pub fn get_election_state(&self) -> (r: Result<ElectionState, ContractError>)
        ensures
            r == Ok::<ElectionState, ContractError>(self.phase()),
    {
        Ok(self.state)
    }

    /// The audit log, oldest first.
    pub fn get_events(&self) -> (r: Result<Vec<Event>, ContractError>)
        ensures
            r is Ok && r->Ok_0@ == self.event_list(),
    {
        let mut out: Vec<Event> = Vec::new();
        let mut i: usize = 0;
        while i < self.events.len()
            invariant
                i <= self.events@.len(),
                out@ == self.events@.subrange(0, i as int),
            decreases self.events@.len() - i,
        {
            out.push(self.events[i].duplicate());
            i += 1;
            proof {
                assert(out@ =~= self.events@.subrange(0, i as int));
            }
        }
        proof {
            assert(out@ =~= self.events@);
        }
        Ok(out)
    }

    /// The vote records, in the order the votes were cast.
    pub fn get_vote_records(&self) -> (r: Result<Vec<VoteRecord>, ContractError>)
        ensures
            r is Ok && r->Ok_0@ == self.record_list(),
    {
        let mut out: Vec<VoteRecord> = Vec::new();
        let mut i: usize = 0;
        while i < self.vote_records.len()
            invariant
                i <= self.vote_records@.len(),
                out@ == self.vote_records@.subrange(0, i as int),
            decreases self.vote_records@.len() - i,
        {
            out.push(self.vote_records[i].duplicate());
            i += 1;
            proof {
                assert(out@ =~= self.vote_records@.subrange(0, i as int));
            }
        }
        proof {
            assert(out@ =~= self.vote_records@);
        }
        Ok(out)
    }

    /// The timelocked actions that are neither executed nor canceled, in order.
    pub fn get_pending_timelocks(&self) -> (r: Result<Vec<TimelockAction>, ContractError>)
        ensures
            r is Ok && r->Ok_0@ == pending_actions(self.timelock_list()),
    {
        let mut out: Vec<TimelockAction> = Vec::new();
        let mut i: usize = 0;
        while i < self.timelocks.len()
            invariant
                i <= self.timelocks@.len(),
                out@ == pending_actions(self.timelocks@.subrange(0, i as int)),
            decreases self.timelocks@.len() - i,
        {
            let ghost before = self.timelocks@.subrange(0, i as int);
            let a = &self.timelocks[i];
            if !a.executed && !a.canceled {
                out.push(a.duplicate());
            }
            i += 1;
            proof {
                let now = self.timelocks@.subrange(0, i as int);
                assert(now.drop_last() =~= before);
            }
        }
        proof {
            assert(self.timelocks@.subrange(0, self.timelocks@.len() as int) =~= self.timelocks@);
        }
        Ok(out)
    }

    /// Admin-only: merges candidate records obtained from a bulk source,
    /// each one inserted or put in place of the candidate with its code.
    pub fn merge_candidates(&mut self, caller: &str, loaded: Vec<Candidate>) -> (r: Result<
        (),
        ContractError,
    >)
        requires
            old(self).wf(),
        ensures
            final(self).wf(),
            phase_step(old(self).phase(), final(self).phase()),
            match old(self).gate_error(caller@) {
                Some(k) => fails_with(r, k) && *final(self) == *old(self),
                None => {
                    &&& r is Ok
                    &&& final(self).candidate_list() == upsert_candidates(
                        old(self).candidate_list(),
                        loaded@,
                    )
                    &&& final(self).phase() == old(self).phase()
                    &&& final(self).settings() == old(self).settings()
                    &&& final(self).admin_id() == old(self).admin_id()
                    &&& final(self).voter_list() == old(self).voter_list()
                    &&& final(self).user_list() == old(self).user_list()
                    &&& final(self).timelock_list() == old(self).timelock_list()
                    &&& final(self).record_list() == old(self).record_list()
                    &&& logged(
                        old(self).event_list(),
                        final(self).event_list(),
                        "CandidatesLoaded"@,
                        caller@,
                    )
                },
            },
    {
        self.check_gate(caller, "Only admin can load candidate data")?;
        let ghost cs0 = self.candidates@;
        let mut i: usize = 0;
        while i < loaded.len()
            invariant
                i <= loaded@.len(),
                candidate_codes_unique(self.candidates@),
                self.candidates@ == upsert_candidates(cs0, loaded@.subrange(0, i as int)),
                self.state == old(self).state,
                self.admin == old(self).admin,
                self.voters == old(self).voters,
                self.events == old(self).events,
                self.config == old(self).config,
                self.users == old(self).users,
                self.timelocks == old(self).timelocks,
                self.vote_records == old(self).vote_records,
                cs0 == old(self).candidates@,
            decreases loaded@.len() - i,
        {
            let c = loaded[i].duplicate();
            let ghost cs = self.candidates@;
            match self.find_candidate(c.code) {
                Some(k) => {
                    proof {
                        assert(has_candidate(cs, c.code));
                        let m = candidate_index(cs, c.code);
                        assert(cs[m].code == c.code);
                        assert(m == k);
                    }
                    self.candidates.set(k, c);
                    proof {
                        assert forall|a: int, b: int|
                            0 <= a < self.candidates@.len() && 0 <= b < self.candidates@.len()
                                && a != b implies #[trigger] self.candidates@[a].code
                            != #[trigger] self.candidates@[b].code by {
                            assert(self.candidates@[a].code == cs[a].code);
                            assert(self.candidates@[b].code == cs[b].code);
                        }
                    }
                },
                None => {
                    self.candidates.push(c);
                    proof {
                        assert forall|a: int, b: int|
                            0 <= a < self.candidates@.len() && 0 <= b < self.candidates@.len()
                                && a != b implies #[trigger] self.candidates@[a].code
                            != #[trigger] self.candidates@[b].code by {
                            if a < cs.len() {
                                assert(self.candidates@[a] == cs[a]);
                            }
                            if b < cs.len() {
                                assert(self.candidates@[b] == cs[b]);
                            }
                        }
                    }
                },
            }
            proof {
                let prefix = loaded@.subrange(0, i + 1);
                assert(prefix.drop_last() =~= loaded@.subrange(0, i as int));
                assert(prefix.last() == loaded@[i as int]);
            }
            i += 1;
        }
        proof {
            assert(loaded@.subrange(0, loaded@.len() as int) =~= loaded@);
        }
        let mut text = String::from_str("Loaded ");
        text.append(decimal_string(loaded.len() as u64).as_str());
        text.append(" candidates from external source");
        let now = unix_now();
        self.emit_event("CandidatesLoaded", text, caller, now);
        Ok(())
    }

    /// Admin-only: adds voter records obtained from a bulk source. A record
    /// joins only if its identifier is new and it carries no delegation links
    /// (with a weight equal to its power); any other record is left out, so
    /// that the delegation graph and the weights stay consistent.
    pub fn merge_voters(&mut self, caller: &str, loaded: Vec<Voter>) -> (r: Result<
        (),
        ContractError,
    >)
        requires
            old(self).wf(),
        ensures
            final(self).wf(),
            phase_step(old(self).phase(), final(self).phase()),
            match old(self).gate_error(caller@) {
                Some(k) => fails_with(r, k) && *final(self) == *old(self),
                None => {
                    &&& r is Ok
                    &&& final(self).voter_list() == admit_voters(old(self).voter_list(), loaded@)
                    &&& final(self).phase() == old(self).phase()
                    &&& final(self).settings() == old(self).settings()
                    &&& final(self).admin_id() == old(self).admin_id()
                    &&& final(self).candidate_list() == old(self).candidate_list()
                    &&& final(self).user_list() == old(self).user_list()
                    &&& final(self).timelock_list() == old(self).timelock_list()
                    &&& final(self).record_list() == old(self).record_list()
                    &&& logged(
                        old(self).event_list(),
                        final(self).event_list(),
                        "VotersLoaded"@,
                        caller@,
                    )
                },
            },
    {
        self.check_gate(caller, "Only admin can load voter data")?;
        let ghost vs0 = self.voters@;
        let ghost all = loaded@;
        let n = loaded.len();
        let mut loaded = loaded;
        let mut i: usize = 0;
        while i < n
            invariant
                n == all.len(),
                loaded@.len() == n,
                forall|j: int| i <= j < n ==> #[trigger] loaded@[j] == all[j],
                i <= n,
                voters_wf(self.voters@),
                self.voters@ == admit_voters(vs0, all.subrange(0, i as int)),
                self.state == old(self).state,
                self.admin == old(self).admin,
                self.candidates == old(self).candidates,
                self.events == old(self).events,
                self.config == old(self).config,
                self.users == old(self).users,
                self.timelocks == old(self).timelocks,
                self.vote_records == old(self).vote_records,
                vs0 == old(self).voters@,
            decreases n - i,
        {
            let mut v = Voter {
                identifier: String::new(),
                choice_code: 0,
                has_voted: false,
                voting_power: 0,
                last_vote_time: 0,
                delegated_to: None,
                delegated_from: Vec::new(),
                vote_weight: 0,
            };
            std::mem::swap(&mut v, &mut loaded[i]);
            assert(v == all[i as int]);
            let ghost vs = self.voters@;
            let fresh = self.find_voter(&v.identifier).is_none();
            if fresh && v.delegated_to.is_none() && v.delegated_from.len() == 0 && v.vote_weight
                == v.voting_power {
                proof {
                    lemma_push_wf(vs, v);
                }
                self.voters.push(v);
            }
            proof {
                let prefix = all.subrange(0, i + 1);
                assert(prefix.drop_last() =~= all.subrange(0, i as int));
                assert(prefix.last() == all[i as int]);
            }
            i += 1;
        }
        proof {
            assert(all.subrange(0, n as int) =~= all);
        }
        let mut text = String::from_str("Loaded ");
        text.append(decimal_string(n as u64).as_str());
        text.append(" voters from external source");
        let now = unix_now();
        self.emit_event("VotersLoaded", text, caller, now);
        Ok(())
    }
}

} // verus!
