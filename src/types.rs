use vstd::prelude::*;
use vstd::string::StringExecFns;

verus! {

/// The kinds of failure an election operation can report.
#[derive(Clone, Copy, Debug, PartialEq, Eq, Structural)]
pub enum ErrorKind {
    AccessDenied,
    InvalidInput,
    OperationFailed,
    StateError,
    ExternalResourceError,
    DatabaseError,
    TimelockError,
}

/// A failed operation: its kind and a human-readable message.
#[derive(Clone, Debug)]
pub enum ContractError {
    AccessDenied(String),
    InvalidInput(String),
    OperationFailed(String),
    StateError(String),
    ExternalResourceError(String),
    DatabaseError(String),
    TimelockError(String),
}

impl ContractError {
    pub open spec fn spec_kind(&self) -> ErrorKind {
        match self {
            ContractError::AccessDenied(_) => ErrorKind::AccessDenied,
            ContractError::InvalidInput(_) => ErrorKind::InvalidInput,
            ContractError::OperationFailed(_) => ErrorKind::OperationFailed,
            ContractError::StateError(_) => ErrorKind::StateError,
            ContractError::ExternalResourceError(_) => ErrorKind::ExternalResourceError,
            ContractError::DatabaseError(_) => ErrorKind::DatabaseError,
            ContractError::TimelockError(_) => ErrorKind::TimelockError,
        }
    }

    /// The kind of this error, for callers that branch on it.
    pub fn kind(&self) -> (k: ErrorKind)
        ensures
            k == self.spec_kind(),
    {
        match self {
            ContractError::AccessDenied(_) => ErrorKind::AccessDenied,
            ContractError::InvalidInput(_) => ErrorKind::InvalidInput,
            ContractError::OperationFailed(_) => ErrorKind::OperationFailed,
            ContractError::StateError(_) => ErrorKind::StateError,
            ContractError::ExternalResourceError(_) => ErrorKind::ExternalResourceError,
            ContractError::DatabaseError(_) => ErrorKind::DatabaseError,
            ContractError::TimelockError(_) => ErrorKind::TimelockError,
        }
    }

    pub open spec fn spec_message(&self) -> String {
        match self {
            ContractError::AccessDenied(s) => *s,
            ContractError::InvalidInput(s) => *s,
            ContractError::OperationFailed(s) => *s,
            ContractError::StateError(s) => *s,
            ContractError::ExternalResourceError(s) => *s,
            ContractError::DatabaseError(s) => *s,
            ContractError::TimelockError(s) => *s,
        }
    }

    /// The message carried by this error.
    pub fn message(&self) -> (m: String)
        ensures
            m == self.spec_message(),
    {
        match self {
            ContractError::AccessDenied(s) => s.clone(),
            ContractError::InvalidInput(s) => s.clone(),
            ContractError::OperationFailed(s) => s.clone(),
            ContractError::StateError(s) => s.clone(),
            ContractError::ExternalResourceError(s) => s.clone(),
            ContractError::DatabaseError(s) => s.clone(),
            ContractError::TimelockError(s) => s.clone(),
        }
    }
}

/// `r` is an error of kind `k`.
pub open spec fn fails_with<T>(r: Result<T, ContractError>, k: ErrorKind) -> bool {
    match r {
        Ok(_) => false,
        Err(e) => e.spec_kind() == k,
    }
}

pub fn access_denied(msg: &str) -> (e: ContractError)
    ensures
        e.spec_kind() == ErrorKind::AccessDenied,
{
    ContractError::AccessDenied(String::from_str(msg))
}

pub fn invalid_input(msg: &str) -> (e: ContractError)
    ensures
        e.spec_kind() == ErrorKind::InvalidInput,
{
    ContractError::InvalidInput(String::from_str(msg))
}

pub fn operation_failed(msg: &str) -> (e: ContractError)
    ensures
        e.spec_kind() == ErrorKind::OperationFailed,
{
    ContractError::OperationFailed(String::from_str(msg))
}

pub fn state_error(msg: &str) -> (e: ContractError)
    ensures
        e.spec_kind() == ErrorKind::StateError,
{
    ContractError::StateError(String::from_str(msg))
}

pub fn timelock_error(msg: &str) -> (e: ContractError)
    ensures
        e.spec_kind() == ErrorKind::TimelockError,
{
    ContractError::TimelockError(String::from_str(msg))
}

/// Roles a registered user may hold.
#[derive(Clone, Copy, Debug, PartialEq, Eq, Structural)]
pub enum Role {
    Admin,
    Voter,
    Delegate,
    Observer,
}

/// A participant admitted by the administrator after a Sybil-resistance check.
#[derive(Clone, Debug)]
pub struct User {
    pub identifier: String,
    pub roles: Vec<Role>,
    pub reputation_score: u64,
    pub verified: bool,
    pub identity_proof: String,
    pub social_graph_score: u64,
    pub registration_time: u64,
}

/// A candidate (or proposal) that votes are cast for, keyed by `code`.
#[derive(Clone, Debug)]
pub struct Candidate {
    pub name: String,
    pub num_votes: u64,
    pub code: u64,
    pub description: String,
    pub created_at: u64,
    pub created_by: String,
    pub proposal_hash: String,
    pub proposal_url: String,
}

/// A registered voter.
///
/// `voting_power` and `vote_weight` are fixed-point numbers counted in
/// millionths of a vote (see `POWER_SCALE`).
#[derive(Clone, Debug)]
pub struct Voter {
    pub identifier: String,
    pub choice_code: u64,
    pub has_voted: bool,
    pub voting_power: u64,
    pub last_vote_time: u64,
    pub delegated_to: Option<String>,
    pub delegated_from: Vec<String>,
    pub vote_weight: u64,
}

/// The phase of the election.
#[derive(Clone, Copy, Debug, PartialEq, Eq, Structural)]
pub enum ElectionState {
    Announced,
    Started,
    Happening,
    Ended,
}

/// A delayed administrative action.
#[derive(Clone, Debug)]
pub struct TimelockAction {
    pub action_type: String,
    pub description: String,
    pub proposed_by: String,
    pub proposed_at: u64,
    pub execution_time: u64,
    pub executed: bool,
    pub canceled: bool,
    pub data: String,
}

/// An entry of the append-only audit log.
#[derive(Clone, Debug)]
pub struct Event {
    pub event_type: String,
    pub timestamp: u64,
    pub data: String,
    pub emitted_by: String,
    pub block_number: Option<u64>,
    pub transaction_hash: Option<String>,
}

/// The tamper-evident record of one cast vote; `weight` is in millionths.
#[derive(Clone, Debug)]
pub struct VoteRecord {
    pub voter_id: String,
    pub candidate_code: u64,
    pub timestamp: u64,
    pub weight: u64,
    pub vote_hash: String,
}

/// Settings of an election contract.
#[derive(Clone, Debug)]
pub struct ContractConfig {
    pub candidate_data_url: String,
    pub voter_data_url: String,
    pub min_reputation_score: u64,
    pub max_votes_per_period: u64,
    pub voting_period_seconds: u64,
    pub emergency_stop: bool,
    pub timelock_delay: u64,
    pub min_social_graph_score: u64,
    pub min_account_age_seconds: u64,
    pub quadratic_voting_enabled: bool,
    pub delegation_enabled: bool,
}

impl Default for ContractConfig {
    fn default() -> (c: ContractConfig)
        ensures
            c.candidate_data_url@ == "https://example.com/candidates.json"@,
            c.voter_data_url@ == "https://example.com/voters.json"@,
            c.min_reputation_score == 10,
            c.max_votes_per_period == 5,
            c.voting_period_seconds == 86400,
            !c.emergency_stop,
            c.timelock_delay == 172800,
            c.min_social_graph_score == 5,
            c.min_account_age_seconds == 604800,
            c.quadratic_voting_enabled,
            c.delegation_enabled,
    {
        ContractConfig {
            candidate_data_url: String::from_str("https://example.com/candidates.json"),
            voter_data_url: String::from_str("https://example.com/voters.json"),
            min_reputation_score: 10,
            max_votes_per_period: 5,
            voting_period_seconds: 86400,
            emergency_stop: false,
            timelock_delay: 172800,
            min_social_graph_score: 5,
            min_account_age_seconds: 604800,
            quadratic_voting_enabled: true,
            delegation_enabled: true,
        }
    }
}

/// A copy of a list of identifiers.
pub fn copy_strings(v: &Vec<String>) -> (r: Vec<String>)
    ensures
        r@ == v@,
{
    let mut r: Vec<String> = Vec::new();
    let mut i: usize = 0;
    while i < v.len()
        invariant
            i <= v@.len(),
            r@ == v@.subrange(0, i as int),
        decreases v@.len() - i,
    {
        r.push(v[i].clone());
        i += 1;
        proof {
            assert(r@ =~= v@.subrange(0, i as int));
        }
    }
    proof {
        assert(r@ =~= v@);
    }
    r
}

/// A copy of an optional identifier.
pub fn copy_opt_string(o: &Option<String>) -> (r: Option<String>)
    ensures
        r == *o,
{
    match o {
        Some(s) => Some(s.clone()),
        None => None,
    }
}

impl Candidate {
    /// A field-by-field copy.
    pub fn duplicate(&self) -> (r: Candidate)
        ensures
            r == *self,
    {
        Candidate {
            name: self.name.clone(),
            num_votes: self.num_votes,
            code: self.code,
            description: self.description.clone(),
            created_at: self.created_at,
            created_by: self.created_by.clone(),
            proposal_hash: self.proposal_hash.clone(),
            proposal_url: self.proposal_url.clone(),
        }
    }
}

/// `a` and `b` hold the same voter data.
pub open spec fn same_voter(a: Voter, b: Voter) -> bool {
    &&& a.identifier == b.identifier
    &&& a.choice_code == b.choice_code
    &&& a.has_voted == b.has_voted
    &&& a.voting_power == b.voting_power
    &&& a.last_vote_time == b.last_vote_time
    &&& a.delegated_to == b.delegated_to
    &&& a.delegated_from@ == b.delegated_from@
    &&& a.vote_weight == b.vote_weight
}

impl Voter {
    /// A field-by-field copy.
    pub fn duplicate(&self) -> (r: Voter)
        ensures
            same_voter(r, *self),
    {
        Voter {
            identifier: self.identifier.clone(),
            choice_code: self.choice_code,
            has_voted: self.has_voted,
            voting_power: self.voting_power,
            last_vote_time: self.last_vote_time,
            delegated_to: copy_opt_string(&self.delegated_to),
            delegated_from: copy_strings(&self.delegated_from),
            vote_weight: self.vote_weight,
        }
    }
}

impl TimelockAction {
    /// A field-by-field copy.
    pub fn duplicate(&self) -> (r: TimelockAction)
        ensures
            r == *self,
    {
        TimelockAction {
            action_type: self.action_type.clone(),
            description: self.description.clone(),
            proposed_by: self.proposed_by.clone(),
            proposed_at: self.proposed_at,
            execution_time: self.execution_time,
            executed: self.executed,
            canceled: self.canceled,
            data: self.data.clone(),
        }
    }
}

impl Event {
    /// A field-by-field copy.
    pub fn duplicate(&self) -> (r: Event)
        ensures
            r == *self,
    {
        Event {
            event_type: self.event_type.clone(),
            timestamp: self.timestamp,
            data: self.data.clone(),
            emitted_by: self.emitted_by.clone(),
            block_number: self.block_number,
            transaction_hash: copy_opt_string(&self.transaction_hash),
        }
    }
}

impl VoteRecord {
    /// A field-by-field copy.
    pub fn duplicate(&self) -> (r: VoteRecord)
        ensures
            r == *self,
    {
        VoteRecord {
            voter_id: self.voter_id.clone(),
            candidate_code: self.candidate_code,
            timestamp: self.timestamp,
            weight: self.weight,
            vote_hash: self.vote_hash.clone(),
        }
    }
}

impl ContractConfig {
    /// A field-by-field copy.
    pub fn duplicate(&self) -> (r: ContractConfig)
        ensures
            r == *self,
    {
        ContractConfig {
            candidate_data_url: self.candidate_data_url.clone(),
            voter_data_url: self.voter_data_url.clone(),
            min_reputation_score: self.min_reputation_score,
            max_votes_per_period: self.max_votes_per_period,
            voting_period_seconds: self.voting_period_seconds,
            emergency_stop: self.emergency_stop,
            timelock_delay: self.timelock_delay,
            min_social_graph_score: self.min_social_graph_score,
            min_account_age_seconds: self.min_account_age_seconds,
            quadratic_voting_enabled: self.quadratic_voting_enabled,
            delegation_enabled: self.delegation_enabled,
        }
    }
}

} // verus!
