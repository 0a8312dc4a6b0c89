use smart_contract::{
    Candidate, ContractConfig, ContractError, ElectionContract, ElectionState, ErrorKind, Voter,
};

const ADMIN: &str = "admin_address";
const T0: u64 = 1_700_000_000;
const WEEK: u64 = 604_800;

fn kind<T>(r: Result<T, ContractError>) -> ErrorKind {
    match r {
        Ok(_) => panic!("expected an error"),
        Err(e) => e.kind(),
    }
}

fn contract() -> ElectionContract {
    ElectionContract::new(ADMIN.to_string())
}

/// Users registered at T0, voters registered a week later.
fn with_voters(ids: &[(&str, u64)]) -> ElectionContract {
    let mut c = contract();
    for (id, score) in ids {
        c.register_user_at(ADMIN, id, "proof", *score, T0).unwrap();
    }
    for (id, _) in ids {
        c.register_voter_at(ADMIN, id, T0 + WEEK).unwrap();
    }
    c
}

fn voter(c: &ElectionContract, id: &str) -> Voter {
    c.get_all_voters().unwrap().into_iter().find(|v| v.identifier == id).unwrap()
}

fn candidate(c: &ElectionContract, code: u64) -> Candidate {
    c.get_all_candidates().unwrap().into_iter().find(|x| x.code == code).unwrap()
}

#[test]
fn single_voter_election_scenario() {
    let mut c = contract();
    c.register_user_at(ADMIN, "u1", "proof", 20, T0).unwrap();
    c.register_voter_at(ADMIN, "u1", T0 + WEEK).unwrap();
    c.add_candidate_at(ADMIN, "Candidate 1", 1, "Description", "https://example.com/p1", T0)
        .unwrap();
    c.start_election(ADMIN).unwrap();
    // The voter was registered before the start, so no move to Happening.
    assert_eq!(c.get_election_state().unwrap(), ElectionState::Started);
    assert_eq!(voter(&c, "u1").voting_power, 4_472_135);
    c.place_vote_at("u1", 1, T0 + 2 * WEEK).unwrap();
    assert_eq!(candidate(&c, 1).num_votes, 4);
    c.end_election(ADMIN).unwrap();
    let winner = c.winning_candidate().unwrap().unwrap();
    assert_eq!(winner.code, 1);
    assert_eq!(c.verify_vote("u1").unwrap(), true);
    // SHA-256 of "u1:1:1701209600".
    assert_eq!(
        c.get_vote_records().unwrap()[0].vote_hash,
        "a1fe351e9d6e225618ea73b83eeb0c5702b27aeb3645b3baefc2a54663882a5f"
    );
}

#[test]
fn second_vote_is_refused() {
    let mut c = with_voters(&[("a", 20)]);
    c.add_candidate_at(ADMIN, "X", 1, "", "", T0).unwrap();
    c.add_candidate_at(ADMIN, "Y", 2, "", "", T0).unwrap();
    c.start_election(ADMIN).unwrap();
    c.place_vote_at("a", 1, T0 + 2 * WEEK).unwrap();
    assert_eq!(kind(c.place_vote_at("a", 2, T0 + 3 * WEEK)), ErrorKind::InvalidInput);
    assert_eq!(kind(c.place_vote_at("a", 1, T0 + 3 * WEEK)), ErrorKind::InvalidInput);
    assert_eq!(candidate(&c, 1).num_votes, 4);
    assert_eq!(candidate(&c, 2).num_votes, 0);
    assert_eq!(c.get_vote_records().unwrap().len(), 1);
}

#[test]
fn delegation_scenario() {
    let mut c = with_voters(&[("a", 20), ("b", 20)]);
    c.add_candidate_at(ADMIN, "Candidate 1", 1, "", "", T0).unwrap();
    c.start_election(ADMIN).unwrap();
    c.delegate_vote("a", "b").unwrap();
    let a = voter(&c, "a");
    let b = voter(&c, "b");
    assert_eq!(b.vote_weight, b.voting_power + a.voting_power);
    assert_eq!(b.delegated_from, vec!["a".to_string()]);
    assert_eq!(a.delegated_to, Some("b".to_string()));
    assert!(!a.has_voted);
    c.place_vote_at("b", 1, T0 + 2 * WEEK).unwrap();
    // 4.472135 + 4.472135 = 8.94427 rounds to 9.
    assert_eq!(candidate(&c, 1).num_votes, 9);
    // Delegating does not mark the delegator as having voted.
    c.place_vote_at("a", 1, T0 + 2 * WEEK).unwrap();
    assert_eq!(candidate(&c, 1).num_votes, 13);
    assert_eq!(kind(c.place_vote_at("a", 1, T0 + 3 * WEEK)), ErrorKind::InvalidInput);
}

#[test]
fn timelock_change_admin_scenario() {
    let mut c = contract();
    c.propose_timelock_action_at(ADMIN, "ChangeAdmin", "Change admin", "new_admin", T0).unwrap();
    assert_eq!(kind(c.execute_timelock_action_at(ADMIN, 0, T0 + 1)), ErrorKind::TimelockError);
    c.execute_timelock_action_at(ADMIN, 0, T0 + 172_800).unwrap();
    assert!(c.is_admin("new_admin"));
    assert!(!c.is_admin(ADMIN));
    assert_eq!(
        kind(c.execute_timelock_action_at("new_admin", 0, T0 + 172_801)),
        ErrorKind::TimelockError
    );
    assert!(c.get_pending_timelocks().unwrap().is_empty());
}

#[test]
fn non_admin_is_denied_without_change() {
    let mut c = contract();
    let before = c.get_events().unwrap().len();
    assert_eq!(kind(c.start_election("mallory")), ErrorKind::AccessDenied);
    assert_eq!(kind(c.announce_election("mallory")), ErrorKind::AccessDenied);
    assert_eq!(kind(c.end_election("mallory")), ErrorKind::AccessDenied);
    assert_eq!(kind(c.add_candidate_at("mallory", "X", 1, "", "", T0)), ErrorKind::AccessDenied);
    assert_eq!(kind(c.register_user_at("mallory", "u", "p", 50, T0)), ErrorKind::AccessDenied);
    assert_eq!(kind(c.register_voter_at("mallory", "u", T0)), ErrorKind::AccessDenied);
    assert_eq!(kind(c.emergency_stop("mallory")), ErrorKind::AccessDenied);
    assert_eq!(kind(c.resume_operations("mallory")), ErrorKind::AccessDenied);
    assert_eq!(
        kind(c.propose_timelock_action_at("mallory", "ChangeAdmin", "", "mallory", T0)),
        ErrorKind::AccessDenied
    );
    assert_eq!(kind(c.merge_candidates("mallory", Vec::new())), ErrorKind::AccessDenied);
    assert_eq!(c.get_election_state().unwrap(), ElectionState::Announced);
    assert_eq!(c.get_events().unwrap().len(), before);
    assert!(c.get_all_candidates().unwrap().is_empty());
}

#[test]
fn phase_transitions() {
    let mut c = contract();
    assert_eq!(kind(c.end_election(ADMIN)), ErrorKind::StateError);
    c.start_election(ADMIN).unwrap();
    assert_eq!(kind(c.start_election(ADMIN)), ErrorKind::StateError);
    c.end_election(ADMIN).unwrap();
    assert_eq!(c.get_election_state().unwrap(), ElectionState::Ended);
    assert_eq!(kind(c.end_election(ADMIN)), ErrorKind::StateError);
    c.announce_election(ADMIN).unwrap();
    assert_eq!(c.get_election_state().unwrap(), ElectionState::Announced);
}

#[test]
fn first_registration_after_start_moves_to_happening() {
    let mut c = contract();
    c.register_user_at(ADMIN, "u1", "proof", 20, T0).unwrap();
    c.start_election(ADMIN).unwrap();
    c.register_voter_at(ADMIN, "u1", T0 + WEEK).unwrap();
    assert_eq!(c.get_election_state().unwrap(), ElectionState::Happening);
    let events = c.get_events().unwrap();
    let n = events.len();
    assert_eq!(events[n - 2].event_type, "VoterRegistered");
    assert_eq!(events[n - 1].event_type, "ElectionStateChanged");
    c.end_election(ADMIN).unwrap();
    assert_eq!(kind(c.register_voter_at(ADMIN, "u1", T0 + WEEK)), ErrorKind::StateError);
}

#[test]
fn candidate_validation() {
    let mut c = contract();
    assert_eq!(kind(c.add_candidate_at(ADMIN, "   ", 1, "", "", T0)), ErrorKind::InvalidInput);
    c.add_candidate_at(ADMIN, "Alice", 1, "d", "u", T0).unwrap();
    assert_eq!(kind(c.add_candidate_at(ADMIN, "Bob", 1, "", "", T0)), ErrorKind::InvalidInput);
    let alice = candidate(&c, 1);
    assert_eq!(alice.num_votes, 0);
    assert_eq!(alice.created_at, T0);
    assert_eq!(alice.created_by, ADMIN);
    assert_eq!(alice.proposal_hash.len(), 64);
    assert_ne!(alice.proposal_hash, "Alice:1:d:u");
    c.start_election(ADMIN).unwrap();
    assert_eq!(kind(c.add_candidate_at(ADMIN, "Carol", 2, "", "", T0)), ErrorKind::StateError);
}

#[test]
fn proposal_hash_is_sha256_of_fields() {
    let mut c = contract();
    c.add_candidate_at(ADMIN, "a", 1, "b", "c", T0).unwrap();
    // SHA-256 of "a:1:b:c".
    let h = candidate(&c, 1).proposal_hash;
    assert_eq!(h, "1987c49b74bbf9d037306728b02f088152a599180ee2a2ec32308caa6f0fa17a");
    let mut d = contract();
    d.add_candidate_at(ADMIN, "a", 1, "b", "d", T0).unwrap();
    assert_ne!(candidate(&d, 1).proposal_hash, h);
}

#[test]
fn user_validation() {
    let mut c = contract();
    assert_eq!(kind(c.register_user_at(ADMIN, " ", "p", 20, T0)), ErrorKind::InvalidInput);
    assert_eq!(kind(c.register_user_at(ADMIN, "u", "p", 4, T0)), ErrorKind::InvalidInput);
    c.register_user_at(ADMIN, "u", "p", 5, T0).unwrap();
    assert_eq!(kind(c.register_user_at(ADMIN, "u", "p", 50, T0)), ErrorKind::InvalidInput);
}

#[test]
fn voter_validation() {
    let mut c = contract();
    assert_eq!(kind(c.register_voter_at(ADMIN, "nobody", T0)), ErrorKind::InvalidInput);
    c.register_user_at(ADMIN, "u", "p", 20, T0).unwrap();
    assert_eq!(kind(c.register_voter_at(ADMIN, "u", T0 + WEEK - 1)), ErrorKind::InvalidInput);
    assert_eq!(kind(c.register_voter_at(ADMIN, "u", T0 - 1)), ErrorKind::InvalidInput);
    c.register_voter_at(ADMIN, "u", T0 + WEEK).unwrap();
    assert_eq!(kind(c.register_voter_at(ADMIN, "u", T0 + WEEK)), ErrorKind::InvalidInput);
}

#[test]
fn flat_voting_power_without_quadratic_voting() {
    let mut config = ContractConfig::default();
    config.quadratic_voting_enabled = false;
    let mut c = ElectionContract::with_config(ADMIN.to_string(), config);
    c.register_user_at(ADMIN, "u", "p", 100, T0).unwrap();
    c.register_voter_at(ADMIN, "u", T0 + WEEK).unwrap();
    let v = voter(&c, "u");
    assert_eq!(v.voting_power, 1_000_000);
    assert_eq!(v.vote_weight, 1_000_000);
}

#[test]
fn quadratic_power_of_perfect_square() {
    let c = with_voters(&[("u", 100)]);
    assert_eq!(voter(&c, "u").voting_power, 10_000_000);
}

#[test]
fn circular_and_self_delegation_are_refused() {
    let mut c = with_voters(&[("a", 20), ("b", 20), ("d", 20)]);
    c.start_election(ADMIN).unwrap();
    assert_eq!(kind(c.delegate_vote("a", "a")), ErrorKind::InvalidInput);
    c.delegate_vote("a", "b").unwrap();
    c.delegate_vote("b", "d").unwrap();
    assert_eq!(kind(c.delegate_vote("d", "a")), ErrorKind::InvalidInput);
    assert_eq!(kind(c.delegate_vote("b", "a")), ErrorKind::InvalidInput);
    assert_eq!(kind(c.delegate_vote("a", "zed")), ErrorKind::InvalidInput);
    assert_eq!(kind(c.delegate_vote("zed", "a")), ErrorKind::InvalidInput);
}

#[test]
fn delegation_state_and_settings() {
    let mut c = with_voters(&[("a", 20), ("b", 20)]);
    assert_eq!(kind(c.delegate_vote("a", "b")), ErrorKind::StateError);
    let mut config = ContractConfig::default();
    config.delegation_enabled = false;
    let mut d = ElectionContract::with_config(ADMIN.to_string(), config);
    assert_eq!(kind(d.delegate_vote("a", "b")), ErrorKind::OperationFailed);
    c.add_candidate_at(ADMIN, "X", 1, "", "", T0).unwrap();
    c.start_election(ADMIN).unwrap();
    c.place_vote_at("a", 1, T0 + 2 * WEEK).unwrap();
    assert_eq!(kind(c.delegate_vote("a", "b")), ErrorKind::InvalidInput);
}

#[test]
fn vote_validation() {
    let mut c = with_voters(&[("a", 20)]);
    c.add_candidate_at(ADMIN, "X", 1, "", "", T0).unwrap();
    assert_eq!(kind(c.place_vote_at("a", 1, T0 + 2 * WEEK)), ErrorKind::StateError);
    c.start_election(ADMIN).unwrap();
    assert_eq!(kind(c.place_vote_at("zed", 1, T0 + 2 * WEEK)), ErrorKind::InvalidInput);
    assert_eq!(kind(c.place_vote_at("a", 2, T0 + 2 * WEEK)), ErrorKind::InvalidInput);
    // Within the rate-limit window counted from the last vote time (0).
    assert_eq!(kind(c.place_vote_at("a", 1, 86_399)), ErrorKind::OperationFailed);
    c.place_vote_at("a", 1, T0 + 2 * WEEK).unwrap();
    assert_eq!(voter(&c, "a").choice_code, 1);
    assert_eq!(voter(&c, "a").last_vote_time, T0 + 2 * WEEK);
    let records = c.get_vote_records().unwrap();
    assert_eq!(records.len(), 1);
    assert_eq!(records[0].voter_id, "a");
    assert_eq!(records[0].candidate_code, 1);
    assert_eq!(records[0].timestamp, T0 + 2 * WEEK);
    assert_eq!(records[0].weight, 4_472_135);
    assert_eq!(records[0].vote_hash.len(), 64);
}

#[test]
fn zero_weight_vote_is_refused() {
    let mut config = ContractConfig::default();
    config.min_social_graph_score = 0;
    let mut c = ElectionContract::with_config(ADMIN.to_string(), config);
    c.register_user_at(ADMIN, "z", "p", 0, T0).unwrap();
    c.register_voter_at(ADMIN, "z", T0 + WEEK).unwrap();
    c.add_candidate_at(ADMIN, "X", 1, "", "", T0).unwrap();
    c.start_election(ADMIN).unwrap();
    assert_eq!(kind(c.place_vote_at("z", 1, T0 + 2 * WEEK)), ErrorKind::OperationFailed);
    assert!(!voter(&c, "z").has_voted);
}

#[test]
fn vote_total_overflow_is_refused() {
    let mut c = with_voters(&[("a", 20)]);
    let mut x = Candidate {
        name: "X".to_string(),
        num_votes: u64::MAX - 2,
        code: 7,
        description: String::new(),
        created_at: 0,
        created_by: String::new(),
        proposal_hash: String::new(),
        proposal_url: String::new(),
    };
    c.merge_candidates(ADMIN, vec![x.clone()]).unwrap();
    c.start_election(ADMIN).unwrap();
    assert_eq!(kind(c.place_vote_at("a", 7, T0 + 2 * WEEK)), ErrorKind::OperationFailed);
    assert_eq!(candidate(&c, 7).num_votes, u64::MAX - 2);
    assert!(!voter(&c, "a").has_voted);
    x.num_votes = u64::MAX - 4;
    c.merge_candidates(ADMIN, vec![x]).unwrap();
    c.place_vote_at("a", 7, T0 + 2 * WEEK).unwrap();
    assert_eq!(candidate(&c, 7).num_votes, u64::MAX);
}

#[test]
fn winner_requires_ended_phase_and_breaks_ties_by_lowest_code() {
    let mut c = with_voters(&[("a", 16), ("b", 16)]);
    c.add_candidate_at(ADMIN, "Nine", 9, "", "", T0).unwrap();
    c.add_candidate_at(ADMIN, "Three", 3, "", "", T0).unwrap();
    c.add_candidate_at(ADMIN, "Five", 5, "", "", T0).unwrap();
    assert_eq!(kind(c.winning_candidate()), ErrorKind::StateError);
    c.start_election(ADMIN).unwrap();
    c.place_vote_at("a", 9, T0 + 2 * WEEK).unwrap();
    c.place_vote_at("b", 5, T0 + 2 * WEEK).unwrap();
    assert_eq!(kind(c.winning_candidate()), ErrorKind::StateError);
    c.end_election(ADMIN).unwrap();
    assert_eq!(c.winning_candidate().unwrap().unwrap().code, 5);
}

#[test]
fn winner_of_empty_or_voteless_election() {
    let mut c = contract();
    c.start_election(ADMIN).unwrap();
    c.end_election(ADMIN).unwrap();
    assert!(c.winning_candidate().unwrap().is_none());
    let mut d = contract();
    d.add_candidate_at(ADMIN, "B", 2, "", "", T0).unwrap();
    d.add_candidate_at(ADMIN, "A", 1, "", "", T0).unwrap();
    d.start_election(ADMIN).unwrap();
    d.end_election(ADMIN).unwrap();
    assert_eq!(d.winning_candidate().unwrap().unwrap().code, 1);
}

#[test]
fn verify_vote_without_record_is_false() {
    let c = with_voters(&[("a", 20)]);
    assert_eq!(c.verify_vote("a").unwrap(), false);
    assert_eq!(c.verify_vote("nobody").unwrap(), false);
}

#[test]
fn emergency_stop_blocks_operations() {
    let mut c = with_voters(&[("a", 20)]);
    c.add_candidate_at(ADMIN, "X", 1, "", "", T0).unwrap();
    c.emergency_stop(ADMIN).unwrap();
    assert_eq!(kind(c.start_election(ADMIN)), ErrorKind::StateError);
    assert_eq!(kind(c.place_vote_at("a", 1, T0 + 2 * WEEK)), ErrorKind::StateError);
    assert_eq!(kind(c.delegate_vote("a", "a")), ErrorKind::StateError);
    assert_eq!(
        kind(c.propose_timelock_action_at(ADMIN, "UpdateConfig", "", "", T0)),
        ErrorKind::StateError
    );
    c.resume_operations(ADMIN).unwrap();
    c.start_election(ADMIN).unwrap();
    c.place_vote_at("a", 1, T0 + 2 * WEEK).unwrap();
    let types: Vec<String> = c.get_events().unwrap().into_iter().map(|e| e.event_type).collect();
    assert!(types.contains(&"EmergencyStop".to_string()));
    assert!(types.contains(&"ResumeOperations".to_string()));
}

#[test]
fn timelock_lifecycle() {
    let mut c = contract();
    c.propose_timelock_action_at(ADMIN, "UpdateConfig", "cfg", "x", T0).unwrap();
    c.propose_timelock_action_at(ADMIN, "Mystery", "m", "x", T0).unwrap();
    c.propose_timelock_action_at(ADMIN, "ChangeAdmin", "ca", "other", T0).unwrap();
    let pending = c.get_pending_timelocks().unwrap();
    assert_eq!(pending.len(), 3);
    assert_eq!(pending[0].execution_time, T0 + 172_800);
    assert_eq!(pending[0].proposed_by, ADMIN);
    assert_eq!(kind(c.execute_timelock_action_at(ADMIN, 3, T0)), ErrorKind::InvalidInput);
    // An unknown type is refused and stays pending.
    assert_eq!(
        kind(c.execute_timelock_action_at(ADMIN, 1, T0 + 172_800)),
        ErrorKind::TimelockError
    );
    assert_eq!(c.get_pending_timelocks().unwrap().len(), 3);
    c.execute_timelock_action_at(ADMIN, 0, T0 + 172_800).unwrap();
    assert!(c.is_admin(ADMIN));
    c.cancel_timelock_action(ADMIN, 2).unwrap();
    assert_eq!(kind(c.cancel_timelock_action(ADMIN, 2)), ErrorKind::TimelockError);
    assert_eq!(kind(c.cancel_timelock_action(ADMIN, 0)), ErrorKind::TimelockError);
    assert_eq!(kind(c.cancel_timelock_action(ADMIN, 9)), ErrorKind::InvalidInput);
    assert_eq!(
        kind(c.execute_timelock_action_at(ADMIN, 2, T0 + 172_800)),
        ErrorKind::TimelockError
    );
    let pending = c.get_pending_timelocks().unwrap();
    assert_eq!(pending.len(), 1);
    assert_eq!(pending[0].action_type, "Mystery");
}

#[test]
fn timelock_eligible_time_saturates() {
    let mut c = contract();
    c.propose_timelock_action_at(ADMIN, "UpdateConfig", "", "", u64::MAX - 5).unwrap();
    assert_eq!(c.get_pending_timelocks().unwrap()[0].execution_time, u64::MAX);
}

#[test]
fn merge_candidates_upserts_by_code() {
    let mut c = contract();
    c.add_candidate_at(ADMIN, "Old", 1, "", "", T0).unwrap();
    let mk = |name: &str, code: u64| Candidate {
        name: name.to_string(),
        num_votes: 0,
        code,
        description: String::new(),
        created_at: 0,
        created_by: String::new(),
        proposal_hash: String::new(),
        proposal_url: String::new(),
    };
    c.merge_candidates(ADMIN, vec![mk("New", 1), mk("Two", 2), mk("Two again", 2)]).unwrap();
    let all = c.get_all_candidates().unwrap();
    assert_eq!(all.len(), 2);
    assert_eq!(candidate(&c, 1).name, "New");
    assert_eq!(candidate(&c, 2).name, "Two again");
}

#[test]
fn merge_voters_keeps_only_detached_new_records() {
    let mut c = with_voters(&[("a", 20)]);
    let mk = |id: &str, power: u64, weight: u64, to: Option<&str>| Voter {
        identifier: id.to_string(),
        choice_code: 0,
        has_voted: false,
        voting_power: power,
        last_vote_time: 0,
        delegated_to: to.map(|s| s.to_string()),
        delegated_from: Vec::new(),
        vote_weight: weight,
    };
    c.merge_voters(
        ADMIN,
        vec![
            mk("a", 9, 9, None),
            mk("n", 2_000_000, 2_000_000, None),
            mk("w", 1, 5, None),
            mk("l", 1, 1, Some("a")),
        ],
    )
    .unwrap();
    let all = c.get_all_voters().unwrap();
    assert_eq!(all.len(), 2);
    assert_eq!(voter(&c, "a").voting_power, 4_472_135);
    assert_eq!(voter(&c, "n").voting_power, 2_000_000);
}

#[test]
fn error_messages_and_kinds() {
    let mut c = contract();
    let e = c.start_election("x").unwrap_err();
    assert_eq!(e.kind(), ErrorKind::AccessDenied);
    assert_eq!(e.message(), "Only admin can start elections");
}

#[test]
fn default_config_values() {
    let d = ContractConfig::default();
    assert_eq!(d.candidate_data_url, "https://example.com/candidates.json");
    assert_eq!(d.voter_data_url, "https://example.com/voters.json");
    assert_eq!(d.min_reputation_score, 10);
    assert_eq!(d.max_votes_per_period, 5);
    assert_eq!(d.voting_period_seconds, 86400);
    assert!(!d.emergency_stop);
    assert_eq!(d.timelock_delay, 172800);
    assert_eq!(d.min_social_graph_score, 5);
    assert_eq!(d.min_account_age_seconds, 604800);
    assert!(d.quadratic_voting_enabled);
    assert!(d.delegation_enabled);
}

#[test]
fn clock_driven_operations_run() {
    let mut c = contract();
    c.register_user(ADMIN, "u", "p", 20).unwrap();
    // Registered just now: the account is younger than a week.
    assert_eq!(kind(c.register_voter(ADMIN, "u")), ErrorKind::InvalidInput);
    c.add_candidate(ADMIN, "X", 1, "", "").unwrap();
    c.propose_timelock_action(ADMIN, "ChangeAdmin", "", "z").unwrap();
    assert_eq!(kind(c.execute_timelock_action(ADMIN, 0)), ErrorKind::TimelockError);
    c.start_election(ADMIN).unwrap();
    assert_eq!(kind(c.place_vote("u", 1)), ErrorKind::InvalidInput);
}
