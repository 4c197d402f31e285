use survey_ledger::decision::{decide_new_survey, decide_registration, decide_vote, phase_of};
use survey_ledger::ledger::VOTE_FEE_STROOPS;
use survey_ledger::{
    Address, RegistryError, Survey, SurveyContract, SurveyError, SurveyPhase, VoteResult,
};

fn address(text: &str) -> Address {
    Address::from_string(text)
}

fn fresh() -> SurveyContract {
    SurveyContract::initialize(true).unwrap()
}

fn tallies(lines: &[VoteResult]) -> Vec<(String, u64)> {
    lines.iter().map(|line| (line.candidate.to_string(), line.votes)).collect()
}

fn open_survey(contract: &mut SurveyContract, candidates: Vec<Address>, start: u64, end: u64) -> u64 {
    contract
        .create_survey(
            address("GCREATOR"),
            "Survey".to_string(),
            "About".to_string(),
            start,
            end,
            candidates,
            true,
        )
        .unwrap()
}

#[test]
fn test_create_survey() {
    let mut contract = fresh();

    let creator = address("GCREATOR");
    let candidate1 = address("GCANDIDATE1");
    let candidate2 = address("GCANDIDATE2");

    let mut candidates = Vec::new();
    candidates.push(candidate1.clone());
    candidates.push(candidate2.clone());

    let survey_id = contract
        .create_survey(
            creator,
            "Test Survey".to_string(),
            "Description".to_string(),
            1000,
            2000,
            candidates,
            true,
        )
        .unwrap();

    assert_eq!(survey_id, 1);
    assert_eq!(contract.get_survey_count(), 1);

    let survey = contract.get_survey(survey_id);
    assert!(survey.is_some());
}

#[test]
fn test_voting() {
    let mut contract = fresh();

    let creator = address("GCREATOR");
    let voter1 = address("GVOTER1");
    let voter2 = address("GVOTER2");
    let candidate1 = address("GCANDIDATE1");
    let candidate2 = address("GCANDIDATE2");

    let mut candidates = Vec::new();
    candidates.push(candidate1.clone());
    candidates.push(candidate2.clone());

    let now = 1500;

    let survey_id = contract
        .create_survey(
            creator,
            "Voting Test".to_string(),
            "Test Description".to_string(),
            1000,
            3000,
            candidates,
            true,
        )
        .unwrap();

    let vote_result = contract.vote(survey_id, voter1.clone(), candidate1.clone(), now, true).unwrap();
    assert!(vote_result);

    assert!(contract.has_voted(survey_id, voter1.clone()));

    contract.vote(survey_id, voter2.clone(), candidate2.clone(), now, true).unwrap();

    let results = contract.get_results(survey_id).unwrap();
    assert_eq!(results.len(), 2);
    assert_eq!(contract.get_total_votes(survey_id), 2);
}

#[test]
#[should_panic(expected = "Voter has already voted")]
fn test_double_voting() {
    let mut contract = fresh();

    let creator = address("GCREATOR");
    let voter = address("GVOTER");
    let candidate1 = address("GCANDIDATE1");
    let candidate2 = address("GCANDIDATE2");

    let mut candidates = Vec::new();
    candidates.push(candidate1.clone());
    candidates.push(candidate2.clone());

    let now = 1500;

    let survey_id = contract
        .create_survey(
            creator,
            "Double Vote Test".to_string(),
            "Test".to_string(),
            1000,
            3000,
            candidates,
            true,
        )
        .unwrap();

    contract.vote(survey_id, voter.clone(), candidate1, now, true).unwrap();

    if let Err(error) = contract.vote(survey_id, voter, candidate2, now, true) {
        panic!("{}", error.message());
    }
}

#[test]
fn fresh_ledger_answers_with_defaults() {
    let contract = fresh();
    assert_eq!(contract.get_survey_count(), 0);
    assert_eq!(contract.get_vote_fee(), 1_000_000);
    assert_eq!(VOTE_FEE_STROOPS, 1_000_000);
    assert!(contract.get_survey(1).is_none());
    assert!(contract.get_survey(0).is_none());
    assert_eq!(contract.get_total_votes(1), 0);
    assert!(!contract.has_voted(1, address("GVOTER")));
    assert!(contract.get_vote(1, address("GVOTER")).is_none());
    assert_eq!(contract.get_results(1).err(), Some(SurveyError::SurveyNotFound));
}

#[test]
fn initialize_needs_an_authenticated_administrator() {
    assert_eq!(SurveyContract::initialize(false).err(), Some(SurveyError::Unauthorized));
    assert!(SurveyContract::initialize(true).is_ok());
}

#[test]
fn created_survey_is_stored_as_given() {
    let mut contract = fresh();
    let id = contract
        .create_survey(
            address("GCREATOR"),
            "Name".to_string(),
            "Text".to_string(),
            10,
            20,
            vec![address("GX"), address("GY")],
            true,
        )
        .unwrap();
    let survey: Survey = contract.get_survey(id).unwrap();
    assert_eq!(survey.survey_id, 1);
    assert_eq!(survey.creator, address("GCREATOR"));
    assert_eq!(survey.name, "Name");
    assert_eq!(survey.description, "Text");
    assert_eq!(survey.start_date, 10);
    assert_eq!(survey.end_date, 20);
    assert_eq!(survey.candidates, vec![address("GX"), address("GY")]);
    assert_eq!(contract.get_total_votes(id), 0);
    assert_eq!(
        tallies(&contract.get_results(id).unwrap()),
        vec![("GX".to_string(), 0), ("GY".to_string(), 0)]
    );
}

#[test]
fn second_vote_of_a_voter_is_refused() {
    let mut contract = fresh();
    let id = open_survey(&mut contract, vec![address("GX"), address("GY")], 1000, 2000);

    assert_eq!(contract.vote(id, address("GV1"), address("GX"), 1500, true), Ok(true));
    assert_eq!(
        tallies(&contract.get_results(id).unwrap()),
        vec![("GX".to_string(), 1), ("GY".to_string(), 0)]
    );
    assert!(contract.has_voted(id, address("GV1")));
    assert_eq!(contract.get_vote(id, address("GV1")), Some(address("GX")));

    assert_eq!(
        contract.vote(id, address("GV1"), address("GY"), 1500, true),
        Err(SurveyError::AlreadyVoted)
    );
    assert_eq!(
        contract.vote(id, address("GV1"), address("GX"), 1500, true),
        Err(SurveyError::AlreadyVoted)
    );
    assert_eq!(
        tallies(&contract.get_results(id).unwrap()),
        vec![("GX".to_string(), 1), ("GY".to_string(), 0)]
    );
    assert_eq!(contract.get_total_votes(id), 1);
    assert_eq!(contract.get_vote(id, address("GV1")), Some(address("GX")));
}

#[test]
fn empty_candidate_list_is_refused() {
    let mut contract = fresh();
    open_survey(&mut contract, vec![address("GX")], 1, 2);
    let before = contract.get_survey_count();

    let outcome = contract.create_survey(
        address("GCREATOR"),
        "Empty".to_string(),
        "No candidates".to_string(),
        1000,
        2000,
        Vec::new(),
        true,
    );
    assert_eq!(outcome, Err(SurveyError::InvalidCandidateSet));
    assert_eq!(contract.get_survey_count(), before);
    assert_eq!(contract.get_survey_count(), 1);
    assert!(contract.get_survey(2).is_none());
}

#[test]
fn reversed_window_is_refused() {
    let mut contract = fresh();
    let outcome = contract.create_survey(
        address("GCREATOR"),
        "Backwards".to_string(),
        "Ends before it starts".to_string(),
        2000,
        1000,
        vec![address("GX")],
        true,
    );
    assert_eq!(outcome, Err(SurveyError::InvalidTimeWindow));
    assert_eq!(contract.get_survey_count(), 0);
}

#[test]
fn window_of_equal_bounds_is_refused() {
    let mut contract = fresh();
    let outcome = contract.create_survey(
        address("GCREATOR"),
        "Instant".to_string(),
        "Starts when it ends".to_string(),
        1000,
        1000,
        vec![address("GX")],
        true,
    );
    assert_eq!(outcome, Err(SurveyError::InvalidTimeWindow));
    assert_eq!(contract.get_survey_count(), 0);
}

#[test]
fn unlisted_candidate_is_refused() {
    let mut contract = fresh();
    let id = open_survey(&mut contract, vec![address("GX"), address("GY")], 1000, 2000);

    assert_eq!(
        contract.vote(id, address("GV1"), address("GZ"), 1500, true),
        Err(SurveyError::InvalidCandidate)
    );
    assert_eq!(contract.get_total_votes(id), 0);
    assert!(!contract.has_voted(id, address("GV1")));
    assert!(contract.get_vote(id, address("GV1")).is_none());
    assert_eq!(
        tallies(&contract.get_results(id).unwrap()),
        vec![("GX".to_string(), 0), ("GY".to_string(), 0)]
    );
}

#[test]
fn two_voters_for_one_candidate() {
    let mut contract = fresh();
    let id = open_survey(&mut contract, vec![address("GX"), address("GY")], 1000, 2000);

    assert_eq!(contract.vote(id, address("GV1"), address("GY"), 1200, true), Ok(true));
    assert_eq!(contract.vote(id, address("GV2"), address("GY"), 1800, true), Ok(true));

    assert_eq!(contract.get_total_votes(id), 2);
    assert_eq!(
        tallies(&contract.get_results(id).unwrap()),
        vec![("GX".to_string(), 0), ("GY".to_string(), 2)]
    );
    assert_eq!(contract.get_vote(id, address("GV1")), Some(address("GY")));
    assert_eq!(contract.get_vote(id, address("GV2")), Some(address("GY")));
}

#[test]
fn votes_are_accepted_on_both_ends_of_the_window() {
    let mut contract = fresh();
    let id = open_survey(&mut contract, vec![address("GX")], 1000, 2000);

    assert_eq!(contract.vote(id, address("GV1"), address("GX"), 1000, true), Ok(true));
    assert_eq!(contract.vote(id, address("GV2"), address("GX"), 2000, true), Ok(true));
    assert_eq!(contract.get_total_votes(id), 2);
}

#[test]
fn votes_outside_the_window_change_nothing() {
    let mut contract = fresh();
    let id = open_survey(&mut contract, vec![address("GX"), address("GY")], 1000, 2000);

    assert_eq!(
        contract.vote(id, address("GV1"), address("GX"), 999, true),
        Err(SurveyError::SurveyNotOpen)
    );
    assert_eq!(
        contract.vote(id, address("GV1"), address("GX"), 2001, true),
        Err(SurveyError::SurveyNotOpen)
    );
    assert_eq!(
        contract.vote(id, address("GV1"), address("GX"), 0, true),
        Err(SurveyError::SurveyNotOpen)
    );
    assert_eq!(
        contract.vote(id, address("GV1"), address("GX"), u64::MAX, true),
        Err(SurveyError::SurveyNotOpen)
    );
    assert_eq!(contract.get_total_votes(id), 0);
    assert!(!contract.has_voted(id, address("GV1")));
    assert!(contract.get_vote(id, address("GV1")).is_none());
    assert_eq!(
        tallies(&contract.get_results(id).unwrap()),
        vec![("GX".to_string(), 0), ("GY".to_string(), 0)]
    );
}

#[test]
fn results_stay_readable_after_the_window() {
    let mut contract = fresh();
    let id = open_survey(&mut contract, vec![address("GX")], 1000, 2000);
    assert_eq!(contract.vote(id, address("GV1"), address("GX"), 1500, true), Ok(true));

    let survey = contract.get_survey(id).unwrap();
    assert_eq!(survey.phase(2001), SurveyPhase::Closed);
    assert_eq!(tallies(&contract.get_results(id).unwrap()), vec![("GX".to_string(), 1)]);
    assert_eq!(contract.get_total_votes(id), 1);
}

#[test]
fn phase_follows_the_clock() {
    let mut contract = fresh();
    let id = open_survey(&mut contract, vec![address("GX")], 1000, 2000);
    let survey = contract.get_survey(id).unwrap();

    assert_eq!(survey.phase(0), SurveyPhase::Created);
    assert_eq!(survey.phase(999), SurveyPhase::Created);
    assert_eq!(survey.phase(1000), SurveyPhase::Open);
    assert_eq!(survey.phase(1500), SurveyPhase::Open);
    assert_eq!(survey.phase(2000), SurveyPhase::Open);
    assert_eq!(survey.phase(2001), SurveyPhase::Closed);

    assert!(!survey.is_open(999));
    assert!(survey.is_open(1000));
    assert!(survey.is_open(2000));
    assert!(!survey.is_open(2001));

    assert!(survey.lists(&address("GX")));
    assert!(!survey.lists(&address("GY")));
}

#[test]
fn vote_in_a_missing_survey() {
    let mut contract = fresh();
    open_survey(&mut contract, vec![address("GX")], 1000, 2000);

    assert_eq!(
        contract.vote(2, address("GV1"), address("GX"), 1500, true),
        Err(SurveyError::SurveyNotFound)
    );
    assert_eq!(
        contract.vote(0, address("GV1"), address("GX"), 1500, true),
        Err(SurveyError::SurveyNotFound)
    );
    assert_eq!(
        contract.vote(u64::MAX, address("GV1"), address("GX"), 1500, true),
        Err(SurveyError::SurveyNotFound)
    );
    assert_eq!(contract.get_total_votes(1), 0);
}

#[test]
fn unauthenticated_calls_are_refused_first() {
    let mut contract = fresh();
    let id = open_survey(&mut contract, vec![address("GX")], 1000, 2000);

    assert_eq!(
        contract.create_survey(
            address("GCREATOR"),
            "Name".to_string(),
            "Text".to_string(),
            2000,
            1000,
            Vec::new(),
            false,
        ),
        Err(SurveyError::Unauthorized)
    );
    assert_eq!(contract.get_survey_count(), 1);

    assert_eq!(
        contract.vote(id, address("GV1"), address("GX"), 1500, false),
        Err(SurveyError::Unauthorized)
    );
    assert_eq!(
        contract.vote(7, address("GV1"), address("GZ"), 5000, false),
        Err(SurveyError::Unauthorized)
    );
    assert_eq!(contract.get_total_votes(id), 0);
    assert!(!contract.has_voted(id, address("GV1")));
}

#[test]
fn checks_are_made_in_order() {
    let mut contract = fresh();

    assert_eq!(
        contract.create_survey(
            address("GCREATOR"),
            "Name".to_string(),
            "Text".to_string(),
            2000,
            1000,
            Vec::new(),
            true,
        ),
        Err(SurveyError::InvalidCandidateSet)
    );

    let id = open_survey(&mut contract, vec![address("GX")], 1000, 2000);
    assert_eq!(contract.vote(id, address("GV1"), address("GX"), 1500, true), Ok(true));

    assert_eq!(
        contract.vote(id, address("GV1"), address("GZ"), 5000, true),
        Err(SurveyError::SurveyNotOpen)
    );
    assert_eq!(
        contract.vote(id, address("GV1"), address("GZ"), 1500, true),
        Err(SurveyError::InvalidCandidate)
    );
    assert_eq!(
        contract.vote(id, address("GV1"), address("GX"), 1500, true),
        Err(SurveyError::AlreadyVoted)
    );
}

#[test]
fn ids_count_up_without_gaps() {
    let mut contract = fresh();

    assert_eq!(open_survey(&mut contract, vec![address("GX")], 1, 2), 1);
    assert_eq!(
        contract.create_survey(
            address("GCREATOR"),
            "Refused".to_string(),
            "No candidates".to_string(),
            1,
            2,
            Vec::new(),
            true,
        ),
        Err(SurveyError::InvalidCandidateSet)
    );
    assert_eq!(open_survey(&mut contract, vec![address("GY")], 1, 2), 2);
    assert_eq!(contract.vote(1, address("GV1"), address("GX"), 1, true), Ok(true));
    assert_eq!(
        contract.create_survey(
            address("GCREATOR"),
            "Refused".to_string(),
            "Backwards".to_string(),
            2,
            1,
            vec![address("GX")],
            true,
        ),
        Err(SurveyError::InvalidTimeWindow)
    );
    assert_eq!(open_survey(&mut contract, vec![address("GZ")], 1, 2), 3);
    assert_eq!(contract.get_survey_count(), 3);

    for id in 1..=3 {
        assert_eq!(contract.get_survey(id).unwrap().survey_id, id);
    }
    assert!(contract.get_survey(4).is_none());
}

#[test]
fn tallies_match_the_votes_on_record() {
    let mut contract = fresh();
    let candidates = vec![address("GX"), address("GY"), address("GZ")];
    let id = open_survey(&mut contract, candidates.clone(), 1000, 2000);

    let ballots = [
        ("GV1", "GX"),
        ("GV2", "GY"),
        ("GV3", "GX"),
        ("GV4", "GX"),
        ("GV5", "GY"),
    ];
    for (cast, (voter, candidate)) in ballots.iter().enumerate() {
        assert_eq!(contract.vote(id, address(voter), address(candidate), 1500, true), Ok(true));

        let results = contract.get_results(id).unwrap();
        for line in results.iter() {
            let on_record = ballots
                .iter()
                .filter(|(voter, _)| contract.get_vote(id, address(voter)) == Some(line.candidate.clone()))
                .count() as u64;
            assert_eq!(line.votes, on_record);
        }
        let sum: u64 = results.iter().map(|line| line.votes).sum();
        assert_eq!(sum, contract.get_total_votes(id));
        assert_eq!(contract.get_total_votes(id), cast as u64 + 1);
    }
    assert_eq!(
        tallies(&contract.get_results(id).unwrap()),
        vec![("GX".to_string(), 3), ("GY".to_string(), 2), ("GZ".to_string(), 0)]
    );
}

#[test]
fn surveys_do_not_interfere() {
    let mut contract = fresh();
    let first = open_survey(&mut contract, vec![address("GX"), address("GY")], 1000, 2000);
    let second = open_survey(&mut contract, vec![address("GY"), address("GZ")], 1500, 2500);

    assert_eq!(contract.vote(first, address("GV1"), address("GY"), 1600, true), Ok(true));
    assert_eq!(contract.vote(second, address("GV1"), address("GZ"), 1600, true), Ok(true));
    assert_eq!(contract.vote(second, address("GV2"), address("GY"), 1600, true), Ok(true));

    assert_eq!(
        tallies(&contract.get_results(first).unwrap()),
        vec![("GX".to_string(), 0), ("GY".to_string(), 1)]
    );
    assert_eq!(
        tallies(&contract.get_results(second).unwrap()),
        vec![("GY".to_string(), 1), ("GZ".to_string(), 1)]
    );
    assert_eq!(contract.get_total_votes(first), 1);
    assert_eq!(contract.get_total_votes(second), 2);
    assert_eq!(contract.get_vote(first, address("GV1")), Some(address("GY")));
    assert_eq!(contract.get_vote(second, address("GV1")), Some(address("GZ")));
    assert!(!contract.has_voted(first, address("GV2")));
}

#[test]
fn repeated_candidate_is_listed_twice_with_one_tally() {
    let mut contract = fresh();
    let id = open_survey(&mut contract, vec![address("GX"), address("GY"), address("GX")], 1000, 2000);

    assert_eq!(
        tallies(&contract.get_results(id).unwrap()),
        vec![("GX".to_string(), 0), ("GY".to_string(), 0), ("GX".to_string(), 0)]
    );
    assert_eq!(contract.vote(id, address("GV1"), address("GX"), 1500, true), Ok(true));
    assert_eq!(
        tallies(&contract.get_results(id).unwrap()),
        vec![("GX".to_string(), 1), ("GY".to_string(), 0), ("GX".to_string(), 1)]
    );
    assert_eq!(contract.get_total_votes(id), 1);
}

#[test]
fn every_refusal_has_its_sentence() {
    assert_eq!(
        SurveyError::InvalidCandidateSet.message(),
        "Survey must have at least one candidate"
    );
    assert_eq!(SurveyError::InvalidTimeWindow.message(), "Start date must be before end date");
    assert_eq!(SurveyError::SurveyNotFound.message(), "Survey not found");
    assert_eq!(SurveyError::SurveyNotOpen.message(), "Survey is not open");
    assert_eq!(SurveyError::InvalidCandidate.message(), "Candidate is not in this survey");
    assert_eq!(SurveyError::AlreadyVoted.message(), "Voter has already voted in this survey");
    assert_eq!(SurveyError::Unauthorized.message(), "Caller is not authorized");
    assert_eq!(SurveyError::CounterExhausted.message(), "Counter cannot go any higher");
}

#[test]
fn addresses_compare_by_their_text() {
    let one = Address::from_string("GABC");
    let same = Address::from_string("GABC");
    let other = Address::from_string("GABD");
    assert_eq!(one, same);
    assert_ne!(one, other);
    assert_eq!(one.clone(), one);
    assert_eq!(one.to_string(), "GABC");
}

#[test]
fn roster_keeps_the_order_of_acceptance() {
    let mut contract = fresh();
    let id = open_survey(&mut contract, vec![address("GX"), address("GY")], 1000, 2000);
    assert!(contract.get_voters(id).is_empty());

    assert_eq!(contract.vote(id, address("GV3"), address("GY"), 1500, true), Ok(true));
    assert_eq!(contract.vote(id, address("GV1"), address("GX"), 1500, true), Ok(true));
    assert_eq!(
        contract.vote(id, address("GV3"), address("GX"), 1500, true),
        Err(SurveyError::AlreadyVoted)
    );
    assert_eq!(contract.vote(id, address("GV2"), address("GY"), 1500, true), Ok(true));

    assert_eq!(contract.get_voters(id), vec![address("GV3"), address("GV1"), address("GV2")]);
    assert_eq!(contract.get_total_votes(id), 3);
    assert!(contract.get_voters(id + 1).is_empty());
    assert!(contract.get_voters(0).is_empty());
}

#[test]
fn new_survey_is_decided_from_the_counter() {
    let listed = vec![address("GX")];
    assert_eq!(decide_new_survey(0, 1000, 2000, &listed, true), Ok(1));
    assert_eq!(decide_new_survey(41, 1000, 2000, &listed, true), Ok(42));
    assert_eq!(decide_new_survey(u64::MAX - 1, 1000, 2000, &listed, true), Ok(u64::MAX));
    assert_eq!(
        decide_new_survey(u64::MAX, 1000, 2000, &listed, true),
        Err(SurveyError::CounterExhausted)
    );
    assert_eq!(
        decide_new_survey(u64::MAX, 2000, 1000, &listed, true),
        Err(SurveyError::InvalidTimeWindow)
    );
    assert_eq!(
        decide_new_survey(u64::MAX, 1000, 2000, &Vec::new(), true),
        Err(SurveyError::InvalidCandidateSet)
    );
    assert_eq!(
        decide_new_survey(u64::MAX, 1000, 2000, &listed, false),
        Err(SurveyError::Unauthorized)
    );
}

#[test]
fn vote_is_decided_from_the_records_it_reads() {
    let listed = vec![address("GX"), address("GY")];
    let x = address("GX");

    assert_eq!(decide_vote(true, 1000, 2000, &listed, false, 0, 0, &x, 1500, true), Ok(1));
    assert_eq!(decide_vote(true, 1000, 2000, &listed, false, 6, 9, &x, 2000, true), Ok(7));
    assert_eq!(
        decide_vote(true, 1000, 2000, &listed, false, 6, 9, &x, 1500, false),
        Err(SurveyError::Unauthorized)
    );
    assert_eq!(
        decide_vote(false, 0, 0, &Vec::new(), false, 0, 0, &x, 1500, true),
        Err(SurveyError::SurveyNotFound)
    );
    assert_eq!(
        decide_vote(true, 1000, 2000, &listed, false, 6, 9, &x, 2001, true),
        Err(SurveyError::SurveyNotOpen)
    );
    assert_eq!(
        decide_vote(true, 1000, 2000, &listed, false, 6, 9, &address("GZ"), 1500, true),
        Err(SurveyError::InvalidCandidate)
    );
    assert_eq!(
        decide_vote(true, 1000, 2000, &listed, true, 6, 9, &x, 1500, true),
        Err(SurveyError::AlreadyVoted)
    );
    assert_eq!(
        decide_vote(true, 1000, 2000, &listed, false, u64::MAX, u64::MAX, &x, 1500, true),
        Err(SurveyError::CounterExhausted)
    );
    assert_eq!(
        decide_vote(true, 1000, 2000, &listed, false, 3, u64::MAX, &x, 1500, true),
        Err(SurveyError::CounterExhausted)
    );
    assert_eq!(
        decide_vote(true, 1000, 2000, &listed, true, u64::MAX, u64::MAX, &x, 1500, true),
        Err(SurveyError::AlreadyVoted)
    );
}

#[test]
fn phase_is_decided_from_the_window() {
    assert_eq!(phase_of(1000, 2000, 999), SurveyPhase::Created);
    assert_eq!(phase_of(1000, 2000, 1000), SurveyPhase::Open);
    assert_eq!(phase_of(1000, 2000, 2000), SurveyPhase::Open);
    assert_eq!(phase_of(1000, 2000, 2001), SurveyPhase::Closed);
}

#[test]
fn registration_is_decided_from_the_count() {
    assert_eq!(decide_registration(false, 0, true), Ok(Some(1)));
    assert_eq!(decide_registration(false, 7, true), Ok(Some(8)));
    assert_eq!(decide_registration(true, 7, true), Ok(None));
    assert_eq!(decide_registration(true, u64::MAX, true), Ok(None));
    assert_eq!(decide_registration(false, 7, false), Err(RegistryError::Unauthorized));
    assert_eq!(decide_registration(true, 7, false), Err(RegistryError::Unauthorized));
    assert_eq!(decide_registration(false, u64::MAX, true), Err(RegistryError::CounterExhausted));
    assert_eq!(RegistryError::Unauthorized.message(), "Caller is not authorized");
    assert_eq!(RegistryError::CounterExhausted.message(), "Counter cannot go any higher");
}
