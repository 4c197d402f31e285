use survey_ledger::{Address, CandidateRegistry, RegistryError};

#[test]
fn test_register_candidate() {
    let mut registry = CandidateRegistry::new();

    let candidate_wallet = Address::from_string("GCANDIDATE");

    let result = registry
        .register_candidate(
            candidate_wallet.clone(),
            "Juan Perez Lopez".to_string(),
            "PELJ850101ABC".to_string(),
            0,
            true,
        )
        .unwrap();

    assert!(result);
    assert!(registry.candidate_exists(candidate_wallet.clone()));
    assert_eq!(registry.get_candidate_count(), 1);
}

#[test]
fn test_get_candidate() {
    let mut registry = CandidateRegistry::new();

    let candidate_wallet = Address::from_string("GCANDIDATE");

    registry
        .register_candidate(
            candidate_wallet.clone(),
            "Maria Garcia Rodriguez".to_string(),
            "GARM900202XYZ".to_string(),
            0,
            true,
        )
        .unwrap();

    let candidate = registry.get_candidate(candidate_wallet.clone());
    assert!(candidate.is_some());

    let candidate_data = candidate.unwrap();
    assert_eq!(candidate_data.wallet, candidate_wallet);
}

#[test]
fn test_get_all_candidates() {
    let mut registry = CandidateRegistry::new();

    let candidate1 = Address::from_string("GCANDIDATE1");
    let candidate2 = Address::from_string("GCANDIDATE2");
    let candidate3 = Address::from_string("GCANDIDATE3");

    registry
        .register_candidate(candidate1.clone(), "Candidato 1".to_string(), "RFC1".to_string(), 0, true)
        .unwrap();
    registry
        .register_candidate(candidate2.clone(), "Candidato 2".to_string(), "RFC2".to_string(), 0, true)
        .unwrap();
    registry
        .register_candidate(candidate3.clone(), "Candidato 3".to_string(), "RFC3".to_string(), 0, true)
        .unwrap();

    let all_candidates = registry.get_all_candidates();
    assert_eq!(all_candidates.len(), 3);
    assert_eq!(registry.get_candidate_count(), 3);
}

#[test]
fn test_duplicate_registration() {
    let mut registry = CandidateRegistry::new();

    let candidate_wallet = Address::from_string("GCANDIDATE");

    let result1 = registry
        .register_candidate(
            candidate_wallet.clone(),
            "Carlos Sanchez".to_string(),
            "SACA950303DEF".to_string(),
            0,
            true,
        )
        .unwrap();
    assert!(result1);

    let result2 = registry
        .register_candidate(
            candidate_wallet.clone(),
            "Carlos Sanchez".to_string(),
            "SACA950303DEF".to_string(),
            0,
            true,
        )
        .unwrap();
    assert!(!result2);

    assert_eq!(registry.get_candidate_count(), 1);
}

#[test]
fn empty_candidate_registry() {
    let registry = CandidateRegistry::new();
    assert_eq!(registry.get_candidate_count(), 0);
    assert!(registry.get_all_candidates().is_empty());
    assert!(!registry.candidate_exists(Address::from_string("GNOBODY")));
    assert!(registry.get_candidate(Address::from_string("GNOBODY")).is_none());
}

#[test]
fn candidate_profile_is_stored_as_given() {
    let mut registry = CandidateRegistry::new();
    let wallet = Address::from_string("GCANDIDATE");

    assert_eq!(
        registry.register_candidate(wallet.clone(), "Ana".to_string(), "RFCA".to_string(), 77, true),
        Ok(true)
    );
    let stored = registry.get_candidate(wallet.clone()).unwrap();
    assert_eq!(stored.wallet, wallet);
    assert_eq!(stored.name, "Ana");
    assert_eq!(stored.rfc, "RFCA");
    assert_eq!(stored.timestamp, 77);
}

#[test]
fn second_candidate_registration_keeps_the_first_profile() {
    let mut registry = CandidateRegistry::new();
    let wallet = Address::from_string("GCANDIDATE");

    assert_eq!(
        registry.register_candidate(wallet.clone(), "Ana".to_string(), "RFCA".to_string(), 1, true),
        Ok(true)
    );
    assert_eq!(
        registry.register_candidate(wallet.clone(), "Other".to_string(), "RFCB".to_string(), 2, true),
        Ok(false)
    );
    let stored = registry.get_candidate(wallet.clone()).unwrap();
    assert_eq!(stored.name, "Ana");
    assert_eq!(stored.rfc, "RFCA");
    assert_eq!(stored.timestamp, 1);
    assert_eq!(registry.get_all_candidates(), vec![wallet]);
}

#[test]
fn candidates_are_listed_in_order_of_registration() {
    let mut registry = CandidateRegistry::new();
    for text in ["GC", "GA", "GB"] {
        assert_eq!(
            registry.register_candidate(
                Address::from_string(text),
                "Name".to_string(),
                "RFC".to_string(),
                5,
                true,
            ),
            Ok(true)
        );
    }
    assert_eq!(
        registry.get_all_candidates(),
        vec![Address::from_string("GC"), Address::from_string("GA"), Address::from_string("GB")]
    );
}

#[test]
fn unauthenticated_candidate_is_refused() {
    let mut registry = CandidateRegistry::new();
    let wallet = Address::from_string("GCANDIDATE");

    assert_eq!(
        registry.register_candidate(wallet.clone(), "Ana".to_string(), "RFCA".to_string(), 1, false),
        Err(RegistryError::Unauthorized)
    );
    assert!(!registry.candidate_exists(wallet));
    assert_eq!(registry.get_candidate_count(), 0);
    assert!(registry.get_all_candidates().is_empty());
}
