use ic_principal::Principal;
use random_num::error::ServiceError;
use random_num::identity::Identity;
use random_num::number::SeqNo;
use random_num::service::{Generation, PendingDraw, Service};

fn id(bytes: &[u8]) -> Identity {
    Identity::from_slice(bytes).unwrap()
}

fn num(n: u64) -> SeqNo {
    SeqNo::from_bytes(&n.to_le_bytes())
}

fn pending(service: &Service, caller: &Identity, seq_no: &SeqNo) -> PendingDraw {
    match service.generate_random(caller, seq_no) {
        Ok(Generation::Pending(draw)) => draw,
        other => panic!("expected a pending draw, got {:?}", other),
    }
}

fn service_with_operator(owner: &Identity, operator: &Identity) -> Service {
    let mut service = Service::open().unwrap();
    service.init(owner);
    assert!(matches!(service.add_operator(owner, operator), Ok(true)));
    service
}

#[test]
fn new_service_is_unset_and_empty() {
    let service = Service::open().unwrap();
    assert_eq!(service.get_owner(), Identity::anonymous());
    assert_eq!(service.get_owner().as_slice(), &[4u8][..]);
    assert!(!service.validate_operator(&Identity::anonymous()));
    assert!(!service.validate_operator(&id(&[1])));
    assert_eq!(service.get_random_by_seq_no(&num(0)), None);
    assert_eq!(service.get_random_by_seq_no(&num(1)), None);
}

#[test]
fn init_sets_the_owner() {
    let mut service = Service::open().unwrap();
    let a = id(&[10, 11, 12]);
    service.init(&a);
    assert_eq!(service.get_owner(), a);
    assert_eq!(service.get_owner().as_slice(), &[10u8, 11, 12][..]);
}

#[test]
fn init_again_replaces_the_owner() {
    let mut service = Service::open().unwrap();
    let a = id(&[1]);
    let b = id(&[2, 2]);
    service.init(&a);
    service.init(&b);
    assert_eq!(service.get_owner(), b);
    assert!(matches!(service.add_operator(&a, &a), Err(ServiceError::NotOwner(_))));
    assert!(matches!(service.add_operator(&b, &a), Ok(true)));
}

#[test]
fn init_takes_the_longest_and_the_empty_identity() {
    let mut service = Service::open().unwrap();
    let long = id(&[7u8; 29]);
    service.init(&long);
    assert_eq!(service.get_owner().as_slice(), &[7u8; 29][..]);
    let empty = id(&[]);
    service.init(&empty);
    assert_eq!(service.get_owner().as_slice(), &[0u8; 0][..]);
}

#[test]
fn owner_adds_operator() {
    let mut service = Service::open().unwrap();
    let a = id(&[1]);
    let b = id(&[2]);
    service.init(&a);
    assert!(!service.validate_operator(&b));
    assert!(matches!(service.add_operator(&a, &b), Ok(true)));
    assert!(service.validate_operator(&b));
    assert!(!service.validate_operator(&a));
}

#[test]
fn adding_an_operator_again_changes_nothing() {
    let mut service = Service::open().unwrap();
    let a = id(&[1]);
    let b = id(&[2]);
    let c = id(&[3]);
    service.init(&a);
    assert!(matches!(service.add_operator(&a, &b), Ok(true)));
    assert!(matches!(service.add_operator(&a, &b), Ok(true)));
    assert!(service.validate_operator(&b));
    assert!(!service.validate_operator(&c));
}

#[test]
fn add_operator_by_another_is_refused() {
    let mut service = Service::open().unwrap();
    let a = id(&[1]);
    let b = id(&[2]);
    let c = id(&[3]);
    service.init(&a);
    assert!(matches!(service.add_operator(&a, &b), Ok(true)));
    match service.add_operator(&c, &c) {
        Err(ServiceError::NotOwner(who)) => assert_eq!(who, c),
        other => panic!("expected a refusal, got {:?}", other),
    }
    assert!(!service.validate_operator(&c));
    assert!(service.validate_operator(&b));
    assert_eq!(service.get_owner(), a);
}

#[test]
fn anonymous_owns_a_service_that_was_never_given_an_owner() {
    let mut service = Service::open().unwrap();
    let b = id(&[2]);
    assert!(matches!(service.add_operator(&b, &b), Err(ServiceError::NotOwner(_))));
    assert!(matches!(service.add_operator(&Identity::anonymous(), &b), Ok(true)));
    assert!(service.validate_operator(&b));
}

#[test]
fn identities_that_share_a_prefix_are_different_operators() {
    let a = id(&[1]);
    let service = service_with_operator(&a, &id(&[5, 6]));
    assert!(service.validate_operator(&id(&[5, 6])));
    assert!(!service.validate_operator(&id(&[5])));
    assert!(!service.validate_operator(&id(&[5, 6, 0])));
    assert!(!service.validate_operator(&id(&[6, 5])));
}

#[test]
fn generate_by_another_is_refused() {
    let a = id(&[1]);
    let b = id(&[2]);
    let c = id(&[3]);
    let service = service_with_operator(&a, &b);
    match service.generate_random(&c, &num(1)) {
        Err(ServiceError::NotOperator(who)) => assert_eq!(who, c),
        other => panic!("expected a refusal, got {:?}", other),
    }
    assert_eq!(service.get_random_by_seq_no(&num(1)), None);
    assert!(matches!(
        service.generate_random(&a, &num(1)),
        Err(ServiceError::NotOperator(_))
    ));
}

#[test]
fn generate_by_another_is_refused_for_a_cached_number_too() {
    let a = id(&[1]);
    let b = id(&[2]);
    let c = id(&[3]);
    let mut service = service_with_operator(&a, &b);
    let draw = pending(&service, &b, &num(1));
    service.record_random(draw, Ok(vec![9])).unwrap();
    assert!(matches!(
        service.generate_random(&c, &num(1)),
        Err(ServiceError::NotOperator(_))
    ));
}

#[test]
fn first_request_is_pending_and_names_its_number() {
    let a = id(&[1]);
    let b = id(&[2]);
    let service = service_with_operator(&a, &b);
    let draw = pending(&service, &b, &num(77));
    assert_eq!(draw.seq_no(), &num(77));
    assert_eq!(service.get_random_by_seq_no(&num(77)), None);
}

#[test]
fn recorded_entropy_is_the_value() {
    let a = id(&[1]);
    let b = id(&[2]);
    let mut service = service_with_operator(&a, &b);
    let draw = pending(&service, &b, &num(1));
    let (seq_no, value) = service.record_random(draw, Ok(vec![0x65, 0x04])).unwrap();
    assert_eq!(seq_no, num(1));
    assert_eq!(value, num(1125));
    assert_eq!(service.get_random_by_seq_no(&num(1)), Some(num(1125)));
    assert_eq!(service.get_random_by_seq_no(&num(2)), None);
}

#[test]
fn second_request_returns_the_cached_value() {
    let a = id(&[1]);
    let b = id(&[2]);
    let mut service = service_with_operator(&a, &b);
    let draw = pending(&service, &b, &num(5));
    let (_, first) = service.record_random(draw, Ok(vec![1, 2, 3, 4])).unwrap();
    match service.generate_random(&b, &num(5)) {
        Ok(Generation::Ready(seq_no, value)) => {
            assert_eq!(seq_no, num(5));
            assert_eq!(value, first);
            assert_eq!(value.to_bytes(), vec![1, 2, 3, 4]);
        }
        other => panic!("expected the cached value, got {:?}", other),
    }
    assert_eq!(service.get_random_by_seq_no(&num(5)), Some(first));
}

#[test]
fn scenario_owner_operator_and_generation() {
    let a = id(&[0xA]);
    let b = id(&[0xB]);
    let c = id(&[0xC]);
    let mut service = Service::open().unwrap();
    service.init(&a);
    assert_eq!(service.get_owner(), a);
    assert!(matches!(service.add_operator(&a, &b), Ok(true)));
    let refused = service.add_operator(&c, &b).unwrap_err();
    assert_eq!(
        refused.message(),
        format!("Error: {:?} is not the owner", Principal::from_slice(&[0xC]))
    );
    let entropy: Vec<u8> = (1..=32).collect();
    let draw = pending(&service, &b, &num(1));
    let (seq_no, r) = service.record_random(draw, Ok(entropy.clone())).unwrap();
    assert_eq!(seq_no, num(1));
    assert_eq!(r.to_bytes(), entropy);
    assert_eq!(service.get_random_by_seq_no(&num(1)), Some(r.clone()));
    match service.generate_random(&b, &num(1)) {
        Ok(Generation::Ready(seq_no, value)) => {
            assert_eq!(seq_no, num(1));
            assert_eq!(value, r);
        }
        other => panic!("expected the cached value, got {:?}", other),
    }
}

#[test]
fn entropy_fault_is_passed_on_and_changes_nothing() {
    let a = id(&[1]);
    let b = id(&[2]);
    let mut service = service_with_operator(&a, &b);
    let draw = pending(&service, &b, &num(3));
    let refused = service
        .record_random(draw, Err("(CanisterError, \"out of cycles\")".to_string()))
        .unwrap_err();
    match &refused {
        ServiceError::EntropySource(fault) => {
            assert_eq!(fault, "(CanisterError, \"out of cycles\")")
        }
        other => panic!("expected an entropy fault, got {:?}", other),
    }
    assert_eq!(refused.message(), "Error: (CanisterError, \"out of cycles\")");
    assert_eq!(service.get_random_by_seq_no(&num(3)), None);
    assert!(matches!(
        service.generate_random(&b, &num(3)),
        Ok(Generation::Pending(_))
    ));
    assert_eq!(service.get_owner(), a);
    assert!(service.validate_operator(&b));
}

#[test]
fn later_write_wins_between_two_pending_draws() {
    let a = id(&[1]);
    let b = id(&[2]);
    let mut service = service_with_operator(&a, &b);
    let first = pending(&service, &b, &num(8));
    let second = pending(&service, &b, &num(8));
    let (_, one) = service.record_random(first, Ok(vec![11])).unwrap();
    assert_eq!(one, num(11));
    let (_, two) = service.record_random(second, Ok(vec![22])).unwrap();
    assert_eq!(two, num(22));
    assert_eq!(service.get_random_by_seq_no(&num(8)), Some(num(22)));
}

#[test]
fn values_of_other_numbers_stay() {
    let a = id(&[1]);
    let b = id(&[2]);
    let mut service = service_with_operator(&a, &b);
    for n in 0..40u64 {
        let draw = pending(&service, &b, &num(n));
        service
            .record_random(draw, Ok((n * 1000 + 7).to_le_bytes().to_vec()))
            .unwrap();
    }
    service.init(&b);
    assert!(matches!(service.add_operator(&b, &a), Ok(true)));
    for n in 0..40u64 {
        assert_eq!(service.get_random_by_seq_no(&num(n)), Some(num(n * 1000 + 7)));
    }
    assert_eq!(service.get_random_by_seq_no(&num(40)), None);
}

#[test]
fn numbers_with_similar_encodings_are_different_keys() {
    let a = id(&[1]);
    let b = id(&[2]);
    let mut service = service_with_operator(&a, &b);
    let draw = pending(&service, &b, &num(1));
    service.record_random(draw, Ok(vec![1])).unwrap();
    let draw = pending(&service, &b, &num(256));
    service.record_random(draw, Ok(vec![2])).unwrap();
    let draw = pending(&service, &b, &num(0));
    service.record_random(draw, Ok(vec![3])).unwrap();
    assert_eq!(service.get_random_by_seq_no(&num(1)), Some(num(1)));
    assert_eq!(service.get_random_by_seq_no(&num(256)), Some(num(2)));
    assert_eq!(service.get_random_by_seq_no(&num(0)), Some(num(3)));
    assert_eq!(service.get_random_by_seq_no(&num(257)), None);
    assert_eq!(
        service.get_random_by_seq_no(&SeqNo::from_bytes(&[1, 0, 0, 0])),
        Some(num(1))
    );
}

#[test]
fn entropy_with_zero_high_bytes_is_stored_in_shortest_form() {
    let a = id(&[1]);
    let b = id(&[2]);
    let mut service = service_with_operator(&a, &b);
    let mut entropy = vec![0u8; 32];
    entropy[0] = 9;
    let draw = pending(&service, &b, &num(4));
    let (_, value) = service.record_random(draw, Ok(entropy)).unwrap();
    assert_eq!(value, num(9));
    assert_eq!(value.to_bytes(), vec![9]);
    assert_eq!(service.get_random_by_seq_no(&num(4)).unwrap().to_bytes(), vec![9]);
}

#[test]
fn zero_entropy_is_the_value_zero() {
    let a = id(&[1]);
    let b = id(&[2]);
    let mut service = service_with_operator(&a, &b);
    let draw = pending(&service, &b, &num(4));
    let (_, value) = service.record_random(draw, Ok(vec![0u8; 32])).unwrap();
    assert_eq!(value, num(0));
    assert_eq!(service.get_random_by_seq_no(&num(4)), Some(num(0)));
    let draw = pending(&service, &b, &num(6));
    let (_, value) = service.record_random(draw, Ok(vec![])).unwrap();
    assert_eq!(value, num(0));
}

#[test]
fn largest_number_and_value_are_stored() {
    let a = id(&[1]);
    let b = id(&[2]);
    let mut service = service_with_operator(&a, &b);
    let largest = SeqNo::from_bytes(&[0xFF; 32]);
    let draw = pending(&service, &b, &largest);
    let (seq_no, value) = service.record_random(draw, Ok(vec![0xFF; 32])).unwrap();
    assert_eq!(seq_no, largest);
    assert_eq!(value, largest);
    assert_eq!(service.get_random_by_seq_no(&largest), Some(largest.clone()));
    assert_eq!(
        service.get_random_by_seq_no(&largest).unwrap().to_bytes(),
        vec![0xFF; 32]
    );
}

#[test]
fn number_beyond_the_bound_is_refused() {
    let a = id(&[1]);
    let b = id(&[2]);
    let mut service = service_with_operator(&a, &b);
    let mut bytes = vec![0u8; 33];
    bytes[32] = 1;
    let beyond = SeqNo::from_bytes(&bytes);
    assert_eq!(service.get_random_by_seq_no(&beyond), None);
    let draw = pending(&service, &b, &beyond);
    assert_eq!(draw.seq_no(), &beyond);
    let refused = service.record_random(draw, Ok(vec![7u8; 32])).unwrap_err();
    assert!(matches!(refused, ServiceError::TooLarge));
    assert_eq!(refused.message(), "Error: the number does not fit in 32 bytes");
    assert_eq!(service.get_random_by_seq_no(&beyond), None);
    assert!(matches!(
        service.generate_random(&b, &beyond),
        Ok(Generation::Pending(_))
    ));
    assert!(matches!(
        service.generate_random(&a, &beyond),
        Err(ServiceError::NotOperator(_))
    ));
}

#[test]
fn entropy_fault_is_passed_on_for_a_number_beyond_the_bound() {
    let a = id(&[1]);
    let b = id(&[2]);
    let mut service = service_with_operator(&a, &b);
    let beyond = SeqNo::from_bytes(&[0xFF; 40]);
    let draw = pending(&service, &b, &beyond);
    let refused = service
        .record_random(draw, Err("(SysTransient, \"busy\")".to_string()))
        .unwrap_err();
    match &refused {
        ServiceError::EntropySource(fault) => assert_eq!(fault, "(SysTransient, \"busy\")"),
        other => panic!("expected an entropy fault, got {:?}", other),
    }
    assert_eq!(refused.message(), "Error: (SysTransient, \"busy\")");
    assert_eq!(service.get_random_by_seq_no(&beyond), None);
    assert_eq!(service.get_owner(), a);
    assert!(service.validate_operator(&b));
}

#[test]
fn value_beyond_the_bound_is_refused_and_changes_nothing() {
    let a = id(&[1]);
    let b = id(&[2]);
    let mut service = service_with_operator(&a, &b);
    let draw = pending(&service, &b, &num(1));
    let refused = service.record_random(draw, Ok(vec![1u8; 33])).unwrap_err();
    assert!(matches!(refused, ServiceError::TooLarge));
    assert_eq!(service.get_random_by_seq_no(&num(1)), None);
    let mut entropy = vec![5u8; 32];
    entropy.push(0);
    let draw = pending(&service, &b, &num(1));
    let (_, value) = service.record_random(draw, Ok(entropy)).unwrap();
    assert_eq!(value.to_bytes(), vec![5u8; 32]);
}

#[test]
fn refusals_name_the_caller() {
    let caller = id(&[1, 2, 3]);
    let principal = Principal::from_slice(&[1, 2, 3]);
    assert_eq!(
        ServiceError::NotOwner(caller.clone()).message(),
        format!("Error: {:?} is not the owner", principal)
    );
    assert_eq!(
        ServiceError::NotOperator(caller.clone()).message(),
        format!("Error: {:?} is not a valid operator", principal)
    );
    assert_eq!(caller.debug_text(), format!("{:?}", principal));
    assert_ne!(caller.debug_text().as_bytes(), &[1u8, 2, 3][..]);
    assert_eq!(
        ServiceError::EntropySource("fault".to_string()).message(),
        "Error: fault"
    );
}

#[test]
fn many_operators_are_all_kept() {
    let a = id(&[1]);
    let mut service = Service::open().unwrap();
    service.init(&a);
    for n in 0..200u8 {
        assert!(matches!(service.add_operator(&a, &id(&[n, n.wrapping_mul(7), 3])), Ok(true)));
    }
    for n in 0..200u8 {
        assert!(service.validate_operator(&id(&[n, n.wrapping_mul(7), 3])));
        assert!(!service.validate_operator(&id(&[n, n.wrapping_mul(7), 4])));
    }
    assert!(!service.validate_operator(&id(&[200, 200u8.wrapping_mul(7), 3])));
}

#[test]
fn opened_service_holds_an_identity_as_owner() {
    let service = Service::open().unwrap();
    let owner = service.get_owner();
    assert!(owner.as_slice().len() <= 29);
    assert_eq!(Identity::from_slice(owner.as_slice()), Some(owner));
}

#[test]
fn created_service_is_unset_and_empty() {
    let service = Service::new().unwrap();
    assert_eq!(service.get_owner(), Identity::anonymous());
    assert_eq!(service.get_owner().as_slice(), &[4u8][..]);
    assert!(!service.validate_operator(&Identity::anonymous()));
    assert!(!service.validate_operator(&id(&[])));
    assert!(!service.validate_operator(&id(&[2])));
    assert_eq!(service.get_random_by_seq_no(&num(0)), None);
    assert_eq!(service.get_random_by_seq_no(&num(1)), None);
    assert_eq!(service.get_random_by_seq_no(&SeqNo::from_bytes(&[0xFF; 32])), None);
}

#[test]
fn created_service_serves_requests() {
    let a = id(&[0xA]);
    let b = id(&[0xB]);
    let mut service = Service::new().unwrap();
    assert!(matches!(
        service.generate_random(&b, &num(1)),
        Err(ServiceError::NotOperator(_))
    ));
    service.init(&a);
    assert_eq!(service.get_owner(), a);
    assert!(matches!(service.add_operator(&a, &b), Ok(true)));
    let draw = pending(&service, &b, &num(1));
    let (seq_no, value) = service.record_random(draw, Ok(vec![3, 2, 1])).unwrap();
    assert_eq!(seq_no, num(1));
    assert_eq!(value.to_bytes(), vec![3, 2, 1]);
    assert_eq!(service.get_random_by_seq_no(&num(1)), Some(value));
}
