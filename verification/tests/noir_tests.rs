use mopro_example_app::noir::{
    generate_noir_proof, get_noir_verification_key, verify_noir_proof,
};
use mopro_example_app::LifecycleError;

#[test]
fn test_noir_multiplier2() {
    let srs_path = "./test-vectors/noir/noir_multiplier2.srs".to_string();
    let circuit_path = "./test-vectors/noir/noir_multiplier2.json".to_string();
    let circuit_inputs = vec!["3".to_string(), "5".to_string()];
    let vk = get_noir_verification_key(
        circuit_path.clone(),
        Some(srs_path.clone()),
        true,  // on_chain (uses Keccak for Solidity compatibility)
        false, // low_memory_mode
    )
    .unwrap();

    let proof = generate_noir_proof(
        circuit_path.clone(),
        Some(srs_path.clone()),
        circuit_inputs.clone(),
        true, // on_chain (uses Keccak for Solidity compatibility)
        vk.clone(),
        false, // low_memory_mode
    )
    .unwrap();

    let valid = verify_noir_proof(
        circuit_path,
        proof,
        true, // on_chain (uses Keccak for Solidity compatibility)
        vk,
        false, // low_memory_mode
    )
    .unwrap();
    assert!(valid);
}

#[test]
fn test_noir_multiplier2_with_stored_vk() {
    let srs_path = "./test-vectors/noir/noir_multiplier2.srs".to_string();
    let circuit_path = "./test-vectors/noir/noir_multiplier2.json".to_string();

    // A verification key persisted earlier is just its byte sequence; derive
    // it once and keep the bytes, as a caller reading it back from storage
    // would hold them.
    let stored_vk: Vec<u8> = get_noir_verification_key(
        circuit_path.clone(),
        Some(srs_path.clone()),
        true,
        false,
    )
    .unwrap();

    let circuit_inputs = vec!["3".to_string(), "5".to_string()];

    let proof = generate_noir_proof(
        circuit_path.clone(),
        Some(srs_path),
        circuit_inputs,
        true,
        stored_vk.clone(),
        false,
    )
    .unwrap();

    let valid = verify_noir_proof(circuit_path, proof, true, stored_vk, false).unwrap();
    assert!(valid);
}

#[test]
fn test_vk_idempotent() {
    let srs_path = "./test-vectors/noir/noir_multiplier2.srs".to_string();
    let circuit_path = "./test-vectors/noir/noir_multiplier2.json".to_string();
    let vk1 =
        get_noir_verification_key(circuit_path.clone(), Some(srs_path.clone()), true, false)
            .unwrap();
    let vk2 = get_noir_verification_key(circuit_path, Some(srs_path), true, false).unwrap();
    assert_eq!(vk1, vk2);
}

#[test]
fn test_foreign_key_is_mismatch_not_false() {
    let srs_path = "./test-vectors/noir/noir_multiplier2.srs".to_string();
    let circuit_path = "./test-vectors/noir/noir_multiplier2.json".to_string();
    let other_circuit = "./test-vectors/noir/noir_adder3.json".to_string();

    let vk = get_noir_verification_key(circuit_path.clone(), Some(srs_path.clone()), true, false)
        .unwrap();
    let proof = generate_noir_proof(
        circuit_path.clone(),
        Some(srs_path.clone()),
        vec!["3".to_string(), "5".to_string()],
        true,
        vk,
        false,
    )
    .unwrap();

    let other_vk =
        get_noir_verification_key(other_circuit, Some(srs_path), true, false).unwrap();
    let res = verify_noir_proof(circuit_path, proof, true, other_vk, false);
    assert_eq!(res, Err(LifecycleError::KeyMismatchError));
}

#[test]
fn test_mode_flag_mismatch_rejected() {
    let srs_path = "./test-vectors/noir/noir_multiplier2.srs".to_string();
    let circuit_path = "./test-vectors/noir/noir_multiplier2.json".to_string();
    let vk = get_noir_verification_key(circuit_path.clone(), Some(srs_path.clone()), true, false)
        .unwrap();
    let proof = generate_noir_proof(
        circuit_path.clone(),
        Some(srs_path),
        vec!["3".to_string(), "5".to_string()],
        true,
        vk.clone(),
        false,
    )
    .unwrap();
    let res = verify_noir_proof(circuit_path, proof, false, vk, false);
    assert_eq!(res, Err(LifecycleError::KeyMismatchError));
}

#[test]
fn test_tampered_proof_is_invalid_not_error() {
    let srs_path = "./test-vectors/noir/noir_multiplier2.srs".to_string();
    let circuit_path = "./test-vectors/noir/noir_multiplier2.json".to_string();
    let vk = get_noir_verification_key(circuit_path.clone(), Some(srs_path.clone()), true, false)
        .unwrap();

    let proof_for_3_5 = generate_noir_proof(
        circuit_path.clone(),
        Some(srs_path.clone()),
        vec!["3".to_string(), "5".to_string()],
        true,
        vk.clone(),
        false,
    )
    .unwrap();
    let proof_for_3_6 = generate_noir_proof(
        circuit_path.clone(),
        Some(srs_path),
        vec!["3".to_string(), "6".to_string()],
        true,
        vk.clone(),
        false,
    )
    .unwrap();

    // Claim the inputs of one proof under the seal of the other: the hybrid
    // is well-formed but invalid, so verification answers `false` rather
    // than an error.
    assert_eq!(proof_for_3_5.len(), proof_for_3_6.len());
    let body_len = proof_for_3_5.len() - 8;
    let mut hybrid: Vec<u8> = proof_for_3_5[..body_len].to_vec();
    hybrid.extend_from_slice(&proof_for_3_6[body_len..]);

    let res = verify_noir_proof(circuit_path, hybrid, true, vk, false);
    assert_eq!(res, Ok(false));
}

#[test]
fn test_circuit_load_error() {
    let srs = Some("./test-vectors/noir/noir_multiplier2.srs".to_string());
    // No `.json` extension.
    let r1 = get_noir_verification_key("circuit".to_string(), srs.clone(), true, false);
    assert_eq!(r1, Err(LifecycleError::CircuitLoadError));
    // No arity digits in the stem.
    let r2 = get_noir_verification_key("circuit.json".to_string(), srs.clone(), true, false);
    assert_eq!(r2, Err(LifecycleError::CircuitLoadError));
    // A declared arity of zero.
    let r3 = get_noir_verification_key("multiplier0.json".to_string(), srs.clone(), true, false);
    assert_eq!(r3, Err(LifecycleError::CircuitLoadError));
    // An arity wider than any supported signature.
    let r4 = get_noir_verification_key("wide999.json".to_string(), srs, true, false);
    assert_eq!(r4, Err(LifecycleError::CircuitLoadError));
}

#[test]
fn test_setup_mismatch_error() {
    let circuit_path = "./test-vectors/noir/noir_multiplier2.json".to_string();
    let r1 = get_noir_verification_key(circuit_path.clone(), None, true, false);
    assert_eq!(r1, Err(LifecycleError::SetupMismatchError));
    let r2 = get_noir_verification_key(circuit_path, Some(String::new()), true, false);
    assert_eq!(r2, Err(LifecycleError::SetupMismatchError));
}

#[test]
fn test_input_arity_error() {
    let srs_path = "./test-vectors/noir/noir_multiplier2.srs".to_string();
    let circuit_path = "./test-vectors/noir/noir_multiplier2.json".to_string();
    let vk = get_noir_verification_key(circuit_path.clone(), Some(srs_path.clone()), true, false)
        .unwrap();
    let res = generate_noir_proof(
        circuit_path,
        Some(srs_path),
        vec!["3".to_string(), "5".to_string(), "7".to_string()],
        true,
        vk,
        false,
    );
    assert_eq!(res, Err(LifecycleError::InputArityError));
}

#[test]
fn test_constraint_unsatisfied_error() {
    let srs_path = "./test-vectors/noir/noir_multiplier2.srs".to_string();
    let circuit_path = "./test-vectors/noir/noir_multiplier2.json".to_string();
    let vk = get_noir_verification_key(circuit_path.clone(), Some(srs_path.clone()), true, false)
        .unwrap();
    let res = generate_noir_proof(
        circuit_path,
        Some(srs_path),
        vec!["3".to_string(), "abc".to_string()],
        true,
        vk,
        false,
    );
    assert_eq!(res, Err(LifecycleError::ConstraintUnsatisfiedError));
}

#[test]
fn test_key_mismatch_on_generate() {
    let srs_path = "./test-vectors/noir/noir_multiplier2.srs".to_string();
    let circuit_path = "./test-vectors/noir/noir_multiplier2.json".to_string();
    let res = generate_noir_proof(
        circuit_path,
        Some(srs_path),
        vec!["3".to_string(), "5".to_string()],
        true,
        vec![1, 2, 3],
        false,
    );
    assert_eq!(res, Err(LifecycleError::KeyMismatchError));
}

#[test]
fn test_proof_format_error() {
    let srs_path = "./test-vectors/noir/noir_multiplier2.srs".to_string();
    let circuit_path = "./test-vectors/noir/noir_multiplier2.json".to_string();
    let vk = get_noir_verification_key(circuit_path.clone(), Some(srs_path), true, false)
        .unwrap();
    let res = verify_noir_proof(circuit_path, vec![1, 2, 3], true, vk, false);
    assert_eq!(res, Err(LifecycleError::ProofFormatError));
}

#[test]
fn test_wider_arity_circuit() {
    let srs_path = "./test-vectors/noir/setup.srs".to_string();
    let circuit_path = "./test-vectors/noir/summation10.json".to_string();
    let vk = get_noir_verification_key(circuit_path.clone(), Some(srs_path.clone()), false, false)
        .unwrap();
    let inputs: Vec<String> = (0..10).map(|i| i.to_string()).collect();
    let proof = generate_noir_proof(
        circuit_path.clone(),
        Some(srs_path),
        inputs,
        false,
        vk.clone(),
        false,
    )
    .unwrap();
    let valid = verify_noir_proof(circuit_path, proof, false, vk, false).unwrap();
    assert!(valid);
}
