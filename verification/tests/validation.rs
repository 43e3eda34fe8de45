use pifp_protocol::error::Error;
use pifp_protocol::gas_profiling::GasMeasurement;
use pifp_protocol::gas_profiling::GasOptimizer;
use soroban_sdk::Env;

#[test]
fn test_duplicate_detection_optimized() {
    let env = Env::default();

    let tokens: Vec<u64> = vec![1, 2, 3];
    assert!(GasOptimizer::check_duplicate_tokens_optimized(&env, &tokens).is_ok());

    let duplicate_token: u64 = 9;
    let tokens_with_duplicate: Vec<u64> = vec![duplicate_token, 4, duplicate_token];

    let result = GasOptimizer::check_duplicate_tokens_optimized(&env, &tokens_with_duplicate);
    assert!(result.is_err());
}

#[test]
fn empty_allow_list_is_valid() {
    let env = Env::default();
    let tokens: Vec<u64> = Vec::new();
    assert_eq!(GasOptimizer::check_duplicate_tokens_optimized(&env, &tokens), Ok(()));
}

#[test]
fn ten_distinct_tokens_are_valid() {
    let env = Env::default();
    let tokens: Vec<u64> = (0..10u64).map(|i| u64::MAX - i).collect();
    assert_eq!(GasOptimizer::check_duplicate_tokens_optimized(&env, &tokens), Ok(()));
}

#[test]
fn eleven_tokens_are_too_many() {
    let env = Env::default();
    let tokens: Vec<u64> = (0..11u64).collect();
    assert_eq!(
        GasOptimizer::check_duplicate_tokens_optimized(&env, &tokens),
        Err(Error::TooManyTokens)
    );
}

#[test]
fn too_many_wins_over_duplicate() {
    let env = Env::default();
    let tokens: Vec<u64> = vec![5; 11];
    assert_eq!(
        GasOptimizer::check_duplicate_tokens_optimized(&env, &tokens),
        Err(Error::TooManyTokens)
    );
}

#[test]
fn duplicate_is_found_anywhere() {
    let env = Env::default();
    for (a, b) in [(0usize, 1usize), (0, 9), (8, 9), (3, 6)] {
        let mut tokens: Vec<u64> = (100..110u64).collect();
        tokens[b] = tokens[a];
        assert_eq!(
            GasOptimizer::check_duplicate_tokens_optimized(&env, &tokens),
            Err(Error::DuplicateToken)
        );
    }
    let adjacent: Vec<u64> = vec![0, 0];
    assert_eq!(
        GasOptimizer::check_duplicate_tokens_optimized(&env, &adjacent),
        Err(Error::DuplicateToken)
    );
}

#[test]
fn batch_returns_what_the_operations_return() {
    let env = Env::default();
    let r = GasOptimizer::batch_storage_operations(&env, || 6 * 7);
    assert_eq!(r, 42);
}

#[test]
fn measurement_is_the_drop_of_the_meter() {
    let m = GasMeasurement::from_readings("deposit", 10, 3, 99);
    assert_eq!(m.operation, "deposit");
    assert_eq!(m.gas_used, 7);
    assert_eq!(m.timestamp, 99);
}

#[test]
fn measurement_is_zero_when_the_meter_rose() {
    let m = GasMeasurement::from_readings("duplicate_check", 3, 10, 0);
    assert_eq!(m.gas_used, 0);
    let same = GasMeasurement::from_readings("duplicate_check", 5, 5, 0);
    assert_eq!(same.gas_used, 0);
}
