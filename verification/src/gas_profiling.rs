use crate::error::Error;
use vstd::prelude::*;

verus! {

/// The largest allow-list a project may register.
pub const MAX_TOKENS: usize = 10;

/// The host environment that owns the transient membership map.
#[verifier::external_type_specification]
#[verifier::external_body]
pub struct ExEnv(soroban_sdk::Env);

/// The host's ordered map.
#[verifier::external_type_specification]
#[verifier::external_body]
#[verifier::reject_recursive_types(K)]
#[verifier::reject_recursive_types(V)]
pub struct ExHostMap<K, V>(soroban_sdk::Map<K, V>);

/// The key-value pairs that a host map of token ids holds. The host keeps at most one
/// pair per key.
pub uninterp spec fn seen_entries(m: soroban_sdk::Map<u64, bool>) -> Map<u64, bool>;

/// The map that holds no pair.
pub open spec fn nothing_seen() -> Map<u64, bool> {
    Map::empty()
}

/// `soroban_sdk::Map::new`: the map it creates is empty. Taken on trust, as are the two
/// contracts below; all three presume a host whose metering budget admits the call.
#[verifier::external_body]
fn seen_new(env: &soroban_sdk::Env) -> (m: soroban_sdk::Map<u64, bool>)
    ensures
        seen_entries(m) == nothing_seen(),
{
    soroban_sdk::Map::new(env)
}

/// `soroban_sdk::Map::contains_key`: true exactly when the map holds a pair with key `k`.
#[verifier::external_body]
fn seen_contains_key(m: &soroban_sdk::Map<u64, bool>, k: u64) -> (b: bool)
    ensures
        b == seen_entries(*m).dom().contains(k),
{
    m.contains_key(k)
}

/// `soroban_sdk::Map::set`: afterwards `k` maps to `v`, replacing any earlier value, and
/// every other pair is as before.
#[verifier::external_body]
fn seen_set(m: &mut soroban_sdk::Map<u64, bool>, k: u64, v: bool)
    ensures
        seen_entries(*final(m)) == seen_entries(*old(m)).insert(k, v),
{
    m.set(k, v)
}

/// What validation answers for the allow-list `tokens`.
pub open spec fn validation_outcome(tokens: Seq<u64>) -> Result<(), Error> {
    if tokens.len() > MAX_TOKENS {
        Err(Error::TooManyTokens)
    } else if !tokens.no_duplicates() {
        Err(Error::DuplicateToken)
    } else {
        Ok(())
    }
}

/// One timed run of an operation.
#[derive(Clone, Debug)]
pub struct GasMeasurement {
    /// The operation's name.
    pub operation: String,
    /// The gas consumed while it ran.
    pub gas_used: u64,
    /// When the run started.
    pub timestamp: u64,
}

impl GasMeasurement {
    /// The measurement of a run that started at `timestamp` with the meter at `start_gas`
    /// and ended with it at `end_gas`. The consumption is their difference, and zero where
    /// the meter did not go down.
    pub fn from_readings(operation: &str, start_gas: u64, end_gas: u64, timestamp: u64) -> (m:
        GasMeasurement)
        ensures
            m.operation@ == operation@,
            m.gas_used == if start_gas >= end_gas {
                start_gas - end_gas
            } else {
                0
            },
            m.timestamp == timestamp,
    {
        GasMeasurement {
            operation: operation.to_owned(),
            gas_used: start_gas.saturating_sub(end_gas),
            timestamp,
        }
    }
}

/// Cost-saving forms of the escrow's checks.
pub struct GasOptimizer;

impl GasOptimizer {
    /// Validates an allow-list in one pass over it, with a transient membership map:
    /// more than ten tokens are refused with `TooManyTokens`, a repeated token with
    /// `DuplicateToken`, and the scan stops at the first repetition.
    pub fn check_duplicate_tokens_optimized(env: &soroban_sdk::Env, tokens: &Vec<u64>) -> (r:
        Result<(), Error>)
        ensures
            r == validation_outcome(tokens@),
    {
        if tokens.len() > MAX_TOKENS {
            return Err(Error::TooManyTokens);
        }
        let mut seen = seen_new(env);
        let mut i: usize = 0;
        while i < tokens.len()
            invariant
                i <= tokens.len() <= MAX_TOKENS,
                tokens@.take(i as int).no_duplicates(),
                forall|k: u64| seen_entries(seen).dom().contains(k) <==> tokens@.take(i as int).contains(k),
            decreases tokens.len() - i,
        {
            let token = tokens[i];
            let ghost prefix = tokens@.take(i as int);
            if seen_contains_key(&seen, token) {
                proof {
                    let j = choose|j: int| 0 <= j < prefix.len() && prefix[j] == token;
                    assert(tokens@[j] == tokens@[i as int] && j != i);
                }
                return Err(Error::DuplicateToken);
            }
            seen_set(&mut seen, token, true);
            proof {
                let next = tokens@.take(i + 1);
                assert(next =~= prefix.push(token));
                assert forall|a: int, b: int| 0 <= a < next.len() && 0 <= b < next.len() && a != b implies next[a]
                    != next[b] by {
                    if a < i && b < i {
                        assert(prefix[a] != prefix[b]);
                    } else if a < i {
                        assert(prefix[a] == next[a]);
                    } else {
                        assert(prefix[b] == next[b]);
                    }
                }
                assert forall|k: u64| seen_entries(seen).dom().contains(k) <==> next.contains(k) by {
                    if prefix.contains(k) {
                        let j = choose|j: int| 0 <= j < prefix.len() && prefix[j] == k;
                        assert(next[j] == k);
                    }
                    if k == token {
                        assert(next[i as int] == k);
                    }
                    if next.contains(k) && k != token {
                        let j = choose|j: int| 0 <= j < next.len() && next[j] == k;
                        assert(prefix[j] == k);
                    }
                }
            }
            i = i + 1;
        }
        proof {
            assert(tokens@.take(i as int) =~= tokens@);
        }
        Ok(())
    }

    /// Runs `operations` as one batch and hands back what it returns.
    pub fn batch_storage_operations<F: FnOnce() -> R, R>(env: &soroban_sdk::Env, operations: F) -> (r: R)
        requires
            operations.requires(()),
        ensures
            operations.ensures((), r),
    {
        operations()
    }
}

} // verus!
