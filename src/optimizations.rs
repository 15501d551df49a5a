//! Chain-specific cost settings: Solana compute budgets, EVM gas settings and
//! cross-chain cost comparison. Block times are in milliseconds and the profile
//! multipliers are exact ratios, so all arithmetic is on integers.
use vstd::prelude::*;
use vstd::string::*;
use crate::types::{lowercase_of, str_eq, string_from_chars, to_lowercase};
use crate::crypto::hex_alphabet;

verus! {

/// The family of a chain, which selects how costs are set.
#[derive(Debug, Clone, Copy, PartialEq, Eq, Hash, Structural)]
pub enum ChainFamily {
    Solana,
    Evm,
    Near,
    Bitcoin,
    Cosmos,
}

/// How much to pay for speed.
#[derive(Debug, Clone, Copy, PartialEq, Eq, Structural)]
pub enum OptimizationProfile {
    /// Lowest fees, may be slower.
    Economy,
    /// Balanced cost and speed.
    Standard,
    /// Higher fees, faster confirmation.
    Fast,
    /// Maximum priority.
    Urgent,
}

impl Default for OptimizationProfile {
    fn default() -> (r: Self)
        ensures
            r == OptimizationProfile::Standard,
    {
        OptimizationProfile::Standard
    }
}

/// What cost decisions need to know of a chain.
#[derive(Debug, Clone)]
pub struct ChainCharacteristics {
    /// The chain's family.
    pub family: ChainFamily,
    /// Average block time in milliseconds.
    pub block_time_ms: u64,
    /// Whether fees follow EIP-1559.
    pub has_eip1559: bool,
    /// Whether the chain is a layer 2 or rollup.
    pub is_l2: bool,
    /// Relative cost, from 1 (cheapest) to 5.
    pub cost_tier: u8,
    /// Symbol of the native token.
    pub native_token: String,
}

/// A Solana compute budget.
#[derive(Debug, Clone, PartialEq, Eq, Structural)]
pub struct SolanaComputeBudget {
    /// Compute units to request.
    pub units: u32,
    /// Priority fee in microlamports per compute unit.
    pub microlamports_per_cu: u64,
    /// Total priority fee in lamports.
    pub total_priority_fee_lamports: u64,
}

/// EVM gas settings.
#[derive(Debug, Clone, PartialEq, Eq, Structural)]
pub struct EvmGasConfig {
    /// Gas limit.
    pub gas_limit: u64,
    /// Largest fee per gas, in wei.
    pub max_fee_per_gas: u128,
    /// Largest priority fee per gas, in wei.
    pub max_priority_fee_per_gas: u128,
}

/// Settings and advice for one chain.
#[derive(Debug, Clone)]
pub struct OptimizationResult {
    /// The chain identifier as given.
    pub chain: String,
    /// The chain's family.
    pub family: ChainFamily,
    /// The compute budget, for Solana.
    pub solana: Option<SolanaComputeBudget>,
    /// The gas settings, for EVM chains.
    pub evm: Option<EvmGasConfig>,
    /// Advice in words.
    pub recommendations: Vec<String>,
}

/// Default Solana compute units.
pub const SOLANA_DEFAULT_CU: u32 = 200_000;

/// Most Solana compute units a transaction may request.
pub const SOLANA_MAX_CU: u32 = 1_400_000;

/// Default Solana priority fee, in microlamports per compute unit.
pub const SOLANA_DEFAULT_PRIORITY_FEE: u64 = 1_000;

/// Lowest Solana priority fee that is set, in microlamports per compute unit.
pub const SOLANA_MIN_PRIORITY_FEE: u64 = 100;

/// Default EVM base fee: 30 gwei in wei.
pub const EVM_BASE_GAS_PRICE: u128 = 30_000_000_000;

/// One gwei in wei.
pub const ONE_GWEI: u128 = 1_000_000_000;

/// Whether `t` occurs in `s`.
pub open spec fn contains(s: Seq<char>, t: Seq<char>) -> bool {
    exists|i: int| 0 <= i && i + t.len() <= s.len() && #[trigger] s.subrange(i, i + t.len()) == t
}

/// The characters of a string.
pub(crate) fn chars_of(s: &str) -> (r: Vec<char>)
    ensures
        r@ == s@,
{
    let n = s.unicode_len();
    let mut out: Vec<char> = Vec::new();
    let mut i: usize = 0;
    while i < n
        invariant
            i <= n,
            n == s@.len(),
            out@ =~= s@.subrange(0, i as int),
        decreases n - i,
    {
        out.push(s.get_char(i));
        i = i + 1;
    }
    out
}

/// Whether `t` occurs in `s`.
pub fn str_contains(s: &str, t: &str) -> (r: bool)
    ensures
        r == contains(s@, t@),
{
    let a = chars_of(s);
    let b = chars_of(t);
    if b.len() > a.len() {
        return false;
    }
    if b.len() == 0 {
        assert(s@.subrange(0int, 0int + t@.len()) =~= t@);
        return true;
    }
    let alen = a.len();
    let last = a.len() - b.len();
    let mut i: usize = 0;
    while i <= last
        invariant
            alen == a@.len(),
            b@.len() >= 1,
            a@ == s@,
            b@ == t@,
            last == a@.len() - b@.len(),
            b@.len() <= a@.len(),
            forall|k: int| 0 <= k < i ==> #[trigger] a@.subrange(k, k + b@.len()) != b@,
        decreases last + 1 - i,
    {
        let mut j: usize = 0;
        let mut same = true;
        while j < b.len()
            invariant
                j <= b@.len(),
                alen == a@.len(),
                i <= last,
                last == a@.len() - b@.len(),
                same == (forall|m: int| 0 <= m < j ==> a@[i + m] == b@[m]),
            decreases b@.len() - j,
        {
            if a[i + j] != b[j] {
                same = false;
            }
            j = j + 1;
        }
        if same {
            assert(a@.subrange(i as int, i + b@.len()) =~= b@);
            return true;
        }
        assert(a@.subrange(i as int, i + b@.len())[0] == a@[i as int + 0] || b@.len() == 0);
        proof {
            if a@.subrange(i as int, i + b@.len()) == b@ {
                assert forall|m: int| 0 <= m < b@.len() implies a@[i + m] == b@[m] by {
                    assert(a@.subrange(i as int, i + b@.len())[m] == a@[i + m]);
                }
            }
        }
        i = i + 1;
    }
    proof {
        assert forall|k: int| 0 <= k && k + t@.len() <= s@.len() implies #[trigger] s@.subrange(k, k + t@.len()) != t@ by {
            assert(k < i);
        }
    }
    false
}

/// The family that a lowercase chain identifier names: by the words it contains,
/// EVM when none matches.
pub open spec fn spec_family_of_lowercase(s: Seq<char>) -> ChainFamily {
    if contains(s, "solana"@) {
        ChainFamily::Solana
    } else if contains(s, "near"@) {
        ChainFamily::Near
    } else if contains(s, "bitcoin"@) || contains(s, "btc"@) {
        ChainFamily::Bitcoin
    } else if contains(s, "cosmos"@) || contains(s, "osmosis"@) {
        ChainFamily::Cosmos
    } else {
        ChainFamily::Evm
    }
}

/// The family that a lowercase chain identifier names.
pub fn chain_family_of_lowercase(normalized: &str) -> (r: ChainFamily)
    ensures
        r == spec_family_of_lowercase(normalized@),
{
    if str_contains(normalized, "solana") {
        ChainFamily::Solana
    } else if str_contains(normalized, "near") {
        ChainFamily::Near
    } else if str_contains(normalized, "bitcoin") || str_contains(normalized, "btc") {
        ChainFamily::Bitcoin
    } else if str_contains(normalized, "cosmos") || str_contains(normalized, "osmosis") {
        ChainFamily::Cosmos
    } else {
        ChainFamily::Evm
    }
}

/// Detects a chain's family from its identifier, in any case.
pub fn detect_chain_family(chain_id: &str) -> (r: ChainFamily)
    ensures
        r == spec_family_of_lowercase(lowercase_of(chain_id@)),
{
    let normalized = to_lowercase(chain_id);
    chain_family_of_lowercase(normalized.as_str())
}

/// A chain's characteristics as plain values: family, block time in milliseconds,
/// EIP-1559, layer 2, cost tier, native token.
pub open spec fn characteristics_view(c: ChainCharacteristics) -> (ChainFamily, u64, bool, bool, u8, Seq<char>) {
    (c.family, c.block_time_ms, c.has_eip1559, c.is_l2, c.cost_tier, c.native_token@)
}

/// The characteristics of the chain that a lowercase identifier names.
pub open spec fn spec_characteristics_of_lowercase(s: Seq<char>) -> (ChainFamily, u64, bool, bool, u8, Seq<char>) {
    if s == "solana"@ || s == "solana-mainnet"@ || s == "solana-devnet"@ {
        (ChainFamily::Solana, 400, false, false, 1, "SOL"@)
    } else if s == "ethereum"@ || s == "mainnet"@ {
        (ChainFamily::Evm, 12_000, true, false, 5, "ETH"@)
    } else if s == "arbitrum"@ {
        (ChainFamily::Evm, 250, true, true, 2, "ETH"@)
    } else if s == "optimism"@ || s == "base"@ {
        (ChainFamily::Evm, 2_000, true, true, 2, "ETH"@)
    } else if s == "bsc"@ || s == "bnb"@ {
        (ChainFamily::Evm, 3_000, false, false, 1, "BNB"@)
    } else if s == "polygon"@ {
        (ChainFamily::Evm, 2_000, true, true, 2, "MATIC"@)
    } else if s == "near"@ || s == "near-mainnet"@ {
        (ChainFamily::Near, 1_000, false, false, 1, "NEAR"@)
    } else {
        (spec_family_of_lowercase(s), 12_000, true, false, 3, "ETH"@)
    }
}

fn characteristics(family: ChainFamily, block_time_ms: u64, has_eip1559: bool, is_l2: bool, cost_tier: u8, token: &str) -> (r:
    ChainCharacteristics)
    ensures
        characteristics_view(r) == (family, block_time_ms, has_eip1559, is_l2, cost_tier, token@),
{
    ChainCharacteristics { family, block_time_ms, has_eip1559, is_l2, cost_tier, native_token: String::from_str(token) }
}

/// The characteristics of the chain that a lowercase identifier names.
pub fn characteristics_of_lowercase(normalized: &str) -> (r: ChainCharacteristics)
    ensures
        characteristics_view(r) == spec_characteristics_of_lowercase(normalized@),
{
    let s = normalized;
    if str_eq(s, "solana") || str_eq(s, "solana-mainnet") || str_eq(s, "solana-devnet") {
        characteristics(ChainFamily::Solana, 400, false, false, 1, "SOL")
    } else if str_eq(s, "ethereum") || str_eq(s, "mainnet") {
        characteristics(ChainFamily::Evm, 12_000, true, false, 5, "ETH")
    } else if str_eq(s, "arbitrum") {
        characteristics(ChainFamily::Evm, 250, true, true, 2, "ETH")
    } else if str_eq(s, "optimism") || str_eq(s, "base") {
        characteristics(ChainFamily::Evm, 2_000, true, true, 2, "ETH")
    } else if str_eq(s, "bsc") || str_eq(s, "bnb") {
        characteristics(ChainFamily::Evm, 3_000, false, false, 1, "BNB")
    } else if str_eq(s, "polygon") {
        characteristics(ChainFamily::Evm, 2_000, true, true, 2, "MATIC")
    } else if str_eq(s, "near") || str_eq(s, "near-mainnet") {
        characteristics(ChainFamily::Near, 1_000, false, false, 1, "NEAR")
    } else {
        let family = chain_family_of_lowercase(s);
        characteristics(family, 12_000, true, false, 3, "ETH")
    }
}

/// The characteristics of a chain, whose identifier may be in any case.
pub fn get_chain_characteristics(chain_id: &str) -> (r: ChainCharacteristics)
    ensures
        characteristics_view(r) == spec_characteristics_of_lowercase(lowercase_of(chain_id@)),
{
    let normalized = to_lowercase(chain_id);
    characteristics_of_lowercase(normalized.as_str())
}

/// `x` with a 20% margin, rounded down.
pub open spec fn with_margin(x: int) -> int {
    x * 6 / 5
}

/// The smaller of two integers.
pub open spec fn min_int(a: int, b: int) -> int {
    if a <= b {
        a
    } else {
        b
    }
}

/// The Solana priority fee that a profile sets from a base fee: half, the same,
/// double or five times, up to `u64::MAX`, and at least `SOLANA_MIN_PRIORITY_FEE`.
pub open spec fn spec_solana_fee(profile: OptimizationProfile, base: u64) -> u64 {
    let scaled = match profile {
        OptimizationProfile::Economy => base as int / 2,
        OptimizationProfile::Standard => base as int,
        OptimizationProfile::Fast => min_int(2 * base, u64::MAX as int),
        OptimizationProfile::Urgent => min_int(5 * base, u64::MAX as int),
    };
    if scaled < SOLANA_MIN_PRIORITY_FEE {
        SOLANA_MIN_PRIORITY_FEE
    } else {
        scaled as u64
    }
}

/// What `calculate_solana_budget` returns.
pub open spec fn spec_solana_budget(estimated_cu: u32, profile: OptimizationProfile, current_median_fee: Option<u64>) -> SolanaComputeBudget {
    let units = min_int(with_margin(estimated_cu as int), SOLANA_MAX_CU as int) as u32;
    let base = match current_median_fee {
        Some(f) => f,
        None => SOLANA_DEFAULT_PRIORITY_FEE,
    };
    let fee = spec_solana_fee(profile, base);
    SolanaComputeBudget {
        units,
        microlamports_per_cu: fee,
        total_priority_fee_lamports: min_int(units as int * fee as int / 1_000_000, u64::MAX as int) as u64,
    }
}

/// A Solana compute budget: the estimate with a 20% margin, capped at
/// `SOLANA_MAX_CU`, and a priority fee scaled by the profile from the median fee
/// (or the default).
pub fn calculate_solana_budget(estimated_cu: u32, profile: OptimizationProfile, current_median_fee: Option<u64>) -> (r:
    SolanaComputeBudget)
    ensures
        r == spec_solana_budget(estimated_cu, profile, current_median_fee),
{
    let margin = estimated_cu as u64 * 6 / 5;
    let units: u32 = if margin < SOLANA_MAX_CU as u64 {
        margin as u32
    } else {
        SOLANA_MAX_CU
    };
    let base = match current_median_fee {
        Some(f) => f,
        None => SOLANA_DEFAULT_PRIORITY_FEE,
    };
    let scaled: u128 = match profile {
        OptimizationProfile::Economy => base as u128 / 2,
        OptimizationProfile::Standard => base as u128,
        OptimizationProfile::Fast => if base as u128 * 2 < u64::MAX as u128 {
            base as u128 * 2
        } else {
            u64::MAX as u128
        },
        OptimizationProfile::Urgent => if base as u128 * 5 < u64::MAX as u128 {
            base as u128 * 5
        } else {
            u64::MAX as u128
        },
    };
    let fee: u64 = if scaled < SOLANA_MIN_PRIORITY_FEE as u128 {
        SOLANA_MIN_PRIORITY_FEE
    } else {
        scaled as u64
    };
    assert(units as u128 * fee as u128 <= 1_400_000 * 0xFFFF_FFFF_FFFF_FFFFu128) by (nonlinear_arith)
        requires
            units <= 1_400_000,
    ;
    let total = units as u128 * fee as u128 / 1_000_000;
    let total_fee: u64 = if total < u64::MAX as u128 {
        total as u64
    } else {
        u64::MAX
    };
    SolanaComputeBudget { units, microlamports_per_cu: fee, total_priority_fee_lamports: total_fee }
}

/// What `estimate_solana_privacy_cu` returns: base overhead, compute-budget
/// instructions and key derivation, a cost per transfer, and the memo.
pub open spec fn spec_solana_privacy_cu(transfer_count: u32, creates_atas: bool, includes_memo: bool) -> int {
    5_000 + 300 + (if creates_atas {
        35_000int
    } else {
        10_000int
    }) * transfer_count + (if includes_memo {
        500int
    } else {
        0
    }) + 2_000
}

/// Compute units for a private transfer transaction, up to `u32::MAX`.
pub fn estimate_solana_privacy_cu(transfer_count: u32, creates_atas: bool, includes_memo: bool) -> (r: u32)
    ensures
        r == min_int(spec_solana_privacy_cu(transfer_count, creates_atas, includes_memo), u32::MAX as int),
{
    let per_transfer: u64 = if creates_atas {
        35_000
    } else {
        10_000
    };
    let memo: u64 = if includes_memo {
        500
    } else {
        0
    };
    let cu: u64 = 5_000 + 300 + per_transfer * transfer_count as u64 + memo + 2_000;
    if cu < u32::MAX as u64 {
        cu as u32
    } else {
        u32::MAX
    }
}

/// The EVM priority fee that each profile sets: 2 gwei times 0.8, 1, 1.5 or 2.5.
pub open spec fn spec_evm_priority_fee(profile: OptimizationProfile) -> u128 {
    match profile {
        OptimizationProfile::Economy => 1_600_000_000,
        OptimizationProfile::Standard => 2_000_000_000,
        OptimizationProfile::Fast => 3_000_000_000,
        OptimizationProfile::Urgent => 5_000_000_000,
    }
}

/// What `calculate_evm_gas` returns.
pub open spec fn spec_evm_gas(estimated_gas: u64, profile: OptimizationProfile, base_fee: Option<u128>) -> EvmGasConfig {
    let base = match base_fee {
        Some(b) => b,
        None => EVM_BASE_GAS_PRICE,
    };
    let priority = spec_evm_priority_fee(profile);
    EvmGasConfig {
        gas_limit: min_int(with_margin(estimated_gas as int), u64::MAX as int) as u64,
        max_fee_per_gas: min_int(2 * base + priority, u128::MAX as int) as u128,
        max_priority_fee_per_gas: priority,
    }
}

/// EVM gas settings: the estimate with a 20% margin (up to `u64::MAX`), a
/// priority fee by profile, and a fee cap of twice the base fee plus the priority
/// fee (up to `u128::MAX`).
pub fn calculate_evm_gas(estimated_gas: u64, profile: OptimizationProfile, base_fee: Option<u128>) -> (r: EvmGasConfig)
    ensures
        r == spec_evm_gas(estimated_gas, profile, base_fee),
{
    let base = match base_fee {
        Some(b) => b,
        None => EVM_BASE_GAS_PRICE,
    };
    let priority: u128 = match profile {
        OptimizationProfile::Economy => 1_600_000_000,
        OptimizationProfile::Standard => 2 * ONE_GWEI,
        OptimizationProfile::Fast => 3_000_000_000,
        OptimizationProfile::Urgent => 5_000_000_000,
    };
    let max_fee: u128 = if base <= (u128::MAX - priority) / 2 {
        base * 2 + priority
    } else {
        u128::MAX
    };
    let margin = estimated_gas as u128 * 6 / 5;
    let gas_limit: u64 = if margin < u64::MAX as u128 {
        margin as u64
    } else {
        u64::MAX
    };
    EvmGasConfig { gas_limit, max_fee_per_gas: max_fee, max_priority_fee_per_gas: priority }
}

/// What `estimate_evm_privacy_gas` returns: the base transaction, a token transfer
/// each, and the approval and announcement if included.
pub open spec fn spec_evm_privacy_gas(transfer_count: u32, includes_approval: bool, includes_announcement: bool) -> int {
    21_000 + 65_000 * transfer_count + (if includes_approval {
        46_000int
    } else {
        0
    }) + (if includes_announcement {
        80_000int
    } else {
        0
    })
}

/// Gas for a private transfer transaction on an EVM chain.
pub fn estimate_evm_privacy_gas(transfer_count: u32, includes_approval: bool, includes_announcement: bool) -> (r: u64)
    ensures
        r == spec_evm_privacy_gas(transfer_count, includes_approval, includes_announcement),
{
    let mut gas: u64 = 21_000;
    gas = gas + 65_000 * transfer_count as u64;
    if includes_approval {
        gas = gas + 46_000;
    }
    if includes_announcement {
        gas = gas + 80_000;
    }
    gas
}

/// The decimal digits of `n`.
pub open spec fn decimal_text(n: nat) -> Seq<char>
    decreases n,
{
    if n < 10 {
        seq![hex_alphabet()[n as int]]
    } else {
        decimal_text(n / 10) + seq![hex_alphabet()[(n % 10) as int]]
    }
}

fn digit_char(d: u8) -> (r: char)
    requires
        d < 10,
    ensures
        r == hex_alphabet()[d as int],
{
    let digits = vec!['0', '1', '2', '3', '4', '5', '6', '7', '8', '9'];
    assert(digits@ =~= hex_alphabet().subrange(0, 10));
    digits[d as usize]
}

fn decimal_string(n: u8) -> (r: String)
    ensures
        r@ == decimal_text(n as nat),
{
    let mut chars: Vec<char> = Vec::new();
    let ghost m = n as nat;
    if n >= 100 {
        chars.push(digit_char(n / 100));
        chars.push(digit_char((n / 10) % 10));
        chars.push(digit_char(n % 10));
        assert(m / 10 / 10 == m / 100);
        assert(decimal_text(m / 10 / 10) == seq![hex_alphabet()[(m / 100) as int]]);
        assert(decimal_text(m / 10) == decimal_text(m / 10 / 10) + seq![hex_alphabet()[((m / 10) % 10) as int]]);
        assert(decimal_text(m) == decimal_text(m / 10) + seq![hex_alphabet()[(m % 10) as int]]);
    } else if n >= 10 {
        chars.push(digit_char(n / 10));
        chars.push(digit_char(n % 10));
        assert(decimal_text(m / 10) == seq![hex_alphabet()[(m / 10) as int]]);
        assert(decimal_text(m) == decimal_text(m / 10) + seq![hex_alphabet()[(m % 10) as int]]);
    } else {
        chars.push(digit_char(n));
    }
    assert(chars@ =~= decimal_text(m));
    string_from_chars(&chars)
}

/// The estimate of compute units (Solana) or gas (EVM) for a complexity.
pub open spec fn spec_complexity_estimate(complexity: Seq<char>, simple: int, medium: int, complex: int) -> int {
    if complexity == "simple"@ {
        simple
    } else if complexity == "complex"@ {
        complex
    } else {
        medium
    }
}

/// The advice that `select_optimal_config` gives for a chain's family.
pub open spec fn spec_family_advice(chain_id: Seq<char>, family: ChainFamily, is_l2: bool, cost_tier: u8) -> Seq<
    Seq<char>,
> {
    match family {
        ChainFamily::Solana => seq!["Solana: Use versioned transactions for complex operations"@] + if cost_tier
            == 1 {
            seq!["Solana: Very low cost - prioritize speed over savings"@]
        } else {
            Seq::empty()
        },
        ChainFamily::Evm => (if is_l2 {
            seq!["L2: Lower fees, optimize calldata for L1 data costs"@]
        } else {
            Seq::empty()
        }) + if chain_id == "bsc"@ {
            seq!["BSC: Very low gas costs - use standard profile"@]
        } else {
            Seq::empty()
        },
        _ => seq!["Chain "@ + chain_id + " not fully optimized yet"@],
    }
}

/// The advice that `select_optimal_config` gives for a chain.
pub open spec fn spec_recommendations(chain_id: Seq<char>, family: ChainFamily, is_l2: bool, cost_tier: u8) -> Seq<
    Seq<char>,
> {
    spec_family_advice(chain_id, family, is_l2, cost_tier) + if cost_tier >= 4 {
        seq!["High cost chain (tier "@ + decimal_text(cost_tier as nat) + ") - consider L2 alternatives"@]
    } else {
        Seq::empty()
    }
}

/// The strings of a list as plain values.
pub open spec fn texts_view(v: Seq<String>) -> Seq<Seq<char>> {
    v.map_values(|s: String| s@)
}

fn push_text(list: &mut Vec<String>, text: &str)
    ensures
        texts_view(final(list)@) == texts_view(old(list)@).push(text@),
{
    list.push(String::from_str(text));
    assert(texts_view(final(list)@) =~= texts_view(old(list)@).push(text@));
}

/// Settings and advice for a chain, a profile and a complexity (`simple`, `medium`
/// or `complex`).
pub fn select_optimal_config(chain_id: &str, profile: OptimizationProfile, complexity: &str) -> (r: OptimizationResult)
    ensures
        ({
            let c = spec_characteristics_of_lowercase(lowercase_of(chain_id@));
            &&& r.chain@ == chain_id@
            &&& r.family == c.0
            &&& r.solana == (if c.0 == ChainFamily::Solana {
                Some(
                    spec_solana_budget(
                        spec_complexity_estimate(complexity@, 50_000, 150_000, 300_000) as u32,
                        profile,
                        None,
                    ),
                )
            } else {
                None
            })
            &&& r.evm == (if c.0 == ChainFamily::Evm {
                Some(
                    spec_evm_gas(
                        spec_complexity_estimate(complexity@, 50_000, 150_000, 500_000) as u64,
                        profile,
                        None,
                    ),
                )
            } else {
                None
            })
            &&& texts_view(r.recommendations@) == spec_recommendations(chain_id@, c.0, c.3, c.4)
        }),
{
    let characteristics = get_chain_characteristics(chain_id);
    let ghost c = spec_characteristics_of_lowercase(lowercase_of(chain_id@));
    let mut recommendations: Vec<String> = Vec::new();
    let solana: Option<SolanaComputeBudget>;
    let evm: Option<EvmGasConfig>;
    proof {
        reveal_strlit("Solana: Use versioned transactions for complex operations");
    }
    match characteristics.family {
        ChainFamily::Solana => {
            let estimated_cu: u32 = if str_eq(complexity, "simple") {
                50_000
            } else if str_eq(complexity, "complex") {
                300_000
            } else {
                150_000
            };
            solana = Some(calculate_solana_budget(estimated_cu, profile, None));
            evm = None;
            push_text(&mut recommendations, "Solana: Use versioned transactions for complex operations");
            if characteristics.cost_tier == 1 {
                push_text(&mut recommendations, "Solana: Very low cost - prioritize speed over savings");
            }
        },
        ChainFamily::Evm => {
            let estimated_gas: u64 = if str_eq(complexity, "simple") {
                50_000
            } else if str_eq(complexity, "complex") {
                500_000
            } else {
                150_000
            };
            solana = None;
            evm = Some(calculate_evm_gas(estimated_gas, profile, None));
            if characteristics.is_l2 {
                push_text(&mut recommendations, "L2: Lower fees, optimize calldata for L1 data costs");
            }
            if str_eq(chain_id, "bsc") {
                push_text(&mut recommendations, "BSC: Very low gas costs - use standard profile");
            }
        },
        _ => {
            solana = None;
            evm = None;
            let mut text = String::from_str("Chain ");
            text.append(chain_id);
            text.append(" not fully optimized yet");
            recommendations.push(text);
        },
    }
    assert(texts_view(recommendations@) =~= spec_family_advice(chain_id@, c.0, c.3, c.4));
    if characteristics.cost_tier >= 4 {
        let mut text = String::from_str("High cost chain (tier ");
        let tier = decimal_string(characteristics.cost_tier);
        text.append(tier.as_str());
        text.append(") - consider L2 alternatives");
        recommendations.push(text);
    }
    assert(texts_view(recommendations@) =~= spec_family_advice(chain_id@, c.0, c.3, c.4) + if c.4 >= 4 {
        seq!["High cost chain (tier "@ + decimal_text(c.4 as nat) + ") - consider L2 alternatives"@]
    } else {
        Seq::empty()
    });
    assert(texts_view(recommendations@) =~= spec_recommendations(chain_id@, c.0, c.3, c.4));
    OptimizationResult { chain: String::from_str(chain_id), family: characteristics.family, solana, evm, recommendations }
}

/// The cost tier of the chain that an identifier names, in any case.
pub open spec fn spec_cost_tier(chain: Seq<char>) -> u8 {
    spec_characteristics_of_lowercase(lowercase_of(chain)).4
}

/// What each cost tier means, in words.
pub open spec fn spec_tier_advice(tier: u8) -> Seq<char> {
    if tier == 1 {
        "Excellent - very low costs"@
    } else if tier == 2 {
        "Good - affordable for frequent use"@
    } else if tier == 3 {
        "Moderate - suitable for medium value txs"@
    } else if tier == 4 {
        "Expensive - use for high value only"@
    } else {
        "Very expensive - consider alternatives"@
    }
}

fn tier_advice(tier: u8) -> (r: &'static str)
    ensures
        r@ == spec_tier_advice(tier),
{
    match tier {
        1 => "Excellent - very low costs",
        2 => "Good - affordable for frequent use",
        3 => "Moderate - suitable for medium value txs",
        4 => "Expensive - use for high value only",
        _ => "Very expensive - consider alternatives",
    }
}

/// A comparison row as plain values: chain, cost tier, advice.
pub type CostRow = (Seq<char>, u8, Seq<char>);

/// The comparison row of each chain, in the order given.
pub open spec fn spec_cost_rows(chains: Seq<&str>) -> Seq<CostRow> {
    Seq::new(
        chains.len(),
        |i: int| (chains[i]@, spec_cost_tier(chains[i]@), spec_tier_advice(spec_cost_tier(chains[i]@))),
    )
}

/// The rows of tier `t`, in their order.
pub open spec fn rows_of_tier(rows: Seq<CostRow>, t: u8) -> Seq<CostRow>
    decreases rows.len(),
{
    if rows.len() == 0 {
        Seq::empty()
    } else if rows.last().1 == t {
        rows_of_tier(rows.drop_last(), t).push(rows.last())
    } else {
        rows_of_tier(rows.drop_last(), t)
    }
}

/// The rows of tiers below `t`, tier by tier, each tier in the rows' order: a
/// stable sort by tier once `t` passes every tier.
pub open spec fn rows_below_tier(rows: Seq<CostRow>, t: nat) -> Seq<CostRow>
    decreases t,
{
    if t == 0 {
        Seq::empty()
    } else {
        rows_below_tier(rows, (t - 1) as nat) + rows_of_tier(rows, (t - 1) as u8)
    }
}

/// The rows as plain values.
pub open spec fn rows_view(v: Seq<(String, u8, String)>) -> Seq<CostRow> {
    v.map_values(|x: (String, u8, String)| (x.0@, x.1, x.2@))
}

/// Compares the cost of chains: each chain with its tier and what the tier means,
/// cheapest tier first, chains of one tier in the order given.
pub fn compare_chain_costs(chains: &[&str]) -> (r: Vec<(String, u8, String)>)
    ensures
        rows_view(r@) == rows_below_tier(spec_cost_rows(chains@), 256),
{
    let n = chains.len();
    let ghost spec_rows = spec_cost_rows(chains@);
    let mut rows: Vec<(String, u8, String)> = Vec::new();
    let mut i: usize = 0;
    while i < n
        invariant
            i <= n,
            n == chains@.len(),
            spec_rows == spec_cost_rows(chains@),
            rows_view(rows@) =~= spec_rows.subrange(0, i as int),
        decreases n - i,
    {
        let chain = chains[i];
        let tier = get_chain_characteristics(chain).cost_tier;
        let ghost old_rows = rows_view(rows@);
        let row = (String::from_str(chain), tier, String::from_str(tier_advice(tier)));
        assert((row.0@, row.1, row.2@) == spec_rows[i as int]);
        rows.push(row);
        assert(rows_view(rows@) =~= old_rows.push(spec_rows[i as int]));
        assert(spec_rows.subrange(0, i + 1) =~= spec_rows.subrange(0, i as int).push(spec_rows[i as int]));
        i = i + 1;
    }
    assert(spec_rows.subrange(0, n as int) =~= spec_rows);
    let mut sorted: Vec<(String, u8, String)> = Vec::new();
    let mut t: u16 = 0;
    while t < 256
        invariant
            t <= 256,
            n == rows@.len(),
            rows_view(rows@) == spec_rows,
            rows_view(sorted@) == rows_below_tier(spec_rows, t as nat),
        decreases 256 - t,
    {
        let ghost before = rows_view(sorted@);
        let mut k: usize = 0;
        while k < n
            invariant
                k <= n,
                t < 256,
                n == rows@.len(),
                rows_view(rows@) == spec_rows,
                rows_view(sorted@) == before + rows_of_tier(spec_rows.subrange(0, k as int), t as u8),
            decreases n - k,
        {
            proof {
                assert(spec_rows.subrange(0, k + 1).drop_last() =~= spec_rows.subrange(0, k as int));
                assert(spec_rows[k as int] == rows_view(rows@)[k as int]);
            }
            if rows[k].1 == t as u8 {
                let row = (rows[k].0.clone(), rows[k].1, rows[k].2.clone());
                let ghost old_sorted = rows_view(sorted@);
                assert((row.0@, row.1, row.2@) == spec_rows[k as int]);
                sorted.push(row);
                assert(rows_view(sorted@) =~= old_sorted.push(spec_rows[k as int]));
                assert(spec_rows.subrange(0, k + 1).last() == spec_rows[k as int]);
                assert(rows_of_tier(spec_rows.subrange(0, k + 1), t as u8) == rows_of_tier(
                    spec_rows.subrange(0, k as int),
                    t as u8,
                ).push(spec_rows[k as int]));
                assert(rows_view(sorted@) =~= before + rows_of_tier(spec_rows.subrange(0, k + 1), t as u8));
            } else {
                assert(rows_view(sorted@) =~= before + rows_of_tier(spec_rows.subrange(0, k + 1), t as u8));
            }
            k = k + 1;
        }
        assert(spec_rows.subrange(0, n as int) =~= spec_rows);
        t = t + 1;
    }
    sorted
}

/// Whether a chain's block time is within the bound, if there is one.
pub open spec fn fast_enough(chain: Seq<char>, max_block_time_ms: Option<u64>) -> bool {
    match max_block_time_ms {
        None => true,
        Some(m) => spec_characteristics_of_lowercase(lowercase_of(chain)).1 <= m,
    }
}

/// The cheapest chain whose block time is within the bound: the first of the lowest
/// cost tier, or `None` if no chain qualifies.
pub fn recommend_cheapest_chain(chains: &[&str], max_block_time_ms: Option<u64>) -> (r: Option<String>)
    ensures
        r is None <==> forall|i: int| 0 <= i < chains@.len() ==> !fast_enough(#[trigger] chains@[i]@, max_block_time_ms),
        r matches Some(s) ==> exists|i: int|
            0 <= i < chains@.len() && fast_enough(#[trigger] chains@[i]@, max_block_time_ms) && s@ == chains@[i]@
                && (forall|j: int|
                0 <= j < chains@.len() && fast_enough(chains@[j]@, max_block_time_ms) ==> spec_cost_tier(chains@[i]@)
                    <= spec_cost_tier(chains@[j]@)) && (forall|j: int|
                0 <= j < i && fast_enough(chains@[j]@, max_block_time_ms) ==> spec_cost_tier(chains@[i]@)
                    < spec_cost_tier(chains@[j]@)),
{
    let n = chains.len();
    let mut best: Option<usize> = None;
    let mut best_tier: u8 = 0;
    let mut i: usize = 0;
    while i < n
        invariant
            i <= n,
            n == chains@.len(),
            best is None <==> forall|j: int| 0 <= j < i ==> !fast_enough(#[trigger] chains@[j]@, max_block_time_ms),
            best matches Some(b) ==> (b < i && fast_enough(chains@[b as int]@, max_block_time_ms) && best_tier
                == spec_cost_tier(chains@[b as int]@) && (forall|j: int|
                0 <= j < i && fast_enough(chains@[j]@, max_block_time_ms) ==> best_tier <= spec_cost_tier(
                    chains@[j]@,
                )) && (forall|j: int|
                0 <= j < b && fast_enough(chains@[j]@, max_block_time_ms) ==> best_tier < spec_cost_tier(
                    chains@[j]@,
                ))),
        decreases n - i,
    {
        let c = get_chain_characteristics(chains[i]);
        let viable = match max_block_time_ms {
            None => true,
            Some(m) => c.block_time_ms <= m,
        };
        if viable {
            match best {
                None => {
                    best = Some(i);
                    best_tier = c.cost_tier;
                },
                Some(_) => {
                    if c.cost_tier < best_tier {
                        best = Some(i);
                        best_tier = c.cost_tier;
                    }
                },
            }
        }
        i = i + 1;
    }
    match best {
        Some(b) => Some(String::from_str(chains[b])),
        None => None,
    }
}

} // verus!
