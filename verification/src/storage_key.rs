//! Storage keys for collections of sub-struct in main contract
use crate::lexical::str_bytes;
use crate::types::{AccountId, AppchainId, DelegatorId, HistoryIndex, ValidatorId};
use vstd::prelude::*;
use vstd::string::*;

verus! {

/// The character of a decimal digit.
pub open spec fn digit_char(d: nat) -> char {
    if d == 0 {
        '0'
    } else if d == 1 {
        '1'
    } else if d == 2 {
        '2'
    } else if d == 3 {
        '3'
    } else if d == 4 {
        '4'
    } else if d == 5 {
        '5'
    } else if d == 6 {
        '6'
    } else if d == 7 {
        '7'
    } else if d == 8 {
        '8'
    } else {
        '9'
    }
}

/// Decimal representation of `n`, without leading zeros.
pub open spec fn decimal(n: nat) -> Seq<char>
    decreases n,
{
    if n < 10 {
        seq![digit_char(n)]
    } else {
        decimal(n / 10).push(digit_char(n % 10))
    }
}

/// `n` in decimal, padded with leading zeros to at least ten digits.
pub open spec fn padded10(n: nat) -> Seq<char> {
    let d = decimal(n);
    if d.len() < 10 {
        Seq::new((10 - d.len()) as nat, |i: int| '0') + d
    } else {
        d
    }
}

/// A string of one decimal digit.
fn digit_str(d: u64) -> (s: &'static str)
    requires
        d < 10,
    ensures
        s@ == seq![digit_char(d as nat)],
{
    proof {
        reveal_strlit("0");
        reveal_strlit("1");
        reveal_strlit("2");
        reveal_strlit("3");
        reveal_strlit("4");
        reveal_strlit("5");
        reveal_strlit("6");
        reveal_strlit("7");
        reveal_strlit("8");
        reveal_strlit("9");
    }
    if d == 0 {
        "0"
    } else if d == 1 {
        "1"
    } else if d == 2 {
        "2"
    } else if d == 3 {
        "3"
    } else if d == 4 {
        "4"
    } else if d == 5 {
        "5"
    } else if d == 6 {
        "6"
    } else if d == 7 {
        "7"
    } else if d == 8 {
        "8"
    } else {
        "9"
    }
}

/// Decimal representation of `n`, and its number of digits.
fn decimal_string(n: u64) -> (r: (String, usize))
    ensures
        r.0@ == decimal(n as nat),
        r.1 == decimal(n as nat).len(),
        1 <= r.1 <= 20,
    decreases n,
{
    if n < 10 {
        let mut s = String::new();
        s.append(digit_str(n));
        assert(s@ =~= decimal(n as nat));
        (s, 1)
    } else {
        let (mut s, k) = decimal_string(n / 10);
        s.append(digit_str(n % 10));
        assert(s@ =~= decimal(n as nat));
        proof {
            lemma_decimal_len(n as nat);
        }
        (s, k + 1)
    }
}

/// Ten to the power `k`.
pub open spec fn ten_pow(k: nat) -> nat
    decreases k,
{
    if k == 0 {
        1
    } else {
        10 * ten_pow((k - 1) as nat)
    }
}

/// Decimal representations of `u64` values have at most twenty digits.
proof fn lemma_decimal_len(n: nat)
    requires
        n <= u64::MAX,
    ensures
        decimal(n).len() <= 20,
        decimal(n).len() >= 1,
{
    reveal_with_fuel(ten_pow, 21);
    assert(ten_pow(20) == 100_000_000_000_000_000_000nat);
    lemma_decimal_len_bound(n, 20);
}

/// A number below `10^k` has at most `k` digits.
proof fn lemma_decimal_len_bound(n: nat, k: nat)
    requires
        k >= 1,
        n < ten_pow(k),
    ensures
        1 <= decimal(n).len() <= k,
    decreases k,
{
    if n >= 10 {
        let p = ten_pow((k - 1) as nat);
        assert(n < 10 * p);
        assert(n / 10 < p) by (nonlinear_arith)
            requires
                n < 10 * p,
        ;
        if k == 1 {
            assert(ten_pow(0) == 1);
        } else {
            lemma_decimal_len_bound(n / 10, (k - 1) as nat);
        }
    }
}

/// The number a decimal digit character stands for.
pub open spec fn char_value(c: char) -> nat {
    if c == '1' {
        1
    } else if c == '2' {
        2
    } else if c == '3' {
        3
    } else if c == '4' {
        4
    } else if c == '5' {
        5
    } else if c == '6' {
        6
    } else if c == '7' {
        7
    } else if c == '8' {
        8
    } else if c == '9' {
        9
    } else {
        0
    }
}

/// The number a text of decimal digits stands for.
pub open spec fn digits_value(s: Seq<char>) -> nat
    decreases s.len(),
{
    if s.len() == 0 {
        0
    } else {
        digits_value(s.drop_last()) * 10 + char_value(s.last())
    }
}

/// The decimal text of a number stands for the number.
proof fn lemma_decimal_value(n: nat)
    ensures
        digits_value(decimal(n)) == n,
    decreases n,
{
    if n < 10 {
        assert(decimal(n).drop_last() =~= Seq::<char>::empty());
        assert(digits_value(Seq::<char>::empty()) == 0);
        assert(char_value(digit_char(n)) == n);
    } else {
        assert(decimal(n).drop_last() =~= decimal(n / 10));
        lemma_decimal_value(n / 10);
        let r = n % 10;
        assert(char_value(digit_char(r)) == r);
        assert((n / 10) * 10 + n % 10 == n) by (nonlinear_arith);
    }
}

/// Leading zeros do not change what a text of digits stands for.
proof fn lemma_zeros_value(k: nat, d: Seq<char>)
    ensures
        digits_value(Seq::new(k, |i: int| '0') + d) == digits_value(d),
    decreases d.len(), k,
{
    let z = Seq::new(k, |i: int| '0');
    if d.len() == 0 {
        assert(z + d =~= z);
        if k > 0 {
            assert(z.drop_last() =~= Seq::new((k - 1) as nat, |i: int| '0'));
            lemma_zeros_value((k - 1) as nat, d);
            assert(Seq::new((k - 1) as nat, |i: int| '0') + d =~= Seq::new((k - 1) as nat, |i: int| '0'));
        }
    } else {
        assert((z + d).drop_last() =~= z + d.drop_last());
        lemma_zeros_value(k, d.drop_last());
    }
}

/// A number below `10^10` is written in ten characters padded, and the padded text stands
/// for the number.
proof fn lemma_padded10(n: nat)
    requires
        n < 10_000_000_000,
    ensures
        padded10(n).len() == 10,
        digits_value(padded10(n)) == n,
{
    reveal_with_fuel(ten_pow, 11);
    lemma_decimal_len_bound(n, 10);
    lemma_decimal_value(n);
    let d = decimal(n);
    if d.len() < 10 {
        lemma_zeros_value((10 - d.len()) as nat, d);
    }
}

/// `n` in decimal, padded with leading zeros to at least ten digits.
pub fn padded10_string(n: u64) -> (r: String)
    ensures
        r@ == padded10(n as nat),
{
    let (d, k) = decimal_string(n);
    if k < 10 {
        let mut s = String::new();
        let mut i: usize = 0;
        while i < 10 - k
            invariant
                k < 10,
                i <= 10 - k,
                s@ == Seq::new(i as nat, |j: int| '0'),
            decreases 10 - k - i,
        {
            proof {
                reveal_strlit("0");
            }
            s.append("0");
            i = i + 1;
            assert(s@ =~= Seq::new(i as nat, |j: int| '0'));
        }
        s.append(d.as_str());
        s
    } else {
        d
    }
}

/// Storage keys for collections of sub-struct in main contract
pub enum StorageKey {
    AppchainIdList,
    AppchainMetadatas,
    AppchainMetadata(AppchainId),
    AppchainStates,
    AppchainState(AppchainId),
    AppchainValidators(AppchainId),
    RemovedAppchainValidators(AppchainId),
    AppchainFacts(AppchainId),
    RawFacts(AppchainId),
    ValidatorHistoryLists(AppchainId),
    ValidatorIndexToId(AppchainId),
    ValidatorIdToIndex(AppchainId),
    ValidatorIndexes(AccountId),
    AppchainFact { appchain_id: AppchainId, fact_index: u32 },
    RawFact { appchain_id: AppchainId, fact_index: u32 },
    RawFactHistoryKeys { appchain_id: AppchainId, fact_index: u32 },
    RawFactHistoryKey { appchain_id: AppchainId, fact_index: u32, validator_index: u32 },
    ValidatorHistoryList { appchain_id: AppchainId, validator_index: u32 },
    ValidatorHistoryListInner { appchain_id: AppchainId, validator_index: u32 },
    ValidatorHistory { appchain_id: AppchainId, validator_index: u32, history_index: HistoryIndex },
    AppchainTotalLockedTokens(AppchainId),
    UsedMessage(AppchainId),
    AppchainValidator(AppchainId, ValidatorId),
    AppchainDelegators(AppchainId, ValidatorId),
    AppchainDelegator(AppchainId, ValidatorId, DelegatorId),
    BridgeTokens,
    RelayedBridgeToken { token_id: AccountId },
    RelayedBridgeTokenPermissions { token_id: AccountId },
    AppchainNativeTokens,
}

impl StorageKey {
    /// The text of the key.
    pub open spec fn spec_key(&self) -> Seq<char> {
        match self {
            StorageKey::AppchainIdList => "ail"@,
            StorageKey::AppchainMetadatas => "am"@,
            StorageKey::AppchainMetadata(a) => a@ + "m"@,
            StorageKey::AppchainStates => "as"@,
            StorageKey::AppchainState(a) => a@ + "s"@,
            StorageKey::AppchainValidators(a) => a@ + "v"@,
            StorageKey::RemovedAppchainValidators(a) => a@ + "r"@,
            StorageKey::AppchainFacts(a) => a@ + "f"@,
            StorageKey::RawFacts(a) => a@ + "%rfs"@,
            StorageKey::ValidatorHistoryLists(a) => a@ + "%vhs"@,
            StorageKey::ValidatorIndexToId(a) => a@ + "%vi"@,
            StorageKey::ValidatorIdToIndex(a) => a@ + "%iv"@,
            StorageKey::ValidatorIndexes(a) => a@ + "%vis"@,
            StorageKey::AppchainFact { appchain_id, fact_index } => appchain_id@ + padded10(*fact_index as nat),
            StorageKey::RawFact { appchain_id, fact_index } => appchain_id@ + padded10(*fact_index as nat) + "%rf"@,
            StorageKey::RawFactHistoryKeys { appchain_id, fact_index } => appchain_id@ + padded10(
                *fact_index as nat,
            ) + "%rfvs"@,
            StorageKey::RawFactHistoryKey { appchain_id, fact_index, validator_index } => appchain_id@
                + padded10(*fact_index as nat) + padded10(*validator_index as nat) + "%rfv"@,
            StorageKey::ValidatorHistoryList { appchain_id, validator_index } => appchain_id@ + padded10(
                *validator_index as nat,
            ) + "%vhl"@,
            StorageKey::ValidatorHistoryListInner { appchain_id, validator_index } => appchain_id@
                + padded10(*validator_index as nat) + "%vhi"@,
            StorageKey::ValidatorHistory { appchain_id, validator_index, history_index } => appchain_id@
                + padded10(*validator_index as nat) + padded10(*history_index as nat) + "%vh"@,
            StorageKey::AppchainTotalLockedTokens(a) => a@ + "t"@,
            StorageKey::UsedMessage(a) => a@ + "%um"@,
            StorageKey::AppchainValidator(a, v) => a@ + v@,
            StorageKey::AppchainDelegators(a, v) => a@ + v@ + "d"@,
            StorageKey::AppchainDelegator(a, v, d) => a@ + v@ + d@,
            StorageKey::BridgeTokens => "bts"@,
            StorageKey::RelayedBridgeToken { token_id } => "rt"@ + token_id@,
            StorageKey::RelayedBridgeTokenPermissions { token_id } => "rt"@ + token_id@ + "ps"@,
            StorageKey::AppchainNativeTokens => "ant"@,
        }
    }

    /// The text of the key.
    pub fn to_string(&self) -> (r: String)
        ensures
            r@ == self.spec_key(),
    {
        match self {
            StorageKey::AppchainIdList => String::from_str("ail"),
            StorageKey::AppchainMetadatas => String::from_str("am"),
            StorageKey::AppchainMetadata(a) => a.clone().concat("m"),
            StorageKey::AppchainStates => String::from_str("as"),
            StorageKey::AppchainState(a) => a.clone().concat("s"),
            StorageKey::AppchainValidators(a) => a.clone().concat("v"),
            StorageKey::RemovedAppchainValidators(a) => a.clone().concat("r"),
            StorageKey::AppchainFacts(a) => a.clone().concat("f"),
            StorageKey::RawFacts(a) => a.clone().concat("%rfs"),
            StorageKey::ValidatorHistoryLists(a) => a.clone().concat("%vhs"),
            StorageKey::ValidatorIndexToId(a) => a.clone().concat("%vi"),
            StorageKey::ValidatorIdToIndex(a) => a.clone().concat("%iv"),
            StorageKey::ValidatorIndexes(a) => a.clone().concat("%vis"),
            StorageKey::AppchainFact { appchain_id, fact_index } => {
                appchain_id.clone().concat(padded10_string(*fact_index as u64).as_str())
            },
            StorageKey::RawFact { appchain_id, fact_index } => {
                appchain_id.clone().concat(padded10_string(*fact_index as u64).as_str()).concat("%rf")
            },
            StorageKey::RawFactHistoryKeys { appchain_id, fact_index } => {
                appchain_id.clone().concat(padded10_string(*fact_index as u64).as_str()).concat("%rfvs")
            },
            StorageKey::RawFactHistoryKey { appchain_id, fact_index, validator_index } => {
                appchain_id.clone().concat(padded10_string(*fact_index as u64).as_str()).concat(
                    padded10_string(*validator_index as u64).as_str(),
                ).concat("%rfv")
            },
            StorageKey::ValidatorHistoryList { appchain_id, validator_index } => {
                appchain_id.clone().concat(padded10_string(*validator_index as u64).as_str()).concat("%vhl")
            },
            StorageKey::ValidatorHistoryListInner { appchain_id, validator_index } => {
                appchain_id.clone().concat(padded10_string(*validator_index as u64).as_str()).concat("%vhi")
            },
            StorageKey::ValidatorHistory { appchain_id, validator_index, history_index } => {
                appchain_id.clone().concat(padded10_string(*validator_index as u64).as_str()).concat(
                    padded10_string(*history_index).as_str(),
                ).concat("%vh")
            },
            StorageKey::AppchainTotalLockedTokens(a) => a.clone().concat("t"),
            StorageKey::UsedMessage(a) => a.clone().concat("%um"),
            StorageKey::AppchainValidator(a, v) => a.clone().concat(v.as_str()),
            StorageKey::AppchainDelegators(a, v) => a.clone().concat(v.as_str()).concat("d"),
            StorageKey::AppchainDelegator(a, v, d) => a.clone().concat(v.as_str()).concat(d.as_str()),
            StorageKey::BridgeTokens => String::from_str("bts"),
            StorageKey::RelayedBridgeToken { token_id } => String::from_str("rt").concat(token_id.as_str()),
            StorageKey::RelayedBridgeTokenPermissions { token_id } => {
                String::from_str("rt").concat(token_id.as_str()).concat("ps")
            },
            StorageKey::AppchainNativeTokens => String::from_str("ant"),
        }
    }

    /// The UTF-8 bytes of the key.
    pub fn into_bytes(&self) -> (r: Vec<u8>)
        ensures
            r@ == str_bytes(self.spec_key()),
    {
        self.to_string().as_str().as_bytes_vec()
    }
}

/// The key of a fact of an appchain is the appchain id followed by ten characters, and the
/// key of a history entry of a raw fact the id followed by twenty-four. Keys of facts of one
/// appchain with different indices differ, and so do keys of history entries with different
/// fact or validator indices.
pub proof fn law_fact_keys(appchain_id: AppchainId, f1: u32, v1: u32, f2: u32, v2: u32)
    ensures
        (StorageKey::AppchainFact { appchain_id, fact_index: f1 }).spec_key().len() == appchain_id@.len() + 10,
        (StorageKey::RawFactHistoryKey { appchain_id, fact_index: f1, validator_index: v1 }).spec_key().len()
            == appchain_id@.len() + 24,
        f1 != f2 ==> (StorageKey::AppchainFact { appchain_id, fact_index: f1 }).spec_key() != (StorageKey::AppchainFact {
            appchain_id,
            fact_index: f2,
        }).spec_key(),
        f1 != f2 || v1 != v2 ==> (StorageKey::RawFactHistoryKey { appchain_id, fact_index: f1, validator_index: v1 }).spec_key()
            != (StorageKey::RawFactHistoryKey { appchain_id, fact_index: f2, validator_index: v2 }).spec_key(),
{
    reveal_strlit("%rfv");
    let a = appchain_id@;
    let n = a.len() as int;
    lemma_padded10(f1 as nat);
    lemma_padded10(v1 as nat);
    lemma_padded10(f2 as nat);
    lemma_padded10(v2 as nat);
    let k1 = a + padded10(f1 as nat);
    let k2 = a + padded10(f2 as nat);
    assert(k1.subrange(n, n + 10) =~= padded10(f1 as nat));
    assert(k2.subrange(n, n + 10) =~= padded10(f2 as nat));
    let h1 = a + padded10(f1 as nat) + padded10(v1 as nat) + "%rfv"@;
    let h2 = a + padded10(f2 as nat) + padded10(v2 as nat) + "%rfv"@;
    assert(h1.subrange(n, n + 10) =~= padded10(f1 as nat));
    assert(h2.subrange(n, n + 10) =~= padded10(f2 as nat));
    assert(h1.subrange(n + 10, n + 20) =~= padded10(v1 as nat));
    assert(h2.subrange(n + 10, n + 20) =~= padded10(v2 as nat));
}

} // verus!
