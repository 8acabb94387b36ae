//! Data model of the escrow ledger: balances, escrow records, and the
//! keyed store of live escrows.

use vstd::prelude::*;

use crate::error::ContractError;
use crate::order::{has_id, lex_lt, sort_ids};

verus! {

/// Mathematical form of one balance entry. For a native amount the key is
/// the currency denomination; for a token amount it is the token-contract
/// address. Amounts are unbounded integers, so merged balances can be
/// spoken of even past the machine limit.
pub struct CoinV {
    pub denom: Seq<char>,
    pub amount: int,
}

/// A native-currency amount, identified by its denomination string.
#[derive(Debug, PartialEq, Eq)]
pub struct Coin {
    pub denom: String,
    pub amount: u128,
}

impl View for Coin {
    type V = CoinV;

    open spec fn view(&self) -> CoinV {
        CoinV { denom: self.denom@, amount: self.amount as int }
    }
}

impl Clone for Coin {
    fn clone(&self) -> (res: Self)
        ensures
            res@ == self@,
    {
        Coin { denom: self.denom.clone(), amount: self.amount }
    }
}

/// A token-contract amount, identified by the token contract's address.
#[derive(Debug, PartialEq, Eq)]
pub struct Cw20CoinVerified {
    pub address: String,
    pub amount: u128,
}

impl View for Cw20CoinVerified {
    type V = CoinV;

    open spec fn view(&self) -> CoinV {
        CoinV { denom: self.address@, amount: self.amount as int }
    }
}

impl Clone for Cw20CoinVerified {
    fn clone(&self) -> (res: Self)
        ensures
            res@ == self@,
    {
        Cw20CoinVerified { address: self.address.clone(), amount: self.amount }
    }
}

pub open spec fn coins_view(s: Seq<Coin>) -> Seq<CoinV> {
    s.map_values(|c: Coin| c@)
}

pub open spec fn cw20s_view(s: Seq<Cw20CoinVerified>) -> Seq<CoinV> {
    s.map_values(|c: Cw20CoinVerified| c@)
}

/// The assets attached to one inbound request: either a batch of native
/// coins or a single token-contract amount.
pub enum Balance {
    Native(Vec<Coin>),
    Cw20(Cw20CoinVerified),
}

/// Mathematical form of `Balance`.
pub enum BalanceV {
    Native(Seq<CoinV>),
    Cw20(CoinV),
}

impl View for Balance {
    type V = BalanceV;

    open spec fn view(&self) -> BalanceV {
        match self {
            Balance::Native(coins) => BalanceV::Native(coins_view(coins@)),
            Balance::Cw20(token) => BalanceV::Cw20(token@),
        }
    }
}

/// A balance counts as empty when it carries no nonzero amount.
pub open spec fn balance_empty(b: BalanceV) -> bool {
    match b {
        BalanceV::Native(coins) => forall|i: int| 0 <= i < coins.len() ==> coins[i].amount == 0,
        BalanceV::Cw20(token) => token.amount == 0,
    }
}

impl Balance {
    /// True when no nonzero amount is attached.
    #[verifier::loop_isolation(false)]
    pub fn is_empty(&self) -> (r: bool)
        ensures
            r == balance_empty(self@),
    {
        match self {
            Balance::Native(coins) => {
                let mut i: usize = 0;
                while i < coins.len()
                    invariant
                        i <= coins.len(),
                        forall|j: int| 0 <= j < i ==> coins@[j].amount == 0,
                    decreases coins.len() - i,
                {
                    if coins[i].amount != 0 {
                        proof {
                            let cv = coins_view(coins@);
                            assert(exists|j: int|
                                0 <= j < cv.len() && #[trigger] cv[j].amount != 0) by {
                                assert(cv[i as int].amount != 0);
                            }
                            assert(!balance_empty(BalanceV::Native(cv)));
                            assert(!balance_empty(self@));
                        }
                        return false;
                    }
                    i += 1;
                }
                proof {
                    assert forall|j: int| 0 <= j < coins_view(coins@).len() implies coins_view(
                        coins@,
                    )[j].amount == 0 by {
                        assert(coins@[j].amount == 0);
                    }
                }
                true
            }
            Balance::Cw20(token) => token.amount == 0,
        }
    }
}

/// The accumulated holdings of one escrow: native amounts and
/// token-contract amounts, each keyed by its identifying string.
#[derive(Debug, PartialEq, Eq)]
pub struct GenericBalance {
    pub native: Vec<Coin>,
    pub cw20: Vec<Cw20CoinVerified>,
}

/// Mathematical form of `GenericBalance`.
pub struct GenericBalanceV {
    pub native: Seq<CoinV>,
    pub cw20: Seq<CoinV>,
}

impl View for GenericBalance {
    type V = GenericBalanceV;

    open spec fn view(&self) -> GenericBalanceV {
        GenericBalanceV { native: coins_view(self.native@), cw20: cw20s_view(self.cw20@) }
    }
}

#[verifier::loop_isolation(false)]
pub(crate) fn clone_coins(v: &Vec<Coin>) -> (r: Vec<Coin>)
    ensures
        coins_view(r@) == coins_view(v@),
{
    let mut r: Vec<Coin> = Vec::new();
    let mut i: usize = 0;
    while i < v.len()
        invariant
            i <= v.len(),
            r@.len() == i,
            forall|j: int| 0 <= j < i ==> r@[j]@ == v@[j]@,
        decreases v.len() - i,
    {
        r.push(v[i].clone());
        i += 1;
    }
    proof {
        assert(coins_view(r@) =~= coins_view(v@));
    }
    r
}

#[verifier::loop_isolation(false)]
pub(crate) fn clone_cw20s(v: &Vec<Cw20CoinVerified>) -> (r: Vec<Cw20CoinVerified>)
    ensures
        cw20s_view(r@) == cw20s_view(v@),
{
    let mut r: Vec<Cw20CoinVerified> = Vec::new();
    let mut i: usize = 0;
    while i < v.len()
        invariant
            i <= v.len(),
            r@.len() == i,
            forall|j: int| 0 <= j < i ==> r@[j]@ == v@[j]@,
        decreases v.len() - i,
    {
        r.push(v[i].clone());
        i += 1;
    }
    proof {
        assert(cw20s_view(r@) =~= cw20s_view(v@));
    }
    r
}

impl Clone for GenericBalance {
    fn clone(&self) -> (res: Self)
        ensures
            res@ == self@,
    {
        GenericBalance { native: clone_coins(&self.native), cw20: clone_cw20s(&self.cw20) }
    }
}

/// First index in `s` whose key equals `key`, or a negative value when
/// no entry has that key.
pub open spec fn find_entry(s: Seq<CoinV>, key: Seq<char>) -> int
    decreases s.len(),
{
    if s.len() == 0 {
        -1
    } else if s[0].denom == key {
        0
    } else if find_entry(s.drop_first(), key) < 0 {
        -1
    } else {
        1 + find_entry(s.drop_first(), key)
    }
}

/// Merging one entry into a bag of entries: add to the first entry with
/// the same key, or append when the key is new.
pub open spec fn merge_entry(s: Seq<CoinV>, c: CoinV) -> Seq<CoinV> {
    let i = find_entry(s, c.denom);
    if i < 0 {
        s.push(c)
    } else {
        s.update(i, CoinV { denom: s[i].denom, amount: s[i].amount + c.amount })
    }
}

/// Merging a batch of entries, left to right.
pub open spec fn merge_entries(s: Seq<CoinV>, add: Seq<CoinV>) -> Seq<CoinV>
    decreases add.len(),
{
    if add.len() == 0 {
        s
    } else {
        merge_entries(merge_entry(s, add[0]), add.drop_first())
    }
}

/// The balance that results from merging `add` into `b`, over unbounded
/// integers.
pub open spec fn add_balance(b: GenericBalanceV, add: BalanceV) -> GenericBalanceV {
    match add {
        BalanceV::Native(coins) => GenericBalanceV {
            native: merge_entries(b.native, coins),
            cw20: b.cw20,
        },
        BalanceV::Cw20(token) => GenericBalanceV {
            native: b.native,
            cw20: merge_entry(b.cw20, token),
        },
    }
}

/// Every amount still fits in a machine word.
pub open spec fn entries_fit(s: Seq<CoinV>) -> bool {
    forall|i: int| 0 <= i < s.len() ==> s[i].amount <= u128::MAX
}

pub open spec fn balance_fits(b: GenericBalanceV) -> bool {
    entries_fit(b.native) && entries_fit(b.cw20)
}

/// Total amount held under one key: the per-key sum over all entries.
pub open spec fn amount_of(s: Seq<CoinV>, key: Seq<char>) -> int
    decreases s.len(),
{
    if s.len() == 0 {
        0
    } else {
        (if s[0].denom == key {
            s[0].amount
        } else {
            0
        }) + amount_of(s.drop_first(), key)
    }
}

proof fn lemma_find_entry(s: Seq<CoinV>, key: Seq<char>)
    ensures
        find_entry(s, key) >= 0 ==> 0 <= find_entry(s, key) < s.len() && s[find_entry(
            s,
            key,
        )].denom == key && (forall|j: int| 0 <= j < find_entry(s, key) ==> s[j].denom != key),
        find_entry(s, key) < 0 ==> (forall|j: int| 0 <= j < s.len() ==> s[j].denom != key),
    decreases s.len(),
{
    if s.len() > 0 && s[0].denom != key {
        lemma_find_entry(s.drop_first(), key);
        assert(forall|j: int| 1 <= j < s.len() ==> s[j] == s.drop_first()[j - 1]);
    }
}

proof fn lemma_amount_push(s: Seq<CoinV>, c: CoinV, key: Seq<char>)
    ensures
        amount_of(s.push(c), key) == amount_of(s, key) + (if c.denom == key {
            c.amount
        } else {
            0
        }),
    decreases s.len(),
{
    if s.len() == 0 {
        assert(s.push(c).drop_first() =~= Seq::<CoinV>::empty());
        assert(s.push(c)[0] == c);
        assert(amount_of(s.push(c), key) == (if c.denom == key {
            c.amount
        } else {
            0
        }) + amount_of(Seq::<CoinV>::empty(), key));
    } else {
        assert(s.push(c).drop_first() =~= s.drop_first().push(c));
        assert(s.push(c)[0] == s[0]);
        lemma_amount_push(s.drop_first(), c, key);
    }
}

proof fn lemma_amount_update_add(s: Seq<CoinV>, i: int, a: int, key: Seq<char>)
    requires
        0 <= i < s.len(),
    ensures
        amount_of(s.update(i, CoinV { denom: s[i].denom, amount: s[i].amount + a }), key)
            == amount_of(s, key) + (if s[i].denom == key {
            a
        } else {
            0
        }),
    decreases s.len(),
{
    let t = s.update(i, CoinV { denom: s[i].denom, amount: s[i].amount + a });
    if i == 0 {
        assert(t.drop_first() =~= s.drop_first());
    } else {
        let sd = s.drop_first();
        assert(t.drop_first() =~= sd.update(
            i - 1,
            CoinV { denom: sd[i - 1].denom, amount: sd[i - 1].amount + a },
        ));
        lemma_amount_update_add(sd, i - 1, a, key);
        assert(t[0] == s[0]);
    }
}

proof fn lemma_merge_entry_amount(s: Seq<CoinV>, c: CoinV, key: Seq<char>)
    ensures
        amount_of(merge_entry(s, c), key) == amount_of(s, key) + (if c.denom == key {
            c.amount
        } else {
            0
        }),
{
    lemma_find_entry(s, c.denom);
    let i = find_entry(s, c.denom);
    if i < 0 {
        lemma_amount_push(s, c, key);
    } else {
        lemma_amount_update_add(s, i, c.amount, key);
    }
}

/// Merging a batch adds, key by key, exactly the batch's per-key sums:
/// the stored total under any key is the sum of what was stored and what
/// was added, whatever order the entries arrive in.
pub proof fn lemma_merge_entries_amount(s: Seq<CoinV>, add: Seq<CoinV>, key: Seq<char>)
    ensures
        amount_of(merge_entries(s, add), key) == amount_of(s, key) + amount_of(add, key),
    decreases add.len(),
{
    if add.len() > 0 {
        lemma_merge_entry_amount(s, add[0], key);
        lemma_merge_entries_amount(merge_entry(s, add[0]), add.drop_first(), key);
    }
}

/// Two top-up batches yield the same per-key totals in either order:
/// merging is commutative per key.
pub proof fn lemma_top_up_order_irrelevant(
    s: Seq<CoinV>,
    x: Seq<CoinV>,
    y: Seq<CoinV>,
    key: Seq<char>,
)
    ensures
        amount_of(merge_entries(merge_entries(s, x), y), key) == amount_of(
            merge_entries(merge_entries(s, y), x),
            key,
        ),
{
    lemma_merge_entries_amount(s, x, key);
    lemma_merge_entries_amount(merge_entries(s, x), y, key);
    lemma_merge_entries_amount(s, y, key);
    lemma_merge_entries_amount(merge_entries(s, y), x, key);
}

/// A whole run of top-up batches, merged in arrival order.
pub open spec fn merge_batches(s: Seq<CoinV>, batches: Seq<Seq<CoinV>>) -> Seq<CoinV>
    decreases batches.len(),
{
    if batches.len() == 0 {
        s
    } else {
        merge_batches(merge_entries(s, batches[0]), batches.drop_first())
    }
}

/// The per-key sum contributed by a run of batches.
pub open spec fn batches_amount(batches: Seq<Seq<CoinV>>, key: Seq<char>) -> int
    decreases batches.len(),
{
    if batches.len() == 0 {
        0
    } else {
        amount_of(batches[0], key) + batches_amount(batches.drop_first(), key)
    }
}

/// After any sequence of top-up batches, the stored total under each key
/// is the initial total plus the per-key sum of everything added.
pub proof fn lemma_merge_batches_amount(s: Seq<CoinV>, batches: Seq<Seq<CoinV>>, key: Seq<char>)
    ensures
        amount_of(merge_batches(s, batches), key) == amount_of(s, key) + batches_amount(
            batches,
            key,
        ),
    decreases batches.len(),
{
    if batches.len() > 0 {
        lemma_merge_entries_amount(s, batches[0], key);
        lemma_merge_batches_amount(merge_entries(s, batches[0]), batches.drop_first(), key);
    }
}

proof fn lemma_batches_amount_remove(batches: Seq<Seq<CoinV>>, i: int, key: Seq<char>)
    requires
        0 <= i < batches.len(),
    ensures
        batches_amount(batches.remove(i), key) == batches_amount(batches, key) - amount_of(
            batches[i],
            key,
        ),
    decreases batches.len(),
{
    if i == 0 {
        assert(batches.remove(0) =~= batches.drop_first());
    } else {
        assert(batches.remove(i).drop_first() =~= batches.drop_first().remove(i - 1));
        assert(batches.remove(i)[0] == batches[0]);
        lemma_batches_amount_remove(batches.drop_first(), i - 1, key);
    }
}

/// Two runs made of the same batches, in any order, add the same per-key
/// sums.
pub proof fn lemma_batches_amount_permutation(
    b1: Seq<Seq<CoinV>>,
    b2: Seq<Seq<CoinV>>,
    key: Seq<char>,
)
    requires
        b1.to_multiset() == b2.to_multiset(),
    ensures
        batches_amount(b1, key) == batches_amount(b2, key),
    decreases b1.len(),
{
    broadcast use vstd::seq_lib::group_to_multiset_ensures;

    if b1.len() == 0 {
        assert(b2.to_multiset().len() == 0);
    } else {
        let x = b1[0];
        assert(b1.contains(x));
        assert(b2.to_multiset().count(x) > 0);
        assert(b2.contains(x));
        let i = choose|i: int| 0 <= i < b2.len() && b2[i] == x;
        assert(b1.remove(0).to_multiset() =~= b1.to_multiset().remove(x));
        assert(b2.remove(i).to_multiset() =~= b2.to_multiset().remove(x));
        assert(b1.remove(0) =~= b1.drop_first());
        lemma_batches_amount_remove(b2, i, key);
        lemma_batches_amount_permutation(b1.drop_first(), b2.remove(i), key);
    }
}

/// The stored per-key totals after a run of top-ups do not depend on the
/// order the batches arrive in: merging the same batches in any order
/// from the same starting balance stores the same per-key sums.
pub proof fn lemma_top_up_runs_agree(
    s: Seq<CoinV>,
    b1: Seq<Seq<CoinV>>,
    b2: Seq<Seq<CoinV>>,
    key: Seq<char>,
)
    requires
        b1.to_multiset() == b2.to_multiset(),
    ensures
        amount_of(merge_batches(s, b1), key) == amount_of(merge_batches(s, b2), key),
{
    lemma_merge_batches_amount(s, b1, key);
    lemma_merge_batches_amount(s, b2, key);
    lemma_batches_amount_permutation(b1, b2, key);
}

proof fn lemma_merge_entry_grows(s: Seq<CoinV>, c: CoinV)
    requires
        c.amount >= 0,
    ensures
        merge_entry(s, c).len() >= s.len(),
        forall|i: int|
            0 <= i < s.len() ==> merge_entry(s, c)[i].denom == s[i].denom && merge_entry(
                s,
                c,
            )[i].amount >= s[i].amount,
{
    lemma_find_entry(s, c.denom);
}

proof fn lemma_merge_entries_grows(s: Seq<CoinV>, add: Seq<CoinV>)
    requires
        forall|i: int| 0 <= i < add.len() ==> add[i].amount >= 0,
    ensures
        merge_entries(s, add).len() >= s.len(),
        forall|i: int|
            0 <= i < s.len() ==> merge_entries(s, add)[i].denom == s[i].denom && merge_entries(
                s,
                add,
            )[i].amount >= s[i].amount,
    decreases add.len(),
{
    if add.len() > 0 {
        lemma_merge_entry_grows(s, add[0]);
        assert(forall|i: int|
            0 <= i < add.drop_first().len() ==> add.drop_first()[i].amount >= 0);
        lemma_merge_entries_grows(merge_entry(s, add[0]), add.drop_first());
    }
}

proof fn lemma_merge_entries_split(s: Seq<CoinV>, a: Seq<CoinV>, b: Seq<CoinV>)
    ensures
        merge_entries(s, a + b) == merge_entries(merge_entries(s, a), b),
    decreases a.len(),
{
    if a.len() == 0 {
        assert(a + b =~= b);
    } else {
        assert((a + b)[0] == a[0]);
        assert((a + b).drop_first() =~= a.drop_first() + b);
        lemma_merge_entries_split(merge_entry(s, a[0]), a.drop_first(), b);
    }
}

proof fn lemma_merge_entries_push(s: Seq<CoinV>, t: Seq<CoinV>, c: CoinV)
    ensures
        merge_entries(s, t.push(c)) == merge_entry(merge_entries(s, t), c),
    decreases t.len(),
{
    if t.len() == 0 {
        assert(t.push(c).drop_first() =~= Seq::<CoinV>::empty());
        assert(t.push(c)[0] == c);
        assert(merge_entries(s, t.push(c)) == merge_entries(
            merge_entry(s, c),
            Seq::<CoinV>::empty(),
        ));
        assert(merge_entries(s, t) == s);
    } else {
        assert(t.push(c)[0] == t[0]);
        assert(t.push(c).drop_first() =~= t.drop_first().push(c));
        lemma_merge_entries_push(merge_entry(s, t[0]), t.drop_first(), c);
    }
}

#[verifier::loop_isolation(false)]
fn find_coin(v: &Vec<Coin>, denom: &String) -> (r: Option<usize>)
    ensures
        match r {
            Some(i) => i < v@.len() && find_entry(coins_view(v@), denom@) == i as int,
            None => find_entry(coins_view(v@), denom@) < 0,
        },
{
    let mut i: usize = 0;
    while i < v.len()
        invariant
            i <= v.len(),
            forall|j: int| 0 <= j < i ==> coins_view(v@)[j].denom != denom@,
        decreases v.len() - i,
    {
        if v[i].denom == *denom {
            proof {
                assert(coins_view(v@)[i as int].denom == denom@);
                lemma_find_entry(coins_view(v@), denom@);
            }
            return Some(i);
        }
        proof {
            assert(coins_view(v@)[i as int].denom != denom@);
        }
        i += 1;
    }
    proof {
        lemma_find_entry(coins_view(v@), denom@);
    }
    None
}

#[verifier::loop_isolation(false)]
fn find_cw20(v: &Vec<Cw20CoinVerified>, address: &String) -> (r: Option<usize>)
    ensures
        match r {
            Some(i) => i < v@.len() && find_entry(cw20s_view(v@), address@) == i as int,
            None => find_entry(cw20s_view(v@), address@) < 0,
        },
{
    let mut i: usize = 0;
    while i < v.len()
        invariant
            i <= v.len(),
            forall|j: int| 0 <= j < i ==> cw20s_view(v@)[j].denom != address@,
        decreases v.len() - i,
    {
        if v[i].address == *address {
            proof {
                assert(cw20s_view(v@)[i as int].denom == address@);
                lemma_find_entry(cw20s_view(v@), address@);
            }
            return Some(i);
        }
        proof {
            assert(cw20s_view(v@)[i as int].denom != address@);
        }
        i += 1;
    }
    proof {
        lemma_find_entry(cw20s_view(v@), address@);
    }
    None
}

/// Fold the coins of `add` into `target`. On overflow `target` is left in
/// an unspecified intermediate state; callers merge into scratch space.
#[verifier::loop_isolation(false)]
fn merge_native_into(target: &mut Vec<Coin>, add: &Vec<Coin>) -> (r: Result<(), ContractError>)
    ensures
        entries_fit(merge_entries(coins_view(old(target)@), coins_view(add@))) ==> (r == Ok::<
            (),
            ContractError,
        >(()) && coins_view(final(target)@) == merge_entries(
            coins_view(old(target)@),
            coins_view(add@),
        )),
        !entries_fit(merge_entries(coins_view(old(target)@), coins_view(add@))) ==> r == Err::<
            (),
            ContractError,
        >(ContractError::ArithmeticOverflow),
{
    let ghost s0 = coins_view(old(target)@);
    let ghost a = coins_view(add@);
    let mut k: usize = 0;
    while k < add.len()
        invariant
            k <= add.len(),
            coins_view(target@) == merge_entries(s0, a.take(k as int)),
        decreases add.len() - k,
    {
        let ghost p = coins_view(target@);
        proof {
            assert(a.take(k + 1) =~= a.take(k as int).push(a[k as int]));
            lemma_merge_entries_push(s0, a.take(k as int), a[k as int]);
            assert(a[k as int] == add@[k as int]@);
        }
        match find_coin(target, &add[k].denom) {
            Some(i) => {
                match target[i].amount.checked_add(add[k].amount) {
                    Some(v) => {
                        let d = target[i].denom.clone();
                        target[i] = Coin { denom: d, amount: v };
                        proof {
                            assert(coins_view(target@) =~= merge_entry(p, a[k as int]));
                        }
                    }
                    None => {
                        proof {
                            let m1 = merge_entry(p, a[k as int]);
                            lemma_find_entry(p, a[k as int].denom);
                            assert(m1[i as int].amount > u128::MAX);
                            assert(a =~= a.take(k + 1) + a.skip(k + 1));
                            lemma_merge_entries_split(s0, a.take(k + 1), a.skip(k + 1));
                            assert(merge_entries(s0, a.take(k + 1)) == m1);
                            assert(forall|j: int|
                                0 <= j < a.skip(k + 1).len() ==> #[trigger] a.skip(k + 1)[j].amount
                                    >= 0);
                            lemma_merge_entries_grows(m1, a.skip(k + 1));
                            let m = merge_entries(s0, a);
                            assert(m[i as int].amount > u128::MAX);
                            assert(!entries_fit(m));
                        }
                        return Err(ContractError::ArithmeticOverflow);
                    }
                }
            }
            None => {
                target.push(add[k].clone());
                proof {
                    assert(coins_view(target@) =~= merge_entry(p, a[k as int]));
                }
            }
        }
        k += 1;
    }
    proof {
        assert(a.take(add.len() as int) =~= a);
        assert forall|j: int| 0 <= j < coins_view(target@).len() implies coins_view(
            target@,
        )[j].amount <= u128::MAX by {
            assert(coins_view(target@)[j] == target@[j]@);
        }
        assert(entries_fit(merge_entries(s0, a)));
    }
    Ok(())
}

impl GenericBalance {
    /// Merge the attached assets into this balance. Amount addition is
    /// overflow-checked: when any merged amount would no longer fit, the
    /// balance is left unchanged and an arithmetic-overflow error is
    /// returned.
    pub fn add_tokens(&mut self, add: Balance) -> (r: Result<(), ContractError>)
        ensures
            balance_fits(add_balance(old(self)@, add@)) ==> (r == Ok::<(), ContractError>(())
                && final(self)@ == add_balance(old(self)@, add@)),
            !balance_fits(add_balance(old(self)@, add@)) ==> (r == Err::<(), ContractError>(
                ContractError::ArithmeticOverflow,
            ) && final(self)@ == old(self)@),
    {
        let ghost goal = add_balance(self@, add@);
        match add {
            Balance::Native(coins) => {
                let mut merged = clone_coins(&self.native);
                let res = merge_native_into(&mut merged, &coins);
                match res {
                    Ok(()) => {
                        proof {
                            assert forall|j: int| 0 <= j < cw20s_view(self.cw20@).len() implies
                                cw20s_view(self.cw20@)[j].amount <= u128::MAX by {
                                assert(cw20s_view(self.cw20@)[j] == self.cw20@[j]@);
                            }
                            assert(entries_fit(goal.cw20));
                            assert(balance_fits(goal));
                        }
                        self.native = merged;
                        Ok(())
                    }
                    Err(e) => {
                        proof {
                            assert(!entries_fit(goal.native));
                            assert(!balance_fits(goal));
                        }
                        Err(e)
                    }
                }
            }
            Balance::Cw20(token) => {
                let ghost c = token@;
                match find_cw20(&self.cw20, &token.address) {
                    Some(i) => {
                        match self.cw20[i].amount.checked_add(token.amount) {
                            Some(v) => {
                                let ad = self.cw20[i].address.clone();
                                self.cw20[i] = Cw20CoinVerified { address: ad, amount: v };
                                proof {
                                    assert(cw20s_view(self.cw20@) =~= goal.cw20);
                                    assert forall|j: int| 0 <= j < goal.cw20.len() implies
                                        goal.cw20[j].amount <= u128::MAX by {
                                        assert(goal.cw20[j] == self.cw20@[j]@);
                                    }
                                    assert(entries_fit(goal.native)) by {
                                        assert(forall|j: int|
                                            0 <= j < coins_view(self.native@).len()
                                                ==> coins_view(self.native@)[j]
                                                == self.native@[j]@);
                                    }
                                    assert(balance_fits(goal));
                                }
                                Ok(())
                            }
                            None => {
                                proof {
                                    lemma_find_entry(cw20s_view(self.cw20@), c.denom);
                                    assert(goal.cw20[i as int].amount > u128::MAX);
                                    assert(!entries_fit(goal.cw20));
                                }
                                Err(ContractError::ArithmeticOverflow)
                            }
                        }
                    }
                    None => {
                        self.cw20.push(token);
                        proof {
                            assert(cw20s_view(self.cw20@) =~= goal.cw20);
                            assert forall|j: int| 0 <= j < goal.cw20.len() implies goal.cw20[j].amount
                                <= u128::MAX by {
                                assert(goal.cw20[j] == self.cw20@[j]@);
                            }
                            assert(entries_fit(goal.native)) by {
                                assert(forall|j: int|
                                    0 <= j < coins_view(self.native@).len() ==> coins_view(
                                        self.native@,
                                    )[j] == self.native@[j]@);
                            }
                            assert(balance_fits(goal));
                        }
                        Ok(())
                    }
                }
            }
        }
    }
}

/// The host-chain context an operation runs under: the current block
/// height and the current block time in nanoseconds since the epoch.
#[derive(Clone, Copy, Debug, PartialEq, Eq, Structural)]
pub struct Env {
    pub height: u64,
    pub time: u64,
}

/// Mathematical form of an escrow record.
pub struct EscrowV {
    pub arbiter: Seq<char>,
    pub recipient: Seq<char>,
    pub source: Seq<char>,
    pub end_height: Option<u64>,
    pub end_time: Option<u64>,
    pub balance: GenericBalanceV,
}

/// One escrow agreement: the parties, the optional deadlines, and the
/// accumulated balance.
#[derive(Debug, PartialEq, Eq)]
pub struct Escrow {
    /// Address authorized to approve or refund.
    pub arbiter: String,
    /// Address that receives the funds on release.
    pub recipient: String,
    /// Address that funded the escrow.
    pub source: String,
    /// When set and the block height exceeds it, the escrow is expired.
    pub end_height: Option<u64>,
    /// When set (seconds since the epoch) and the block time exceeds it,
    /// the escrow is expired.
    pub end_time: Option<u64>,
    pub balance: GenericBalance,
}

impl View for Escrow {
    type V = EscrowV;

    open spec fn view(&self) -> EscrowV {
        EscrowV {
            arbiter: self.arbiter@,
            recipient: self.recipient@,
            source: self.source@,
            end_height: self.end_height,
            end_time: self.end_time,
            balance: self.balance@,
        }
    }
}

impl Clone for Escrow {
    fn clone(&self) -> (res: Self)
        ensures
            res@ == self@,
    {
        Escrow {
            arbiter: self.arbiter.clone(),
            recipient: self.recipient.clone(),
            source: self.source.clone(),
            end_height: self.end_height,
            end_time: self.end_time,
            balance: self.balance.clone(),
        }
    }
}

/// The expiry rule: a set height deadline has passed, or a set time
/// deadline has passed. The deadline is stored in seconds and the block
/// time carried in nanoseconds, so the stored value is scaled to the
/// clock's resolution before the strict comparison. An unset deadline
/// never contributes.
pub open spec fn spec_expired(e: EscrowV, env: Env) -> bool {
    (match e.end_height {
        Some(h) => env.height > h,
        None => false,
    }) || (match e.end_time {
        Some(t) => env.time > t * 1_000_000_000,
        None => false,
    })
}

impl Escrow {
    /// True when any set deadline has passed in `env`.
    pub fn is_expired(&self, env: &Env) -> (r: bool)
        ensures
            r == spec_expired(self@, *env),
    {
        if let Some(h) = self.end_height {
            if env.height > h {
                return true;
            }
        }
        if let Some(t) = self.end_time {
            if (env.time as u128) > (t as u128) * 1_000_000_000 {
                return true;
            }
        }
        false
    }
}

/// The keyed store of live escrows. The entries are an association list;
/// the abstract value is the map from id to record, and well-formedness
/// says no id occurs twice.
pub struct EscrowStore {
    entries: Vec<(String, Escrow)>,
}

pub(crate) open spec fn distinct_keys(s: Seq<(String, Escrow)>) -> bool {
    forall|i: int, j: int| 0 <= i < j < s.len() ==> s[i].0@ != s[j].0@
}

pub(crate) open spec fn store_map(s: Seq<(String, Escrow)>) -> Map<Seq<char>, EscrowV>
    decreases s.len(),
{
    if s.len() == 0 {
        Map::empty()
    } else {
        store_map(s.drop_last()).insert(s.last().0@, s.last().1@)
    }
}

impl View for EscrowStore {
    type V = Map<Seq<char>, EscrowV>;

    closed spec fn view(&self) -> Map<Seq<char>, EscrowV> {
        store_map(self.entries@)
    }
}

proof fn lemma_store_map_contains(s: Seq<(String, Escrow)>, k: Seq<char>)
    ensures
        store_map(s).contains_key(k) <==> exists|i: int| 0 <= i < s.len() && s[i].0@ == k,
    decreases s.len(),
{
    if s.len() > 0 {
        lemma_store_map_contains(s.drop_last(), k);
        if s.last().0@ == k {
            assert(s[s.len() - 1].0@ == k);
        } else {
            if store_map(s).contains_key(k) {
                let i = choose|i: int| 0 <= i < s.drop_last().len() && s.drop_last()[i].0@ == k;
                assert(s[i].0@ == k);
            }
            if exists|i: int| 0 <= i < s.len() && s[i].0@ == k {
                let i = choose|i: int| 0 <= i < s.len() && s[i].0@ == k;
                assert(i < s.len() - 1);
                assert(s.drop_last()[i].0@ == k);
            }
        }
    }
}

proof fn lemma_store_map_get(s: Seq<(String, Escrow)>, i: int)
    requires
        distinct_keys(s),
        0 <= i < s.len(),
    ensures
        store_map(s).contains_key(s[i].0@),
        store_map(s)[s[i].0@] == s[i].1@,
    decreases s.len(),
{
    if i == s.len() - 1 {
    } else {
        assert(distinct_keys(s.drop_last()));
        assert(s.drop_last()[i] == s[i]);
        lemma_store_map_get(s.drop_last(), i);
        assert(s.last().0@ != s[i].0@);
    }
}

proof fn lemma_store_map_update(s: Seq<(String, Escrow)>, i: int, p: (String, Escrow))
    requires
        distinct_keys(s),
        0 <= i < s.len(),
        p.0@ == s[i].0@,
    ensures
        store_map(s.update(i, p)) == store_map(s).insert(p.0@, p.1@),
    decreases s.len(),
{
    let t = s.update(i, p);
    if i == s.len() - 1 {
        assert(t.drop_last() =~= s.drop_last());
        assert(t.last() == p);
        assert(store_map(t) == store_map(s.drop_last()).insert(p.0@, p.1@));
        assert(store_map(s.drop_last()).insert(p.0@, p.1@) =~= store_map(s).insert(p.0@, p.1@));
    } else {
        assert(distinct_keys(s.drop_last()));
        assert(s.drop_last()[i] == s[i]);
        lemma_store_map_update(s.drop_last(), i, p);
        assert(t.drop_last() =~= s.drop_last().update(i, p));
        assert(t.last() == s.last());
        assert(s.last().0@ != p.0@);
        assert(store_map(t) == store_map(s.drop_last()).insert(p.0@, p.1@).insert(
            s.last().0@,
            s.last().1@,
        ));
        assert(store_map(s.drop_last()).insert(p.0@, p.1@).insert(s.last().0@, s.last().1@)
            =~= store_map(s).insert(p.0@, p.1@));
    }
}

proof fn lemma_store_map_push(s: Seq<(String, Escrow)>, p: (String, Escrow))
    ensures
        store_map(s.push(p)) == store_map(s).insert(p.0@, p.1@),
{
    assert(s.push(p).drop_last() =~= s);
    assert(s.push(p).last() == p);
}

proof fn lemma_store_map_remove(s: Seq<(String, Escrow)>, i: int)
    requires
        distinct_keys(s),
        0 <= i < s.len(),
    ensures
        store_map(s.remove(i)) == store_map(s).remove(s[i].0@),
    decreases s.len(),
{
    let t = s.remove(i);
    if i == s.len() - 1 {
        assert(t =~= s.drop_last());
        lemma_store_map_contains(s.drop_last(), s[i].0@);
        assert(forall|j: int|
            0 <= j < s.drop_last().len() ==> s.drop_last()[j] == s[j] && s[j].0@ != s[i].0@);
        assert(store_map(s.drop_last()) =~= store_map(s).remove(s[i].0@));
    } else {
        assert(distinct_keys(s.drop_last()));
        assert(s.drop_last()[i] == s[i]);
        lemma_store_map_remove(s.drop_last(), i);
        assert(t.drop_last() =~= s.drop_last().remove(i));
        assert(t.last() == s.last());
        assert(store_map(t) == store_map(s.drop_last()).remove(s[i].0@).insert(
            s.last().0@,
            s.last().1@,
        ));
        assert(s.last().0@ != s[i].0@);
        assert(store_map(s.drop_last()).remove(s[i].0@).insert(s.last().0@, s.last().1@)
            =~= store_map(s).remove(s[i].0@));
    }
}

impl EscrowStore {
    /// No id occurs twice among the entries.
    pub closed spec fn wf(&self) -> bool {
        distinct_keys(self.entries@)
    }

    /// An empty store.
    pub fn new() -> (r: EscrowStore)
        ensures
            r.wf(),
            r@ == Map::<Seq<char>, EscrowV>::empty(),
    {
        EscrowStore { entries: Vec::new() }
    }

    #[verifier::loop_isolation(false)]
    fn find_index(&self, id: &String) -> (r: Option<usize>)
        ensures
            match r {
                Some(i) => i < self.entries@.len() && self.entries@[i as int].0@ == id@,
                None => forall|j: int| 0 <= j < self.entries@.len() ==> self.entries@[j].0@ != id@,
            },
    {
        let mut i: usize = 0;
        while i < self.entries.len()
            invariant
                i <= self.entries.len(),
                forall|j: int| 0 <= j < i ==> self.entries@[j].0@ != id@,
            decreases self.entries.len() - i,
        {
            if self.entries[i].0 == *id {
                return Some(i);
            }
            i += 1;
        }
        None
    }
}

impl EscrowStore {
    /// The ids of all live escrows, in ascending lexicographic order: a
    /// consistent snapshot of the store's key set.
    #[verifier::loop_isolation(false)]
    pub fn list_ids(&self) -> (r: Vec<String>)
        requires
            self.wf(),
        ensures
            forall|i: int, j: int| 0 <= i < j < r@.len() ==> lex_lt(r@[i]@, r@[j]@),
            forall|i: int| 0 <= i < r@.len() ==> self@.contains_key(r@[i]@),
            forall|k: Seq<char>| self@.contains_key(k) ==> has_id(r@, k),
    {
        let mut ids: Vec<String> = Vec::new();
        let mut i: usize = 0;
        while i < self.entries.len()
            invariant
                i <= self.entries@.len(),
                ids@.len() == i,
                forall|j: int| 0 <= j < i ==> ids@[j]@ == self.entries@[j].0@,
            decreases self.entries@.len() - i,
        {
            ids.push(self.entries[i].0.clone());
            i += 1;
        }
        let ghost ids0 = ids@;
        let r = sort_ids(ids);
        proof {
            assert forall|j: int| 0 <= j < r@.len() implies self@.contains_key(r@[j]@) by {
                let l = choose|l: int| 0 <= l < ids0.len() && ids0[l]@ == r@[j]@;
                lemma_store_map_contains(self.entries@, r@[j]@);
                assert(self.entries@[l].0@ == r@[j]@);
            }
            assert forall|k: Seq<char>| self@.contains_key(k) implies has_id(r@, k) by {
                lemma_store_map_contains(self.entries@, k);
                let l = choose|l: int| 0 <= l < self.entries@.len() && self.entries@[l].0@ == k;
                assert(ids0[l]@ == k);
                assert(has_id(r@, ids0[l]@));
            }
        }
        r
    }
}

/// Point lookup: the record stored under `id`, or `NotFound`.
pub fn escrows_read(store: &EscrowStore, id: &String) -> (r: Result<Escrow, ContractError>)
    requires
        store.wf(),
    ensures
        match r {
            Ok(e) => store@.contains_key(id@) && e@ == store@[id@],
            Err(e) => e == ContractError::NotFound && !store@.contains_key(id@),
        },
{
    proof {
        lemma_store_map_contains(store.entries@, id@);
    }
    match store.find_index(id) {
        Some(i) => {
            proof {
                lemma_store_map_get(store.entries@, i as int);
            }
            Ok(store.entries[i].1.clone())
        }
        None => Err(ContractError::NotFound),
    }
}

/// Unconditional upsert: after the call the store holds `escrow` under
/// `id`, and every other id is untouched.
pub fn escrows_save(store: &mut EscrowStore, escrow: &Escrow, id: &String) -> (r: Result<
    (),
    ContractError,
>)
    requires
        old(store).wf(),
    ensures
        final(store).wf(),
        r == Ok::<(), ContractError>(()),
        final(store)@ == old(store)@.insert(id@, escrow@),
{
    match store.find_index(id) {
        Some(i) => {
            let p = (id.clone(), escrow.clone());
            proof {
                lemma_store_map_update(store.entries@, i as int, p);
                assert(distinct_keys(store.entries@.update(i as int, p)));
            }
            store.entries[i] = p;
            Ok(())
        }
        None => {
            let p = (id.clone(), escrow.clone());
            proof {
                lemma_store_map_push(store.entries@, p);
                assert(distinct_keys(store.entries@.push(p)));
            }
            store.entries.push(p);
            Ok(())
        }
    }
}

/// Atomic create-if-absent: stores `escrow` under `id` and hands the
/// record back, or fails with `IdAlreadyExists` and leaves the store
/// unmodified.
pub fn escrows_update(store: &mut EscrowStore, escrow: Escrow, id: &String) -> (r: Result<
    Escrow,
    ContractError,
>)
    requires
        old(store).wf(),
    ensures
        final(store).wf(),
        old(store)@.contains_key(id@) ==> r == Err::<Escrow, ContractError>(
            ContractError::IdAlreadyExists,
        ) && final(store)@ == old(store)@,
        !old(store)@.contains_key(id@) ==> (r matches Ok(e) && e@ == escrow@ && final(store)@
            == old(store)@.insert(id@, escrow@)),
{
    proof {
        lemma_store_map_contains(store.entries@, id@);
    }
    match store.find_index(id) {
        Some(_) => Err(ContractError::IdAlreadyExists),
        None => {
            let stored = escrow.clone();
            let p = (id.clone(), stored);
            proof {
                lemma_store_map_push(store.entries@, p);
                assert(distinct_keys(store.entries@.push(p)));
            }
            store.entries.push(p);
            Ok(escrow)
        }
    }
}

/// Unconditional remove: after the call no record is stored under `id`;
/// removing an absent id is a no-op.
pub fn escrows_remove(store: &mut EscrowStore, id: &String) -> (r: Result<(), ContractError>)
    requires
        old(store).wf(),
    ensures
        final(store).wf(),
        r == Ok::<(), ContractError>(()),
        final(store)@ == old(store)@.remove(id@),
{
    match store.find_index(id) {
        Some(i) => {
            proof {
                lemma_store_map_remove(store.entries@, i as int);
                assert(distinct_keys(store.entries@.remove(i as int)));
            }
            store.entries.remove(i);
            Ok(())
        }
        None => {
            proof {
                lemma_store_map_contains(store.entries@, id@);
                assert(store@.remove(id@) =~= store@);
            }
            Ok(())
        }
    }
}

} // verus!
