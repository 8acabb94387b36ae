//! The escrow engine: create, top-up, approve, refund and the queries,
//! with the authorization and expiry policy.
//!
//! Every operation is a transition on the store's abstract map; the
//! `*_outcome` predicates state each transition in full: which inputs
//! fail with which error (leaving the store unmodified), and what a
//! success stores, removes, and hands back.

use vstd::prelude::*;

use crate::error::ContractError;
use crate::msg::{
    cw20coins_view, msgs_view, CreateMsg, CreateMsgV, Cw20Coin, Cw20ReceiveMsg, Cw20ReceiveMsgV,
    DetailsResponse, DetailsResponseV, ExecuteMsg, ExecuteMsgV, ListResponse, MessageInfo,
    ReceiveMsg, ReceiveMsgV, Response, TransferInstruction, TransferInstructionV,
};
use crate::order::{has_id, lex_lt};
use crate::state::{
    add_balance, balance_empty, balance_fits, clone_coins, coins_view, cw20s_view, escrows_read,
    escrows_remove, escrows_save, escrows_update, spec_expired, Balance, BalanceV, Coin, CoinV,
    Cw20CoinVerified, Env, Escrow, EscrowStore, EscrowV, GenericBalance, GenericBalanceV,
};

verus! {

/// The balance a fresh escrow starts with: the attached funds, placed in
/// the collection matching their kind.
pub open spec fn funding_balance(b: BalanceV) -> GenericBalanceV {
    match b {
        BalanceV::Native(coins) => GenericBalanceV { native: coins, cw20: Seq::empty() },
        BalanceV::Cw20(token) => GenericBalanceV { native: Seq::empty(), cw20: seq![token] },
    }
}

/// The record a create request stores.
pub open spec fn created_escrow(msg: CreateMsgV, funding: BalanceV, sender: Seq<char>) -> EscrowV {
    EscrowV {
        arbiter: msg.arbiter,
        recipient: msg.recipient,
        source: sender,
        end_height: msg.end_height,
        end_time: msg.end_time,
        balance: funding_balance(funding),
    }
}

/// The ordered transfer instructions that release a balance to `to`: one
/// native send carrying all native coins (only when there are any),
/// followed by one token-contract transfer per token entry, in the
/// balance's internal order.
pub open spec fn spec_send_tokens(to: Seq<char>, b: GenericBalanceV) -> Seq<TransferInstructionV> {
    (if b.native.len() == 0 {
        Seq::<TransferInstructionV>::empty()
    } else {
        seq![TransferInstructionV::Native { to_address: to, amount: b.native }]
    }) + Seq::new(
        b.cw20.len(),
        |i: int|
            TransferInstructionV::Cw20 {
                contract_addr: b.cw20[i].denom,
                recipient: to,
                amount: b.cw20[i].amount,
            },
    )
}

/// The full transition of a create request. Empty funding is rejected
/// with `ZeroBalance`, an occupied id with `IdAlreadyExists`, each
/// leaving the store unmodified; otherwise the record is stored under
/// the id and no transfer instruction is emitted.
pub open spec fn create_outcome(
    pre: Map<Seq<char>, EscrowV>,
    post: Map<Seq<char>, EscrowV>,
    msg: CreateMsgV,
    funding: BalanceV,
    sender: Seq<char>,
    r: Result<Response, ContractError>,
) -> bool {
    if balance_empty(funding) {
        post == pre && (r matches Err(e) && e == ContractError::ZeroBalance)
    } else if pre.contains_key(msg.id) {
        post == pre && (r matches Err(e) && e == ContractError::IdAlreadyExists)
    } else {
        post == pre.insert(msg.id, created_escrow(msg, funding, sender)) && (r matches Ok(resp)
            && resp@ == Seq::<TransferInstructionV>::empty())
    }
}

/// The full transition of a top-up. An empty addition is rejected with
/// `ZeroBalance`, an unknown id with `NotFound`, an overflowing merge
/// with `ArithmeticOverflow`, each leaving the store unmodified;
/// otherwise only the record's balance changes, by merging in the
/// addition, and no transfer instruction is emitted. Top-up checks
/// neither authorization nor expiry.
pub open spec fn top_up_outcome(
    pre: Map<Seq<char>, EscrowV>,
    post: Map<Seq<char>, EscrowV>,
    id: Seq<char>,
    addition: BalanceV,
    r: Result<Response, ContractError>,
) -> bool {
    if balance_empty(addition) {
        post == pre && (r matches Err(e) && e == ContractError::ZeroBalance)
    } else if !pre.contains_key(id) {
        post == pre && (r matches Err(e) && e == ContractError::NotFound)
    } else if balance_fits(add_balance(pre[id].balance, addition)) {
        post == pre.insert(
            id,
            EscrowV { balance: add_balance(pre[id].balance, addition), ..pre[id] },
        ) && (r matches Ok(resp) && resp@ == Seq::<TransferInstructionV>::empty())
    } else {
        post == pre && (r matches Err(e) && e == ContractError::ArithmeticOverflow)
    }
}

/// The full transition of an approval. An unknown id fails `NotFound`; a
/// caller other than the arbiter fails `Unauthorized` (checked strictly
/// before expiry); a passed deadline fails `Expired`, carrying both
/// deadline values; each failure leaves the store unmodified. Otherwise
/// the record is removed and its whole balance is released to the
/// recipient, in one logical step.
pub open spec fn approve_outcome(
    pre: Map<Seq<char>, EscrowV>,
    post: Map<Seq<char>, EscrowV>,
    id: Seq<char>,
    sender: Seq<char>,
    env: Env,
    r: Result<Response, ContractError>,
) -> bool {
    if !pre.contains_key(id) {
        post == pre && (r matches Err(e) && e == ContractError::NotFound)
    } else if sender != pre[id].arbiter {
        post == pre && (r matches Err(e) && e == ContractError::Unauthorized)
    } else if spec_expired(pre[id], env) {
        post == pre && (r matches Err(e) && e == (ContractError::Expired {
            end_height: pre[id].end_height,
            end_time: pre[id].end_time,
        }))
    } else {
        post == pre.remove(id) && (r matches Ok(resp) && resp@ == spec_send_tokens(
            pre[id].recipient,
            pre[id].balance,
        ))
    }
}

/// The full transition of a refund. As approval, but with no expiry
/// check: the arbiter can refund at any time. The instructions are
/// directed at the recipient, mirroring approval.
pub open spec fn refund_outcome(
    pre: Map<Seq<char>, EscrowV>,
    post: Map<Seq<char>, EscrowV>,
    id: Seq<char>,
    sender: Seq<char>,
    r: Result<Response, ContractError>,
) -> bool {
    if !pre.contains_key(id) {
        post == pre && (r matches Err(e) && e == ContractError::NotFound)
    } else if sender != pre[id].arbiter {
        post == pre && (r matches Err(e) && e == ContractError::Unauthorized)
    } else {
        post == pre.remove(id) && (r matches Ok(resp) && resp@ == spec_send_tokens(
            pre[id].recipient,
            pre[id].balance,
        ))
    }
}

/// The full transition of a token-contract deposit: the forwarded funds
/// become a token balance under the forwarding contract's address, and
/// the decoded instruction selects create or top-up.
pub open spec fn receive_outcome(
    pre: Map<Seq<char>, EscrowV>,
    post: Map<Seq<char>, EscrowV>,
    token_contract: Seq<char>,
    wrapper: Cw20ReceiveMsgV,
    r: Result<Response, ContractError>,
) -> bool {
    let funding = BalanceV::Cw20(CoinV { denom: token_contract, amount: wrapper.amount });
    match wrapper.msg {
        ReceiveMsgV::Create(msg) => create_outcome(pre, post, msg, funding, wrapper.sender, r),
        ReceiveMsgV::TopUp { id } => top_up_outcome(pre, post, id, funding, r),
    }
}

/// The full transition of any request.
pub open spec fn execute_outcome(
    pre: Map<Seq<char>, EscrowV>,
    post: Map<Seq<char>, EscrowV>,
    env: Env,
    sender: Seq<char>,
    funds: Seq<CoinV>,
    msg: ExecuteMsgV,
    r: Result<Response, ContractError>,
) -> bool {
    match msg {
        ExecuteMsgV::Create(m) => create_outcome(pre, post, m, BalanceV::Native(funds), sender, r),
        ExecuteMsgV::Approve { id } => approve_outcome(pre, post, id, sender, env, r),
        ExecuteMsgV::Refund { id } => refund_outcome(pre, post, id, sender, r),
        ExecuteMsgV::TopUp { id } => top_up_outcome(pre, post, id, BalanceV::Native(funds), r),
        ExecuteMsgV::Receive(w) => receive_outcome(pre, post, sender, w, r),
    }
}

/// Open an escrow under `msg.id`, funded with `balance`, on behalf of
/// `sender`. Any caller may create; the caller becomes the source.
pub fn try_create(
    store: &mut EscrowStore,
    msg: CreateMsg,
    balance: Balance,
    sender: String,
) -> (r: Result<Response, ContractError>)
    requires
        old(store).wf(),
    ensures
        final(store).wf(),
        create_outcome(old(store)@, final(store)@, msg@, balance@, sender@, r),
{
    if balance.is_empty() {
        return Err(ContractError::ZeroBalance);
    }
    let ghost balv = balance@;
    let escrow_balance = match balance {
        Balance::Native(coins) => {
            let gb = GenericBalance { native: coins, cw20: Vec::new() };
            proof {
                assert(cw20s_view(Seq::<Cw20CoinVerified>::empty()) =~= Seq::<CoinV>::empty());
                assert(gb@ == funding_balance(balv));
            }
            gb
        }
        Balance::Cw20(token) => {
            let mut v: Vec<Cw20CoinVerified> = Vec::new();
            let ghost tv = token@;
            v.push(token);
            let gb = GenericBalance { native: Vec::new(), cw20: v };
            proof {
                assert(coins_view(Seq::<Coin>::empty()) =~= Seq::<CoinV>::empty());
                assert(cw20s_view(v@) =~= seq![tv]);
                assert(gb@ == funding_balance(balv));
            }
            gb
        }
    };
    let CreateMsg { id, arbiter, recipient, end_height, end_time } = msg;
    let escrow = Escrow {
        arbiter,
        recipient,
        source: sender,
        end_height,
        end_time,
        balance: escrow_balance,
    };
    proof {
        assert(escrow@ == created_escrow(msg@, balv, sender@));
    }
    let res = escrows_update(store, escrow, &id);
    match res {
        Ok(_) => {
            let resp = Response { messages: Vec::new() };
            proof {
                assert(resp@ =~= Seq::<TransferInstructionV>::empty());
            }
            Ok(resp)
        }
        Err(e) => Err(e),
    }
}

/// Add `balance` to the escrow stored under `id`. Top-up is
/// permissionless and ignores expiry: the record exists until acted
/// upon.
pub fn try_top_up(store: &mut EscrowStore, balance: Balance, id: String) -> (r: Result<
    Response,
    ContractError,
>)
    requires
        old(store).wf(),
    ensures
        final(store).wf(),
        top_up_outcome(old(store)@, final(store)@, id@, balance@, r),
{
    if balance.is_empty() {
        return Err(ContractError::ZeroBalance);
    }
    let mut escrow = match escrows_read(store, &id) {
        Ok(e) => e,
        Err(e) => {
            return Err(e);
        }
    };
    match escrow.balance.add_tokens(balance) {
        Ok(_) => {}
        Err(e) => {
            return Err(e);
        }
    }
    proof {
        assert(escrow@ == (EscrowV {
            balance: add_balance(old(store)@[id@].balance, balance@),
            ..old(store)@[id@]
        }));
    }
    let res = escrows_save(store, &escrow, &id);
    match res {
        Ok(_) => {
            let resp = Response { messages: Vec::new() };
            proof {
                assert(resp@ =~= Seq::<TransferInstructionV>::empty());
            }
            Ok(resp)
        }
        Err(e) => Err(e),
    }
}

/// The transfer instructions that hand the whole of `amount` to
/// `to_address`. Pure computation; never fails.
#[verifier::loop_isolation(false)]
pub fn send_tokens(to_address: String, amount: &GenericBalance) -> (r: Result<
    Vec<TransferInstruction>,
    ContractError,
>)
    ensures
        r matches Ok(msgs) && msgs_view(msgs@) == spec_send_tokens(to_address@, amount@),
{
    let mut msgs: Vec<TransferInstruction> = Vec::new();
    if amount.native.len() > 0 {
        let coins = clone_coins(&amount.native);
        msgs.push(TransferInstruction::Native { to_address: to_address.clone(), amount: coins });
    }
    let ghost base = msgs@;
    proof {
        if amount.native.len() > 0 {
            assert(base[0]@ == (TransferInstructionV::Native {
                to_address: to_address@,
                amount: amount@.native,
            }));
        }
    }
    let mut i: usize = 0;
    while i < amount.cw20.len()
        invariant
            i <= amount.cw20.len(),
            msgs@.len() == base.len() + i,
            forall|j: int| 0 <= j < base.len() ==> msgs@[j] == base[j],
            forall|j: int|
                0 <= j < i ==> msgs@[base.len() + j]@ == (TransferInstructionV::Cw20 {
                    contract_addr: amount.cw20@[j]@.denom,
                    recipient: to_address@,
                    amount: amount.cw20@[j]@.amount,
                }),
        decreases amount.cw20.len() - i,
    {
        msgs.push(
            TransferInstruction::Cw20 {
                contract_addr: amount.cw20[i].address.clone(),
                recipient: to_address.clone(),
                amount: amount.cw20[i].amount,
            },
        );
        i += 1;
    }
    proof {
        let goal = spec_send_tokens(to_address@, amount@);
        assert(amount@.cw20 == cw20s_view(amount.cw20@));
        assert(goal.len() == base.len() + amount@.cw20.len());
        assert forall|k: int| 0 <= k < goal.len() implies msgs_view(msgs@)[k] == goal[k] by {
            assert(msgs_view(msgs@)[k] == msgs@[k]@);
            if k < base.len() {
                assert(msgs@[k] == base[k]);
            } else {
                let j = k - base.len();
                assert(amount@.cw20[j] == amount.cw20@[j]@);
                assert(msgs@[base.len() + j]@ == (TransferInstructionV::Cw20 {
                    contract_addr: amount.cw20@[j]@.denom,
                    recipient: to_address@,
                    amount: amount.cw20@[j]@.amount,
                }));
            }
        }
        assert(msgs_view(msgs@) =~= goal);
    }
    Ok(msgs)
}

/// Release the escrow stored under `id` to its recipient. Only the
/// arbiter may approve, and only before any set deadline has passed; the
/// record is removed and the instructions are computed in one logical
/// step.
pub fn try_approve(store: &mut EscrowStore, env: &Env, info: &MessageInfo, id: String) -> (r:
    Result<Response, ContractError>)
    requires
        old(store).wf(),
    ensures
        final(store).wf(),
        approve_outcome(old(store)@, final(store)@, id@, info.sender@, *env, r),
{
    let escrow = match escrows_read(store, &id) {
        Ok(e) => e,
        Err(e) => {
            return Err(e);
        }
    };
    if escrow.arbiter != info.sender {
        Err(ContractError::Unauthorized)
    } else if escrow.is_expired(env) {
        Err(ContractError::Expired { end_height: escrow.end_height, end_time: escrow.end_time })
    } else {
        let res = escrows_remove(store, &id);
        match res {
            Ok(_) => {
                match send_tokens(escrow.recipient, &escrow.balance) {
                    Ok(msgs) => Ok(Response { messages: msgs }),
                    Err(e) => Err(e),
                }
            }
            Err(e) => Err(e),
        }
    }
}

/// Return the escrow stored under `id`. Only the arbiter may refund, at
/// any time; the instructions go to the recipient, mirroring approval.
pub fn try_refund(store: &mut EscrowStore, info: &MessageInfo, id: String) -> (r: Result<
    Response,
    ContractError,
>)
    requires
        old(store).wf(),
    ensures
        final(store).wf(),
        refund_outcome(old(store)@, final(store)@, id@, info.sender@, r),
{
    let escrow = match escrows_read(store, &id) {
        Ok(e) => e,
        Err(e) => {
            return Err(e);
        }
    };
    if info.sender != escrow.arbiter {
        Err(ContractError::Unauthorized)
    } else {
        let res = escrows_remove(store, &id);
        match res {
            Ok(_) => {
                match send_tokens(escrow.recipient, &escrow.balance) {
                    Ok(msgs) => Ok(Response { messages: msgs }),
                    Err(e) => Err(e),
                }
            }
            Err(e) => Err(e),
        }
    }
}

/// Handle a deposit forwarded by a token contract: the funds become a
/// token balance under the forwarding contract's address (`info.sender`),
/// and the decoded instruction selects create or top-up.
pub fn try_receive(store: &mut EscrowStore, info: MessageInfo, wrapper: Cw20ReceiveMsg) -> (r:
    Result<Response, ContractError>)
    requires
        old(store).wf(),
    ensures
        final(store).wf(),
        receive_outcome(old(store)@, final(store)@, info.sender@, wrapper@, r),
{
    let Cw20ReceiveMsg { sender, amount, msg } = wrapper;
    let balance = Balance::Cw20(Cw20CoinVerified { address: info.sender, amount });
    match msg {
        ReceiveMsg::Create(m) => try_create(store, m, balance, sender),
        ReceiveMsg::TopUp { id } => try_top_up(store, balance, id),
    }
}

/// Dispatch one request against the store.
pub fn execute(store: &mut EscrowStore, env: &Env, info: MessageInfo, msg: ExecuteMsg) -> (r:
    Result<Response, ContractError>)
    requires
        old(store).wf(),
    ensures
        final(store).wf(),
        execute_outcome(
            old(store)@,
            final(store)@,
            *env,
            info.sender@,
            coins_view(info.funds@),
            msg@,
            r,
        ),
{
    match msg {
        ExecuteMsg::Create(m) => {
            let MessageInfo { sender, funds } = info;
            try_create(store, m, Balance::Native(funds), sender)
        }
        ExecuteMsg::Approve { id } => try_approve(store, env, &info, id),
        ExecuteMsg::Refund { id } => try_refund(store, &info, id),
        ExecuteMsg::TopUp { id } => {
            let MessageInfo { sender: _, funds } = info;
            try_top_up(store, Balance::Native(funds), id)
        }
        ExecuteMsg::Receive(w) => try_receive(store, info, w),
    }
}

/// The query projection of one record.
pub open spec fn details_of(id: Seq<char>, e: EscrowV) -> DetailsResponseV {
    DetailsResponseV {
        id: id,
        arbiter: e.arbiter,
        recipient: e.recipient,
        source: e.source,
        end_height: e.end_height,
        end_time: e.end_time,
        native_balance: e.balance.native,
        cw20_balance: e.balance.cw20,
    }
}

/// Read-only projection of the record stored under `id`: its public
/// fields with the balance decomposed into native and token lists.
#[verifier::loop_isolation(false)]
pub fn query_details(store: &EscrowStore, id: String) -> (r: Result<
    DetailsResponse,
    ContractError,
>)
    requires
        store.wf(),
    ensures
        store@.contains_key(id@) ==> (r matches Ok(d) && d@ == details_of(id@, store@[id@])),
        !store@.contains_key(id@) ==> (r matches Err(e) && e == ContractError::NotFound),
{
    let escrow = match escrows_read(store, &id) {
        Ok(e) => e,
        Err(e) => {
            return Err(e);
        }
    };
    let Escrow { arbiter, recipient, source, end_height, end_time, balance } = escrow;
    let GenericBalance { native, cw20 } = balance;
    let mut cw20_balance: Vec<Cw20Coin> = Vec::new();
    let mut i: usize = 0;
    while i < cw20.len()
        invariant
            i <= cw20.len(),
            cw20_balance@.len() == i,
            forall|j: int| 0 <= j < i ==> cw20_balance@[j]@ == cw20@[j]@,
        decreases cw20.len() - i,
    {
        cw20_balance.push(Cw20Coin { address: cw20[i].address.clone(), amount: cw20[i].amount });
        i += 1;
    }
    proof {
        assert(cw20coins_view(cw20_balance@) =~= cw20s_view(cw20@));
    }
    let details = DetailsResponse {
        id,
        arbiter,
        recipient,
        source,
        end_height,
        end_time,
        native_balance: native,
        cw20_balance,
    };
    Ok(details)
}

/// All live escrow ids, in ascending lexicographic order.
pub fn query_list(store: &EscrowStore) -> (r: ListResponse)
    requires
        store.wf(),
    ensures
        forall|i: int, j: int|
            0 <= i < j < r.escrows@.len() ==> lex_lt(r.escrows@[i]@, r.escrows@[j]@),
        forall|i: int| 0 <= i < r.escrows@.len() ==> store@.contains_key(r.escrows@[i]@),
        forall|k: Seq<char>| store@.contains_key(k) ==> has_id(r.escrows@, k),
{
    ListResponse { escrows: store.list_ids() }
}

/// Refund releases exactly what approval would release: on the same
/// store and escrow id, a successful refund removes the same record and
/// emits the same ordered transfer instructions as a successful
/// approval.
pub proof fn lemma_refund_matches_approve(
    pre: Map<Seq<char>, EscrowV>,
    post_a: Map<Seq<char>, EscrowV>,
    post_r: Map<Seq<char>, EscrowV>,
    id: Seq<char>,
    sender: Seq<char>,
    env: Env,
    ra: Result<Response, ContractError>,
    rr: Result<Response, ContractError>,
)
    requires
        approve_outcome(pre, post_a, id, sender, env, ra),
        refund_outcome(pre, post_r, id, sender, rr),
        ra is Ok,
        rr is Ok,
    ensures
        ra->Ok_0@ == rr->Ok_0@,
        post_a == post_r,
{
}

} // verus!
