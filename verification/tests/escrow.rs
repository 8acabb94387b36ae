use cw20_escrow::contract::{
    execute, query_details, query_list, send_tokens, try_approve, try_create, try_refund,
    try_top_up,
};
use cw20_escrow::error::ContractError;
use cw20_escrow::msg::{
    CreateMsg, Cw20Coin, Cw20ReceiveMsg, DetailsResponse, ExecuteMsg, MessageInfo, ReceiveMsg,
    TransferInstruction,
};
use cw20_escrow::state::{Balance, Coin, Cw20CoinVerified, Env, EscrowStore, GenericBalance};

fn mock_env() -> Env {
    Env { height: 12_345, time: 1_571_797_419_879_305_533 }
}

fn coin(amount: u128, denom: &str) -> Coin {
    Coin { denom: denom.to_string(), amount }
}

fn coins(amount: u128, denom: &str) -> Vec<Coin> {
    vec![coin(amount, denom)]
}

fn info(sender: &str, funds: Vec<Coin>) -> MessageInfo {
    MessageInfo { sender: sender.to_string(), funds }
}

fn create_msg(id: &str, arbiter: &str, recipient: &str, end_height: Option<u64>) -> CreateMsg {
    CreateMsg {
        id: id.to_string(),
        arbiter: arbiter.to_string(),
        recipient: recipient.to_string(),
        end_time: None,
        end_height,
    }
}

#[test]
fn create_and_approve_escrow() {
    let env = mock_env();
    let mut deps = EscrowStore::new();

    let id = "foobar".to_string();
    let arbiter = "arbiter".to_string();
    let recipient = "recipient".to_string();
    let source = "sender".to_string();

    let msg = CreateMsg {
        id: id.clone(),
        arbiter: arbiter.clone(),
        recipient: recipient.clone(),
        end_time: None,
        end_height: Some(123456),
    };
    let balance = coins(100, "tokens");
    let i = info("sender", balance.clone());
    let execute_res = execute(&mut deps, &env, i, ExecuteMsg::Create(msg)).unwrap();

    assert_eq!(0, execute_res.messages.len());
    // ensure the details are what we expect
    let details = query_details(&deps, "foobar".to_string()).unwrap();
    assert_eq!(
        details,
        DetailsResponse {
            id: id.clone(),
            arbiter: arbiter.clone(),
            recipient: recipient.clone(),
            source: source.clone(),
            end_height: Some(123456),
            end_time: None,
            native_balance: balance.clone(),
            cw20_balance: vec![],
        }
    );

    // beneficiary cannot release it
    let env = mock_env();
    let i = info("beneficiary", vec![]);
    let approve_res = execute(&mut deps, &env, i, ExecuteMsg::Approve { id: id.clone() });
    match approve_res.unwrap_err() {
        ContractError::Unauthorized => {}
        e => panic!("unexpected error: {:?}", e),
    }

    // approve it by arbiter
    let env = mock_env();
    let i = info("arbiter", vec![]);
    let approve_res = execute(&mut deps, &env, i, ExecuteMsg::Approve { id: id.clone() }).unwrap();
    assert_eq!(1, approve_res.messages.len());
    assert_eq!(
        *approve_res.messages.get(0).expect("no message"),
        TransferInstruction::Native { to_address: recipient.clone(), amount: balance.clone() }
    );
}

#[test]
fn create_with_empty_funding_fails_zero_balance() {
    let mut store = EscrowStore::new();
    let msg = create_msg("e1", "A", "R", None);
    let res = try_create(&mut store, msg, Balance::Native(vec![]), "S".to_string());
    assert_eq!(res.unwrap_err(), ContractError::ZeroBalance);
    // the store is left unmodified
    assert!(query_list(&store).escrows.is_empty());
    assert_eq!(
        query_details(&store, "e1".to_string()).unwrap_err(),
        ContractError::NotFound
    );
}

#[test]
fn create_with_zero_amount_coin_fails_zero_balance() {
    let mut store = EscrowStore::new();
    let msg = create_msg("e1", "A", "R", None);
    let res = try_create(&mut store, msg, Balance::Native(coins(0, "gold")), "S".to_string());
    assert_eq!(res.unwrap_err(), ContractError::ZeroBalance);
}

#[test]
fn duplicate_create_fails_and_first_record_is_unaffected() {
    let mut store = EscrowStore::new();
    let first = create_msg("dup", "A", "R", Some(10));
    try_create(&mut store, first, Balance::Native(coins(7, "gold")), "S".to_string()).unwrap();

    let second = create_msg("dup", "B", "Q", None);
    let res = try_create(&mut store, second, Balance::Native(coins(9, "iron")), "T".to_string());
    assert_eq!(res.unwrap_err(), ContractError::IdAlreadyExists);

    let details = query_details(&store, "dup".to_string()).unwrap();
    assert_eq!(details.arbiter, "A".to_string());
    assert_eq!(details.recipient, "R".to_string());
    assert_eq!(details.source, "S".to_string());
    assert_eq!(details.end_height, Some(10));
    assert_eq!(details.native_balance, coins(7, "gold"));
}

#[test]
fn top_up_sums_per_denomination_in_any_order() {
    // the same two top-ups, applied in both orders, store the same totals
    let batches = [
        vec![coin(5, "gold"), coin(3, "iron")],
        vec![coin(2, "gold"), coin(10, "copper")],
    ];
    let mut totals = Vec::new();
    for order in [[0, 1], [1, 0]] {
        let mut store = EscrowStore::new();
        let msg = create_msg("e", "A", "R", None);
        try_create(&mut store, msg, Balance::Native(coins(1, "gold")), "S".to_string()).unwrap();
        for k in order {
            try_top_up(&mut store, Balance::Native(batches[k].clone()), "e".to_string()).unwrap();
        }
        let details = query_details(&store, "e".to_string()).unwrap();
        let mut gold = 0u128;
        let mut iron = 0u128;
        let mut copper = 0u128;
        for c in &details.native_balance {
            match c.denom.as_str() {
                "gold" => gold += c.amount,
                "iron" => iron += c.amount,
                "copper" => copper += c.amount,
                d => panic!("unexpected denom {}", d),
            }
        }
        assert_eq!((gold, iron, copper), (8, 3, 10));
        totals.push((gold, iron, copper));
    }
    assert_eq!(totals[0], totals[1]);
}

#[test]
fn top_up_runs_store_same_totals_in_every_order() {
    let batches = [
        vec![coin(5, "gold"), coin(3, "iron")],
        vec![coin(2, "gold")],
        vec![coin(10, "copper"), coin(1, "gold")],
    ];
    let orders = [
        [0, 1, 2],
        [0, 2, 1],
        [1, 0, 2],
        [1, 2, 0],
        [2, 0, 1],
        [2, 1, 0],
    ];
    for order in orders {
        let mut store = EscrowStore::new();
        let msg = create_msg("e", "A", "R", None);
        try_create(&mut store, msg, Balance::Native(coins(1, "gold")), "S".to_string()).unwrap();
        for k in order {
            try_top_up(&mut store, Balance::Native(batches[k].clone()), "e".to_string()).unwrap();
        }
        let details = query_details(&store, "e".to_string()).unwrap();
        let mut gold = 0u128;
        let mut iron = 0u128;
        let mut copper = 0u128;
        for c in &details.native_balance {
            match c.denom.as_str() {
                "gold" => gold += c.amount,
                "iron" => iron += c.amount,
                "copper" => copper += c.amount,
                d => panic!("unexpected denom {}", d),
            }
        }
        assert_eq!((gold, iron, copper), (9, 3, 10));
    }
}

#[test]
fn top_up_merges_existing_denom_and_appends_new() {
    let mut store = EscrowStore::new();
    let msg = create_msg("e", "A", "R", None);
    try_create(&mut store, msg, Balance::Native(coins(100, "tokens")), "S".to_string()).unwrap();
    try_top_up(
        &mut store,
        Balance::Native(vec![coin(50, "tokens"), coin(9, "iron")]),
        "e".to_string(),
    )
    .unwrap();
    let details = query_details(&store, "e".to_string()).unwrap();
    assert_eq!(details.native_balance, vec![coin(150, "tokens"), coin(9, "iron")]);
}

#[test]
fn top_up_on_unknown_id_fails_not_found() {
    let mut store = EscrowStore::new();
    let res = try_top_up(&mut store, Balance::Native(coins(5, "gold")), "nope".to_string());
    assert_eq!(res.unwrap_err(), ContractError::NotFound);
}

#[test]
fn top_up_with_empty_funds_fails_zero_balance() {
    let mut store = EscrowStore::new();
    let msg = create_msg("e", "A", "R", None);
    try_create(&mut store, msg, Balance::Native(coins(1, "gold")), "S".to_string()).unwrap();
    let res = try_top_up(&mut store, Balance::Native(vec![]), "e".to_string());
    assert_eq!(res.unwrap_err(), ContractError::ZeroBalance);
}

#[test]
fn top_up_overflow_fails_and_leaves_record_unchanged() {
    let mut store = EscrowStore::new();
    let msg = create_msg("e", "A", "R", None);
    try_create(&mut store, msg, Balance::Native(coins(u128::MAX, "gold")), "S".to_string())
        .unwrap();
    let res = try_top_up(&mut store, Balance::Native(coins(1, "gold")), "e".to_string());
    assert_eq!(res.unwrap_err(), ContractError::ArithmeticOverflow);
    let details = query_details(&store, "e".to_string()).unwrap();
    assert_eq!(details.native_balance, coins(u128::MAX, "gold"));
}

#[test]
fn approve_by_non_arbiter_fails_and_record_stays() {
    let mut store = EscrowStore::new();
    let msg = create_msg("e", "A", "R", None);
    try_create(&mut store, msg, Balance::Native(coins(4, "gold")), "S".to_string()).unwrap();
    let env = mock_env();
    let res = try_approve(&mut store, &env, &info("R", vec![]), "e".to_string());
    assert_eq!(res.unwrap_err(), ContractError::Unauthorized);
    assert!(query_details(&store, "e".to_string()).is_ok());
}

#[test]
fn approve_past_end_height_fails_expired() {
    let mut store = EscrowStore::new();
    let msg = create_msg("e", "A", "R", Some(1000));
    try_create(&mut store, msg, Balance::Native(coins(4, "gold")), "S".to_string()).unwrap();
    let env = Env { height: 1001, time: 0 };
    let res = try_approve(&mut store, &env, &info("A", vec![]), "e".to_string());
    assert_eq!(
        res.unwrap_err(),
        ContractError::Expired { end_height: Some(1000), end_time: None }
    );
    // record untouched
    assert!(query_details(&store, "e".to_string()).is_ok());
}

#[test]
fn approve_at_end_height_exactly_still_succeeds() {
    let mut store = EscrowStore::new();
    let msg = create_msg("e", "A", "R", Some(1000));
    try_create(&mut store, msg, Balance::Native(coins(4, "gold")), "S".to_string()).unwrap();
    let env = Env { height: 1000, time: 0 };
    let res = try_approve(&mut store, &env, &info("A", vec![]), "e".to_string());
    assert_eq!(1, res.unwrap().messages.len());
}

#[test]
fn end_time_deadline_is_scaled_before_comparison() {
    // deadline in seconds; the block time is in nanoseconds, so the
    // stored value is scaled to nanoseconds before the strict comparison
    let mk = |end_time: Option<u64>| {
        let mut store = EscrowStore::new();
        let msg = CreateMsg {
            id: "e".to_string(),
            arbiter: "A".to_string(),
            recipient: "R".to_string(),
            end_height: None,
            end_time,
        };
        try_create(&mut store, msg, Balance::Native(coins(4, "gold")), "S".to_string()).unwrap();
        store
    };

    let mut store = mk(Some(50));
    let env = Env { height: 0, time: 50_000_000_000 };
    assert!(try_approve(&mut store, &env, &info("A", vec![]), "e".to_string()).is_ok());

    let mut store = mk(Some(50));
    let env = Env { height: 0, time: 50_000_000_001 };
    assert_eq!(
        try_approve(&mut store, &env, &info("A", vec![]), "e".to_string()).unwrap_err(),
        ContractError::Expired { end_height: None, end_time: Some(50) }
    );
}

#[test]
fn approve_releases_full_balance_and_removes_record() {
    let mut store = EscrowStore::new();
    let msg = create_msg("e1", "A", "R", None);
    try_create(&mut store, msg, Balance::Native(coins(100, "tok")), "S".to_string()).unwrap();
    try_top_up(&mut store, Balance::Native(coins(50, "tok")), "e1".to_string()).unwrap();

    let env = mock_env();
    let res = try_approve(&mut store, &env, &info("A", vec![]), "e1".to_string()).unwrap();
    assert_eq!(
        res.messages,
        vec![TransferInstruction::Native { to_address: "R".to_string(), amount: coins(150, "tok") }]
    );
    assert_eq!(
        query_details(&store, "e1".to_string()).unwrap_err(),
        ContractError::NotFound
    );
}

#[test]
fn refund_by_non_arbiter_fails_unauthorized() {
    let mut store = EscrowStore::new();
    let msg = create_msg("e", "A", "R", None);
    try_create(&mut store, msg, Balance::Native(coins(4, "gold")), "S".to_string()).unwrap();
    let res = try_refund(&mut store, &info("S", vec![]), "e".to_string());
    assert_eq!(res.unwrap_err(), ContractError::Unauthorized);
}

#[test]
fn refund_matches_approve_instructions() {
    // two identical stores; approve one, refund the other
    let build = || {
        let mut store = EscrowStore::new();
        let msg = create_msg("e", "A", "R", None);
        try_create(&mut store, msg, Balance::Native(coins(25, "gold")), "S".to_string()).unwrap();
        try_top_up(
            &mut store,
            Balance::Cw20(Cw20CoinVerified { address: "token0".to_string(), amount: 11 }),
            "e".to_string(),
        )
        .unwrap();
        store
    };
    let env = mock_env();

    let mut approved = build();
    let a = try_approve(&mut approved, &env, &info("A", vec![]), "e".to_string()).unwrap();

    let mut refunded = build();
    let r = try_refund(&mut refunded, &info("A", vec![]), "e".to_string()).unwrap();

    assert_eq!(a.messages, r.messages);
    assert_eq!(
        query_details(&refunded, "e".to_string()).unwrap_err(),
        ContractError::NotFound
    );
    // refund is available even past a deadline
    let mut expired = EscrowStore::new();
    let msg = create_msg("late", "A", "R", Some(1));
    try_create(&mut expired, msg, Balance::Native(coins(2, "gold")), "S".to_string()).unwrap();
    assert!(try_refund(&mut expired, &info("A", vec![]), "late".to_string()).is_ok());
}

#[test]
fn mixed_assets_yield_native_then_token_instructions() {
    let mut store = EscrowStore::new();
    let msg = create_msg("mix", "A", "R", None);
    try_create(&mut store, msg, Balance::Native(coins(40, "gold")), "S".to_string()).unwrap();
    try_top_up(
        &mut store,
        Balance::Cw20(Cw20CoinVerified { address: "tokenc".to_string(), amount: 77 }),
        "mix".to_string(),
    )
    .unwrap();

    let env = mock_env();
    let res = try_approve(&mut store, &env, &info("A", vec![]), "mix".to_string()).unwrap();
    assert_eq!(2, res.messages.len());
    assert_eq!(
        res.messages[0],
        TransferInstruction::Native { to_address: "R".to_string(), amount: coins(40, "gold") }
    );
    assert_eq!(
        res.messages[1],
        TransferInstruction::Cw20 {
            contract_addr: "tokenc".to_string(),
            recipient: "R".to_string(),
            amount: 77,
        }
    );
}

#[test]
fn receive_creates_escrow_funded_with_tokens() {
    let mut store = EscrowStore::new();
    let wrapper = Cw20ReceiveMsg {
        sender: "funder".to_string(),
        amount: 100,
        msg: ReceiveMsg::Create(create_msg("foobar", "arbiter", "recipient", Some(123456))),
    };
    let i = info("token_contract", vec![]);
    let res = cw20_escrow::contract::try_receive(&mut store, i, wrapper).unwrap();
    assert_eq!(0, res.messages.len());

    let details = query_details(&store, "foobar".to_string()).unwrap();
    assert_eq!(details.source, "funder".to_string());
    assert_eq!(details.native_balance, vec![]);
    assert_eq!(
        details.cw20_balance,
        vec![Cw20Coin { address: "token_contract".to_string(), amount: 100 }]
    );

    let env = mock_env();
    let res = try_approve(&mut store, &env, &info("arbiter", vec![]), "foobar".to_string())
        .unwrap();
    assert_eq!(1, res.messages.len());
    assert_eq!(
        res.messages[0],
        TransferInstruction::Cw20 {
            contract_addr: "token_contract".to_string(),
            recipient: "recipient".to_string(),
            amount: 100,
        }
    );
}

#[test]
fn receive_top_up_merges_token_amounts_by_contract() {
    let mut store = EscrowStore::new();
    let wrapper = Cw20ReceiveMsg {
        sender: "funder".to_string(),
        amount: 10,
        msg: ReceiveMsg::Create(create_msg("e", "A", "R", None)),
    };
    cw20_escrow::contract::try_receive(&mut store, info("tc1", vec![]), wrapper).unwrap();
    let top = Cw20ReceiveMsg {
        sender: "other".to_string(),
        amount: 5,
        msg: ReceiveMsg::TopUp { id: "e".to_string() },
    };
    cw20_escrow::contract::try_receive(&mut store, info("tc1", vec![]), top).unwrap();
    let top2 = Cw20ReceiveMsg {
        sender: "other".to_string(),
        amount: 3,
        msg: ReceiveMsg::TopUp { id: "e".to_string() },
    };
    cw20_escrow::contract::try_receive(&mut store, info("tc2", vec![]), top2).unwrap();

    let details = query_details(&store, "e".to_string()).unwrap();
    assert_eq!(
        details.cw20_balance,
        vec![
            Cw20Coin { address: "tc1".to_string(), amount: 15 },
            Cw20Coin { address: "tc2".to_string(), amount: 3 },
        ]
    );
}

#[test]
fn query_list_returns_ids_in_ascending_order() {
    let mut store = EscrowStore::new();
    for id in ["zeta", "alpha", "mid"] {
        let msg = create_msg(id, "A", "R", None);
        try_create(&mut store, msg, Balance::Native(coins(1, "g")), "S".to_string()).unwrap();
    }
    let list = query_list(&store);
    assert_eq!(
        list.escrows,
        vec!["alpha".to_string(), "mid".to_string(), "zeta".to_string()]
    );
}

#[test]
fn send_tokens_skips_empty_native_bucket() {
    let balance = GenericBalance {
        native: vec![],
        cw20: vec![Cw20CoinVerified { address: "tc".to_string(), amount: 8 }],
    };
    let msgs = send_tokens("R".to_string(), &balance).unwrap();
    assert_eq!(
        msgs,
        vec![TransferInstruction::Cw20 {
            contract_addr: "tc".to_string(),
            recipient: "R".to_string(),
            amount: 8,
        }]
    );
}

#[test]
fn balance_is_empty_checks_amounts_not_entries() {
    assert!(Balance::Native(vec![]).is_empty());
    assert!(Balance::Native(vec![coin(0, "gold"), coin(0, "iron")]).is_empty());
    assert!(!Balance::Native(vec![coin(0, "gold"), coin(1, "iron")]).is_empty());
    assert!(Balance::Cw20(Cw20CoinVerified { address: "tc".to_string(), amount: 0 }).is_empty());
    assert!(!Balance::Cw20(Cw20CoinVerified { address: "tc".to_string(), amount: 2 }).is_empty());
}
