use nft_simple::{
    Approval, Contract, SettlementArgs, SettlementError, Token, TransferError, GAS_FOR_FT_TRANSFER,
    ONE_YOCTO,
};

const PREPAID: u64 = 30_000_000_000_000;

fn setup() -> Contract {
    let mut c = Contract::new();
    c.insert_token(Token {
        token_id: "A-1".to_string(),
        owner_id: "seller".to_string(),
        approvals: vec![Approval { account_id: "marketplace".to_string(), approval_id: 7 }],
    });
    c
}

fn args(approval_id: u64, token_id: &str, buyer_id: &str) -> Option<SettlementArgs> {
    Some(SettlementArgs {
        approval_id,
        token_id: token_id.to_string(),
        buyer_id: buyer_id.to_string(),
    })
}

fn owner(c: &Contract, id: &str) -> String {
    c.nft_token(&id.to_string()).unwrap().owner_id
}

fn approval_count(c: &Contract, id: &str) -> usize {
    c.nft_token(&id.to_string()).unwrap().approvals.len()
}

#[test]
fn marketplace_sale_moves_token_and_forwards_payment() {
    let mut c = setup();
    let s = c
        .ft_on_transfer(
            "marketplace".to_string(),
            500,
            args(7, "A-1", "buyer"),
            "ft.token".to_string(),
            PREPAID,
        )
        .unwrap();
    assert_eq!(owner(&c, "A-1"), "buyer");
    assert_eq!(approval_count(&c, "A-1"), 0);
    assert_eq!(s.accepted, 500);
    assert_eq!(s.previous_owner_id, "seller");
    assert_eq!(s.approved_account_ids.len(), 1);
    assert_eq!(s.approved_account_ids[0].account_id, "marketplace");
    assert_eq!(s.payment.ft_contract_id, "ft.token");
    assert_eq!(s.payment.receiver_id, "seller");
    assert_eq!(s.payment.amount, 500);
    assert_eq!(s.payment.memo, None);
    assert_eq!(s.payment.deposit, ONE_YOCTO);
    assert_eq!(s.payment.gas, PREPAID - GAS_FOR_FT_TRANSFER);
}

#[test]
fn wrong_authorization_is_unauthorized() {
    let mut c = setup();
    let r = c.ft_on_transfer(
        "marketplace".to_string(),
        500,
        args(8, "A-1", "buyer"),
        "ft.token".to_string(),
        PREPAID,
    );
    assert_eq!(r.err(), Some(SettlementError::Unauthorized));
    assert_eq!(owner(&c, "A-1"), "seller");
    assert_eq!(approval_count(&c, "A-1"), 1);
}

#[test]
fn spender_without_authorization_is_unauthorized() {
    let mut c = setup();
    let r = c.ft_on_transfer(
        "other".to_string(),
        500,
        args(7, "A-1", "buyer"),
        "ft.token".to_string(),
        PREPAID,
    );
    assert_eq!(r.err(), Some(SettlementError::Unauthorized));
    assert_eq!(owner(&c, "A-1"), "seller");
}

#[test]
fn malformed_message_is_refused() {
    let mut c = setup();
    let r = c.ft_on_transfer("marketplace".to_string(), 500, None, "ft.token".to_string(), PREPAID);
    assert_eq!(r.err(), Some(SettlementError::MalformedRequest));
    assert_eq!(owner(&c, "A-1"), "seller");
    assert_eq!(approval_count(&c, "A-1"), 1);
}

#[test]
fn unknown_token_is_not_found() {
    let mut c = setup();
    let r = c.ft_on_transfer(
        "marketplace".to_string(),
        500,
        args(7, "A-2", "buyer"),
        "ft.token".to_string(),
        PREPAID,
    );
    assert_eq!(r.err(), Some(SettlementError::AssetNotFound));
    assert_eq!(owner(&c, "A-1"), "seller");
    assert!(c.nft_token(&"A-2".to_string()).is_none());
}

#[test]
fn short_gas_is_resource_exhausted_and_token_stays() {
    let mut c = setup();
    let r = c.ft_on_transfer(
        "marketplace".to_string(),
        500,
        args(7, "A-1", "buyer"),
        "ft.token".to_string(),
        GAS_FOR_FT_TRANSFER - 1,
    );
    assert_eq!(r.err(), Some(SettlementError::ResourceExhausted));
    assert_eq!(owner(&c, "A-1"), "seller");
    assert_eq!(approval_count(&c, "A-1"), 1);
}

#[test]
fn exact_reservation_leaves_zero_gas() {
    let mut c = setup();
    let s = c
        .ft_on_transfer(
            "marketplace".to_string(),
            1,
            args(7, "A-1", "buyer"),
            "ft.token".to_string(),
            GAS_FOR_FT_TRANSFER,
        )
        .unwrap();
    assert_eq!(s.payment.gas, 0);
    assert_eq!(owner(&c, "A-1"), "buyer");
}

#[test]
fn authorization_is_checked_before_gas() {
    let mut c = setup();
    let r = c.ft_on_transfer(
        "marketplace".to_string(),
        500,
        args(8, "A-1", "buyer"),
        "ft.token".to_string(),
        0,
    );
    assert_eq!(r.err(), Some(SettlementError::Unauthorized));
}

#[test]
fn refused_call_repeats_its_refusal() {
    let mut c = setup();
    for _ in 0..2 {
        let r = c.ft_on_transfer(
            "marketplace".to_string(),
            500,
            args(8, "A-1", "buyer"),
            "ft.token".to_string(),
            PREPAID,
        );
        assert_eq!(r.err(), Some(SettlementError::Unauthorized));
        assert_eq!(owner(&c, "A-1"), "seller");
        assert_eq!(approval_count(&c, "A-1"), 1);
    }
}

#[test]
fn second_settlement_of_same_authorization_fails() {
    let mut c = setup();
    let first = c.ft_on_transfer(
        "marketplace".to_string(),
        500,
        args(7, "A-1", "buyer"),
        "ft.token".to_string(),
        PREPAID,
    );
    assert!(first.is_ok());
    let second = c.ft_on_transfer(
        "marketplace".to_string(),
        500,
        args(7, "A-1", "thief"),
        "ft.token".to_string(),
        PREPAID,
    );
    assert_eq!(second.err(), Some(SettlementError::Unauthorized));
    assert_eq!(owner(&c, "A-1"), "buyer");
}

#[test]
fn all_authorizations_are_released() {
    let mut c = Contract::new();
    c.insert_token(Token {
        token_id: "A-1".to_string(),
        owner_id: "seller".to_string(),
        approvals: vec![
            Approval { account_id: "marketplace".to_string(), approval_id: 7 },
            Approval { account_id: "other".to_string(), approval_id: 9 },
        ],
    });
    let s = c
        .ft_on_transfer(
            "marketplace".to_string(),
            500,
            args(7, "A-1", "buyer"),
            "ft.token".to_string(),
            PREPAID,
        )
        .unwrap();
    assert_eq!(s.approved_account_ids.len(), 2);
    assert_eq!(s.approved_account_ids[1].account_id, "other");
    assert_eq!(approval_count(&c, "A-1"), 0);
}

#[test]
fn later_authorization_record_counts() {
    let mut c = Contract::new();
    c.insert_token(Token {
        token_id: "A-1".to_string(),
        owner_id: "seller".to_string(),
        approvals: vec![
            Approval { account_id: "marketplace".to_string(), approval_id: 7 },
            Approval { account_id: "marketplace".to_string(), approval_id: 8 },
        ],
    });
    let r = c.ft_on_transfer(
        "marketplace".to_string(),
        500,
        args(7, "A-1", "buyer"),
        "ft.token".to_string(),
        PREPAID,
    );
    assert_eq!(r.err(), Some(SettlementError::Unauthorized));
    assert!(c
        .ft_on_transfer(
            "marketplace".to_string(),
            500,
            args(8, "A-1", "buyer"),
            "ft.token".to_string(),
            PREPAID,
        )
        .is_ok());
}

#[test]
fn insert_token_replaces_same_identity() {
    let mut c = setup();
    c.insert_token(Token::new("A-1".to_string(), "other".to_string()));
    assert_eq!(owner(&c, "A-1"), "other");
    assert_eq!(approval_count(&c, "A-1"), 0);
}

#[test]
fn nft_token_copies_the_record() {
    let c = setup();
    let t = c.nft_token(&"A-1".to_string()).unwrap();
    assert_eq!(t.token_id, "A-1");
    assert_eq!(t.owner_id, "seller");
    assert_eq!(t.approvals[0].account_id, "marketplace");
    assert_eq!(t.approvals[0].approval_id, 7);
}

#[test]
fn engine_checks_caller_and_delivers_to_receiver() {
    let mut c = setup();
    assert_eq!(
        c.check_transfer(&"marketplace".to_string(), &"A-1".to_string(), 7),
        Ok(())
    );
    assert_eq!(
        c.check_transfer(&"marketplace".to_string(), &"A-9".to_string(), 7),
        Err(TransferError::TokenNotFound)
    );
    let out = c
        .internal_transfer(&"marketplace".to_string(), &"A-1".to_string(), 7, &"buyer".to_string())
        .ok()
        .unwrap();
    assert_eq!(out.previous_owner_id, "seller");
    assert_eq!(owner(&c, "A-1"), "buyer");
    assert_eq!(
        c.check_transfer(&"marketplace".to_string(), &"A-1".to_string(), 7),
        Err(TransferError::Unauthorized)
    );
}
