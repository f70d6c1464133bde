use vstd::prelude::*;

use crate::registry::{
    approvals_map, authorized, transfer_error, transferred, Approval, Contract, TokenModel,
    TransferError,
};

verus! {

/// Gas kept back for the rest of this call; the payment transfer gets what remains.
pub const GAS_FOR_FT_TRANSFER: u64 = 10_000_000_000_000;

/// The deposit, in yoctoNEAR, attached to the payment transfer.
pub const ONE_YOCTO: u128 = 1;

/// The message that comes with a payment: which authorization pays for which token, and
/// who receives the token.
pub struct SettlementArgs {
    pub approval_id: u64,
    pub token_id: String,
    pub buyer_id: String,
}

/// Why a settlement is refused. Each refusal leaves the registry as it was.
#[derive(Clone, Copy, Debug, PartialEq, Eq, Structural)]
pub enum SettlementError {
    MalformedRequest,
    AssetNotFound,
    Unauthorized,
    ResourceExhausted,
}

/// The outbound payment: `amount` of the fungible token `ft_contract_id`, to `receiver_id`.
/// It is sent once and its completion is not observed.
pub struct FtTransfer {
    pub ft_contract_id: String,
    pub receiver_id: String,
    pub amount: u128,
    pub memo: Option<String>,
    pub deposit: u128,
    pub gas: u64,
}

/// What a successful settlement hands back: the amount accepted, the previous owner, the
/// authorizations whose storage deposits are to be returned, and the payment to forward.
pub struct Settlement {
    pub accepted: u128,
    pub previous_owner_id: String,
    pub approved_account_ids: Vec<Approval>,
    pub payment: FtTransfer,
}

/// The refusal, if any, of a settlement of `args` paid by `sender_id` with `prepaid_gas`
/// available, in the order the checks are made: the message, the token, the authorization,
/// and only then the gas.
pub open spec fn settlement_error(
    m: Map<Seq<char>, TokenModel>,
    sender_id: Seq<char>,
    args: Option<SettlementArgs>,
    prepaid_gas: u64,
) -> Option<SettlementError> {
    match args {
        None => Some(SettlementError::MalformedRequest),
        Some(a) => {
            if !m.contains_key(a.token_id@) {
                Some(SettlementError::AssetNotFound)
            } else if !authorized(m[a.token_id@], sender_id, a.approval_id) {
                Some(SettlementError::Unauthorized)
            } else if prepaid_gas < GAS_FOR_FT_TRANSFER {
                Some(SettlementError::ResourceExhausted)
            } else {
                None
            }
        },
    }
}

/// The registry after the settlement: unchanged when it is refused, else with the token
/// moved to the buyer and its authorizations cleared.
pub open spec fn settlement_state(
    m: Map<Seq<char>, TokenModel>,
    sender_id: Seq<char>,
    args: Option<SettlementArgs>,
    prepaid_gas: u64,
) -> Map<Seq<char>, TokenModel> {
    if settlement_error(m, sender_id, args, prepaid_gas) is Some {
        m
    } else {
        transferred(m, args->Some_0.token_id@, args->Some_0.buyer_id@)
    }
}

/// A settlement of an existing token, authorized for the paying spender and with gas
/// enough for the payment, succeeds: the buyer owns the token and no authorization is left.
pub proof fn lemma_authorized_settlement_moves_token(
    m: Map<Seq<char>, TokenModel>,
    sender_id: Seq<char>,
    a: SettlementArgs,
    prepaid_gas: u64,
)
    requires
        m.contains_key(a.token_id@),
        authorized(m[a.token_id@], sender_id, a.approval_id),
        prepaid_gas >= GAS_FOR_FT_TRANSFER,
    ensures
        settlement_error(m, sender_id, Some(a), prepaid_gas) is None,
        settlement_state(m, sender_id, Some(a), prepaid_gas).contains_key(a.token_id@),
        settlement_state(m, sender_id, Some(a), prepaid_gas)[a.token_id@].owner == a.buyer_id@,
        settlement_state(m, sender_id, Some(a), prepaid_gas)[a.token_id@].approvals.is_empty(),
{
    assert(Map::<Seq<char>, u64>::empty().dom() =~= Set::empty());
}

/// A message that did not decode is refused as malformed, and nothing changes.
pub proof fn lemma_malformed_request_refused(
    m: Map<Seq<char>, TokenModel>,
    sender_id: Seq<char>,
    prepaid_gas: u64,
)
    ensures
        settlement_error(m, sender_id, None, prepaid_gas) == Some(SettlementError::MalformedRequest),
        settlement_state(m, sender_id, None, prepaid_gas) == m,
{
}

/// A settlement of a token the registry does not hold is refused, and nothing changes.
pub proof fn lemma_missing_asset_refused(
    m: Map<Seq<char>, TokenModel>,
    sender_id: Seq<char>,
    a: SettlementArgs,
    prepaid_gas: u64,
)
    requires
        !m.contains_key(a.token_id@),
    ensures
        settlement_error(m, sender_id, Some(a), prepaid_gas) == Some(SettlementError::AssetNotFound),
        settlement_state(m, sender_id, Some(a), prepaid_gas) == m,
{
}

/// A settlement whose authorization does not match the one the paying spender holds is
/// refused as unauthorized, whatever gas is left, and nothing changes.
pub proof fn lemma_wrong_authorization_refused(
    m: Map<Seq<char>, TokenModel>,
    sender_id: Seq<char>,
    a: SettlementArgs,
    prepaid_gas: u64,
)
    requires
        m.contains_key(a.token_id@),
        !authorized(m[a.token_id@], sender_id, a.approval_id),
    ensures
        settlement_error(m, sender_id, Some(a), prepaid_gas) == Some(SettlementError::Unauthorized),
        settlement_state(m, sender_id, Some(a), prepaid_gas) == m,
{
}

/// A refused settlement leaves the registry as it was, so the same call made again is
/// refused for the same reason.
pub proof fn lemma_refusal_repeats(
    m: Map<Seq<char>, TokenModel>,
    sender_id: Seq<char>,
    args: Option<SettlementArgs>,
    prepaid_gas: u64,
)
    requires
        settlement_error(m, sender_id, args, prepaid_gas) is Some,
    ensures
        settlement_state(m, sender_id, args, prepaid_gas) == m,
        settlement_error(settlement_state(m, sender_id, args, prepaid_gas), sender_id, args, prepaid_gas)
            == settlement_error(m, sender_id, args, prepaid_gas),
        settlement_state(settlement_state(m, sender_id, args, prepaid_gas), sender_id, args, prepaid_gas)
            == m,
{
}

/// An authorized settlement with less gas than the reservation is refused for want of gas,
/// and the token does not move.
pub proof fn lemma_short_gas_refused(
    m: Map<Seq<char>, TokenModel>,
    sender_id: Seq<char>,
    a: SettlementArgs,
    prepaid_gas: u64,
)
    requires
        m.contains_key(a.token_id@),
        authorized(m[a.token_id@], sender_id, a.approval_id),
        prepaid_gas < GAS_FOR_FT_TRANSFER,
    ensures
        settlement_error(m, sender_id, Some(a), prepaid_gas) == Some(SettlementError::ResourceExhausted),
        settlement_state(m, sender_id, Some(a), prepaid_gas) == m,
{
}

impl Contract {
    /// Settles a sale paid by a fungible-token transfer of `amount` from `sender_id`, sent
    /// through token contract `ft_token_id` with `args` decoded from its message (`None`
    /// when the message did not decode). On success the token belongs to the buyer, its
    /// authorizations are gone, the whole amount is accepted and goes on to the previous
    /// owner.
    pub fn ft_on_transfer(
        &mut self,
        sender_id: String,
        amount: u128,
        args: Option<SettlementArgs>,
        ft_token_id: String,
        prepaid_gas: u64,
    ) -> (r: Result<Settlement, SettlementError>)
        ensures
            match r {
                Err(e) => {
                    &&& settlement_error(old(self)@, sender_id@, args, prepaid_gas) == Some(e)
                    &&& *final(self) == *old(self)
                },
                Ok(s) => {
                    let id = args->Some_0.token_id@;
                    &&& settlement_error(old(self)@, sender_id@, args, prepaid_gas) is None
                    &&& final(self)@ == settlement_state(old(self)@, sender_id@, args, prepaid_gas)
                    &&& s.accepted == amount
                    &&& s.previous_owner_id@ == old(self)@[id].owner
                    &&& approvals_map(s.approved_account_ids@) == old(self)@[id].approvals
                    &&& s.payment.ft_contract_id@ == ft_token_id@
                    &&& s.payment.receiver_id@ == old(self)@[id].owner
                    &&& s.payment.amount == amount
                    &&& s.payment.memo is None
                    &&& s.payment.deposit == ONE_YOCTO
                    &&& s.payment.gas == prepaid_gas - GAS_FOR_FT_TRANSFER
                },
            },
    {
        let a = match args {
            None => {
                return Err(SettlementError::MalformedRequest);
            },
            Some(a) => a,
        };
        match self.check_transfer(&sender_id, &a.token_id, a.approval_id) {
            Err(TransferError::TokenNotFound) => {
                return Err(SettlementError::AssetNotFound);
            },
            Err(TransferError::Unauthorized) => {
                return Err(SettlementError::Unauthorized);
            },
            Ok(()) => {},
        }
        let gas = match prepaid_gas.checked_sub(GAS_FOR_FT_TRANSFER) {
            None => {
                return Err(SettlementError::ResourceExhausted);
            },
            Some(g) => g,
        };
        match self.internal_transfer(&sender_id, &a.token_id, a.approval_id, &a.buyer_id) {
            Err(TransferError::TokenNotFound) => Err(SettlementError::AssetNotFound),
            Err(TransferError::Unauthorized) => Err(SettlementError::Unauthorized),
            Ok(out) => {
                let receiver_id = out.previous_owner_id.clone();
                Ok(Settlement {
                    accepted: amount,
                    previous_owner_id: out.previous_owner_id,
                    approved_account_ids: out.approved_account_ids,
                    payment: FtTransfer {
                        ft_contract_id: ft_token_id,
                        receiver_id,
                        amount,
                        memo: None,
                        deposit: ONE_YOCTO,
                        gas,
                    },
                })
            },
        }
    }
}

} // verus!
