use vstd::prelude::*;

pub mod registry;
pub mod settlement;

pub use registry::{Approval, Contract, Token, TokenModel, TransferError, TransferOutcome};
pub use settlement::{
    FtTransfer, Settlement, SettlementArgs, SettlementError, GAS_FOR_FT_TRANSFER, ONE_YOCTO,
};

verus! {

} // verus!
