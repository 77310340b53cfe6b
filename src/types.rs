use vstd::prelude::*;

verus! {

/// An amount of a native currency.
#[derive(Debug, PartialEq, Eq)]
pub struct Coin {
    pub denom: String,
    pub amount: u128,
}

pub struct CoinView {
    pub denom: Seq<char>,
    pub amount: u128,
}

impl View for Coin {
    type V = CoinView;

    open spec fn view(&self) -> CoinView {
        CoinView { denom: self.denom@, amount: self.amount }
    }
}

impl Clone for Coin {
    fn clone(&self) -> (r: Coin)
        ensures
            r@ == self@,
    {
        Coin { denom: self.denom.clone(), amount: self.amount }
    }
}

/// An outbound effect handed to the host, which executes the whole batch
/// after the local state update, or reverts both.
#[derive(Debug, PartialEq, Eq)]
pub enum Instruction {
    /// Move `amount` of the fungible token at `contract` to `recipient`.
    TransferToken { contract: String, recipient: String, amount: u128 },
    /// Move ownership of `token_id` of the collection at `contract` to `recipient`.
    TransferNft { contract: String, recipient: String, token_id: String },
    /// Send `amount` of the native currency `denom` to `recipient`.
    SendNative { recipient: String, amount: u128, denom: String },
}

pub enum InstructionView {
    TransferToken { contract: Seq<char>, recipient: Seq<char>, amount: u128 },
    TransferNft { contract: Seq<char>, recipient: Seq<char>, token_id: Seq<char> },
    SendNative { recipient: Seq<char>, amount: u128, denom: Seq<char> },
}

impl View for Instruction {
    type V = InstructionView;

    open spec fn view(&self) -> InstructionView {
        match self {
            Instruction::TransferToken { contract, recipient, amount } => InstructionView::TransferToken {
                contract: contract@,
                recipient: recipient@,
                amount: *amount,
            },
            Instruction::TransferNft { contract, recipient, token_id } => InstructionView::TransferNft {
                contract: contract@,
                recipient: recipient@,
                token_id: token_id@,
            },
            Instruction::SendNative { recipient, amount, denom } => InstructionView::SendNative {
                recipient: recipient@,
                amount: *amount,
                denom: denom@,
            },
        }
    }
}

/// The views of a batch of instructions, in order.
pub open spec fn batch_view(b: Seq<Instruction>) -> Seq<InstructionView> {
    b.map_values(|i: Instruction| i@)
}

/// Why an operation was refused. A refused operation changes nothing.
#[derive(PartialEq, Eq, Structural, Debug, Clone, Copy)]
pub enum ContractError {
    /// The caller is not the recorded owner or admin.
    Unauthorized,
    /// A record expected in the ledger is absent.
    RecordNotFound,
    /// No listing exists for the asset.
    NoActiveListing,
    /// No staked position exists for the asset.
    NotStaked,
    /// No offered coin meets the price.
    InsufficientFunds,
    /// The clock reads earlier than the recorded start time.
    InvalidTimestamp,
    /// An amount exceeds what 128 bits hold.
    ArithmeticOverflow,
    /// The incoming token is not the one this contract accepts.
    TokenNotAllowed,
    /// The pool holds less than the amount asked for.
    InsufficientPoolBalance,
}

} // verus!
