use vstd::prelude::*;

verus! {

/// Token quantity. Every operation on amounts is checked; none wraps.
pub type Amount = u128;

/// Time in the host's clock units.
pub type Timestamp = u64;

/// An account identity, held as the 32 bytes that encode it.
/// Two holders are the same account exactly when both halves agree.
#[derive(Clone, Copy, Debug, PartialEq, Eq, Structural, Hash)]
pub struct Holder {
    pub hi: u128,
    pub lo: u128,
}

impl Holder {
    /// The account that holds the fees set aside for the next auction.
    pub open spec fn spec_auction_pool() -> Holder {
        Holder { hi: 0, lo: 0 }
    }

    #[verifier::when_used_as_spec(spec_auction_pool)]
    pub fn auction_pool() -> (r: Holder)
        ensures
            r == Holder::spec_auction_pool(),
    {
        Holder { hi: 0, lo: 0 }
    }
}

/// Why a ledger operation was refused.
#[derive(Clone, Copy, Debug, PartialEq, Eq, Structural)]
pub enum TxError {
    InsufficientBalance,
    InsufficientAllowance,
    Overflow,
    Underflow,
    AmountTooSmall,
    FeeExceededLimit,
    /// `caller` asked for what only `owner` may do.
    Unauthorized { owner: Holder, caller: Holder },
    NotFound,
    AlreadyNotified,
    NotificationFailed,
}

/// Why an auction operation was refused.
#[derive(Clone, Copy, Debug, PartialEq, Eq, Structural)]
pub enum AuctionError {
    TooEarly,
    BidTooSmall,
    Overflow,
    NotFound,
}

/// What a ledger record describes.
#[derive(Clone, Copy, Debug, PartialEq, Eq, Structural)]
pub enum TxKind {
    Transfer,
    Approve,
    Mint,
    Burn,
    TransferFrom,
    AuctionSettlement,
}

/// One entry of the transaction log. Only `notified` ever changes after the
/// record is appended.
#[derive(Clone, Copy, Debug, PartialEq, Eq, Structural)]
pub struct TransactionRecord {
    pub id: u64,
    pub kind: TxKind,
    pub caller: Holder,
    pub from: Holder,
    pub to: Holder,
    pub amount: Amount,
    pub fee: Amount,
    pub timestamp: Timestamp,
    pub notified: bool,
}

impl TransactionRecord {
    /// Whether `who` is the caller, the source or the destination.
    pub open spec fn spec_involves(&self, who: Holder) -> bool {
        self.caller == who || self.from == who || self.to == who
    }

    #[verifier::when_used_as_spec(spec_involves)]
    pub fn involves(&self, who: Holder) -> (r: bool)
        ensures
            r == self.spec_involves(who),
    {
        self.caller == who || self.from == who || self.to == who
    }
}

/// Token description handed over at initialisation.
#[allow(non_snake_case)]
#[derive(Clone, Debug)]
pub struct Metadata {
    pub logo: String,
    pub name: String,
    pub symbol: String,
    pub decimals: u8,
    pub totalSupply: Amount,
    pub owner: Holder,
    pub fee: Amount,
    pub feeTo: Holder,
    pub isTestToken: Option<bool>,
}

/// A transaction together with its signature, as handed to a receiver.
#[derive(Clone, Debug)]
pub struct SignedTx {
    /// The token that produced the transaction.
    pub principal: Holder,
    pub publickey: Vec<u8>,
    pub signature: Vec<u8>,
    pub serialized_tx: Vec<u8>,
}

} // verus!
