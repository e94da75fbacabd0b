use token_ledger::arith::mul_div;
use token_ledger::auction::{fee_ratio_for, MIN_BIDDING_AMOUNT};
use token_ledger::notify::NOTIFY_TIMEOUT;
use token_ledger::queries::check_caller;
use token_ledger::token::TokenCanister;
use token_ledger::types::{AuctionError, Holder, Metadata, TxError, TxKind};

fn who(n: u128) -> Holder {
    Holder { hi: 0, lo: n }
}

fn fresh(supply: u128, fee: u128) -> TokenCanister {
    TokenCanister::init(
        Metadata {
            logo: String::new(),
            name: String::from("Token"),
            symbol: String::from("TKN"),
            decimals: 8,
            totalSupply: supply,
            owner: who(1),
            fee,
            feeTo: who(9),
            isTestToken: Some(false),
        },
        0,
    )
}

const DAY: u64 = 86_400_000_000;

#[test]
fn mul_div_is_exact() {
    assert_eq!(mul_div(400, 1_000_000, 4_000_000), 100);
    assert_eq!(mul_div(10, 1, 3), 3);
    assert_eq!(mul_div(u128::MAX, u64::MAX, u64::MAX), u128::MAX);
    assert_eq!(mul_div(u128::MAX, 1, 2), u128::MAX / 2);
    assert_eq!(mul_div(7, 0, 5), 0);
    assert_eq!(mul_div(1_000_000_000_000_000_000_000_000_000_000, 999_999, 1_000_000), 999_999_000_000_000_000_000_000_000_000);
}

#[test]
fn fee_ratio_curve() {
    assert_eq!(fee_ratio_for(0, 0), 1_000_000);
    assert_eq!(fee_ratio_for(500, 1000), 1_000_000);
    assert_eq!(fee_ratio_for(1000, 1000), 1_000_000);
    assert_eq!(fee_ratio_for(2000, 1000), 500_000);
    assert_eq!(fee_ratio_for(3000, 1000), 333_333);
    assert_eq!(fee_ratio_for(u64::MAX, 1), 0);
    assert_eq!(fee_ratio_for(5, 0), 0);
}

#[test]
fn bids_add_up() {
    let mut t = fresh(1000, 10);
    assert_eq!(MIN_BIDDING_AMOUNT, 1_000_000);
    assert_eq!(t.bid_cycles(who(2), 999_999), Err(AuctionError::BidTooSmall));
    assert_eq!(t.bid_cycles(who(2), 1_000_000), Ok(1_000_000));
    assert_eq!(t.bid_cycles(who(2), 2_000_000), Ok(2_000_000));
    assert_eq!(t.bid_cycles(who(3), 1_500_000), Ok(1_500_000));
    let info = t.bidding_info();
    assert_eq!(info.total_cycles, 4_500_000);
    assert_eq!(info.bids, vec![(who(2), 3_000_000), (who(3), 1_500_000)]);
    assert_eq!(info.fee_ratio, 0);
    assert_eq!(info.auction_period, DAY);
    assert_eq!(t.bid_cycles(who(3), u64::MAX), Err(AuctionError::Overflow));
    assert_eq!(t.bidding_info().total_cycles, 4_500_000);
}

#[test]
fn auction_pays_in_proportion() {
    let mut t = fresh(1000, 10);
    assert_eq!(t.mint(who(1), Holder::auction_pool(), 400, 1), Ok(1));
    assert_eq!(t.bid_cycles(who(2), 1_000_000), Ok(1_000_000));
    assert_eq!(t.bid_cycles(who(3), 3_000_000), Ok(3_000_000));
    let rec = t.run_auction(DAY, 0).unwrap();
    assert_eq!(t.balance_of(who(2)), 100);
    assert_eq!(t.balance_of(who(3)), 300);
    assert_eq!(t.balance_of(Holder::auction_pool()), 0);
    assert_eq!(rec.id, 0);
    assert_eq!(rec.timestamp, DAY);
    assert_eq!(rec.fee_pool_distributed, 400);
    assert_eq!(rec.fee_ratio_after, 1_000_000);
    assert_eq!(rec.bids, vec![(who(2), 1_000_000), (who(3), 3_000_000)]);
    assert!(t.bidding_info().bids.is_empty());
    assert_eq!(t.bidding_info().total_cycles, 0);
    assert_eq!(t.bidding_info().last_auction, DAY);
    assert_eq!(t.history_size(), 4);
    assert_eq!(t.get_transaction(2).kind, TxKind::AuctionSettlement);
    assert_eq!(t.get_transaction(2).to, who(3));
    assert_eq!(t.get_transaction(2).amount, 300);
    assert_eq!(t.get_transaction(3).to, who(2));
    assert_eq!(t.get_transaction(3).amount, 100);
    assert_eq!(t.total_supply(), 1400);
    let stored = t.auction_info(0).unwrap();
    assert_eq!(stored.fee_pool_distributed, 400);
    assert_eq!(stored.bids, rec.bids);
    assert_eq!(t.auction_info(1).unwrap_err(), AuctionError::NotFound);
}

#[test]
fn auction_rounding_goes_to_later_bidders() {
    let mut t = fresh(1000, 10);
    assert_eq!(t.mint(who(1), Holder::auction_pool(), 100, 1), Ok(1));
    assert_eq!(t.bid_cycles(who(2), 1_000_000), Ok(1_000_000));
    assert_eq!(t.bid_cycles(who(3), 1_000_000), Ok(1_000_000));
    assert_eq!(t.bid_cycles(who(4), 1_000_000), Ok(1_000_000));
    let rec = t.run_auction(DAY, 0).unwrap();
    assert_eq!(t.balance_of(who(4)), 33);
    assert_eq!(t.balance_of(who(3)), 33);
    assert_eq!(t.balance_of(who(2)), 34);
    assert_eq!(rec.fee_pool_distributed, 100);
    assert_eq!(t.balance_of(Holder::auction_pool()), 0);
}

#[test]
fn auction_once_per_period() {
    let mut t = fresh(1000, 10);
    assert_eq!(t.run_auction(DAY - 1, 0).unwrap_err(), AuctionError::TooEarly);
    assert!(t.run_auction(DAY, 0).is_ok());
    assert_eq!(t.run_auction(DAY, 0).unwrap_err(), AuctionError::TooEarly);
    assert_eq!(t.run_auction(2 * DAY - 1, 0).unwrap_err(), AuctionError::TooEarly);
    assert_eq!(t.run_auction(5, 0).unwrap_err(), AuctionError::TooEarly);
    let second = t.run_auction(2 * DAY, 0).unwrap();
    assert_eq!(second.id, 1);
    assert_eq!(second.fee_pool_distributed, 0);
}

#[test]
fn auction_sets_fee_ratio() {
    let mut t = fresh(1000, 10);
    assert_eq!(t.set_min_cycles(who(1), 1000), Ok(()));
    let rec = t.run_auction(DAY, 1000).unwrap();
    assert_eq!(rec.fee_ratio_after, 1_000_000);
    assert_eq!(t.bidding_info().fee_ratio, 1_000_000);
    assert_eq!(t.transfer(who(1), who(2), 100, None, DAY + 1), Ok(1));
    assert_eq!(t.balance_of(Holder::auction_pool()), 10);
    assert_eq!(t.balance_of(who(9)), 0);
    let rec = t.run_auction(2 * DAY, 4000).unwrap();
    assert_eq!(rec.fee_ratio_after, 250_000);
    assert_eq!(t.transfer(who(1), who(2), 100, None, 2 * DAY + 1), Ok(2));
    assert_eq!(t.balance_of(Holder::auction_pool()), 12);
    assert_eq!(t.balance_of(who(9)), 8);
}

#[test]
fn notify_at_most_once() {
    let mut t = fresh(1000, 10);
    assert_eq!(t.transfer(who(1), who(2), 100, None, 5), Ok(1));
    assert_eq!(t.begin_notify(7, 10), Err(TxError::NotFound));
    let rec = t.begin_notify(1, 10).unwrap();
    assert_eq!(rec.id, 1);
    assert_eq!(rec.to, who(2));
    assert!(!t.get_transaction(1).notified);
    assert_eq!(t.begin_notify(1, 11), Err(TxError::AlreadyNotified));
    assert_eq!(t.finish_notify(1, true), Ok(1));
    assert!(t.get_transaction(1).notified);
    assert!(t.in_flight.is_empty());
    assert_eq!(t.begin_notify(1, 12), Err(TxError::AlreadyNotified));
    assert_eq!(t.begin_notify(1, u64::MAX), Err(TxError::AlreadyNotified));
}

#[test]
fn failed_notification_can_be_tried_again() {
    let mut t = fresh(1000, 10);
    assert_eq!(t.transfer(who(1), who(2), 100, None, 5), Ok(1));
    assert!(t.begin_notify(1, 10).is_ok());
    assert_eq!(t.finish_notify(1, false), Err(TxError::NotificationFailed));
    assert!(!t.get_transaction(1).notified);
    assert_eq!(t.balance_of(who(2)), 100);
    assert!(t.begin_notify(1, 11).is_ok());
    assert_eq!(t.finish_notify(1, true), Ok(1));
    assert_eq!(t.finish_notify(9, true), Err(TxError::NotFound));
}

#[test]
fn stuck_marker_lapses() {
    let mut t = fresh(1000, 10);
    assert_eq!(NOTIFY_TIMEOUT, 300_000_000);
    assert!(t.begin_notify(0, 100).is_ok());
    assert_eq!(t.begin_notify(0, 100 + NOTIFY_TIMEOUT - 1), Err(TxError::AlreadyNotified));
    assert!(t.begin_notify(0, 100 + NOTIFY_TIMEOUT).is_ok());
    assert_eq!(t.in_flight, vec![(0, 100 + NOTIFY_TIMEOUT)]);
}

#[test]
fn transfer_and_notify_starts_notification() {
    let mut t = fresh(1000, 10);
    let rec = t.transfer_and_notify(who(1), who(2), 100, None, 5).unwrap();
    assert_eq!(rec.id, 1);
    assert_eq!(rec.amount, 100);
    assert_eq!(t.in_flight, vec![(1, 5)]);
    assert_eq!(t.finish_notify(1, false), Err(TxError::NotificationFailed));
    assert_eq!(t.balance_of(who(2)), 100);
    assert_eq!(t.balance_of(who(1)), 890);
    assert_eq!(t.transfer_and_notify(who(3), who(2), 100, None, 5), Err(TxError::InsufficientBalance));
    assert_eq!(t.history_size(), 2);
}

#[test]
fn caller_check() {
    assert_eq!(check_caller(who(1), who(1)), Ok(()));
    assert_eq!(check_caller(who(2), who(1)), Err(TxError::Unauthorized { owner: who(1), caller: who(2) }));
    assert_eq!(
        check_caller(Holder { hi: 1, lo: 1 }, who(1)),
        Err(TxError::Unauthorized { owner: who(1), caller: Holder { hi: 1, lo: 1 } })
    );
}

#[test]
fn equal_bids_and_a_pool_of_one() {
    let mut t = fresh(1000, 10);
    assert_eq!(t.mint(who(1), Holder::auction_pool(), 1, 1), Ok(1));
    assert_eq!(t.bid_cycles(who(2), 1_000_000), Ok(1_000_000));
    assert_eq!(t.bid_cycles(who(3), 1_000_000), Ok(1_000_000));
    let rec = t.run_auction(DAY, 0).unwrap();
    assert_eq!(t.balance_of(who(3)), 0);
    assert_eq!(t.balance_of(who(2)), 1);
    assert_eq!(rec.fee_pool_distributed, 1);
}
