use token_ledger::balances::Balances;
use token_ledger::allowances::Allowances;
use token_ledger::ledger::Ledger;
use token_ledger::token::{TokenCanister, DEFAULT_AUCTION_PERIOD};
use token_ledger::types::{Holder, Metadata, TransactionRecord, TxError, TxKind};

fn holder(n: u128) -> Holder {
    Holder { hi: 0, lo: n }
}

fn token(supply: u128, fee: u128) -> TokenCanister {
    TokenCanister::init(
        Metadata {
            logo: String::new(),
            name: String::from("Token"),
            symbol: String::from("TKN"),
            decimals: 8,
            totalSupply: supply,
            owner: holder(1),
            fee,
            feeTo: holder(9),
            isTestToken: None,
        },
        50,
    )
}

fn sum_of_balances(t: &TokenCanister) -> u128 {
    t.balances.entries.iter().map(|e| e.1).sum()
}

#[test]
fn init_mints_supply_to_owner() {
    let t = token(1000, 10);
    assert_eq!(t.balance_of(holder(1)), 1000);
    assert_eq!(t.balance_of(holder(2)), 0);
    assert_eq!(t.total_supply(), 1000);
    assert_eq!(t.history_size(), 1);
    let genesis = t.get_transaction(0);
    assert_eq!(genesis.kind, TxKind::Mint);
    assert_eq!(genesis.amount, 1000);
    assert_eq!(genesis.to, holder(1));
    assert_eq!(genesis.timestamp, 50);
    assert_eq!(t.bidding.auction_period, DEFAULT_AUCTION_PERIOD);
    assert_eq!(DEFAULT_AUCTION_PERIOD, 86_400_000_000);
}

#[test]
fn transfer_charges_fee_on_top() {
    let mut t = token(1000, 10);
    let id = t.transfer(holder(1), holder(2), 100, None, 60);
    assert_eq!(id, Ok(1));
    assert_eq!(t.balance_of(holder(1)), 890);
    assert_eq!(t.balance_of(holder(2)), 100);
    assert_eq!(t.balance_of(holder(9)), 10);
    assert_eq!(t.history_size(), 2);
    assert_eq!(
        t.get_transaction(1),
        TransactionRecord {
            id: 1,
            kind: TxKind::Transfer,
            caller: holder(1),
            from: holder(1),
            to: holder(2),
            amount: 100,
            fee: 10,
            timestamp: 60,
            notified: false,
        }
    );
    assert_eq!(sum_of_balances(&t) + t.burned, t.minted);
}

#[test]
fn transfer_include_fee_takes_fee_from_value() {
    let mut t = token(1000, 10);
    assert_eq!(t.transfer_include_fee(holder(1), holder(2), 100, 60), Ok(1));
    assert_eq!(t.balance_of(holder(1)), 900);
    assert_eq!(t.balance_of(holder(2)), 90);
    assert_eq!(t.balance_of(holder(9)), 10);
    assert_eq!(t.get_transaction(1).amount, 90);
    assert_eq!(t.get_transaction(1).fee, 10);
}

#[test]
fn transfer_include_fee_rejects_small_amounts() {
    let mut t = token(1000, 10);
    assert_eq!(t.transfer_include_fee(holder(1), holder(2), 10, 60), Err(TxError::AmountTooSmall));
    assert_eq!(t.transfer_include_fee(holder(1), holder(2), 5, 60), Err(TxError::AmountTooSmall));
    assert_eq!(t.transfer_include_fee(holder(2), holder(1), 11, 60), Err(TxError::InsufficientBalance));
    assert_eq!(t.history_size(), 1);
    assert_eq!(t.balance_of(holder(1)), 1000);
}

#[test]
fn transfer_to_self_costs_the_fee_only() {
    let mut t = token(1000, 10);
    assert_eq!(t.transfer(holder(1), holder(1), 100, None, 60), Ok(1));
    assert_eq!(t.balance_of(holder(1)), 990);
    assert_eq!(t.balance_of(holder(9)), 10);
}

#[test]
fn transfer_refusals_change_nothing() {
    let mut t = token(1000, 10);
    assert_eq!(t.transfer(holder(1), holder(2), 100, Some(9), 60), Err(TxError::FeeExceededLimit));
    assert_eq!(t.transfer(holder(1), holder(2), 991, None, 60), Err(TxError::InsufficientBalance));
    assert_eq!(t.transfer(holder(1), holder(2), u128::MAX, None, 60), Err(TxError::Overflow));
    assert_eq!(t.transfer(holder(2), holder(1), 1, None, 60), Err(TxError::InsufficientBalance));
    assert_eq!(t.balance_of(holder(1)), 1000);
    assert_eq!(t.balance_of(holder(2)), 0);
    assert_eq!(t.history_size(), 1);
    assert_eq!(t.transfer(holder(1), holder(2), 990, Some(10), 60), Ok(1));
    assert_eq!(t.balance_of(holder(1)), 0);
}

#[test]
fn transfer_from_without_allowance_is_refused() {
    let mut t = token(1000, 10);
    let r = t.transfer_from(holder(2), holder(1), holder(2), 100, 60);
    assert_eq!(r, Err(TxError::InsufficientAllowance));
    assert_eq!(t.history_size(), 1);
    assert_eq!(t.balance_of(holder(1)), 1000);
    assert_eq!(t.balance_of(holder(2)), 0);
    assert_eq!(t.allowance(holder(1), holder(2)), 0);
}

#[test]
fn approve_then_transfer_from() {
    let mut t = token(1000, 10);
    assert_eq!(t.approve(holder(1), holder(2), 200, 60), Ok(1));
    assert_eq!(t.balance_of(holder(1)), 990);
    assert_eq!(t.allowance(holder(1), holder(2)), 210);
    assert_eq!(t.get_allowance_size(), 1);
    assert_eq!(t.get_user_approvals(holder(1)), vec![(holder(2), 210)]);
    assert_eq!(t.transfer_from(holder(2), holder(1), holder(3), 100, 70), Ok(2));
    assert_eq!(t.balance_of(holder(1)), 880);
    assert_eq!(t.balance_of(holder(3)), 100);
    assert_eq!(t.balance_of(holder(9)), 20);
    assert_eq!(t.allowance(holder(1), holder(2)), 100);
    assert_eq!(t.get_transaction(2).kind, TxKind::TransferFrom);
    assert_eq!(t.get_transaction(2).caller, holder(2));
    assert_eq!(t.transfer_from(holder(2), holder(1), holder(3), 91, 80), Err(TxError::InsufficientAllowance));
    assert_eq!(t.allowance(holder(1), holder(2)), 100);
    assert_eq!(sum_of_balances(&t) + t.burned, t.minted);
}

#[test]
fn transfer_from_checks_balance_after_allowance() {
    let mut t = token(100, 10);
    assert_eq!(t.approve(holder(1), holder(2), 500, 60), Ok(1));
    assert_eq!(t.transfer_from(holder(2), holder(1), holder(3), 90, 70), Err(TxError::InsufficientBalance));
    assert_eq!(t.balance_of(holder(1)), 90);
    assert_eq!(t.allowance(holder(1), holder(2)), 510);
}

#[test]
fn approve_needs_the_fee() {
    let mut t = token(1000, 10);
    assert_eq!(t.approve(holder(2), holder(3), 5, 60), Err(TxError::InsufficientBalance));
    assert_eq!(t.approve(holder(1), holder(3), u128::MAX, 60), Err(TxError::Overflow));
    assert_eq!(t.get_allowance_size(), 0);
}

#[test]
fn mint_is_for_the_owner() {
    let mut t = token(1000, 10);
    assert_eq!(
        t.mint(holder(2), holder(2), 5, 60),
        Err(TxError::Unauthorized { owner: holder(1), caller: holder(2) })
    );
    assert_eq!(t.mint(holder(1), holder(2), 5, 60), Ok(1));
    assert_eq!(t.balance_of(holder(2)), 5);
    assert_eq!(t.total_supply(), 1005);
    assert_eq!(t.mint(holder(1), holder(2), u128::MAX, 60), Err(TxError::Overflow));
    assert_eq!(t.total_supply(), 1005);
    assert_eq!(t.toggle_test(holder(2)), Err(TxError::Unauthorized { owner: holder(1), caller: holder(2) }));
    assert_eq!(t.toggle_test(holder(1)), Ok(true));
    assert!(t.is_test_token());
    assert_eq!(t.mint(holder(2), holder(2), 5, 60), Ok(2));
    assert_eq!(t.balance_of(holder(2)), 10);
}

#[test]
fn burn_reduces_supply() {
    let mut t = token(1000, 10);
    assert_eq!(t.burn(holder(1), 1001, 60), Err(TxError::InsufficientBalance));
    assert_eq!(t.burn(holder(1), 400, 60), Ok(1));
    assert_eq!(t.balance_of(holder(1)), 600);
    assert_eq!(t.total_supply(), 600);
    assert_eq!(t.burned, 400);
    assert_eq!(t.minted, 1000);
    assert_eq!(t.get_transaction(1).kind, TxKind::Burn);
    assert_eq!(sum_of_balances(&t) + t.burned, t.minted);
}

#[test]
fn supply_is_conserved_over_a_sequence() {
    let mut t = token(1000, 7);
    let _ = t.transfer(holder(1), holder(2), 300, None, 1);
    let _ = t.mint(holder(1), holder(3), 50, 2);
    let _ = t.burn(holder(2), 120, 3);
    let _ = t.approve(holder(2), holder(3), 40, 4);
    let _ = t.transfer_from(holder(3), holder(2), holder(4), 30, 5);
    let _ = t.transfer_include_fee(holder(3), holder(1), 20, 6);
    let _ = t.burn(holder(4), 1000, 7);
    assert_eq!(t.minted, 1050);
    assert_eq!(t.burned, 120);
    assert_eq!(sum_of_balances(&t), 930);
    assert_eq!(t.total_supply(), 930);
}

#[test]
fn balances_debit_and_credit() {
    let mut b = Balances::new();
    assert_eq!(b.credit(holder(1), 5), Ok(()));
    assert_eq!(b.debit(holder(1), 6), Err(TxError::InsufficientBalance));
    assert_eq!(b.balance_of(holder(1)), 5);
    assert_eq!(b.debit(holder(1), 5), Ok(()));
    assert_eq!(b.balance_of(holder(1)), 0);
    assert_eq!(b.debit(holder(2), 1), Err(TxError::InsufficientBalance));
    assert_eq!(b.debit(holder(2), 0), Ok(()));
    assert_eq!(b.credit(holder(1), u128::MAX), Ok(()));
    assert_eq!(b.credit(holder(1), 1), Err(TxError::Overflow));
    assert_eq!(b.balance_of(holder(1)), u128::MAX);
}

#[test]
fn fee_is_split_by_ratio() {
    let mut b = Balances::new();
    assert_eq!(b.credit(holder(1), 100), Ok(()));
    b.pay_fee(holder(1), 10, holder(9), 500_000);
    assert_eq!(b.balance_of(holder(1)), 90);
    assert_eq!(b.balance_of(holder(9)), 5);
    assert_eq!(b.balance_of(Holder::auction_pool()), 5);
    b.pay_fee(holder(1), 3, holder(9), 333_333);
    assert_eq!(b.balance_of(holder(9)), 8);
    assert_eq!(b.balance_of(Holder::auction_pool()), 5);
    b.pay_fee(holder(1), 7, holder(9), 1_000_000);
    assert_eq!(b.balance_of(Holder::auction_pool()), 12);
}

#[test]
fn allowances_never_go_negative() {
    let mut a = Allowances::new();
    assert_eq!(a.allowance(holder(1), holder(2)), 0);
    a.set_allowance(holder(1), holder(2), 10);
    assert_eq!(a.consume_allowance(holder(1), holder(2), 11), Err(TxError::InsufficientAllowance));
    assert_eq!(a.allowance(holder(1), holder(2)), 10);
    assert_eq!(a.consume_allowance(holder(1), holder(2), 4), Ok(()));
    assert_eq!(a.allowance(holder(1), holder(2)), 6);
    assert_eq!(a.allowance(holder(2), holder(1)), 0);
    assert_eq!(a.consume_allowance(holder(2), holder(1), 1), Err(TxError::InsufficientAllowance));
    assert_eq!(a.size(), 1);
}

#[test]
fn ledger_ids_and_ranges() {
    let mut l = Ledger::new();
    for i in 0..5u64 {
        let id = l.append(TxKind::Transfer, holder(1), holder(1), holder(2), i as u128, 0, i);
        assert_eq!(id, i);
    }
    assert_eq!(l.len(), 5);
    let ids: Vec<u64> = l.get_range(1, 3).iter().map(|t| t.id).collect();
    assert_eq!(ids, vec![1, 2, 3]);
    let ids: Vec<u64> = l.get_range(3, 10).iter().map(|t| t.id).collect();
    assert_eq!(ids, vec![3, 4]);
    assert!(l.get_range(5, 10).is_empty());
    assert!(l.get_range(u64::MAX, u64::MAX).is_empty());
    assert!(l.get_range(2, 0).is_empty());
    assert_eq!(l.get(4).map(|t| t.amount), Some(4));
    assert_eq!(l.get(5), None);
}

#[test]
fn ledger_filters_by_participant() {
    let mut t = token(1000, 0);
    let _ = t.transfer(holder(1), holder(2), 10, None, 1);
    let _ = t.transfer(holder(2), holder(3), 5, None, 2);
    let _ = t.transfer(holder(1), holder(3), 1, None, 3);
    let ids: Vec<u64> = t.ledger.iter_by_participant(holder(2)).iter().map(|r| r.id).collect();
    assert_eq!(ids, vec![1, 2]);
    assert_eq!(t.get_user_transaction_count(holder(3)), 2);
    assert_eq!(t.get_user_transaction_count(holder(1)), 3);
    assert_eq!(t.get_user_transaction_count(holder(7)), 0);
    let ids: Vec<u64> = t.get_user_transactions(holder(3), 0, 3).iter().map(|r| r.id).collect();
    assert_eq!(ids, vec![2]);
    let ids: Vec<u64> = t.get_transactions(2, 1000).iter().map(|r| r.id).collect();
    assert_eq!(ids, vec![2, 3]);
    let holders: Vec<Holder> = t.get_holders(1, 5).iter().map(|e| e.0).collect();
    assert_eq!(holders, vec![holder(9), Holder::auction_pool(), holder(2), holder(3)]);
}

#[test]
fn owner_changes_settings() {
    let mut t = token(1000, 10);
    assert_eq!(t.set_fee(holder(2), 1), Err(TxError::Unauthorized { owner: holder(1), caller: holder(2) }));
    assert_eq!(t.set_fee(holder(1), 1), Ok(()));
    assert_eq!(t.set_fee_to(holder(1), holder(8)), Ok(()));
    assert_eq!(t.set_name(holder(1), String::from("New")), Ok(()));
    assert_eq!(t.set_logo(holder(1), String::from("logo")), Ok(()));
    assert_eq!(t.set_min_cycles(holder(1), 77), Ok(()));
    assert_eq!(t.set_auction_period(holder(1), 60), Ok(()));
    assert_eq!(t.set_auction_period(holder(1), u64::MAX), Err(TxError::Overflow));
    assert_eq!(
        t.set_auction_period(holder(2), 60),
        Err(TxError::Unauthorized { owner: holder(1), caller: holder(2) })
    );
    assert_eq!(t.bidding.auction_period, 60_000_000);
    assert_eq!(t.get_min_cycles(), 77);
    assert_eq!(t.name(), "New");
    assert_eq!(t.logo(), "logo");
    assert_eq!(t.symbol(), "TKN");
    assert_eq!(t.decimals(), 8);
    let m = t.get_metadata();
    assert_eq!(m.fee, 1);
    assert_eq!(m.feeTo, holder(8));
    assert_eq!(m.totalSupply, 1000);
    assert_eq!(t.set_owner(holder(1), holder(2)), Ok(()));
    assert_eq!(t.owner(), holder(2));
    assert_eq!(t.set_fee(holder(1), 2), Err(TxError::Unauthorized { owner: holder(2), caller: holder(1) }));
    let info = t.get_token_info(123);
    assert_eq!(info.cycles, 123);
    assert_eq!(info.historySize, 1);
    assert_eq!(info.holderNumber, 1);
    assert_eq!(info.deployTime, 50);
}

#[test]
fn query_limit_is_capped() {
    let mut t = token(1_000_000, 0);
    for i in 0..1200u64 {
        assert_eq!(t.transfer(holder(1), holder(2), 1, None, i), Ok(i + 1));
    }
    assert_eq!(t.get_transactions(0, 1000).len(), 1000);
    let capped = t.get_transactions(0, 1001);
    assert_eq!(capped.len(), 1000);
    assert_eq!(capped[999].id, 999);
    assert_eq!(t.get_transactions(100, u64::MAX).len(), 1000);
    assert_eq!(t.get_transactions(1000, 5000).len(), 201);
    assert_eq!(t.get_user_transactions(holder(2), 0, 5000).len(), 999);
    assert_eq!(token_ledger::queries::capped(1000), 1000);
    assert_eq!(token_ledger::queries::capped(1001), 1000);
    assert_eq!(token_ledger::queries::capped(7), 7);
}

#[test]
fn entries_keep_their_place() {
    let mut b = Balances::new();
    assert_eq!(b.credit(holder(3), 1), Ok(()));
    assert_eq!(b.credit(holder(1), 2), Ok(()));
    assert_eq!(b.credit(holder(3), 5), Ok(()));
    assert_eq!(b.debit(holder(1), 2), Ok(()));
    assert_eq!(b.debit(holder(7), 0), Ok(()));
    assert_eq!(b.entries, vec![(holder(3), 6), (holder(1), 0)]);
    let mut a = Allowances::new();
    a.set_allowance(holder(1), holder(2), 5);
    a.set_allowance(holder(1), holder(3), 6);
    a.set_allowance(holder(1), holder(2), 7);
    assert_eq!(a.entries, vec![((holder(1), holder(2)), 7), ((holder(1), holder(3)), 6)]);
}
