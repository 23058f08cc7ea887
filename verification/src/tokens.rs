//! The rules of the transactions that move tokens between accounts, and the
//! one that turns a protocol parameter.

use crate::keys::{bytes_eq, Address};
use crate::state::{
    account_index, account_slot, find_account, fresh_account, open_account, State, StateView,
};
use crate::transaction::{ExecutionData, ExecutionError, TransactionResponse};
use crate::types::{Account, ProtocolParams, Tokens, Withdrawal};
use vstd::prelude::*;

verus! {

/// What an account holds of a token.
pub open spec fn balance_of(account: Account, token: Tokens) -> u128 {
    match token {
        Tokens::FLK => account.flk_balance,
        Tokens::USDC => account.stables_balance,
    }
}

/// The account with its balance of a token overwritten.
pub open spec fn with_balance(account: Account, token: Tokens, value: u128) -> Account {
    match token {
        Tokens::FLK => Account { flk_balance: value, ..account },
        Tokens::USDC => Account { stables_balance: value, ..account },
    }
}

/// The row of the account with this address, or an empty row where the
/// ledger has none.
pub open spec fn account_or_fresh(accounts: Seq<Account>, address: Address) -> Account {
    match find_account(accounts, address) {
        Some(i) => accounts[i],
        None => fresh_account(address),
    }
}

/// The accounts after the balance of one of them was overwritten. An account
/// that was missing is added.
pub open spec fn set_balance(
    accounts: Seq<Account>,
    address: Address,
    token: Tokens,
    value: u128,
) -> Seq<Account> {
    let (with_row, i) = account_slot(accounts, address);
    with_row.update(i, with_balance(with_row[i], token, value))
}

/// Deposit: the sender's balance grows by the amount, unless it would no
/// longer fit.
pub open spec fn deposit_spec(s: StateView, sender: Address, token: Tokens, amount: u128) -> (
    StateView,
    TransactionResponse,
) {
    let held = balance_of(account_or_fresh(s.accounts, sender), token);
    if held + amount > u128::MAX {
        (s, TransactionResponse::Revert(ExecutionError::Overflow))
    } else {
        (
            StateView {
                accounts: set_balance(s.accounts, sender, token, (held + amount) as u128),
                ..s
            },
            TransactionResponse::Success(ExecutionData::Nothing),
        )
    }
}

/// Withdraw: the sender's balance shrinks by the amount and the intent to pay
/// it out is recorded, unless the balance is too small.
pub open spec fn withdraw_spec(
    s: StateView,
    sender: Address,
    amount: u128,
    token: Tokens,
    receiver: Address,
) -> (StateView, TransactionResponse) {
    let held = balance_of(account_or_fresh(s.accounts, sender), token);
    if held < amount {
        (s, TransactionResponse::Revert(ExecutionError::InsufficientBalance))
    } else {
        (
            StateView {
                accounts: set_balance(s.accounts, sender, token, (held - amount) as u128),
                withdrawals: s.withdrawals.push(
                    Withdrawal { account: sender, receiver, token, amount },
                ),
                ..s
            },
            TransactionResponse::Success(ExecutionData::Nothing),
        )
    }
}

/// Transfer: the amount moves from the sender to another account. Sending
/// to oneself is refused before anything else is looked at.
pub open spec fn transfer_spec(
    s: StateView,
    sender: Address,
    amount: u128,
    token: Tokens,
    to: Address,
) -> (StateView, TransactionResponse) {
    let held = balance_of(account_or_fresh(s.accounts, sender), token);
    let target = balance_of(account_or_fresh(s.accounts, to), token);
    if to == sender {
        (s, TransactionResponse::Revert(ExecutionError::CantSendToYourself))
    } else if held < amount {
        (s, TransactionResponse::Revert(ExecutionError::InsufficientBalance))
    } else if target + amount > u128::MAX {
        (s, TransactionResponse::Revert(ExecutionError::Overflow))
    } else {
        (
            StateView {
                accounts: set_balance(
                    set_balance(s.accounts, sender, token, (held - amount) as u128),
                    to,
                    token,
                    (target + amount) as u128,
                ),
                ..s
            },
            TransactionResponse::Success(ExecutionData::Nothing),
        )
    }
}

/// ChangeProtocolParam: the parameter is overwritten if the sender is the
/// governance address, and left alone otherwise.
pub open spec fn change_protocol_param_spec(
    s: StateView,
    sender: Address,
    param: ProtocolParams,
    value: u128,
) -> (StateView, TransactionResponse) {
    if sender != s.metadata.governance_address {
        (s, TransactionResponse::Revert(ExecutionError::OnlyGovernance))
    } else {
        (
            StateView { params: s.params.set_spec(param, value), ..s },
            TransactionResponse::Success(ExecutionData::Nothing),
        )
    }
}

/// Reads what an account holds of a token.
pub fn read_balance(account: &Account, token: Tokens) -> (held: u128)
    ensures
        held == balance_of(*account, token),
{
    match token {
        Tokens::FLK => account.flk_balance,
        Tokens::USDC => account.stables_balance,
    }
}

/// Reads the row of an account; an empty row where the ledger has none.
pub fn read_account(accounts: &Vec<Account>, address: &Address) -> (account: Account)
    ensures
        account == account_or_fresh(accounts@, *address),
{
    match account_index(accounts, address) {
        Some(i) => accounts[i],
        None => Account {
            address: *address,
            flk_balance: 0,
            stables_balance: 0,
            bandwidth_balance: 0,
            nonce: 0,
        },
    }
}

/// Overwrites what an account holds of a token.
pub fn write_balance(accounts: &mut Vec<Account>, address: &Address, token: Tokens, value: u128)
    ensures
        final(accounts)@ == set_balance(old(accounts)@, *address, token, value),
{
    let i = open_account(accounts, address);
    let mut row = accounts[i];
    match token {
        Tokens::FLK => {
            row.flk_balance = value;
        },
        Tokens::USDC => {
            row.stables_balance = value;
        },
    }
    accounts.set(i, row);
}

impl State {
    /// Executes a deposit by `sender`.
    pub fn deposit(&mut self, sender: &Address, token: Tokens, amount: u128) -> (r:
        TransactionResponse)
        ensures
            (final(self)@, r) == deposit_spec(old(self)@, *sender, token, amount),
    {
        let held = read_balance(&read_account(&self.accounts, sender), token);
        match held.checked_add(amount) {
            None => TransactionResponse::Revert(ExecutionError::Overflow),
            Some(sum) => {
                write_balance(&mut self.accounts, sender, token, sum);
                TransactionResponse::Success(ExecutionData::Nothing)
            },
        }
    }

    /// Executes a withdrawal by `sender`.
    pub fn withdraw(
        &mut self,
        sender: &Address,
        amount: u128,
        token: Tokens,
        receiver: &Address,
    ) -> (r: TransactionResponse)
        ensures
            (final(self)@, r) == withdraw_spec(old(self)@, *sender, amount, token, *receiver),
    {
        let held = read_balance(&read_account(&self.accounts, sender), token);
        if held < amount {
            return TransactionResponse::Revert(ExecutionError::InsufficientBalance);
        }
        write_balance(&mut self.accounts, sender, token, held - amount);
        self.withdrawals.push(
            Withdrawal { account: *sender, receiver: *receiver, token, amount },
        );
        TransactionResponse::Success(ExecutionData::Nothing)
    }

    /// Executes a transfer from `sender` to `to`.
    pub fn transfer(&mut self, sender: &Address, amount: u128, token: Tokens, to: &Address) -> (r:
        TransactionResponse)
        ensures
            (final(self)@, r) == transfer_spec(old(self)@, *sender, amount, token, *to),
    {
        if bytes_eq(to, sender) {
            return TransactionResponse::Revert(ExecutionError::CantSendToYourself);
        }
        let held = read_balance(&read_account(&self.accounts, sender), token);
        let target = read_balance(&read_account(&self.accounts, to), token);
        if held < amount {
            return TransactionResponse::Revert(ExecutionError::InsufficientBalance);
        }
        match target.checked_add(amount) {
            None => TransactionResponse::Revert(ExecutionError::Overflow),
            Some(sum) => {
                write_balance(&mut self.accounts, sender, token, held - amount);
                write_balance(&mut self.accounts, to, token, sum);
                TransactionResponse::Success(ExecutionData::Nothing)
            },
        }
    }

    /// Executes a change of a protocol parameter asked for by `sender`.
    pub fn change_protocol_param(
        &mut self,
        sender: &Address,
        param: ProtocolParams,
        value: u128,
    ) -> (r: TransactionResponse)
        ensures
            (final(self)@, r) == change_protocol_param_spec(old(self)@, *sender, param, value),
    {
        if !bytes_eq(sender, &self.metadata.governance_address) {
            return TransactionResponse::Revert(ExecutionError::OnlyGovernance);
        }
        self.params.set(param, value);
        TransactionResponse::Success(ExecutionData::Nothing)
    }
}

} // verus!
