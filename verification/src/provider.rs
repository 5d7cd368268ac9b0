//! What a provider knows of the connected wallet: its accounts and its chain.
use vstd::prelude::*;
use crate::address::Address;

verus! {

/// The id of Ethereum mainnet.
pub const MAINNET_CHAIN_ID: u64 = 1;

/// The accounts that the wallet shares and the id of the chain it is on.
pub struct Provider {
    pub from: Vec<Address>,
    pub chain_id: u64,
}

impl Provider {
    /// Whether the wallet is to be asked for its chain id after it answered
    /// with `accounts`: only where it shares an account.
    pub fn wants_chain_id(accounts: &Vec<Address>) -> (r: bool)
        ensures
            r == (accounts.len() > 0),
    {
        accounts.len() > 0
    }

    /// The provider after asking the wallet for its accounts (`accounts`)
    /// and, where it shared any, for its chain id (`chain_id`: the answer
    /// to `eth_chainId` as a `u64`, `None` where it is none). No provider
    /// where the wallet shares no account; the chain id 1 where the answer
    /// is none.
    pub fn new(accounts: Vec<Address>, chain_id: Option<u64>) -> (r: Option<Provider>)
        ensures
            r is None <==> accounts.len() == 0,
            r matches Some(p) ==> p.from@ == accounts@ && p.chain_id == match chain_id {
                Some(id) => id,
                None => 1,
            },
    {
        if accounts.len() > 0 {
            let id = match chain_id {
                Some(id) => id,
                None => 1,
            };
            Some(Provider { from: accounts, chain_id: id })
        } else {
            None
        }
    }

    /// The provider of a page that was connected before, from the accounts
    /// that `eth_accounts` still shares: none where it shares none, else
    /// one on mainnet.
    pub fn resume(accounts: Vec<Address>) -> (r: Option<Provider>)
        ensures
            r is None <==> accounts.len() == 0,
            r matches Some(p) ==> p.from@ == accounts@ && p.chain_id == MAINNET_CHAIN_ID,
    {
        if accounts.len() > 0 {
            Some(Provider { from: accounts, chain_id: MAINNET_CHAIN_ID })
        } else {
            None
        }
    }
}

} // verus!
