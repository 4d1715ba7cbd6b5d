//! Data shapes of the bond factory: bond issuance requests and listings. It
//! holds no settlement logic: operations are accepted and nothing is kept.
use crate::types::{Amount, Timestamp};
use vstd::prelude::*;

verus! {

/// A request to issue a bond.
#[derive(Clone, Debug)]
pub enum Message {
    CreateBond {
        creator: String,
        total_supply: u128,
        revenue_share_percent: u8,
        maturity_date: Timestamp,
        initial_price: Amount,
        category: String,
    },
}

/// A read-only request.
#[derive(Clone, Copy, Debug, PartialEq, Eq, Structural)]
pub enum Query {
    GetBonds,
}

/// A listed bond.
#[derive(Clone, Debug)]
pub struct BondInfo {
    pub id: u64,
    pub creator: String,
    pub total_supply: u128,
    pub maturity_date: Timestamp,
}

/// The answer to a `Query`.
#[derive(Clone, Debug)]
pub enum QueryResponse {
    Bonds(Vec<BondInfo>),
}

/// Names the bond factory's operation and query types.
pub struct BondFactoryAbi;

/// The bond factory's contract side.
pub struct BondFactoryContract;

/// Failure of the bond factory's contract side.
#[derive(Clone, Copy, Debug, PartialEq, Eq, Structural)]
pub enum ContractError {
    GenericError,
}

/// The bond factory's query side.
pub struct BondFactoryService;

/// Failure of the bond factory's query side.
#[derive(Clone, Copy, Debug, PartialEq, Eq, Structural)]
pub enum ServiceError {
    GenericError,
}

impl BondFactoryContract {
    /// Accepts any bond request; no bond is recorded.
    pub fn execute_operation(&mut self, _op: Message) -> (r: Result<(), ContractError>)
        ensures
            r == Ok::<(), ContractError>(()),
    {
        Ok(())
    }
}

impl BondFactoryService {
    /// Lists the bonds, of which there are none.
    pub fn handle_query(&self, _query: Query) -> (r: Result<QueryResponse, ServiceError>)
        ensures
            r matches Ok(QueryResponse::Bonds(v)) && v@.len() == 0,
    {
        Ok(QueryResponse::Bonds(Vec::new()))
    }
}

} // verus!
