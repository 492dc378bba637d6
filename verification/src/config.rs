//! What a chain decides about its lockdrop.

use vstd::prelude::*;
use crate::types::{AuthorityVote, Moment, Scheme};

verus! {

/// The settings of a chain.
#[derive(Clone, Debug, PartialEq, Eq)]
pub struct Config {
    /// How much authority votes module should receive to decide claim result.
    pub vote_threshold: AuthorityVote,
    /// How much positive votes required to approve claim.
    ///   Positive votes = approve votes - decline votes.
    pub positive_votes: AuthorityVote,
    /// Bitcoin price URI.
    pub bitcoin_ticker_uri: String,
    /// Ethereum price URI.
    pub ethereum_ticker_uri: String,
    /// Bitcoin transaction fetch URI.
    /// For example: http://api.blockcypher.com/v1/btc/test3/txs
    pub bitcoin_api_uri: String,
    /// Ethereum public node URI.
    /// For example: https://api.blockcypher.com/v1/eth/test/txs/
    pub ethereum_api_uri: String,
    /// Ethereum lockdrop contract address.
    pub ethereum_contract_address: String,
    /// How long dollar rate parameters valid in secs.
    pub median_filter_expire: Moment,
    /// Width of dollar rate median filter.
    pub median_filter_width: usize,
    /// The signature scheme of the authorities.
    pub authority_scheme: Scheme,
}

} // verus!
