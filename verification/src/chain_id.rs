use vstd::prelude::*;

verus! {

/// A blockchain network, identified by its numeric chain id. Transactions
/// and signing keys are bound to one chain id to prevent cross-chain replay.
#[derive(Clone, Copy, Debug, PartialEq, Eq, Hash, Structural)]
pub struct ChainId(pub u64);

/// The HTTP JSON-RPC endpoint configured for a numeric chain id, or `None`
/// for a network no endpoint is configured for.
pub open spec fn configured_rpc_endpoint(id: u64) -> Option<Seq<char>> {
    if id == 1 {
        Some("https://rpc.ankr.com/eth"@)
    } else if id == 5 {
        Some("https://rpc.ankr.com/eth_goerli"@)
    } else if id == 137 {
        Some("https://rpc.ankr.com/polygon"@)
    } else {
        None
    }
}

impl ChainId {
    /// The configured HTTP JSON-RPC endpoint of this network, exactly as
    /// `configured_rpc_endpoint` resolves it.
    pub fn http_rpc_endpoint(&self) -> (r: Option<String>)
        ensures
            match r {
                Some(u) => configured_rpc_endpoint(self.0) == Some(u@),
                None => configured_rpc_endpoint(self.0) is None,
            },
    {
        if self.0 == 1 {
            Some(String::from_str("https://rpc.ankr.com/eth"))
        } else if self.0 == 5 {
            Some(String::from_str("https://rpc.ankr.com/eth_goerli"))
        } else if self.0 == 137 {
            Some(String::from_str("https://rpc.ankr.com/polygon"))
        } else {
            None
        }
    }
}

} // verus!
