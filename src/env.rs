use vstd::prelude::*;

verus! {

/// The name of the setting that holds the database connection string.
pub const PG_CONNECTION_NAME: &'static str = "PG_CONNECTION_NAME";

/// The name of the setting that holds the chain's RPC endpoint.
pub const SOLANA_RPC_URL: &'static str = "SOLANA_RPC_URL";

/// The configuration the pipelines run with, passed in explicitly.
pub struct Env {
    pg_connection_name: String,
    solana_rpc_url: String,
}

/// A setting that was not supplied; it carries the setting's name.
#[derive(Clone, Debug, PartialEq, Eq)]
pub enum EnvError {
    Missing(String),
}

impl Env {
    pub closed spec fn pg_spec(&self) -> Seq<char> {
        self.pg_connection_name@
    }

    pub closed spec fn rpc_spec(&self) -> Seq<char> {
        self.solana_rpc_url@
    }

    pub fn new(pg_connection_name: String, solana_rpc_url: String) -> (r: Env)
        ensures
            r.pg_spec() == pg_connection_name@,
            r.rpc_spec() == solana_rpc_url@,
    {
        Env { pg_connection_name, solana_rpc_url }
    }

    /// Builds the configuration from looked-up settings: the first missing one,
    /// in the order database then RPC, is reported by name.
    pub fn from_settings(pg: Option<String>, rpc: Option<String>) -> (r: Result<Env, EnvError>)
        ensures
            match r {
                Ok(e) => pg is Some && rpc is Some && e.pg_spec() == pg->0@ && e.rpc_spec()
                    == rpc->0@,
                Err(EnvError::Missing(k)) => (pg is None && k@ == PG_CONNECTION_NAME@) || (
                pg is Some && rpc is None && k@ == SOLANA_RPC_URL@),
            },
    {
        match pg {
            None => Err(EnvError::Missing(PG_CONNECTION_NAME.to_owned())),
            Some(p) => match rpc {
                None => Err(EnvError::Missing(SOLANA_RPC_URL.to_owned())),
                Some(u) => Ok(Env { pg_connection_name: p, solana_rpc_url: u }),
            },
        }
    }

    /// The database connection string.
    pub fn get_pg_connection_name(&self) -> (r: String)
        ensures
            r@ == self.pg_spec(),
    {
        self.pg_connection_name.clone()
    }

    /// The chain's RPC endpoint.
    pub fn get_solana_rpc_url(&self) -> (r: String)
        ensures
            r@ == self.rpc_spec(),
    {
        self.solana_rpc_url.clone()
    }
}

} // verus!
