//! The query interface served to RPC clients. The queries themselves are
//! answered by the runtime the client handle reaches; what is decided here is
//! what the caller gets to see of the answer.

use crate::registry::MasternodeInfo;
use crate::status::MasternodeDetails;
use core::marker::PhantomData;
use std::sync::Arc;
use vstd::prelude::*;

verus! {

/// JSON-RPC code of an internal error.
pub const INTERNAL_ERROR_CODE: i32 = -32603;

/// A JSON-RPC error.
#[derive(Debug, PartialEq, Eq)]
pub struct RpcError {
    pub code: i32,
    pub message: String,
}

/// Message of the error reported when the status query could not be answered.
pub open spec fn status_failure(detail: Seq<char>) -> Seq<char> {
    "fetch runtime masternode status failed: "@ + detail
}

/// Message of the error reported when the snapshot query could not be answered.
pub open spec fn info_failure(detail: Seq<char>) -> Seq<char> {
    "fetch runtime masternode info failed: "@ + detail
}

/// The masternode queries, served over a handle to a client of type `C` for
/// blocks of type `B`.
pub struct Masternode<B, C> {
    client: Arc<C>,
    _marker: PhantomData<B>,
}

impl<B, C> Masternode<B, C> {
    /// The client handle the queries go through.
    pub closed spec fn handle(&self) -> Arc<C> {
        self.client
    }

    /// Serves the queries over `client`.
    pub fn new(client: Arc<C>) -> (api: Self)
        ensures
            api.handle() == client,
    {
        Self { client, _marker: PhantomData }
    }

    /// The client handle the queries go through.
    pub fn client(&self) -> (client: &Arc<C>)
        ensures
            *client == self.handle(),
    {
        &self.client
    }

    /// Completes a status query. `fetched` is what the runtime answered, or
    /// the description of why it did not. An answer is passed on as it is; a
    /// failure is reported as an internal error that quotes the description.
    pub fn get_status(&self, fetched: Result<Option<MasternodeDetails>, String>) -> (reply: Result<
        Option<MasternodeDetails>,
        RpcError,
    >)
        ensures
            match fetched {
                Ok(answer) => reply == Ok::<Option<MasternodeDetails>, RpcError>(answer),
                Err(detail) => {
                    &&& reply matches Err(e)
                    &&& e.code == INTERNAL_ERROR_CODE
                    &&& e.message@ == status_failure(detail@)
                },
            },
    {
        match fetched {
            Ok(answer) => Ok(answer),
            Err(detail) => Err(
                RpcError {
                    code: INTERNAL_ERROR_CODE,
                    message: String::from_str("fetch runtime masternode status failed: ").concat(
                        detail.as_str(),
                    ),
                },
            ),
        }
    }

    /// Completes a snapshot query. `fetched` is what the runtime answered, or
    /// the description of why it did not. An answer is passed on as it is; a
    /// failure is reported as an internal error that quotes the description.
    pub fn get_info(&self, fetched: Result<MasternodeInfo, String>) -> (reply: Result<
        MasternodeInfo,
        RpcError,
    >)
        ensures
            match fetched {
                Ok(answer) => reply == Ok::<MasternodeInfo, RpcError>(answer),
                Err(detail) => {
                    &&& reply matches Err(e)
                    &&& e.code == INTERNAL_ERROR_CODE
                    &&& e.message@ == info_failure(detail@)
                },
            },
    {
        match fetched {
            Ok(answer) => Ok(answer),
            Err(detail) => Err(
                RpcError {
                    code: INTERNAL_ERROR_CODE,
                    message: String::from_str("fetch runtime masternode info failed: ").concat(
                        detail.as_str(),
                    ),
                },
            ),
        }
    }
}

} // verus!
