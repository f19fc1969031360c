//! Property-token execution: each message is dispatched to the handler for
//! its kind, with the message's fields.

use vstd::prelude::*;

verus! {

/// A message that changes token metadata.
pub enum ExecuteMsg<M> {
    /// Sets the metadata of a token.
    SetMetadata { token_id: String, metadata: M },
    /// Replaces the metadata of a token.
    UpdateMetadata { token_id: String, metadata: M },
    /// Several metadata changes at once.
    Batch { msgs: Vec<BatchMsg<M>> },
}

/// One metadata change inside a batch.
pub enum BatchMsg<M> {
    /// Sets the metadata of a token.
    SetMetadata { token_id: String, metadata: M },
    /// Replaces the metadata of a token.
    UpdateMetadata { token_id: String, metadata: M },
}

/// Runs `msg`: a `SetMetadata` message goes to `set_metadata`, an
/// `UpdateMetadata` message to `update_metadata` and a `Batch` to `batch`,
/// each with the message's fields; the result is that handler's result.
pub fn execute<M, R, E, FS, FU, FB>(
    msg: ExecuteMsg<M>,
    set_metadata: FS,
    update_metadata: FU,
    batch: FB,
) -> (r: Result<R, E>) where
    FS: FnOnce(String, M) -> Result<R, E>,
    FU: FnOnce(String, M) -> Result<R, E>,
    FB: FnOnce(Vec<BatchMsg<M>>) -> Result<R, E>,

    requires
        match msg {
            ExecuteMsg::SetMetadata { token_id, metadata } => set_metadata.requires(
                (token_id, metadata),
            ),
            ExecuteMsg::UpdateMetadata { token_id, metadata } => update_metadata.requires(
                (token_id, metadata),
            ),
            ExecuteMsg::Batch { msgs } => batch.requires((msgs,)),
        },
    ensures
        match msg {
            ExecuteMsg::SetMetadata { token_id, metadata } => set_metadata.ensures(
                (token_id, metadata),
                r,
            ),
            ExecuteMsg::UpdateMetadata { token_id, metadata } => update_metadata.ensures(
                (token_id, metadata),
                r,
            ),
            ExecuteMsg::Batch { msgs } => batch.ensures((msgs,), r),
        },
{
    match msg {
        ExecuteMsg::SetMetadata { token_id, metadata } => set_metadata(token_id, metadata),
        ExecuteMsg::UpdateMetadata { token_id, metadata } => update_metadata(token_id, metadata),
        ExecuteMsg::Batch { msgs } => batch(msgs),
    }
}

} // verus!
