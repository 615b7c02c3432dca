//! The membership-ledger boundary: the external collaborator that mints
//! and evolves membership credentials. The engine consumes it through a
//! capability interface and assumes nothing of its answers: every engine
//! contract states what holds of the engine's own state whatever these
//! calls return.

use vstd::prelude::*;

use crate::types::{AccountId, RmrkError, RmrkErrorCode};

verus! {

/// The operations the engine needs from the external membership ledger.
/// Each call either fully succeeds or fully fails with no partial state on
/// the ledger's side.
pub trait MembershipGate {
    /// The id under which the next created collection will be filed.
    fn collection_index(&mut self) -> u32;

    /// Creates the membership-credential collection.
    fn create_collection(&mut self, metadata: &str, symbol: &str) -> Result<(), RmrkError>;

    /// The id the next minted credential will receive in the collection.
    fn next_credential_id(&mut self, collection_id: u32) -> u32;

    /// Mints a membership credential for `owner` in the collection.
    fn mint_credential(&mut self, owner: AccountId, collection_id: u32, metadata: &str) -> Result<
        (),
        RmrkError,
    >;

    /// Attaches the evolution resource carrying `metadata` to a credential.
    fn add_evolution_resource(
        &mut self,
        collection_id: u32,
        credential_id: u32,
        metadata: &str,
    ) -> Result<(), RmrkError>;

    /// Detaches an evolution resource from a credential. The engine ignores
    /// the outcome of this call.
    fn remove_evolution_resource(
        &mut self,
        collection_id: u32,
        credential_id: u32,
        resource_id: u32,
    ) -> Result<(), RmrkError>;
}

/// An in-memory membership ledger: a stand-in for the external collaborator
/// that records every call and always succeeds.
pub struct InMemoryGate {
    /// How many collections have been created.
    pub collections: u32,
    /// Every minted credential: collection, credential id and owner.
    pub minted: Vec<(u32, u32, AccountId)>,
    /// Every attached resource: collection, credential id and metadata.
    pub resources: Vec<(u32, u32, String)>,
    /// The id the next minted credential will receive.
    pub next_id: u32,
}

impl InMemoryGate {
    pub fn new() -> InMemoryGate {
        InMemoryGate { collections: 0, minted: Vec::new(), resources: Vec::new(), next_id: 0 }
    }
}

impl MembershipGate for InMemoryGate {
    fn collection_index(&mut self) -> u32 {
        self.collections
    }

    fn create_collection(&mut self, metadata: &str, symbol: &str) -> Result<(), RmrkError> {
        let _ = metadata;
        let _ = symbol;
        self.collections = self.collections.wrapping_add(1);
        Ok(())
    }

    fn next_credential_id(&mut self, collection_id: u32) -> u32 {
        let _ = collection_id;
        self.next_id.wrapping_add(1)
    }

    fn mint_credential(&mut self, owner: AccountId, collection_id: u32, metadata: &str) -> Result<
        (),
        RmrkError,
    > {
        let _ = metadata;
        self.next_id = self.next_id.wrapping_add(1);
        self.minted.push((collection_id, self.next_id, owner));
        Ok(())
    }

    fn add_evolution_resource(
        &mut self,
        collection_id: u32,
        credential_id: u32,
        metadata: &str,
    ) -> Result<(), RmrkError> {
        self.resources.push((collection_id, credential_id, metadata.to_owned()));
        Ok(())
    }

    fn remove_evolution_resource(
        &mut self,
        collection_id: u32,
        credential_id: u32,
        resource_id: u32,
    ) -> Result<(), RmrkError> {
        let _ = collection_id;
        let _ = credential_id;
        let _ = resource_id;
        Ok(())
    }
}

} // verus!
