//! The node's static bindings, as values that can be inspected.
//!
//! A node is assembled from five builders: transaction pool, executor,
//! payload service, network and consensus. Which ones a Malachite node takes
//! is fixed; the recipe says it in data.

use crate::bridge::{PayloadBridge, SubscriptionState};
use vstd::prelude::*;

verus! {

/// The builder of the transaction pool.
#[derive(Clone, Copy, Debug, PartialEq, Eq)]
pub enum PoolBuilder {
    Ethereum,
}

/// The builder of the executor.
#[derive(Clone, Copy, Debug, PartialEq, Eq)]
pub enum ExecutorBuilder {
    Ethereum,
}

/// The builder of the payload service.
#[derive(Clone, Copy, Debug, PartialEq, Eq)]
pub enum PayloadBuilder {
    /// The execution layer's basic payload service with the Ethereum
    /// payload builder.
    BasicEthereum,
    /// The payload bridge service of this crate.
    MalachiteBridge,
}

/// The builder of the network.
#[derive(Clone, Copy, Debug, PartialEq, Eq)]
pub enum NetworkBuilder {
    Ethereum,
}

/// The builder of the consensus subsystem.
#[derive(Clone, Copy, Debug, PartialEq, Eq)]
pub enum ConsensusBuilder {
    Malachite,
}

/// The node's RPC and add-on surface.
#[derive(Clone, Copy, Debug, PartialEq, Eq)]
pub enum AddOns {
    Ethereum,
}

/// The recipe from which a node's components are built.
#[derive(Clone, Copy, Debug, PartialEq, Eq)]
pub struct ComponentsRecipe {
    pub pool: PoolBuilder,
    pub executor: ExecutorBuilder,
    pub payload: PayloadBuilder,
    pub network: NetworkBuilder,
    pub consensus: ConsensusBuilder,
}

/// The recipe of a Malachite node.
pub open spec fn malachite_recipe() -> ComponentsRecipe {
    ComponentsRecipe {
        pool: PoolBuilder::Ethereum,
        executor: ExecutorBuilder::Ethereum,
        payload: PayloadBuilder::BasicEthereum,
        network: NetworkBuilder::Ethereum,
        consensus: ConsensusBuilder::Malachite,
    }
}

/// Type configuration for a regular Malachite node.
#[derive(Debug, Clone, Copy, PartialEq, Eq)]
pub struct MalachiteNode;

impl Default for MalachiteNode {
    fn default() -> (r: MalachiteNode)
        ensures
            r == MalachiteNode,
    {
        MalachiteNode
    }
}

impl MalachiteNode {
    /// Creates a node configuration.
    pub fn new() -> (r: MalachiteNode)
        ensures
            r == MalachiteNode,
    {
        MalachiteNode
    }

    /// The recipe of the node's components. It depends on nothing but the
    /// static bindings: every call gives the same recipe.
    pub fn components_builder(&self) -> (r: ComponentsRecipe)
        ensures
            r == malachite_recipe(),
    {
        ComponentsRecipe {
            pool: PoolBuilder::Ethereum,
            executor: ExecutorBuilder::Ethereum,
            payload: PayloadBuilder::BasicEthereum,
            network: NetworkBuilder::Ethereum,
            consensus: ConsensusBuilder::Malachite,
        }
    }

    /// The node's add-on surface.
    pub fn add_ons(&self) -> (r: AddOns)
        ensures
            r == AddOns::Ethereum,
    {
        AddOns::Ethereum
    }
}

/// Builds the payload bridge service.
#[derive(Debug, Clone, Copy)]
#[non_exhaustive]
pub struct MalachitePayloadServiceBuilder;

impl Default for MalachitePayloadServiceBuilder {
    fn default() -> (r: MalachitePayloadServiceBuilder) {
        MalachitePayloadServiceBuilder
    }
}

impl MalachitePayloadServiceBuilder {
    /// Starts the service: its registry is empty, and it is ready for the
    /// first command.
    pub fn spawn_payload_builder_service(self) -> (r: PayloadBridge)
        ensures
            r@ == Seq::<SubscriptionState>::empty(),
    {
        PayloadBridge::new()
    }
}

/// A candidate block that the execution layer has assembled. It cannot be
/// changed once made.
#[derive(Debug, Clone)]
pub struct MalachiteBuiltPayload {
    block: [u8; 32],
    fees: [u64; 4],
    requests: Option<Vec<Vec<u8>>>,
}

impl MalachiteBuiltPayload {
    /// A payload of the block with this hash, this total of fees (a 256-bit
    /// number as four limbs, the least significant first) and these requests.
    pub fn new(block: [u8; 32], fees: [u64; 4], requests: Option<Vec<Vec<u8>>>) -> (r:
        MalachiteBuiltPayload)
        ensures
            r.block_spec() == block,
            r.fees_spec() == fees,
            r.requests_spec() == requests,
    {
        MalachiteBuiltPayload { block, fees, requests }
    }

    /// The hash of the built block.
    pub closed spec fn block_spec(&self) -> [u8; 32] {
        self.block
    }

    /// The total of fees.
    pub closed spec fn fees_spec(&self) -> [u64; 4] {
        self.fees
    }

    /// The requests of the payload.
    pub closed spec fn requests_spec(&self) -> Option<Vec<Vec<u8>>> {
        self.requests
    }

    /// The hash of the built block.
    pub fn block(&self) -> (r: [u8; 32])
        ensures
            r == self.block_spec(),
    {
        self.block
    }

    /// The total of fees.
    pub fn fees(&self) -> (r: [u64; 4])
        ensures
            r == self.fees_spec(),
    {
        self.fees
    }

    /// The requests of the payload.
    pub fn requests(&self) -> (r: &Option<Vec<Vec<u8>>>)
        ensures
            *r == self.requests_spec(),
    {
        &self.requests
    }
}

} // verus!
