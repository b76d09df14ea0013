//! Metadata of an appchain, set at registration and updated along its life.
use crate::types::{AccountId, AppchainId, Balance, BlockHeight};
use vstd::prelude::*;

verus! {

/// Metadata of an appchain of Octopus Network
pub struct AppchainMetadata {
    /// Appchain id
    pub id: AppchainId,
    /// AccountId of founder
    pub founder_id: AccountId,
    /// Website url of the appchain
    pub website_url: String,
    /// Github address (url) of the appchain
    pub github_address: String,
    /// Github release version of the appchain
    pub github_release: String,
    /// Github commit it of the appchain
    pub commit_id: String,
    /// Contact email of the appchain
    pub email: String,
    /// Url of the chain spec of the appchain
    pub chain_spec_url: String,
    /// Hash of the chain spec of the appchain
    pub chain_spec_hash: String,
    /// Url of the raw chain spec of the appchain
    pub chain_spec_raw_url: String,
    /// Hash of the raw chain spec of the appchain
    pub chain_spec_raw_hash: String,
    /// Boot nodes of the appchain
    pub boot_nodes: String,
    /// Endpoint of RPC service provided by Octopus Network
    pub rpc_endpoint: String,
    /// The balance of OCT token received at appchain registration
    pub bond_tokens: Balance,
    /// Block height when the founder registered the appchain
    pub block_height: BlockHeight,
    /// Url of the subquery service of the appchain
    pub subql_url: String,
}

impl Clone for AppchainMetadata {
    fn clone(&self) -> (r: Self)
        ensures
            r == *self,
    {
        AppchainMetadata {
            id: self.id.clone(),
            founder_id: self.founder_id.clone(),
            website_url: self.website_url.clone(),
            github_address: self.github_address.clone(),
            github_release: self.github_release.clone(),
            commit_id: self.commit_id.clone(),
            email: self.email.clone(),
            chain_spec_url: self.chain_spec_url.clone(),
            chain_spec_hash: self.chain_spec_hash.clone(),
            chain_spec_raw_url: self.chain_spec_raw_url.clone(),
            chain_spec_raw_hash: self.chain_spec_raw_hash.clone(),
            boot_nodes: self.boot_nodes.clone(),
            rpc_endpoint: self.rpc_endpoint.clone(),
            bond_tokens: self.bond_tokens,
            block_height: self.block_height,
            subql_url: self.subql_url.clone(),
        }
    }
}

impl AppchainMetadata {
    /// Return a new instance of AppchainMetadata with the given data, registered at `block_height`
    pub fn new(
        appchain_id: AppchainId,
        founder_id: String,
        website_url: String,
        github_address: String,
        github_release: String,
        commit_id: String,
        email: String,
        bond_tokens: u128,
        block_height: BlockHeight,
    ) -> (r: Self)
        ensures
            r.id == appchain_id,
            r.founder_id == founder_id,
            r.website_url == website_url,
            r.github_address == github_address,
            r.github_release == github_release,
            r.commit_id == commit_id,
            r.email == email,
            r.chain_spec_url@ == Seq::<char>::empty(),
            r.chain_spec_hash@ == Seq::<char>::empty(),
            r.chain_spec_raw_url@ == Seq::<char>::empty(),
            r.chain_spec_raw_hash@ == Seq::<char>::empty(),
            r.boot_nodes@ == Seq::<char>::empty(),
            r.rpc_endpoint@ == Seq::<char>::empty(),
            r.bond_tokens == bond_tokens,
            r.block_height == block_height,
            r.subql_url@ == Seq::<char>::empty(),
    {
        AppchainMetadata {
            id: appchain_id,
            founder_id,
            website_url,
            github_address,
            github_release,
            commit_id,
            email,
            chain_spec_url: String::new(),
            chain_spec_hash: String::new(),
            chain_spec_raw_url: String::new(),
            chain_spec_raw_hash: String::new(),
            bond_tokens,
            boot_nodes: String::new(),
            rpc_endpoint: String::new(),
            block_height,
            subql_url: String::new(),
        }
    }

    /// Update basic info of metadata content of current appchain
    pub fn update_basic_info(
        &mut self,
        website_url: String,
        github_address: String,
        github_release: String,
        commit_id: String,
        email: String,
        rpc_endpoint: String,
    )
        ensures
            *final(self) == (AppchainMetadata {
                website_url,
                github_address,
                github_release,
                commit_id,
                email,
                rpc_endpoint,
                ..*old(self)
            }),
    {
        self.website_url = website_url;
        self.github_address = github_address;
        self.github_release = github_release;
        self.commit_id = commit_id;
        self.email = email;
        self.rpc_endpoint = rpc_endpoint;
    }

    /// Update booting info of metadata content of current appchain
    pub fn update_booting_info(
        &mut self,
        boot_nodes: String,
        rpc_endpoint: String,
        chain_spec_url: String,
        chain_spec_hash: String,
        chain_spec_raw_url: String,
        chain_spec_raw_hash: String,
    )
        ensures
            *final(self) == (AppchainMetadata {
                boot_nodes,
                rpc_endpoint,
                chain_spec_url,
                chain_spec_hash,
                chain_spec_raw_url,
                chain_spec_raw_hash,
                ..*old(self)
            }),
    {
        self.boot_nodes = boot_nodes;
        self.rpc_endpoint = rpc_endpoint;
        self.chain_spec_url = chain_spec_url;
        self.chain_spec_hash = chain_spec_hash;
        self.chain_spec_raw_url = chain_spec_raw_url;
        self.chain_spec_raw_hash = chain_spec_raw_hash;
    }

    /// Update subql info of metadata of current appchain
    pub fn update_subql(&mut self, subql: String)
        ensures
            *final(self) == (AppchainMetadata { subql_url: subql, ..*old(self) }),
    {
        self.subql_url = subql;
    }
}

} // verus!
