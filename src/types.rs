//! The governance data model: spaces own proposals, strategies and events; proposals
//! own options; options own votes.
use vstd::prelude::*;

use crate::power::Power;

verus! {

/// The signed part of a vote.
#[derive(Debug, Clone, Default)]
pub struct VoteMessage {
    pub proposal_id: u32,
    pub space_id: u32,
    pub option_id: u32,
    pub address: String,
}

/// A vote message with its detached signature.
#[derive(Debug, Clone, Default)]
pub struct VoteData {
    pub signature: String,
    pub message: VoteMessage,
}

/// A committed vote.
#[derive(Debug, Clone)]
pub struct ProposalOptionVote {
    pub id: u32,
    pub user_address: String,
    pub vote_type: u32,
    pub timestamp: u64,
    pub signature: String,
    pub voting_power: Power,
    pub option_id: u32,
}

/// One option of a proposal, with the contract call to make if it wins.
#[derive(Debug, Clone)]
pub struct ProposalOption {
    pub id: u32,
    pub name: String,
    pub proposal_id: u32,
    pub on_win_contract_address: String,
    pub on_win_bytecode: String,
    pub on_win_chain_id: u32,
    pub votes: Vec<ProposalOptionVote>,
}

/// A proposal; `date_created` is in unix seconds.
#[derive(Debug, Clone)]
pub struct Proposal {
    pub id: u32,
    pub title: String,
    pub description: String,
    pub date_created: u64,
    pub mechanism: u32,
    pub space_id: u32,
    pub options: Vec<ProposalOption>,
}

/// A contract read whose result is a voter's weight. `bytecode` is the call data,
/// in which the token `$voterAddress` stands for the voter.
#[derive(Debug, Clone)]
pub struct EvmStrategy {
    pub strategy_id: u32,
    pub chain_id: u64,
    pub contract_address: String,
    pub bytecode: String,
}

/// How a strategy computes a weight.
#[derive(Debug, Clone)]
pub enum StrategyData {
    Evm(EvmStrategy),
}

/// A rule that computes a voter's weight.
#[derive(Debug, Clone)]
pub struct Strategy {
    pub id: u32,
    pub name: String,
    pub description: String,
    pub space_id: u32,
    pub data: StrategyData,
}

/// What an event fires on.
#[derive(Debug, Clone, Copy, PartialEq, Eq, Structural)]
pub enum EventType {
    ProposalCreated,
    ProposalEnded,
    Vote,
}

/// A contract call made when an event fires.
#[derive(Debug, Clone)]
pub struct EvmEvent {
    pub chain_id: u32,
    pub contract_address: String,
    pub config_str: String,
}

/// A request posted when an event fires; `payload` may hold `${key}` placeholders.
#[derive(Debug, Clone)]
pub struct WebhookEvent {
    pub webhook_url: String,
    pub payload: String,
}

/// What is done when an event fires.
#[derive(Debug, Clone)]
pub enum EventData {
    Evm(EvmEvent),
    Webhook(WebhookEvent),
}

/// A notification hook of a space.
#[derive(Debug, Clone)]
pub struct Event {
    pub event_type: EventType,
    pub space_id: u32,
    pub data: EventData,
}

/// A governance tenant.
#[derive(Debug, Clone)]
pub struct Space {
    pub id: u32,
    pub name: String,
    pub icon_link: String,
    pub website_link: String,
    pub owner_address: String,
    pub vote_delay: u32,
    pub vote_duration: u32,
    pub min_vote_role: u32,
    pub min_vote_power: Power,
    pub quorum: Power,
    pub proposals: Vec<Proposal>,
    pub strategies: Vec<Strategy>,
    pub events: Vec<Event>,
}

} // verus!
