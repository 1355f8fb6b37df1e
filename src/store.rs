//! The space aggregate store. Every lookup takes the first entry with the given id.
use vstd::prelude::*;

use crate::power::Power;
use crate::types::{
    Event, EvmStrategy, Proposal, ProposalOption, ProposalOptionVote, Space, Strategy,
    StrategyData,
};

verus! {

/// Position of the first `id` in `ids`.
pub open spec fn first_index(ids: Seq<u32>, id: u32) -> Option<int>
    decreases ids.len(),
{
    if ids.len() == 0 {
        None
    } else if ids[0] == id {
        Some(0)
    } else {
        match first_index(ids.drop_first(), id) {
            Some(i) => Some(i + 1),
            None => None,
        }
    }
}

/// The first position holding `id` is the one before which no position holds it.
pub proof fn lemma_first_index_found(ids: Seq<u32>, id: u32, i: int)
    requires
        0 <= i < ids.len(),
        ids[i] == id,
        forall|j: int| 0 <= j < i ==> ids[j] != id,
    ensures
        first_index(ids, id) == Some(i),
    decreases i,
{
    if i > 0 {
        let rest = ids.drop_first();
        assert forall|j: int| 0 <= j < i - 1 implies rest[j] != id by {
            assert(rest[j] == ids[j + 1]);
        }
        lemma_first_index_found(rest, id, i - 1);
    }
}

/// No position holds `id`: there is no first one.
pub proof fn lemma_first_index_absent(ids: Seq<u32>, id: u32)
    requires
        forall|j: int| 0 <= j < ids.len() ==> ids[j] != id,
    ensures
        first_index(ids, id) is None,
    decreases ids.len(),
{
    if ids.len() > 0 {
        let rest = ids.drop_first();
        assert forall|j: int| 0 <= j < rest.len() implies rest[j] != id by {
            assert(rest[j] == ids[j + 1]);
        }
        lemma_first_index_absent(rest, id);
    }
}

/// The first position of `id` is in range and holds `id`.
pub proof fn lemma_first_index_valid(ids: Seq<u32>, id: u32)
    ensures
        first_index(ids, id) matches Some(i) ==> 0 <= i < ids.len() && ids[i] == id,
    decreases ids.len(),
{
    if ids.len() > 0 {
        lemma_first_index_valid(ids.drop_first(), id);
    }
}

/// The ids of spaces, in order.
pub open spec fn space_ids(ss: Seq<Space>) -> Seq<u32> {
    ss.map_values(|s: Space| s.id)
}

/// The ids of proposals, in order.
pub open spec fn proposal_ids(ps: Seq<Proposal>) -> Seq<u32> {
    ps.map_values(|p: Proposal| p.id)
}

/// The ids of options, in order.
pub open spec fn option_ids(os: Seq<ProposalOption>) -> Seq<u32> {
    os.map_values(|o: ProposalOption| o.id)
}

/// The ids of votes, in order.
pub open spec fn vote_ids(vs: Seq<ProposalOptionVote>) -> Seq<u32> {
    vs.map_values(|v: ProposalOptionVote| v.id)
}

/// The ids of strategies, in order.
pub open spec fn strategy_ids(ss: Seq<Strategy>) -> Seq<u32> {
    ss.map_values(|s: Strategy| s.id)
}

/// Position of the space `sid`.
pub open spec fn locate_space(ss: Seq<Space>, sid: u32) -> Option<int> {
    first_index(space_ids(ss), sid)
}

/// Positions of the space `sid` and of its proposal `pid`.
pub open spec fn locate_proposal(ss: Seq<Space>, sid: u32, pid: u32) -> Option<(int, int)> {
    match locate_space(ss, sid) {
        Some(i) => match first_index(proposal_ids(ss[i].proposals@), pid) {
            Some(j) => Some((i, j)),
            None => None,
        },
        None => None,
    }
}

/// Positions of the space `sid`, its proposal `pid` and that proposal's option `oid`.
pub open spec fn locate_option(ss: Seq<Space>, sid: u32, pid: u32, oid: u32) -> Option<
    (int, int, int),
> {
    match locate_proposal(ss, sid, pid) {
        Some((i, j)) => match first_index(option_ids(ss[i].proposals@[j].options@), oid) {
            Some(k) => Some((i, j, k)),
            None => None,
        },
        None => None,
    }
}

/// Positions of the space `sid` and of its strategy `stid`.
pub open spec fn locate_strategy(ss: Seq<Space>, sid: u32, stid: u32) -> Option<(int, int)> {
    match locate_space(ss, sid) {
        Some(i) => match first_index(strategy_ids(ss[i].strategies@), stid) {
            Some(j) => Some((i, j)),
            None => None,
        },
        None => None,
    }
}

/// Positions of the space, proposal, option and vote with these ids.
pub open spec fn locate_vote(ss: Seq<Space>, sid: u32, pid: u32, oid: u32, vid: u32) -> Option<
    (int, int, int, int),
> {
    match locate_option(ss, sid, pid, oid) {
        Some((i, j, k)) => match first_index(
            vote_ids(ss[i].proposals@[j].options@[k].votes@),
            vid,
        ) {
            Some(l) => Some((i, j, k, l)),
            None => None,
        },
        None => None,
    }
}

/// `new` is `old` with the proposals of space `i` replaced by `ps`.
pub open spec fn proposals_replaced(old: Seq<Space>, new: Seq<Space>, i: int, ps: Seq<Proposal>) -> bool {
    &&& new == old.update(i, new[i])
    &&& new[i] == (Space { proposals: new[i].proposals, ..old[i] })
    &&& new[i].proposals@ == ps
}

/// `new` is `old` with the options of proposal `j` of space `i` replaced by `os`.
pub open spec fn options_replaced(
    old: Seq<Space>,
    new: Seq<Space>,
    i: int,
    j: int,
    os: Seq<ProposalOption>,
) -> bool {
    let np = new[i].proposals@[j];
    &&& proposals_replaced(old, new, i, old[i].proposals@.update(j, np))
    &&& np == (Proposal { options: np.options, ..old[i].proposals@[j] })
    &&& np.options@ == os
}

/// `new` is `old` with the votes of option `k` of proposal `j` of space `i` replaced
/// by `vs`.
pub open spec fn votes_replaced(
    old: Seq<Space>,
    new: Seq<Space>,
    i: int,
    j: int,
    k: int,
    vs: Seq<ProposalOptionVote>,
) -> bool {
    let no = new[i].proposals@[j].options@[k];
    &&& options_replaced(old, new, i, j, old[i].proposals@[j].options@.update(k, no))
    &&& no == (ProposalOption { votes: no.votes, ..old[i].proposals@[j].options@[k] })
    &&& no.votes@ == vs
}

/// `new` is `old` with the strategies of space `i` replaced by `sts`.
pub open spec fn strategies_replaced(
    old: Seq<Space>,
    new: Seq<Space>,
    i: int,
    sts: Seq<Strategy>,
) -> bool {
    &&& new == old.update(i, new[i])
    &&& new[i] == (Space { strategies: new[i].strategies, ..old[i] })
    &&& new[i].strategies@ == sts
}

/// `new` is `old` with one vote `v` appended to option `k` of proposal `j` of space `i`,
/// and nothing else changed.
pub open spec fn vote_appended(
    old: Seq<Space>,
    new: Seq<Space>,
    i: int,
    j: int,
    k: int,
    v: ProposalOptionVote,
) -> bool {
    let os = old[i];
    let ns = new[i];
    let op = os.proposals@[j];
    let np = ns.proposals@[j];
    let oo = op.options@[k];
    let no = np.options@[k];
    &&& new.len() == old.len()
    &&& forall|x: int| 0 <= x < old.len() && x != i ==> new[x] == old[x]
    &&& ns == (Space { proposals: ns.proposals, ..os })
    &&& ns.proposals@.len() == os.proposals@.len()
    &&& forall|y: int|
        0 <= y < os.proposals@.len() && y != j ==> ns.proposals@[y] == os.proposals@[y]
    &&& np == (Proposal { options: np.options, ..op })
    &&& np.options@.len() == op.options@.len()
    &&& forall|z: int| 0 <= z < op.options@.len() && z != k ==> np.options@[z] == op.options@[z]
    &&& no == (ProposalOption { votes: no.votes, ..oo })
    &&& no.votes@ == oo.votes@.push(v)
}

/// The spaces, each with its proposals, options, votes, strategies and events.
pub struct Store {
    pub spaces: Vec<Space>,
}

fn find_space(ss: &Vec<Space>, id: u32) -> (r: Option<usize>)
    ensures
        match r {
            Some(i) => locate_space(ss@, id) == Some(i as int) && i < ss@.len(),
            None => locate_space(ss@, id) is None,
        },
{
    let mut i: usize = 0;
    while i < ss.len()
        invariant
            i <= ss@.len(),
            forall|j: int| 0 <= j < i ==> space_ids(ss@)[j] != id,
        decreases ss@.len() - i,
    {
        if ss[i].id == id {
            proof {
                lemma_first_index_found(space_ids(ss@), id, i as int);
            }
            return Some(i);
        }
        i = i + 1;
    }
    proof {
        lemma_first_index_absent(space_ids(ss@), id);
    }
    None
}

fn find_proposal(ps: &Vec<Proposal>, id: u32) -> (r: Option<usize>)
    ensures
        match r {
            Some(i) => first_index(proposal_ids(ps@), id) == Some(i as int) && i < ps@.len(),
            None => first_index(proposal_ids(ps@), id) is None,
        },
{
    let mut i: usize = 0;
    while i < ps.len()
        invariant
            i <= ps@.len(),
            forall|j: int| 0 <= j < i ==> proposal_ids(ps@)[j] != id,
        decreases ps@.len() - i,
    {
        if ps[i].id == id {
            proof {
                lemma_first_index_found(proposal_ids(ps@), id, i as int);
            }
            return Some(i);
        }
        i = i + 1;
    }
    proof {
        lemma_first_index_absent(proposal_ids(ps@), id);
    }
    None
}

fn find_option(os: &Vec<ProposalOption>, id: u32) -> (r: Option<usize>)
    ensures
        match r {
            Some(i) => first_index(option_ids(os@), id) == Some(i as int) && i < os@.len(),
            None => first_index(option_ids(os@), id) is None,
        },
{
    let mut i: usize = 0;
    while i < os.len()
        invariant
            i <= os@.len(),
            forall|j: int| 0 <= j < i ==> option_ids(os@)[j] != id,
        decreases os@.len() - i,
    {
        if os[i].id == id {
            proof {
                lemma_first_index_found(option_ids(os@), id, i as int);
            }
            return Some(i);
        }
        i = i + 1;
    }
    proof {
        lemma_first_index_absent(option_ids(os@), id);
    }
    None
}

fn find_vote(vs: &Vec<ProposalOptionVote>, id: u32) -> (r: Option<usize>)
    ensures
        match r {
            Some(i) => first_index(vote_ids(vs@), id) == Some(i as int) && i < vs@.len(),
            None => first_index(vote_ids(vs@), id) is None,
        },
{
    let mut i: usize = 0;
    while i < vs.len()
        invariant
            i <= vs@.len(),
            forall|j: int| 0 <= j < i ==> vote_ids(vs@)[j] != id,
        decreases vs@.len() - i,
    {
        if vs[i].id == id {
            proof {
                lemma_first_index_found(vote_ids(vs@), id, i as int);
            }
            return Some(i);
        }
        i = i + 1;
    }
    proof {
        lemma_first_index_absent(vote_ids(vs@), id);
    }
    None
}

fn find_strategy(ss: &Vec<Strategy>, id: u32) -> (r: Option<usize>)
    ensures
        match r {
            Some(i) => first_index(strategy_ids(ss@), id) == Some(i as int) && i < ss@.len(),
            None => first_index(strategy_ids(ss@), id) is None,
        },
{
    let mut i: usize = 0;
    while i < ss.len()
        invariant
            i <= ss@.len(),
            forall|j: int| 0 <= j < i ==> strategy_ids(ss@)[j] != id,
        decreases ss@.len() - i,
    {
        if ss[i].id == id {
            proof {
                lemma_first_index_found(strategy_ids(ss@), id, i as int);
            }
            return Some(i);
        }
        i = i + 1;
    }
    proof {
        lemma_first_index_absent(strategy_ids(ss@), id);
    }
    None
}

impl Store {
    /// An empty store.
    pub fn new() -> (r: Store)
        ensures
            r.spaces@.len() == 0,
    {
        Store { spaces: Vec::new() }
    }

    /// The space `id`.
    pub fn get_space(&self, id: u32) -> (r: Option<&Space>)
        ensures
            match locate_space(self.spaces@, id) {
                Some(i) => r == Some(&self.spaces@[i]),
                None => r is None,
            },
    {
        match find_space(&self.spaces, id) {
            Some(i) => Some(&self.spaces[i]),
            None => None,
        }
    }

    /// The proposal `proposal_id` of the space `space_id`.
    pub fn get_proposal(&self, space_id: u32, proposal_id: u32) -> (r: Option<&Proposal>)
        ensures
            match locate_proposal(self.spaces@, space_id, proposal_id) {
                Some((i, j)) => r == Some(&self.spaces@[i].proposals@[j]),
                None => r is None,
            },
    {
        match find_space(&self.spaces, space_id) {
            Some(i) => match find_proposal(&self.spaces[i].proposals, proposal_id) {
                Some(j) => Some(&self.spaces[i].proposals[j]),
                None => None,
            },
            None => None,
        }
    }

    /// The votes on option `option_id` of proposal `proposal_id` of space `space_id`.
    pub fn get_votes(&self, space_id: u32, proposal_id: u32, option_id: u32) -> (r: Option<
        &Vec<ProposalOptionVote>,
    >)
        ensures
            match locate_option(self.spaces@, space_id, proposal_id, option_id) {
                Some((i, j, k)) => r == Some(&self.spaces@[i].proposals@[j].options@[k].votes),
                None => r is None,
            },
    {
        match find_space(&self.spaces, space_id) {
            Some(i) => match find_proposal(&self.spaces[i].proposals, proposal_id) {
                Some(j) => match find_option(&self.spaces[i].proposals[j].options, option_id) {
                    Some(k) => Some(&self.spaces[i].proposals[j].options[k].votes),
                    None => None,
                },
                None => None,
            },
            None => None,
        }
    }

    /// The strategies of the space `space_id`.
    pub fn get_strategies(&self, space_id: u32) -> (r: Option<&Vec<Strategy>>)
        ensures
            match locate_space(self.spaces@, space_id) {
                Some(i) => r == Some(&self.spaces@[i].strategies),
                None => r is None,
            },
    {
        match find_space(&self.spaces, space_id) {
            Some(i) => Some(&self.spaces[i].strategies),
            None => None,
        }
    }

    /// The events of the space `space_id`.
    pub fn get_events_by_space(&self, space_id: u32) -> (r: Option<&Vec<Event>>)
        ensures
            match locate_space(self.spaces@, space_id) {
                Some(i) => r == Some(&self.spaces@[i].events),
                None => r is None,
            },
    {
        match find_space(&self.spaces, space_id) {
            Some(i) => Some(&self.spaces[i].events),
            None => None,
        }
    }

    /// Adds a space numbered one past the number of spaces, with no proposals,
    /// strategies or events, and returns its id.
    pub fn insert_space(
        &mut self,
        name: String,
        icon_link: String,
        website_link: String,
        vote_delay: u32,
        vote_duration: u32,
        min_vote_role: u32,
        min_vote_power: Power,
        quorum: Power,
    ) -> (r: u32)
        requires
            old(self).spaces@.len() < u32::MAX,
        ensures
            r == old(self).spaces@.len() + 1,
            final(self).spaces@.len() == old(self).spaces@.len() + 1,
            final(self).spaces@.drop_last() == old(self).spaces@,
            ({
                let s = final(self).spaces@.last();
                &&& s.id == r
                &&& s.name == name
                &&& s.icon_link == icon_link
                &&& s.website_link == website_link
                &&& s.owner_address@.len() == 0
                &&& s.vote_delay == vote_delay
                &&& s.vote_duration == vote_duration
                &&& s.min_vote_role == min_vote_role
                &&& s.min_vote_power == min_vote_power
                &&& s.quorum == quorum
                &&& s.proposals@.len() == 0
                &&& s.strategies@.len() == 0
                &&& s.events@.len() == 0
            }),
    {
        let id: u32 = (self.spaces.len() + 1) as u32;
        let space = Space {
            id,
            name,
            icon_link,
            website_link,
            owner_address: String::new(),
            vote_delay,
            vote_duration,
            min_vote_role,
            min_vote_power,
            quorum,
            proposals: Vec::new(),
            strategies: Vec::new(),
            events: Vec::new(),
        };
        self.spaces.push(space);
        proof {
            assert(self.spaces@.drop_last() =~= old(self).spaces@);
        }
        id
    }

    /// Adds to the space `space_id` a proposal created at `date_created` (unix seconds),
    /// numbered one past its number of proposals, with one option per name, numbered
    /// from 1; returns the proposal's id, or `None`, with nothing changed, when the
    /// space does not exist.
    pub fn insert_proposal(
        &mut self,
        space_id: u32,
        title: String,
        description: String,
        mechanism: u32,
        option_names: Vec<String>,
        date_created: u64,
    ) -> (r: Option<u32>)
        requires
            option_names@.len() < u32::MAX,
            match locate_space(old(self).spaces@, space_id) {
                Some(i) => old(self).spaces@[i].proposals@.len() < u32::MAX,
                None => true,
            },
        ensures
            match locate_space(old(self).spaces@, space_id) {
                None => r is None && *final(self) == *old(self),
                Some(i) => {
                    let os = old(self).spaces@[i];
                    let ns = final(self).spaces@[i];
                    let p = ns.proposals@.last();
                    &&& r == Some((os.proposals@.len() + 1) as u32)
                    &&& final(self).spaces@ == old(self).spaces@.update(i, ns)
                    &&& ns == (Space { proposals: ns.proposals, ..os })
                    &&& ns.proposals@.drop_last() == os.proposals@
                    &&& ns.proposals@.len() == os.proposals@.len() + 1
                    &&& p.id == os.proposals@.len() + 1
                    &&& p.title == title
                    &&& p.description == description
                    &&& p.date_created == date_created
                    &&& p.mechanism == mechanism
                    &&& p.space_id == space_id
                    &&& p.options@.len() == option_names@.len()
                    &&& forall|k: int|
                        0 <= k < option_names@.len() ==> {
                            let o = #[trigger] p.options@[k];
                            &&& o.id == k + 1
                            &&& o.name == option_names@[k]
                            &&& o.proposal_id == p.id
                            &&& o.on_win_contract_address@.len() == 0
                            &&& o.on_win_bytecode@.len() == 0
                            &&& o.on_win_chain_id == 0
                            &&& o.votes@.len() == 0
                        }
                },
            },
    {
        let i = match find_space(&self.spaces, space_id) {
            Some(i) => i,
            None => return None,
        };
        let id: u32 = (self.spaces[i].proposals.len() + 1) as u32;
        let mut options: Vec<ProposalOption> = Vec::new();
        let mut k: usize = 0;
        while k < option_names.len()
            invariant
                k <= option_names@.len(),
                option_names@.len() < u32::MAX,
                options@.len() == k,
                forall|x: int|
                    0 <= x < k ==> {
                        let o = #[trigger] options@[x];
                        &&& o.id == x + 1
                        &&& o.name == option_names@[x]
                        &&& o.proposal_id == id
                        &&& o.on_win_contract_address@.len() == 0
                        &&& o.on_win_bytecode@.len() == 0
                        &&& o.on_win_chain_id == 0
                        &&& o.votes@.len() == 0
                    },
            decreases option_names@.len() - k,
        {
            options.push(
                ProposalOption {
                    id: (k + 1) as u32,
                    name: option_names[k].clone(),
                    proposal_id: id,
                    on_win_contract_address: String::new(),
                    on_win_bytecode: String::new(),
                    on_win_chain_id: 0,
                    votes: Vec::new(),
                },
            );
            k = k + 1;
        }
        let proposal = Proposal {
            id,
            title,
            description,
            date_created,
            mechanism,
            space_id,
            options,
        };
        self.spaces[i].proposals.push(proposal);
        proof {
            let ns = self.spaces@[i as int];
            assert(ns.proposals@.drop_last() =~= old(self).spaces@[i as int].proposals@);
        }
        Some(id)
    }

    /// Adds to proposal `proposal_id` of space `space_id` an option numbered one past
    /// its number of options, with no votes; returns the option's id, or `None`, with
    /// nothing changed, when the proposal does not exist.
    pub fn insert_proposal_option(
        &mut self,
        space_id: u32,
        proposal_id: u32,
        name: String,
        on_win_contract_address: String,
        on_win_bytecode: String,
        on_win_chain_id: u32,
    ) -> (r: Option<u32>)
        requires
            match locate_proposal(old(self).spaces@, space_id, proposal_id) {
                Some((i, j)) => old(self).spaces@[i].proposals@[j].options@.len() < u32::MAX,
                None => true,
            },
        ensures
            match locate_proposal(old(self).spaces@, space_id, proposal_id) {
                None => r is None && *final(self) == *old(self),
                Some((i, j)) => {
                    let os = old(self).spaces@[i];
                    let ns = final(self).spaces@[i];
                    let op = os.proposals@[j];
                    let np = ns.proposals@[j];
                    let o = np.options@.last();
                    &&& r == Some((op.options@.len() + 1) as u32)
                    &&& final(self).spaces@ == old(self).spaces@.update(i, ns)
                    &&& ns == (Space { proposals: ns.proposals, ..os })
                    &&& ns.proposals@ == os.proposals@.update(j, np)
                    &&& np == (Proposal { options: np.options, ..op })
                    &&& np.options@.drop_last() == op.options@
                    &&& np.options@.len() == op.options@.len() + 1
                    &&& o.id == op.options@.len() + 1
                    &&& o.name == name
                    &&& o.proposal_id == proposal_id
                    &&& o.on_win_contract_address == on_win_contract_address
                    &&& o.on_win_bytecode == on_win_bytecode
                    &&& o.on_win_chain_id == on_win_chain_id
                    &&& o.votes@.len() == 0
                },
            },
    {
        let i = match find_space(&self.spaces, space_id) {
            Some(i) => i,
            None => return None,
        };
        let j = match find_proposal(&self.spaces[i].proposals, proposal_id) {
            Some(j) => j,
            None => return None,
        };
        let id: u32 = (self.spaces[i].proposals[j].options.len() + 1) as u32;
        let option = ProposalOption {
            id,
            name,
            proposal_id,
            on_win_contract_address,
            on_win_bytecode,
            on_win_chain_id,
            votes: Vec::new(),
        };
        self.spaces[i].proposals[j].options.push(option);
        proof {
            let np = self.spaces@[i as int].proposals@[j as int];
            assert(np.options@.drop_last() =~= old(self).spaces@[i as int].proposals@[
                j as int
            ].options@);
        }
        Some(id)
    }

    /// Adds to the space `space_id` an EVM strategy numbered one past its number of
    /// strategies; returns the strategy's id, or `None`, with nothing changed, when the
    /// space does not exist.
    pub fn insert_evm_strategy(
        &mut self,
        space_id: u32,
        name: String,
        description: String,
        evm_strategy: EvmStrategy,
    ) -> (r: Option<u32>)
        requires
            match locate_space(old(self).spaces@, space_id) {
                Some(i) => old(self).spaces@[i].strategies@.len() < u32::MAX,
                None => true,
            },
        ensures
            match locate_space(old(self).spaces@, space_id) {
                None => r is None && *final(self) == *old(self),
                Some(i) => {
                    let os = old(self).spaces@[i];
                    let ns = final(self).spaces@[i];
                    let st = ns.strategies@.last();
                    &&& r == Some((os.strategies@.len() + 1) as u32)
                    &&& final(self).spaces@ == old(self).spaces@.update(i, ns)
                    &&& ns == (Space { strategies: ns.strategies, ..os })
                    &&& ns.strategies@.drop_last() == os.strategies@
                    &&& ns.strategies@.len() == os.strategies@.len() + 1
                    &&& st.id == os.strategies@.len() + 1
                    &&& st.name == name
                    &&& st.description == description
                    &&& st.space_id == space_id
                    &&& st.data == StrategyData::Evm(evm_strategy)
                },
            },
    {
        let i = match find_space(&self.spaces, space_id) {
            Some(i) => i,
            None => return None,
        };
        let id: u32 = (self.spaces[i].strategies.len() + 1) as u32;
        let strategy = Strategy {
            id,
            name,
            description,
            space_id,
            data: StrategyData::Evm(evm_strategy),
        };
        self.spaces[i].strategies.push(strategy);
        proof {
            let ns = self.spaces@[i as int];
            assert(ns.strategies@.drop_last() =~= old(self).spaces@[i as int].strategies@);
        }
        Some(id)
    }

    /// All spaces.
    pub fn get_spaces(&self) -> (r: &Vec<Space>)
        ensures
            r == &self.spaces,
    {
        &self.spaces
    }

    /// The proposals of the space `space_id`.
    pub fn get_proposals(&self, space_id: u32) -> (r: Option<&Vec<Proposal>>)
        ensures
            match locate_space(self.spaces@, space_id) {
                Some(i) => r == Some(&self.spaces@[i].proposals),
                None => r is None,
            },
    {
        match find_space(&self.spaces, space_id) {
            Some(i) => Some(&self.spaces[i].proposals),
            None => None,
        }
    }

    /// The options of proposal `proposal_id` of space `space_id`.
    pub fn get_proposal_options(&self, space_id: u32, proposal_id: u32) -> (r: Option<
        &Vec<ProposalOption>,
    >)
        ensures
            match locate_proposal(self.spaces@, space_id, proposal_id) {
                Some((i, j)) => r == Some(&self.spaces@[i].proposals@[j].options),
                None => r is None,
            },
    {
        match self.get_proposal(space_id, proposal_id) {
            Some(p) => Some(&p.options),
            None => None,
        }
    }

    /// Option `option_id` of proposal `proposal_id` of space `space_id`.
    pub fn get_proposal_option(&self, space_id: u32, proposal_id: u32, option_id: u32) -> (r:
        Option<&ProposalOption>)
        ensures
            match locate_option(self.spaces@, space_id, proposal_id, option_id) {
                Some((i, j, k)) => r == Some(&self.spaces@[i].proposals@[j].options@[k]),
                None => r is None,
            },
    {
        match self.get_proposal(space_id, proposal_id) {
            Some(p) => match find_option(&p.options, option_id) {
                Some(k) => Some(&p.options[k]),
                None => None,
            },
            None => None,
        }
    }

    /// Vote `vote_id` of that option.
    pub fn get_vote(&self, space_id: u32, proposal_id: u32, option_id: u32, vote_id: u32) -> (r:
        Option<&ProposalOptionVote>)
        ensures
            match locate_vote(self.spaces@, space_id, proposal_id, option_id, vote_id) {
                Some((i, j, k, l)) => r == Some(
                    &self.spaces@[i].proposals@[j].options@[k].votes@[l],
                ),
                None => r is None,
            },
    {
        match self.get_votes(space_id, proposal_id, option_id) {
            Some(vs) => match find_vote(vs, vote_id) {
                Some(l) => Some(&vs[l]),
                None => None,
            },
            None => None,
        }
    }

    /// Strategy `strategy_id` of the space `space_id`.
    pub fn get_strategy(&self, space_id: u32, strategy_id: u32) -> (r: Option<&Strategy>)
        ensures
            match locate_strategy(self.spaces@, space_id, strategy_id) {
                Some((i, j)) => r == Some(&self.spaces@[i].strategies@[j]),
                None => r is None,
            },
    {
        match find_space(&self.spaces, space_id) {
            Some(i) => match find_strategy(&self.spaces[i].strategies, strategy_id) {
                Some(j) => Some(&self.spaces[i].strategies[j]),
                None => None,
            },
            None => None,
        }
    }

    /// Replaces the settings of the space `id`, keeping its owner, proposals,
    /// strategies and events; `false`, with nothing changed, when it does not exist.
    pub fn update_space(
        &mut self,
        id: u32,
        name: String,
        icon_link: String,
        website_link: String,
        vote_delay: u32,
        vote_duration: u32,
        min_vote_role: u32,
        min_vote_power: Power,
        quorum: Power,
    ) -> (r: bool)
        ensures
            match locate_space(old(self).spaces@, id) {
                None => !r && *final(self) == *old(self),
                Some(i) => r && final(self).spaces@ == old(self).spaces@.update(
                    i,
                    Space {
                        name,
                        icon_link,
                        website_link,
                        vote_delay,
                        vote_duration,
                        min_vote_role,
                        min_vote_power,
                        quorum,
                        ..old(self).spaces@[i]
                    },
                ),
            },
    {
        let i = match find_space(&self.spaces, id) {
            Some(i) => i,
            None => return false,
        };
        let s = &mut self.spaces[i];
        s.name = name;
        s.icon_link = icon_link;
        s.website_link = website_link;
        s.vote_delay = vote_delay;
        s.vote_duration = vote_duration;
        s.min_vote_role = min_vote_role;
        s.min_vote_power = min_vote_power;
        s.quorum = quorum;
        true
    }

    /// Replaces the proposals of the space `id`; `false`, with nothing changed, when it
    /// does not exist.
    pub fn update_space_proposals(&mut self, id: u32, proposals: Vec<Proposal>) -> (r: bool)
        ensures
            match locate_space(old(self).spaces@, id) {
                None => !r && *final(self) == *old(self),
                Some(i) => r && proposals_replaced(old(self).spaces@, final(self).spaces@, i, proposals@),
            },
    {
        let i = match find_space(&self.spaces, id) {
            Some(i) => i,
            None => return false,
        };
        self.spaces[i].proposals = proposals;
        true
    }

    /// Removes the space `id` and returns it.
    pub fn delete_space(&mut self, id: u32) -> (r: Option<Space>)
        ensures
            match locate_space(old(self).spaces@, id) {
                None => r is None && *final(self) == *old(self),
                Some(i) => r == Some(old(self).spaces@[i]) && final(self).spaces@ == old(
                    self,
                ).spaces@.remove(i),
            },
    {
        match find_space(&self.spaces, id) {
            Some(i) => Some(self.spaces.remove(i)),
            None => None,
        }
    }

    /// Replaces the title, description and mechanism of proposal `proposal_id` of space
    /// `space_id`; `false`, with nothing changed, when it does not exist.
    pub fn update_proposal(
        &mut self,
        space_id: u32,
        proposal_id: u32,
        title: String,
        description: String,
        mechanism: u32,
    ) -> (r: bool)
        ensures
            match locate_proposal(old(self).spaces@, space_id, proposal_id) {
                None => !r && *final(self) == *old(self),
                Some((i, j)) => r && proposals_replaced(
                    old(self).spaces@,
                    final(self).spaces@,
                    i,
                    old(self).spaces@[i].proposals@.update(
                        j,
                        Proposal { title, description, mechanism, ..old(self).spaces@[i].proposals@[j] },
                    ),
                ),
            },
    {
        let i = match find_space(&self.spaces, space_id) {
            Some(i) => i,
            None => return false,
        };
        let j = match find_proposal(&self.spaces[i].proposals, proposal_id) {
            Some(j) => j,
            None => return false,
        };
        let p = &mut self.spaces[i].proposals[j];
        p.title = title;
        p.description = description;
        p.mechanism = mechanism;
        true
    }

    /// Removes proposal `proposal_id` of space `space_id` and returns it.
    pub fn delete_proposal(&mut self, space_id: u32, proposal_id: u32) -> (r: Option<Proposal>)
        ensures
            match locate_proposal(old(self).spaces@, space_id, proposal_id) {
                None => r is None && *final(self) == *old(self),
                Some((i, j)) => r == Some(old(self).spaces@[i].proposals@[j]) && proposals_replaced(
                    old(self).spaces@,
                    final(self).spaces@,
                    i,
                    old(self).spaces@[i].proposals@.remove(j),
                ),
            },
    {
        let i = match find_space(&self.spaces, space_id) {
            Some(i) => i,
            None => return None,
        };
        let j = match find_proposal(&self.spaces[i].proposals, proposal_id) {
            Some(j) => j,
            None => return None,
        };
        Some(self.spaces[i].proposals.remove(j))
    }

    /// Replaces the options of proposal `proposal_id` of space `space_id`; `false`,
    /// with nothing changed, when it does not exist.
    pub fn update_proposal_options(
        &mut self,
        space_id: u32,
        proposal_id: u32,
        options: Vec<ProposalOption>,
    ) -> (r: bool)
        ensures
            match locate_proposal(old(self).spaces@, space_id, proposal_id) {
                None => !r && *final(self) == *old(self),
                Some((i, j)) => r && options_replaced(old(self).spaces@, final(self).spaces@, i, j, options@),
            },
    {
        let i = match find_space(&self.spaces, space_id) {
            Some(i) => i,
            None => return false,
        };
        let j = match find_proposal(&self.spaces[i].proposals, proposal_id) {
            Some(j) => j,
            None => return false,
        };
        self.spaces[i].proposals[j].options = options;
        true
    }

    /// Removes option `option_id` of proposal `proposal_id` of space `space_id` and
    /// returns it.
    pub fn delete_proposal_option(&mut self, space_id: u32, proposal_id: u32, option_id: u32) -> (r:
        Option<ProposalOption>)
        ensures
            match locate_option(old(self).spaces@, space_id, proposal_id, option_id) {
                None => r is None && *final(self) == *old(self),
                Some((i, j, k)) => r == Some(old(self).spaces@[i].proposals@[j].options@[k])
                    && options_replaced(
                    old(self).spaces@,
                    final(self).spaces@,
                    i,
                    j,
                    old(self).spaces@[i].proposals@[j].options@.remove(k),
                ),
            },
    {
        let i = match find_space(&self.spaces, space_id) {
            Some(i) => i,
            None => return None,
        };
        let j = match find_proposal(&self.spaces[i].proposals, proposal_id) {
            Some(j) => j,
            None => return None,
        };
        let k = match find_option(&self.spaces[i].proposals[j].options, option_id) {
            Some(k) => k,
            None => return None,
        };
        Some(self.spaces[i].proposals[j].options.remove(k))
    }

    /// Corrects vote `vote_id` of that option, keeping its id and option; `false`, with
    /// nothing changed, when it does not exist.
    pub fn update_vote(
        &mut self,
        space_id: u32,
        proposal_id: u32,
        option_id: u32,
        vote_id: u32,
        user_address: String,
        vote_type: u32,
        timestamp: u64,
        signature: String,
        voting_power: Power,
    ) -> (r: bool)
        ensures
            match locate_vote(old(self).spaces@, space_id, proposal_id, option_id, vote_id) {
                None => !r && *final(self) == *old(self),
                Some((i, j, k, l)) => r && votes_replaced(
                    old(self).spaces@,
                    final(self).spaces@,
                    i,
                    j,
                    k,
                    old(self).spaces@[i].proposals@[j].options@[k].votes@.update(
                        l,
                        ProposalOptionVote {
                            id: vote_id,
                            user_address,
                            vote_type,
                            timestamp,
                            signature,
                            voting_power,
                            option_id,
                        },
                    ),
                ),
            },
    {
        let i = match find_space(&self.spaces, space_id) {
            Some(i) => i,
            None => return false,
        };
        let j = match find_proposal(&self.spaces[i].proposals, proposal_id) {
            Some(j) => j,
            None => return false,
        };
        let k = match find_option(&self.spaces[i].proposals[j].options, option_id) {
            Some(k) => k,
            None => return false,
        };
        let l = match find_vote(&self.spaces[i].proposals[j].options[k].votes, vote_id) {
            Some(l) => l,
            None => return false,
        };
        proof {
            lemma_first_index_valid(
                vote_ids(self.spaces@[i as int].proposals@[j as int].options@[k as int].votes@),
                vote_id,
            );
            lemma_first_index_valid(option_ids(self.spaces@[i as int].proposals@[j as int].options@), option_id);
        }
        self.spaces[i].proposals[j].options[k].votes[l] = ProposalOptionVote {
            id: vote_id,
            user_address,
            vote_type,
            timestamp,
            signature,
            voting_power,
            option_id,
        };
        true
    }

    /// Removes vote `vote_id` of that option and returns it.
    pub fn delete_vote(&mut self, space_id: u32, proposal_id: u32, option_id: u32, vote_id: u32) -> (r:
        Option<ProposalOptionVote>)
        ensures
            match locate_vote(old(self).spaces@, space_id, proposal_id, option_id, vote_id) {
                None => r is None && *final(self) == *old(self),
                Some((i, j, k, l)) => r == Some(
                    old(self).spaces@[i].proposals@[j].options@[k].votes@[l],
                ) && votes_replaced(
                    old(self).spaces@,
                    final(self).spaces@,
                    i,
                    j,
                    k,
                    old(self).spaces@[i].proposals@[j].options@[k].votes@.remove(l),
                ),
            },
    {
        let i = match find_space(&self.spaces, space_id) {
            Some(i) => i,
            None => return None,
        };
        let j = match find_proposal(&self.spaces[i].proposals, proposal_id) {
            Some(j) => j,
            None => return None,
        };
        let k = match find_option(&self.spaces[i].proposals[j].options, option_id) {
            Some(k) => k,
            None => return None,
        };
        let l = match find_vote(&self.spaces[i].proposals[j].options[k].votes, vote_id) {
            Some(l) => l,
            None => return None,
        };
        Some(self.spaces[i].proposals[j].options[k].votes.remove(l))
    }

    /// Replaces the strategies of the space `id`; `false`, with nothing changed, when
    /// it does not exist.
    pub fn update_strategies(&mut self, id: u32, strategies: Vec<Strategy>) -> (r: bool)
        ensures
            match locate_space(old(self).spaces@, id) {
                None => !r && *final(self) == *old(self),
                Some(i) => r && strategies_replaced(old(self).spaces@, final(self).spaces@, i, strategies@),
            },
    {
        let i = match find_space(&self.spaces, id) {
            Some(i) => i,
            None => return false,
        };
        self.spaces[i].strategies = strategies;
        true
    }

    /// Replaces strategy `strategy_id` of the space `space_id` by an EVM strategy with
    /// the same id; `false`, with nothing changed, when it does not exist.
    pub fn update_evm_strategy(
        &mut self,
        space_id: u32,
        strategy_id: u32,
        name: String,
        description: String,
        evm_strategy: EvmStrategy,
    ) -> (r: bool)
        ensures
            match locate_strategy(old(self).spaces@, space_id, strategy_id) {
                None => !r && *final(self) == *old(self),
                Some((i, j)) => r && strategies_replaced(
                    old(self).spaces@,
                    final(self).spaces@,
                    i,
                    old(self).spaces@[i].strategies@.update(
                        j,
                        Strategy {
                            id: strategy_id,
                            name,
                            description,
                            space_id,
                            data: StrategyData::Evm(evm_strategy),
                        },
                    ),
                ),
            },
    {
        let i = match find_space(&self.spaces, space_id) {
            Some(i) => i,
            None => return false,
        };
        let j = match find_strategy(&self.spaces[i].strategies, strategy_id) {
            Some(j) => j,
            None => return false,
        };
        self.spaces[i].strategies[j] = Strategy {
            id: strategy_id,
            name,
            description,
            space_id,
            data: StrategyData::Evm(evm_strategy),
        };
        true
    }

    /// Removes strategy `strategy_id` of the space `space_id` and returns it.
    pub fn delete_strategy(&mut self, space_id: u32, strategy_id: u32) -> (r: Option<Strategy>)
        ensures
            match locate_strategy(old(self).spaces@, space_id, strategy_id) {
                None => r is None && *final(self) == *old(self),
                Some((i, j)) => r == Some(old(self).spaces@[i].strategies@[j]) && strategies_replaced(
                    old(self).spaces@,
                    final(self).spaces@,
                    i,
                    old(self).spaces@[i].strategies@.remove(j),
                ),
            },
    {
        let i = match find_space(&self.spaces, space_id) {
            Some(i) => i,
            None => return None,
        };
        let j = match find_strategy(&self.spaces[i].strategies, strategy_id) {
            Some(j) => j,
            None => return None,
        };
        Some(self.spaces[i].strategies.remove(j))
    }

    /// Whether option `option_id` of proposal `proposal_id` of space `space_id` can take
    /// one more vote under a 32-bit id.
    pub open spec fn vote_id_fits(&self, space_id: u32, proposal_id: u32, option_id: u32) -> bool {
        match locate_option(self.spaces@, space_id, proposal_id, option_id) {
            Some((i, j, k)) => self.spaces@[i].proposals@[j].options@[k].votes@.len() < u32::MAX,
            None => true,
        }
    }

    /// Appends a vote to option `option_id` of proposal `proposal_id` of space
    /// `space_id`, numbered one past the option's vote count, and returns that number;
    /// `None`, with nothing changed, when the option does not exist.
    pub fn insert_vote(
        &mut self,
        space_id: u32,
        proposal_id: u32,
        option_id: u32,
        user_address: String,
        vote_type: u32,
        timestamp: u64,
        signature: String,
        voting_power: Power,
    ) -> (r: Option<u32>)
        requires
            old(self).vote_id_fits(space_id, proposal_id, option_id),
        ensures
            match locate_option(old(self).spaces@, space_id, proposal_id, option_id) {
                Some((i, j, k)) => {
                    let n = old(self).spaces@[i].proposals@[j].options@[k].votes@.len();
                    let v = final(self).spaces@[i].proposals@[j].options@[k].votes@.last();
                    &&& r == Some((n + 1) as u32)
                    &&& vote_appended(old(self).spaces@, final(self).spaces@, i, j, k, v)
                    &&& v.id == n + 1
                    &&& v.user_address == user_address
                    &&& v.vote_type == vote_type
                    &&& v.timestamp == timestamp
                    &&& v.signature == signature
                    &&& v.voting_power == voting_power
                    &&& v.option_id == option_id
                },
                None => r is None && *final(self) == *old(self),
            },
    {
        let i = match find_space(&self.spaces, space_id) {
            Some(i) => i,
            None => return None,
        };
        let j = match find_proposal(&self.spaces[i].proposals, proposal_id) {
            Some(j) => j,
            None => return None,
        };
        let k = match find_option(&self.spaces[i].proposals[j].options, option_id) {
            Some(k) => k,
            None => return None,
        };
        let n = self.spaces[i].proposals[j].options[k].votes.len();
        let id: u32 = (n + 1) as u32;
        let vote = ProposalOptionVote {
            id,
            user_address,
            vote_type,
            timestamp,
            signature,
            voting_power,
            option_id,
        };
        self.spaces[i].proposals[j].options[k].votes.push(vote);
        Some(id)
    }
}

} // verus!
