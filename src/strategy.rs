//! Voting power: each strategy of a space becomes one contract read, and the
//! results of those reads are summed.
use vstd::prelude::*;

use crate::admission::{
    address_bytes, is_canonical_address, is_canonical_address_str, lemma_canonical_address_is_hex,
};
use crate::bindings::{decode_hex, encode_hex, hex_text, push_char};
use crate::error::StrategyError;
use crate::power::{hex_value, Power};
use crate::store::{lemma_first_index_valid, locate_space, space_ids, vote_appended, Store};
use crate::text::all_hex_digits;
use crate::types::{ProposalOptionVote, Space, Strategy, StrategyData};

verus! {

/// The token of a strategy's call data that stands for the voter's address.
pub const VOTER_TOKEN: &'static str = "$voterAddress";

/// `s` with every occurrence of `pat`, taken left to right without overlap, replaced
/// by `rep`.
pub open spec fn replace_all(s: Seq<char>, pat: Seq<char>, rep: Seq<char>) -> Seq<char>
    decreases s.len(),
{
    if s.len() == 0 {
        s
    } else if 0 < pat.len() <= s.len() && s.subrange(0, pat.len() as int) == pat {
        rep + replace_all(s.subrange(pat.len() as int, s.len() as int), pat, rep)
    } else {
        seq![s[0]] + replace_all(s.drop_first(), pat, rep)
    }
}

/// The strategies of `ss` that belong to the space `sid`, in order.
pub open spec fn strategies_of(ss: Seq<Strategy>, sid: u32) -> Seq<Strategy>
    decreases ss.len(),
{
    if ss.len() == 0 {
        Seq::empty()
    } else if ss.last().space_id == sid {
        strategies_of(ss.drop_last(), sid).push(ss.last())
    } else {
        strategies_of(ss.drop_last(), sid)
    }
}

/// A contract read to make: `data` is sent to `contract_address` at `block_height`,
/// the latest block when absent.
#[derive(Debug, Clone)]
pub struct EthCall {
    pub contract_address: String,
    pub data: String,
    pub block_height: Option<String>,
}

/// The text of an optional string.
pub open spec fn opt_text(o: Option<String>) -> Option<Seq<char>> {
    match o {
        Some(s) => Some(s@),
        None => None,
    }
}

/// `c` is the read that strategy `st` asks for `voter` at `block_height`.
pub open spec fn is_strategy_call(
    c: EthCall,
    st: Strategy,
    voter: Seq<u8>,
    block_height: Option<Seq<char>>,
) -> bool {
    match st.data {
        StrategyData::Evm(e) => {
            &&& c.contract_address@ == e.contract_address@
            &&& c.data@ == replace_all(e.bytecode@, VOTER_TOKEN@, hex_text(voter))
            &&& opt_text(c.block_height) == block_height
        },
    }
}

/// The weight that a contract read's result writes: `0x` alone is zero, otherwise one
/// or more hexadecimal digits after an optional `0x`.
pub open spec fn call_result_value(s: Seq<char>) -> Option<nat> {
    let digits = if s.len() >= 2 && s[0] == '0' && s[1] == 'x' {
        s.subrange(2, s.len() as int)
    } else {
        s
    };
    if s == seq!['0', 'x'] {
        Some(0)
    } else if digits.len() > 0 && all_hex_digits(digits) {
        Some(hex_value(digits))
    } else {
        None
    }
}

/// The sum of the weights that the reads returned, in order; the first read that
/// failed (`None`) or returned no number decides the error.
pub open spec fn aggregate(replies: Seq<Option<Seq<char>>>) -> Result<nat, StrategyError>
    decreases replies.len(),
{
    if replies.len() == 0 {
        Ok(0)
    } else {
        match aggregate(replies.drop_last()) {
            Err(e) => Err(e),
            Ok(total) => match replies.last() {
                None => Err(StrategyError::EvmCallFailed),
                Some(s) => match call_result_value(s) {
                    None => Err(StrategyError::ResultParseError),
                    Some(v) => Ok(total + v),
                },
            },
        }
    }
}

/// The texts of the replies, `None` for a failed read.
pub open spec fn replies_view(replies: Seq<Option<String>>) -> Seq<Option<Seq<char>>> {
    replies.map_values(|r: Option<String>| opt_text(r))
}

/// The characters of `s`.
fn chars_of(s: &str) -> (r: Vec<char>)
    ensures
        r@ == s@,
{
    let n = s.unicode_len();
    let mut out: Vec<char> = Vec::new();
    let mut i: usize = 0;
    while i < n
        invariant
            n == s@.len(),
            i <= n,
            out@ == s@.subrange(0, i as int),
        decreases n - i,
    {
        out.push(s.get_char(i));
        i = i + 1;
        proof {
            assert(out@ =~= s@.subrange(0, i as int));
        }
    }
    proof {
        assert(out@ =~= s@);
    }
    out
}

/// Whether `pat` occurs in `s` at position `i`.
fn occurs_at(s: &Vec<char>, pat: &Vec<char>, i: usize) -> (r: bool)
    requires
        i <= s@.len(),
    ensures
        r == (0 < pat@.len() <= s@.len() - i && s@.subrange(i as int, i + pat@.len()) == pat@),
{
    if pat.len() == 0 || pat.len() > s.len() - i {
        return false;
    }
    let mut k: usize = 0;
    while k < pat.len()
        invariant
            k <= pat@.len(),
            i + pat@.len() <= s@.len(),
            pat@.len() == pat.len(),
            s@.len() == s.len(),
            forall|j: int| 0 <= j < k ==> s@[i + j] == pat@[j],
        decreases pat@.len() - k,
    {
        if s[i + k] != pat[k] {
            proof {
                assert(s@.subrange(i as int, i + pat@.len())[k as int] != pat@[k as int]);
            }
            return false;
        }
        k = k + 1;
    }
    proof {
        assert(s@.subrange(i as int, i + pat@.len()) =~= pat@);
    }
    true
}

/// `s` with every occurrence of `pat`, left to right without overlap, replaced by `rep`.
pub fn replace_all_str(s: &str, pat: &str, rep: &str) -> (r: String)
    ensures
        r@ == replace_all(s@, pat@, rep@),
{
    let cs = chars_of(s);
    let ps = chars_of(pat);
    let mut out = String::new();
    let mut i: usize = 0;
    proof {
        assert(cs@.subrange(0, cs@.len() as int) =~= cs@);
        assert(out@ + replace_all(cs@.subrange(0, cs@.len() as int), ps@, rep@) =~= replace_all(
            cs@,
            ps@,
            rep@,
        ));
    }
    while i < cs.len()
        invariant
            i <= cs@.len(),
            cs@ == s@,
            ps@ == pat@,
            out@ + replace_all(cs@.subrange(i as int, cs@.len() as int), ps@, rep@) == replace_all(
                s@,
                pat@,
                rep@,
            ),
        decreases cs@.len() - i,
    {
        let ghost rest = cs@.subrange(i as int, cs@.len() as int);
        let ghost before = out@;
        if occurs_at(&cs, &ps, i) {
            proof {
                assert(rest.subrange(0, ps@.len() as int) =~= cs@.subrange(
                    i as int,
                    i + ps@.len(),
                ));
                assert(rest.subrange(ps@.len() as int, rest.len() as int) =~= cs@.subrange(
                    i + ps@.len(),
                    cs@.len() as int,
                ));
            }
            out.append(rep);
            i = i + ps.len();
            proof {
                let tail = replace_all(cs@.subrange(i as int, cs@.len() as int), ps@, rep@);
                assert(before + (rep@ + tail) =~= out@ + tail);
            }
        } else {
            proof {
                if 0 < ps@.len() <= rest.len() {
                    assert(rest.subrange(0, ps@.len() as int) =~= cs@.subrange(
                        i as int,
                        i + ps@.len(),
                    ));
                }
                assert(rest.drop_first() =~= cs@.subrange(i + 1, cs@.len() as int));
            }
            push_char(&mut out, cs[i]);
            i = i + 1;
            proof {
                let tail = replace_all(cs@.subrange(i as int, cs@.len() as int), ps@, rep@);
                assert(before + (seq![rest[0]] + tail) =~= out@ + tail);
            }
        }
    }
    proof {
        assert(cs@.subrange(i as int, cs@.len() as int) =~= Seq::<char>::empty());
        assert(out@ + Seq::<char>::empty() =~= out@);
    }
    out
}

/// The contract read that strategy `st` asks for `voter` at `block_height`.
pub fn strategy_call(st: &Strategy, voter: &Vec<u8>, block_height: &Option<String>) -> (r: EthCall)
    ensures
        is_strategy_call(r, *st, voter@, opt_text(*block_height)),
{
    match &st.data {
        StrategyData::Evm(e) => {
            let address = encode_hex(voter.as_slice());
            let block = match block_height {
                Some(b) => Some(b.clone()),
                None => None,
            };
            EthCall {
                contract_address: e.contract_address.clone(),
                data: replace_all_str(e.bytecode.as_str(), VOTER_TOKEN, address.as_str()),
                block_height: block,
            }
        },
    }
}

/// The contract reads that give `voter`'s power in the space `space_id`: one for each
/// of the space's strategies that names that space, in order; `None` when the space
/// does not exist.
pub fn power_calls(
    store: &Store,
    space_id: u32,
    voter: &Vec<u8>,
    block_height: &Option<String>,
) -> (r: Option<Vec<EthCall>>)
    ensures
        match locate_space(store.spaces@, space_id) {
            None => r is None,
            Some(i) => r matches Some(calls) && {
                let sel = strategies_of(store.spaces@[i].strategies@, space_id);
                &&& calls@.len() == sel.len()
                &&& forall|k: int|
                    0 <= k < sel.len() ==> is_strategy_call(
                        #[trigger] calls@[k],
                        sel[k],
                        voter@,
                        opt_text(*block_height),
                    )
            },
        },
{
    let strategies = match store.get_strategies(space_id) {
        Some(s) => s,
        None => return None,
    };
    let mut calls: Vec<EthCall> = Vec::new();
    let mut i: usize = 0;
    while i < strategies.len()
        invariant
            i <= strategies@.len(),
            calls@.len() == strategies_of(strategies@.subrange(0, i as int), space_id).len(),
            forall|k: int|
                0 <= k < calls@.len() ==> is_strategy_call(
                    #[trigger] calls@[k],
                    strategies_of(strategies@.subrange(0, i as int), space_id)[k],
                    voter@,
                    opt_text(*block_height),
                ),
        decreases strategies@.len() - i,
    {
        proof {
            assert(strategies@.subrange(0, i + 1).drop_last() =~= strategies@.subrange(0, i as int));
        }
        if strategies[i].space_id == space_id {
            let c = strategy_call(&strategies[i], voter, block_height);
            calls.push(c);
        }
        i = i + 1;
    }
    proof {
        assert(strategies@.subrange(0, i as int) =~= strategies@);
    }
    Some(calls)
}

/// Why the reads for a voter's power could not be planned.
#[derive(Debug, Clone, Copy, PartialEq, Eq, Structural)]
pub enum PowerError {
    /// The address is not `0x` followed by 40 lower-case hexadecimal digits.
    InvalidAddress,
    SpaceNotFound,
}

/// The contract reads that give the power of the voter at `address` in the space
/// `space_id`, at `block_height` (the latest block when absent).
pub fn voting_power_calls(
    store: &Store,
    address: &str,
    space_id: u32,
    block_height: &Option<String>,
) -> (r: Result<Vec<EthCall>, PowerError>)
    ensures
        !is_canonical_address(address@) ==> r == Err::<Vec<EthCall>, PowerError>(
            PowerError::InvalidAddress,
        ),
        is_canonical_address(address@) ==> match locate_space(store.spaces@, space_id) {
            None => r == Err::<Vec<EthCall>, PowerError>(PowerError::SpaceNotFound),
            Some(i) => r matches Ok(calls) && {
                let sel = strategies_of(store.spaces@[i].strategies@, space_id);
                &&& calls@.len() == sel.len()
                &&& forall|k: int|
                    0 <= k < sel.len() ==> is_strategy_call(
                        #[trigger] calls@[k],
                        sel[k],
                        address_bytes(address@),
                        opt_text(*block_height),
                    )
            },
        },
{
    if !is_canonical_address_str(address) {
        return Err(PowerError::InvalidAddress);
    }
    let voter = match decode_hex(address.substring_char(2, 42)) {
        Some(v) => v,
        None => {
            proof {
                lemma_canonical_address_is_hex(address@);
            }
            return Err(PowerError::InvalidAddress);
        },
    };
    match power_calls(store, space_id, &voter, block_height) {
        Some(calls) => Ok(calls),
        None => Err(PowerError::SpaceNotFound),
    }
}

/// The weight that a contract read's result writes.
pub fn parse_call_result(s: &str) -> (r: Result<Power, StrategyError>)
    ensures
        match call_result_value(s@) {
            Some(v) => r matches Ok(p) && p@ == v,
            None => r == Err::<Power, StrategyError>(StrategyError::ResultParseError),
        },
{
    let cs = chars_of(s);
    let n = cs.len();
    let prefixed = n >= 2 && cs[0] == '0' && cs[1] == 'x';
    if prefixed && n == 2 {
        proof {
            assert(s@ =~= seq!['0', 'x']);
        }
        return Ok(Power::zero());
    }
    proof {
        if s@ == seq!['0', 'x'] {
            assert(s@.len() == 2);
        }
    }
    let start: usize = if prefixed {
        2
    } else {
        0
    };
    if start == n {
        return Err(StrategyError::ResultParseError);
    }
    proof {
        if !prefixed {
            assert(cs@.subrange(0, n as int) =~= cs@);
        }
    }
    match Power::from_hex_digits(&cs, start) {
        Some(p) => Ok(p),
        None => Err(StrategyError::ResultParseError),
    }
}

/// The sum of the weights that the contract reads returned, in order (`None` for a read
/// that failed); the first failure aborts the whole sum.
pub fn total_power(replies: &Vec<Option<String>>) -> (r: Result<Power, StrategyError>)
    ensures
        match aggregate(replies_view(replies@)) {
            Ok(v) => r matches Ok(p) && p@ == v,
            Err(e) => r == Err::<Power, StrategyError>(e),
        },
{
    let mut total = Power::zero();
    let mut i: usize = 0;
    proof {
        assert(replies_view(replies@.subrange(0, 0)) =~= Seq::<Option<Seq<char>>>::empty());
    }
    while i < replies.len()
        invariant
            i <= replies@.len(),
            aggregate(replies_view(replies@.subrange(0, i as int))) == Ok::<nat, StrategyError>(
                total@,
            ),
        decreases replies@.len() - i,
    {
        let ghost prefix = replies_view(replies@.subrange(0, i as int + 1));
        proof {
            assert(prefix.drop_last() =~= replies_view(replies@.subrange(0, i as int)));
            assert(prefix.last() == opt_text(replies@[i as int]));
            assert(replies_view(replies@).subrange(0, i as int + 1) =~= prefix);
        }
        let weight = match &replies[i] {
            None => {
                proof {
                    lemma_aggregate_error_sticks(replies_view(replies@), i as int + 1);
                }
                return Err(StrategyError::EvmCallFailed);
            },
            Some(s) => parse_call_result(s.as_str()),
        };
        match weight {
            Err(e) => {
                proof {
                    lemma_aggregate_error_sticks(replies_view(replies@), i as int + 1);
                }
                return Err(e);
            },
            Ok(w) => {
                total = total.add(&w);
            },
        }
        i = i + 1;
    }
    proof {
        assert(replies@.subrange(0, i as int) =~= replies@);
    }
    Ok(total)
}

/// The sum of `values`.
pub open spec fn sum(values: Seq<nat>) -> nat
    decreases values.len(),
{
    if values.len() == 0 {
        0
    } else {
        sum(values.drop_last()) + values.last()
    }
}

/// When every read returned the number `values[i]`, the power is exactly their sum,
/// whatever their size.
pub proof fn lemma_aggregate_sums(replies: Seq<Option<Seq<char>>>, values: Seq<nat>)
    requires
        replies.len() == values.len(),
        forall|i: int|
            0 <= i < replies.len() ==> (#[trigger] replies[i] matches Some(s)
                && call_result_value(s) == Some(values[i])),
    ensures
        aggregate(replies) == Ok::<nat, StrategyError>(sum(values)),
    decreases replies.len(),
{
    if replies.len() > 0 {
        let n = replies.len() - 1;
        assert forall|i: int| 0 <= i < replies.drop_last().len() implies (
        #[trigger] replies.drop_last()[i] matches Some(s) && call_result_value(s) == Some(
            values.drop_last()[i],
        )) by {
            assert(replies.drop_last()[i] == replies[i]);
        }
        assert(replies[n] matches Some(s) && call_result_value(s) == Some(values[n]));
        lemma_aggregate_sums(replies.drop_last(), values.drop_last());
    }
}

/// One read that failed, or returned no number, aborts the whole sum.
pub proof fn lemma_aggregate_failure_aborts(replies: Seq<Option<Seq<char>>>, i: int)
    requires
        0 <= i < replies.len(),
        match replies[i] {
            None => true,
            Some(s) => call_result_value(s) is None,
        },
    ensures
        aggregate(replies) is Err,
{
    let prefix = replies.subrange(0, i + 1);
    assert(prefix.last() == replies[i]);
    assert(aggregate(prefix) is Err);
    lemma_aggregate_error_sticks(replies, i + 1);
}

/// Appending a vote changes no space's position and no strategy, so the contract
/// reads that give a voter's power are the same before and after it.
pub proof fn lemma_vote_keeps_power_reads(
    old: Seq<Space>,
    new: Seq<Space>,
    i: int,
    j: int,
    k: int,
    v: ProposalOptionVote,
    sid: u32,
)
    requires
        0 <= i < old.len(),
        vote_appended(old, new, i, j, k, v),
    ensures
        locate_space(new, sid) == locate_space(old, sid),
        locate_space(old, sid) matches Some(x) ==> strategies_of(new[x].strategies@, sid)
            == strategies_of(old[x].strategies@, sid),
{
    assert(space_ids(new) =~= space_ids(old)) by {
        assert forall|x: int| 0 <= x < old.len() implies new[x].id == old[x].id by {
            if x == i {
                assert(new[i] == (Space { proposals: new[i].proposals, ..old[i] }));
            }
        }
    }
    if let Some(x) = locate_space(old, sid) {
        lemma_first_index_valid(space_ids(old), sid);
        if x == i {
            assert(new[i] == (Space { proposals: new[i].proposals, ..old[i] }));
        }
    }
}

/// An error in a prefix of the replies is the error of all of them.
proof fn lemma_aggregate_error_sticks(replies: Seq<Option<Seq<char>>>, n: int)
    requires
        0 <= n <= replies.len(),
        aggregate(replies.subrange(0, n)) is Err,
    ensures
        aggregate(replies) == aggregate(replies.subrange(0, n)),
    decreases replies.len() - n,
{
    if n < replies.len() {
        let longer = replies.subrange(0, n + 1);
        assert(longer.drop_last() =~= replies.subrange(0, n));
        assert(aggregate(longer) == aggregate(replies.subrange(0, n)));
        lemma_aggregate_error_sticks(replies, n + 1);
    } else {
        assert(replies.subrange(0, n) =~= replies);
    }
}

} // verus!
