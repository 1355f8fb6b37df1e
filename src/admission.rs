//! Admission of signed votes: signature, existence, time window, power and
//! double-vote checks, then the commit.
use vstd::prelude::*;

use crate::bindings::{decode_hex, hex_bytes, opt_bytes, recover_signer, signer_of};
use crate::error::{StrategyError, VoteError};
use crate::power::Power;
use crate::store::{
    lemma_first_index_valid, locate_option, locate_proposal, locate_space, option_ids, proposal_ids,
    space_ids, vote_appended, Store,
};
use crate::text::{all_hex_digits, decimal, is_hex_digit, push_decimal};
use crate::types::{Proposal, ProposalOption, ProposalOptionVote, Space, VoteData, VoteMessage};

verus! {

/// `c` is one of `0-9`, `a-f`.
pub open spec fn is_lower_hex_digit(c: char) -> bool {
    ('0' <= c && c <= '9') || ('a' <= c && c <= 'f')
}

/// `0x` followed by 40 lower-case hexadecimal digits.
pub open spec fn is_canonical_address(a: Seq<char>) -> bool {
    &&& a.len() == 42
    &&& a[0] == '0'
    &&& a[1] == 'x'
    &&& forall|i: int| 2 <= i < 42 ==> is_lower_hex_digit(#[trigger] a[i])
}

/// The 20 bytes that a canonical address writes.
pub open spec fn address_bytes(a: Seq<char>) -> Seq<u8> {
    hex_bytes(a.subrange(2, 42))
}

/// The text that a voter signs: the message as a JSON object, fields in declaration order.
pub open spec fn message_text(m: VoteMessage) -> Seq<char> {
    "{\"proposal_id\":"@ + decimal(m.proposal_id as nat) + ",\"space_id\":"@ + decimal(
        m.space_id as nat,
    ) + ",\"option_id\":"@ + decimal(m.option_id as nat) + ",\"address\":\""@ + m.address@
        + "\"}"@
}

/// The bytes of a signature written in hexadecimal, with or without a `0x` prefix.
pub open spec fn signature_bytes(sig: Seq<char>) -> Option<Seq<u8>> {
    let digits = if sig.len() >= 2 && sig[0] == '0' && sig[1] == 'x' {
        sig.subrange(2, sig.len() as int)
    } else {
        sig
    };
    if all_hex_digits(digits) && digits.len() % 2 == 0 {
        Some(hex_bytes(digits))
    } else {
        None
    }
}

/// The address recovered from a vote's signature over its message.
pub open spec fn recovered_signer(data: VoteData) -> Option<Seq<u8>> {
    match signature_bytes(data.signature@) {
        Some(b) => signer_of(message_text(data.message), b),
        None => None,
    }
}

/// The value of a reported power, or its error.
pub open spec fn power_view(p: Result<Power, StrategyError>) -> Result<nat, StrategyError> {
    match p {
        Ok(v) => Ok(v@),
        Err(e) => Err(e),
    }
}

/// The message's address is canonical and is the one that signed it.
pub open spec fn signature_valid(m: VoteMessage, signer: Option<Seq<u8>>) -> bool {
    is_canonical_address(m.address@) && signer == Some(address_bytes(m.address@))
}

/// `now` lies in `[date_created + vote_delay, date_created + vote_delay + vote_duration)`.
pub open spec fn in_window(s: Space, p: Proposal, now: u64) -> bool {
    let start = p.date_created + s.vote_delay;
    start <= now && now < start + s.vote_duration
}

/// Some option of `p` holds a vote by `address`.
pub open spec fn has_voted(p: Proposal, address: Seq<char>) -> bool {
    exists|k: int, v: int|
        0 <= k < p.options@.len() && 0 <= v < p.options@[k].votes@.len()
            && (#[trigger] p.options@[k].votes@[v]).user_address@ == address
}

/// The first failing check that needs no voting power, in order: signature, space,
/// proposal, time window; `None` when all pass.
pub open spec fn precheck_error(
    ss: Seq<Space>,
    m: VoteMessage,
    signer: Option<Seq<u8>>,
    now: u64,
) -> Option<VoteError> {
    if !signature_valid(m, signer) {
        Some(VoteError::InvalidSignature)
    } else if locate_space(ss, m.space_id) is None {
        Some(VoteError::SpaceNotFound)
    } else if locate_proposal(ss, m.space_id, m.proposal_id) is None {
        Some(VoteError::ProposalNotFound)
    } else {
        let (i, j) = locate_proposal(ss, m.space_id, m.proposal_id)->0;
        if !in_window(ss[i], ss[i].proposals@[j], now) {
            Some(VoteError::VotingWindowClosed)
        } else {
            None
        }
    }
}

/// The error that refuses the vote, checked in order: the pre-checks, then the power
/// oracle's error, the minimum power, an earlier vote by the address on the proposal,
/// and last the target option; `None` when it is admitted.
pub open spec fn admission_error(
    ss: Seq<Space>,
    m: VoteMessage,
    signer: Option<Seq<u8>>,
    now: u64,
    power: Result<nat, StrategyError>,
) -> Option<VoteError> {
    match precheck_error(ss, m, signer, now) {
        Some(e) => Some(e),
        None => {
            let (i, j) = locate_proposal(ss, m.space_id, m.proposal_id)->0;
            let s = ss[i];
            let p = s.proposals@[j];
            match power {
                Err(e) => Some(VoteError::Strategy(e)),
                Ok(v) => if v < s.min_vote_power@ {
                    Some(VoteError::InsufficientPower)
                } else if has_voted(p, m.address@) {
                    Some(VoteError::AlreadyVoted)
                } else if locate_option(ss, m.space_id, m.proposal_id, m.option_id) is None {
                    Some(VoteError::OptionNotFound)
                } else {
                    None
                },
            }
        },
    }
}

/// Every admission condition holds: valid signature, existing space, proposal and
/// option, time inside the window, power known and at least the space's minimum, and
/// no earlier vote by the address on the proposal.
pub open spec fn admissible(
    ss: Seq<Space>,
    m: VoteMessage,
    signer: Option<Seq<u8>>,
    now: u64,
    power: Result<nat, StrategyError>,
) -> bool {
    &&& signature_valid(m, signer)
    &&& locate_option(ss, m.space_id, m.proposal_id, m.option_id) is Some
    &&& {
        let (i, j, k) = locate_option(ss, m.space_id, m.proposal_id, m.option_id)->0;
        let s = ss[i];
        let p = s.proposals@[j];
        &&& in_window(s, p, now)
        &&& power matches Ok(v) && v >= s.min_vote_power@
        &&& !has_voted(p, m.address@)
    }
}

/// An admissible vote is admitted: `vote` and `admit_vote` then return exactly the
/// reported power and append exactly one vote.
pub proof fn lemma_admissible_vote_admitted(
    ss: Seq<Space>,
    m: VoteMessage,
    signer: Option<Seq<u8>>,
    now: u64,
    power: Result<nat, StrategyError>,
)
    requires
        admissible(ss, m, signer, now, power),
    ensures
        admission_error(ss, m, signer, now, power) is None,
{
}

/// A vote that is not admissible is refused with one error (`InvalidSignature`, a
/// not-found kind, `VotingWindowClosed`, the power oracle's error, `InsufficientPower`
/// or `AlreadyVoted`), and `vote` and `admit_vote` then leave the store unchanged.
pub proof fn lemma_inadmissible_vote_refused(
    ss: Seq<Space>,
    m: VoteMessage,
    signer: Option<Seq<u8>>,
    now: u64,
    power: Result<nat, StrategyError>,
)
    requires
        !admissible(ss, m, signer, now, power),
    ensures
        admission_error(ss, m, signer, now, power) is Some,
{
}

/// Once a vote by an address is committed on a proposal, a later vote by the same
/// address on that proposal, on any of its options, that passes the pre-checks with
/// enough power is refused with `AlreadyVoted`.
pub proof fn lemma_second_vote_already_voted(
    old: Seq<Space>,
    new: Seq<Space>,
    first: VoteData,
    first_time: u64,
    first_power: nat,
    m: VoteMessage,
    signer: Option<Seq<u8>>,
    now: u64,
    power: Result<nat, StrategyError>,
)
    requires
        locate_option(old, first.message.space_id, first.message.proposal_id, first.message.option_id) is Some,
        vote_committed(old, new, first, first_time, first_power),
        m.space_id == first.message.space_id,
        m.proposal_id == first.message.proposal_id,
        m.address@ == first.message.address@,
        precheck_error(new, m, signer, now) is None,
        power matches Ok(v) && v >= new[(locate_proposal(new, m.space_id, m.proposal_id)->0).0].min_vote_power@,
    ensures
        admission_error(new, m, signer, now, power) == Some(VoteError::AlreadyVoted),
{
    let f = first.message;
    let (i, j, k) = locate_option(old, f.space_id, f.proposal_id, f.option_id)->0;
    lemma_first_index_valid(space_ids(old), f.space_id);
    lemma_first_index_valid(proposal_ids(old[i].proposals@), f.proposal_id);
    lemma_first_index_valid(option_ids(old[i].proposals@[j].options@), f.option_id);
    assert(new[i] == (Space { proposals: new[i].proposals, ..old[i] }));
    assert(space_ids(new) =~= space_ids(old)) by {
        assert forall|x: int| 0 <= x < old.len() implies new[x].id == old[x].id by {
            if x == i {
                assert(new[i].id == old[i].id);
            }
        }
    }
    let np = new[i].proposals@[j];
    assert(np == (Proposal { options: np.options, ..old[i].proposals@[j] }));
    assert(proposal_ids(new[i].proposals@) =~= proposal_ids(old[i].proposals@)) by {
        assert forall|y: int| 0 <= y < old[i].proposals@.len() implies new[i].proposals@[y].id
            == old[i].proposals@[y].id by {
            if y == j {
                assert(np.id == old[i].proposals@[j].id);
            }
        }
    }
    assert(locate_proposal(new, m.space_id, m.proposal_id) == Some((i, j)));
    let n = old[i].proposals@[j].options@[k].votes@.len();
    let v = np.options@[k].votes@[n as int];
    assert(np.options@[k].votes@ == old[i].proposals@[j].options@[k].votes@.push(
        new[i].proposals@[j].options@[k].votes@.last(),
    ));
    assert(v.user_address@ == m.address@);
    assert(has_voted(np, m.address@));
}

/// The number of votes by `address` among `vs`.
pub open spec fn count_votes(vs: Seq<ProposalOptionVote>, address: Seq<char>) -> nat
    decreases vs.len(),
{
    if vs.len() == 0 {
        0
    } else {
        count_votes(vs.drop_last(), address) + if vs.last().user_address@ == address {
            1nat
        } else {
            0nat
        }
    }
}

/// The number of votes by `address` over all the options `os`.
pub open spec fn count_option_votes(os: Seq<ProposalOption>, address: Seq<char>) -> nat
    decreases os.len(),
{
    if os.len() == 0 {
        0
    } else {
        count_option_votes(os.drop_last(), address) + count_votes(os.last().votes@, address)
    }
}

proof fn lemma_count_votes_none(vs: Seq<ProposalOptionVote>, address: Seq<char>)
    requires
        forall|y: int| 0 <= y < vs.len() ==> (#[trigger] vs[y]).user_address@ != address,
    ensures
        count_votes(vs, address) == 0,
    decreases vs.len(),
{
    if vs.len() > 0 {
        let init = vs.drop_last();
        assert forall|y: int| 0 <= y < init.len() implies (#[trigger] init[y]).user_address@
            != address by {
            assert(init[y] == vs[y]);
        }
        lemma_count_votes_none(init, address);
        assert(vs[vs.len() - 1].user_address@ != address);
    }
}

proof fn lemma_count_option_votes_single(os: Seq<ProposalOption>, address: Seq<char>, k: int)
    requires
        0 <= k < os.len(),
        forall|z: int| 0 <= z < os.len() && z != k ==> count_votes(#[trigger] os[z].votes@, address) == 0,
    ensures
        count_option_votes(os, address) == count_votes(os[k].votes@, address),
    decreases os.len(),
{
    let init = os.drop_last();
    if k < os.len() - 1 {
        assert forall|z: int| 0 <= z < init.len() && z != k implies count_votes(
            #[trigger] init[z].votes@,
            address,
        ) == 0 by {
            assert(init[z] == os[z]);
        }
        lemma_count_option_votes_single(init, address, k);
        assert(count_votes(os[os.len() - 1].votes@, address) == 0);
        assert(init[k] == os[k]);
    } else {
        lemma_count_option_votes_zero(init, address);
    }
}

proof fn lemma_count_option_votes_zero(os: Seq<ProposalOption>, address: Seq<char>)
    requires
        forall|z: int| 0 <= z < os.len() ==> count_votes(#[trigger] os[z].votes@, address) == 0,
    ensures
        count_option_votes(os, address) == 0,
    decreases os.len(),
{
    if os.len() > 0 {
        let init = os.drop_last();
        assert forall|z: int| 0 <= z < init.len() implies count_votes(
            #[trigger] init[z].votes@,
            address,
        ) == 0 by {
            assert(init[z] == os[z]);
        }
        lemma_count_option_votes_zero(init, address);
        assert(count_votes(os[os.len() - 1].votes@, address) == 0);
    }
}

/// An admitted vote leaves its address with exactly one vote across the options of
/// the proposal.
pub proof fn lemma_committed_vote_is_the_only_one(
    old: Seq<Space>,
    new: Seq<Space>,
    data: VoteData,
    now: u64,
    power: nat,
)
    requires
        locate_option(old, data.message.space_id, data.message.proposal_id, data.message.option_id) is Some,
        !has_voted(
            old[(locate_option(old, data.message.space_id, data.message.proposal_id, data.message.option_id)->0).0].proposals@[
                (locate_option(old, data.message.space_id, data.message.proposal_id, data.message.option_id)->0).1
            ],
            data.message.address@,
        ),
        vote_committed(old, new, data, now, power),
    ensures
        ({
            let (i, j, k) = locate_option(old, data.message.space_id, data.message.proposal_id, data.message.option_id)->0;
            count_option_votes(new[i].proposals@[j].options@, data.message.address@) == 1
        }),
{
    let m = data.message;
    let a = m.address@;
    let (i, j, k) = locate_option(old, m.space_id, m.proposal_id, m.option_id)->0;
    lemma_first_index_valid(space_ids(old), m.space_id);
    lemma_first_index_valid(proposal_ids(old[i].proposals@), m.proposal_id);
    lemma_first_index_valid(option_ids(old[i].proposals@[j].options@), m.option_id);
    let op = old[i].proposals@[j];
    let np = new[i].proposals@[j];
    assert forall|z: int| 0 <= z < op.options@.len() implies count_votes(
        #[trigger] op.options@[z].votes@,
        a,
    ) == 0 by {
        let vs = op.options@[z].votes@;
        assert forall|y: int| 0 <= y < vs.len() implies (#[trigger] vs[y]).user_address@ != a by {
            if vs[y].user_address@ == a {
                assert(op.options@[z].votes@[y] == vs[y]);
            }
        }
        lemma_count_votes_none(vs, a);
    }
    assert forall|z: int| 0 <= z < np.options@.len() && z != k implies count_votes(
        #[trigger] np.options@[z].votes@,
        a,
    ) == 0 by {
        assert(np.options@[z] == op.options@[z]);
    }
    lemma_count_option_votes_single(np.options@, a, k);
    let nv = np.options@[k].votes@;
    assert(nv.drop_last() =~= op.options@[k].votes@);
    assert(nv.last().user_address@ == a);
}

/// The vote was committed: exactly one vote by the message's address, with the
/// given power, signature and time, was appended to the target option.
pub open spec fn vote_committed(
    old: Seq<Space>,
    new: Seq<Space>,
    data: VoteData,
    now: u64,
    power: nat,
) -> bool {
    let m = data.message;
    let (i, j, k) = locate_option(old, m.space_id, m.proposal_id, m.option_id)->0;
    let n = old[i].proposals@[j].options@[k].votes@.len();
    let v = new[i].proposals@[j].options@[k].votes@.last();
    &&& vote_appended(old, new, i, j, k, v)
    &&& v.id == n + 1
    &&& v.user_address@ == m.address@
    &&& v.vote_type == 0
    &&& v.timestamp == now
    &&& v.signature@ == data.signature@
    &&& v.voting_power@ == power
    &&& v.option_id == m.option_id
}

/// The text that a voter signs for `m`.
pub fn message_text_of(m: &VoteMessage) -> (r: String)
    ensures
        r@ == message_text(*m),
{
    let mut out = String::new();
    out.append("{\"proposal_id\":");
    push_decimal(&mut out, m.proposal_id as u64);
    out.append(",\"space_id\":");
    push_decimal(&mut out, m.space_id as u64);
    out.append(",\"option_id\":");
    push_decimal(&mut out, m.option_id as u64);
    out.append(",\"address\":\"");
    out.append(m.address.as_str());
    out.append("\"}");
    out
}

/// Whether `a` is `0x` followed by 40 lower-case hexadecimal digits.
pub fn is_canonical_address_str(a: &str) -> (r: bool)
    ensures
        r == is_canonical_address(a@),
{
    if a.unicode_len() != 42 {
        return false;
    }
    if a.get_char(0) != '0' || a.get_char(1) != 'x' {
        return false;
    }
    let mut i: usize = 2;
    while i < 42
        invariant
            2 <= i <= 42,
            a@.len() == 42,
            forall|j: int| 2 <= j < i ==> is_lower_hex_digit(#[trigger] a@[j]),
        decreases 42 - i,
    {
        let c = a.get_char(i);
        if !(('0' <= c && c <= '9') || ('a' <= c && c <= 'f')) {
            return false;
        }
        i = i + 1;
    }
    true
}

/// The bytes of a hexadecimal signature, with or without a `0x` prefix.
fn signature_bytes_of(sig: &str) -> (r: Option<Vec<u8>>)
    ensures
        opt_bytes(r) == signature_bytes(sig@),
{
    let n = sig.unicode_len();
    if n >= 2 && sig.get_char(0) == '0' && sig.get_char(1) == 'x' {
        decode_hex(sig.substring_char(2, n))
    } else {
        decode_hex(sig)
    }
}

/// The digits of a canonical address are hexadecimal digits.
pub proof fn lemma_canonical_address_is_hex(a: Seq<char>)
    requires
        is_canonical_address(a),
    ensures
        all_hex_digits(a.subrange(2, 42)),
{
    assert forall|i: int| 0 <= i < a.subrange(2, 42).len() implies is_hex_digit(
        #[trigger] a.subrange(2, 42)[i],
    ) by {
        assert(a.subrange(2, 42)[i] == a[i + 2]);
        assert(is_lower_hex_digit(a[i + 2]));
    }
}

/// Whether `signer` holds exactly the bytes that the canonical address `a` writes.
fn signer_matches(a: &str, signer: &Option<Vec<u8>>) -> (r: bool)
    requires
        is_canonical_address(a@),
    ensures
        r == (opt_bytes(*signer) == Some(address_bytes(a@))),
{
    let expected = decode_hex(a.substring_char(2, 42));
    proof {
        lemma_canonical_address_is_hex(a@);
    }
    let expected = match expected {
        Some(e) => e,
        None => return false,
    };
    match signer {
        None => false,
        Some(got) => {
            if got.len() != expected.len() {
                return false;
            }
            let mut i: usize = 0;
            while i < got.len()
                invariant
                    i <= got@.len(),
                    got@.len() == expected@.len(),
                    forall|j: int| 0 <= j < i ==> got@[j] == expected@[j],
                    opt_bytes(*signer) == Some(got@),
                    expected@ == address_bytes(a@),
                decreases got@.len() - i,
            {
                if got[i] != expected[i] {
                    proof {
                        assert(got@[i as int] != expected@[i as int]);
                    }
                    return false;
                }
                i = i + 1;
            }
            proof {
                assert(got@ =~= expected@);
            }
            true
        },
    }
}

/// Whether some option of `p` holds a vote by `address`.
fn has_voted_in(p: &Proposal, address: &String) -> (r: bool)
    ensures
        r == has_voted(*p, address@),
{
    let mut k: usize = 0;
    while k < p.options.len()
        invariant
            k <= p.options@.len(),
            forall|x: int, y: int|
                0 <= x < k && 0 <= y < p.options@[x].votes@.len() ==> (#[trigger] p.options@[
                    x
                ].votes@[y]).user_address@ != address@,
        decreases p.options@.len() - k,
    {
        let votes = &p.options[k].votes;
        let mut v: usize = 0;
        while v < votes.len()
            invariant
                k < p.options@.len(),
                votes == p.options@[k as int].votes,
                v <= votes@.len(),
                forall|x: int, y: int|
                    0 <= x < k && 0 <= y < p.options@[x].votes@.len() ==> (#[trigger] p.options@[
                        x
                    ].votes@[y]).user_address@ != address@,
                forall|y: int| 0 <= y < v ==> (#[trigger] votes@[y]).user_address@ != address@,
            decreases votes@.len() - v,
        {
            if votes[v].user_address == *address {
                return true;
            }
            v = v + 1;
        }
        k = k + 1;
    }
    false
}

/// The checks of a vote that need no voting power, for a signature that recovered to
/// `signer`, at time `now` (unix seconds): signature, space, proposal, time window.
pub fn precheck_vote(store: &Store, data: &VoteData, signer: &Option<Vec<u8>>, now: u64) -> (r:
    Result<(), VoteError>)
    ensures
        match precheck_error(store.spaces@, data.message, opt_bytes(*signer), now) {
            Some(e) => r == Err::<(), VoteError>(e),
            None => r is Ok,
        },
{
    let m = &data.message;
    if !is_canonical_address_str(m.address.as_str()) {
        return Err(VoteError::InvalidSignature);
    }
    if !signer_matches(m.address.as_str(), signer) {
        return Err(VoteError::InvalidSignature);
    }
    let space = match store.get_space(m.space_id) {
        Some(s) => s,
        None => return Err(VoteError::SpaceNotFound),
    };
    let proposal = match store.get_proposal(m.space_id, m.proposal_id) {
        Some(p) => p,
        None => return Err(VoteError::ProposalNotFound),
    };
    let start: u128 = proposal.date_created as u128 + space.vote_delay as u128;
    let end: u128 = start + space.vote_duration as u128;
    if (now as u128) < start || (now as u128) >= end {
        return Err(VoteError::VotingWindowClosed);
    }
    Ok(())
}

/// The signer recovered from a vote's signature over its message's canonical text.
fn recover_vote_signer(data: &VoteData) -> (r: Option<Vec<u8>>)
    ensures
        opt_bytes(r) == recovered_signer(*data),
{
    let text = message_text_of(&data.message);
    match signature_bytes_of(data.signature.as_str()) {
        Some(b) => recover_signer(text.as_str(), b.as_slice()),
        None => None,
    }
}

/// The checks of a signed vote that need no voting power, at time `now` (unix
/// seconds): run before the power oracle's reads, so that no read is made for a vote
/// that would be refused anyway.
pub fn check_vote(store: &Store, data: &VoteData, now: u64) -> (r: Result<(), VoteError>)
    ensures
        match precheck_error(store.spaces@, data.message, recovered_signer(*data), now) {
            Some(e) => r == Err::<(), VoteError>(e),
            None => r is Ok,
        },
{
    let signer = recover_vote_signer(data);
    precheck_vote(store, data, &signer, now)
}

/// Admits a vote whose signature recovered to `signer`, at time `now` (unix seconds),
/// with the voter's power as the power oracle reported it. On admission the vote is
/// appended to its option and the power returned; otherwise the store is unchanged.
pub fn admit_vote(
    store: &mut Store,
    data: &VoteData,
    signer: Option<Vec<u8>>,
    now: u64,
    power: Result<Power, StrategyError>,
) -> (r: Result<Power, VoteError>)
    requires
        old(store).vote_id_fits(data.message.space_id, data.message.proposal_id, data.message.option_id),
    ensures
        match admission_error(old(store).spaces@, data.message, opt_bytes(signer), now, power_view(power)) {
            Some(e) => r == Err::<Power, VoteError>(e) && *final(store) == *old(store),
            None => r matches Ok(p) && power_view(power) == Ok::<nat, StrategyError>(p@)
                && vote_committed(old(store).spaces@, final(store).spaces@, *data, now, p@),
        },
{
    let m = &data.message;
    if !is_canonical_address_str(m.address.as_str()) {
        return Err(VoteError::InvalidSignature);
    }
    if !signer_matches(m.address.as_str(), &signer) {
        return Err(VoteError::InvalidSignature);
    }
    let space = match store.get_space(m.space_id) {
        Some(s) => s,
        None => return Err(VoteError::SpaceNotFound),
    };
    let proposal = match store.get_proposal(m.space_id, m.proposal_id) {
        Some(p) => p,
        None => return Err(VoteError::ProposalNotFound),
    };
    let start: u128 = proposal.date_created as u128 + space.vote_delay as u128;
    let end: u128 = start + space.vote_duration as u128;
    if (now as u128) < start || (now as u128) >= end {
        return Err(VoteError::VotingWindowClosed);
    }
    let power = match power {
        Ok(p) => p,
        Err(e) => return Err(VoteError::Strategy(e)),
    };
    if power.less_than(&space.min_vote_power) {
        return Err(VoteError::InsufficientPower);
    }
    if has_voted_in(proposal, &m.address) {
        return Err(VoteError::AlreadyVoted);
    }
    if store.get_votes(m.space_id, m.proposal_id, m.option_id).is_none() {
        return Err(VoteError::OptionNotFound);
    }
    let committed = power.duplicate();
    store.insert_vote(
        m.space_id,
        m.proposal_id,
        m.option_id,
        m.address.clone(),
        0,
        now,
        data.signature.clone(),
        power,
    );
    Ok(committed)
}

/// Admits a signed vote at time `now` (unix seconds), with the voter's power as the
/// power oracle reported it: the signer is recovered from the signature over the
/// message's canonical text, then the vote goes through `admit_vote`.
pub fn vote(
    store: &mut Store,
    data: &VoteData,
    now: u64,
    power: Result<Power, StrategyError>,
) -> (r: Result<Power, VoteError>)
    requires
        old(store).vote_id_fits(data.message.space_id, data.message.proposal_id, data.message.option_id),
    ensures
        match admission_error(old(store).spaces@, data.message, recovered_signer(*data), now, power_view(power)) {
            Some(e) => r == Err::<Power, VoteError>(e) && *final(store) == *old(store),
            None => r matches Ok(p) && power_view(power) == Ok::<nat, StrategyError>(p@)
                && vote_committed(old(store).spaces@, final(store).spaces@, *data, now, p@),
        },
{
    let signer = recover_vote_signer(data);
    admit_vote(store, data, signer, now, power)
}

} // verus!
