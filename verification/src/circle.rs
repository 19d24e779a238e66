//! The trust circle contract's state and its operations.
//!
//! Each operation takes the caller's address as already authenticated, and the
//! ledger time where the operation depends on it. A refused operation returns the
//! error and leaves the state unchanged, as an aborted transaction does.
use vstd::prelude::*;
use crate::types::{
    AddressModel, Circle, CircleError, CircleModel, Contribution, ContributionModel, Payout,
    Proposal, ProposalType,
};
use crate::model::{
    CircleState, after, output, outcome, contributed, cycle_pot, score_in, penalty_map, fits_i128,
    pot_overflows, records_unique, step_create_circle, step_contribute, step_release_payout,
    step_restart_circle, step_vouch, step_propose, step_vote, step_execute_proposal,
    other_than, CONTRIBUTION_REWARD, MISSED_PENALTY, VOUCH_THRESHOLD, MIN_CYCLE_SECS,
};
use crate::proofs::{lemma_pot_step, lemma_penalty_step, lemma_push_record_unique};
use crate::entries::{
    keys_unique, entries_map, find_key, set_entry, lemma_entry_value, lemma_update_entry,
    lemma_push_entry,
};

verus! {

/// Everything a trust circle contract keeps in its storage.
pub struct TrustCircle {
    circle: Option<Circle>,
    contributions: Vec<Contribution>,
    reputation: Vec<(String, u32)>,
    vouches: Vec<(String, Vec<String>)>,
    proposals: Vec<Proposal>,
}

/// The model of an optional circle.
pub open spec fn circle_model(c: Option<Circle>) -> Option<CircleModel> {
    match c {
        Some(c) => Some(c@),
        None => None,
    }
}

impl View for TrustCircle {
    type V = CircleState;

    closed spec fn view(&self) -> CircleState {
        CircleState {
            circle: circle_model(self.circle),
            contributions: self.contributions@.map_values(|c: Contribution| c@),
            reputation: entries_map(self.reputation.deep_view()),
            vouches: entries_map(self.vouches.deep_view()),
            proposals: self.proposals@.map_values(|p: Proposal| p@),
        }
    }
}

/// Whether `who` is in `list`.
fn contains_address(list: &Vec<String>, who: &String) -> (r: bool)
    ensures
        r == list.deep_view().contains(who@),
{
    let ghost d = list.deep_view();
    let mut i: usize = 0;
    while i < list.len()
        invariant
            i <= list.len(),
            d == list.deep_view(),
            d.len() == list.len(),
            forall|j: int| 0 <= j < i ==> d[j] != who@,
        decreases list.len() - i,
    {
        assert(d[i as int] == list[i as int]@);
        if list[i] == *who {
            return true;
        }
        i = i + 1;
    }
    false
}

/// Whether `who` has a contribution recorded for `cycle`.
fn find_contribution(cs: &Vec<Contribution>, who: &String, cycle: u32) -> (r: bool)
    ensures
        r == contributed(cs@.map_values(|c: Contribution| c@), who@, cycle),
{
    let ghost m = cs@.map_values(|c: Contribution| c@);
    let mut i: usize = 0;
    while i < cs.len()
        invariant
            i <= cs.len(),
            m == cs@.map_values(|c: Contribution| c@),
            m.len() == cs.len(),
            forall|j: int| 0 <= j < i ==> !(#[trigger] m[j].member == who@ && m[j].cycle == cycle),
        decreases cs.len() - i,
    {
        assert(m[i as int] == cs[i as int]@);
        if cs[i].cycle == cycle && cs[i].member == *who {
            assert(m[i as int].member == who@ && m[i as int].cycle == cycle);
            return true;
        }
        i = i + 1;
    }
    false
}

/// A copy of a list of addresses.
fn copy_addresses(list: &Vec<String>) -> (r: Vec<String>)
    ensures
        r.deep_view() == list.deep_view(),
{
    let mut r: Vec<String> = Vec::new();
    let mut i: usize = 0;
    while i < list.len()
        invariant
            i <= list.len(),
            r.deep_view() =~= list.deep_view().take(i as int),
        decreases list.len() - i,
    {
        let ghost before = r.deep_view();
        let item = list[i].clone();
        assert(item@ == list.deep_view()[i as int]);
        r.push(item);
        assert(r.deep_view() =~= before.push(item@));
        i = i + 1;
        assert(r.deep_view() =~= list.deep_view().take(i as int));
    }
    assert(list.deep_view().take(list.len() as int) =~= list.deep_view());
    r
}

/// The score stored for `who` in `entries`, zero where none is stored.
fn score_of(entries: &Vec<(String, u32)>, who: &String) -> (r: u32)
    requires
        keys_unique(entries.deep_view()),
    ensures
        r == score_in(entries_map(entries.deep_view()), who@),
{
    match find_key(entries, who) {
        Some(i) => {
            proof {
                lemma_entry_value(entries.deep_view(), i as int);
            }
            entries[i].1
        },
        None => 0,
    }
}

/// The pot of `cycle`: the sum of the amounts recorded for it, or `None`
/// where adding them up in record order leaves the `i128` range.
fn pot_total(cs: &Vec<Contribution>, cycle: u32) -> (r: Option<i128>)
    ensures
        match r {
            Some(t) => !pot_overflows(cs@.map_values(|c: Contribution| c@), cycle) && t
                == cycle_pot(cs@.map_values(|c: Contribution| c@), cycle),
            None => pot_overflows(cs@.map_values(|c: Contribution| c@), cycle),
        },
{
    let ghost csm = cs@.map_values(|c: Contribution| c@);
    let mut total: i128 = 0;
    let mut i: usize = 0;
    assert(csm.take(0) =~= Seq::<ContributionModel>::empty());
    while i < cs.len()
        invariant
            i <= cs.len(),
            csm == cs@.map_values(|c: Contribution| c@),
            csm.len() == cs.len(),
            total == cycle_pot(csm.take(i as int), cycle),
            forall|j: int| 0 <= j <= i ==> fits_i128(#[trigger] cycle_pot(csm.take(j), cycle)),
        decreases cs.len() - i,
    {
        proof {
            lemma_pot_step(csm, cycle, i as int);
        }
        assert(csm[i as int] == cs[i as int]@);
        if cs[i].cycle == cycle {
            match total.checked_add(cs[i].amount) {
                Some(t) => {
                    total = t;
                },
                None => {
                    assert(!fits_i128(cycle_pot(csm.take(i + 1), cycle)));
                    return None;
                },
            }
        }
        i = i + 1;
        assert(fits_i128(cycle_pot(csm.take(i as int), cycle)));
    }
    assert(csm.take(cs.len() as int) =~= csm);
    Some(total)
}

/// Applies one penalty to `reputation` for every place of the rotation whose
/// holder did not contribute in `cycle`.
fn penalize_missed_places(
    reputation: &mut Vec<(String, u32)>,
    members: &Vec<String>,
    cs: &Vec<Contribution>,
    cycle: u32,
)
    requires
        keys_unique(old(reputation).deep_view()),
    ensures
        keys_unique(final(reputation).deep_view()),
        entries_map(final(reputation).deep_view()) == penalty_map(
            entries_map(old(reputation).deep_view()),
            members.deep_view(),
            cs@.map_values(|c: Contribution| c@),
            cycle,
        ),
{
    let ghost md = members.deep_view();
    let ghost csm = cs@.map_values(|c: Contribution| c@);
    let ghost rep0 = entries_map(reputation.deep_view());
    let mut i: usize = 0;
    assert(md.take(0) =~= Seq::<AddressModel>::empty());
    assert(penalty_map(rep0, md.take(0), csm, cycle) =~= rep0);
    while i < members.len()
        invariant
            i <= members.len(),
            md == members.deep_view(),
            md.len() == members.len(),
            csm == cs@.map_values(|c: Contribution| c@),
            keys_unique(reputation.deep_view()),
            entries_map(reputation.deep_view()) == penalty_map(rep0, md.take(i as int), csm, cycle),
        decreases members.len() - i,
    {
        proof {
            lemma_penalty_step(rep0, md, csm, cycle, i as int);
        }
        assert(md[i as int] == members[i as int]@);
        if !find_contribution(cs, &members[i], cycle) {
            let score = score_of(reputation, &members[i]);
            set_entry(reputation, &members[i], score.saturating_sub(MISSED_PENALTY));
        }
        i = i + 1;
    }
    assert(md.take(members.len() as int) =~= md);
}

/// `list` without any occurrence of `who`, in the same order.
fn remove_address(list: &Vec<String>, who: &String) -> (r: Vec<String>)
    ensures
        r.deep_view() == list.deep_view().filter(other_than(who@)),
{
    let ghost d = list.deep_view();
    let mut r: Vec<String> = Vec::new();
    let mut i: usize = 0;
    assert(d.take(0) =~= Seq::<AddressModel>::empty());
    assert(Seq::<AddressModel>::empty().filter(other_than(who@)) =~= Seq::<AddressModel>::empty())
        by {
        reveal(Seq::filter);
    }
    while i < list.len()
        invariant
            i <= list.len(),
            d == list.deep_view(),
            d.len() == list.len(),
            r.deep_view() == d.take(i as int).filter(other_than(who@)),
        decreases list.len() - i,
    {
        assert(d.take(i + 1) =~= d.take(i as int).push(d[i as int]));
        proof {
            d.take(i as int).lemma_filter_push(d[i as int], other_than(who@));
        }
        assert(d[i as int] == list[i as int]@);
        if !(list[i] == *who) {
            let ghost before = r.deep_view();
            let item = list[i].clone();
            r.push(item);
            assert(r.deep_view() =~= before.push(item@));
        }
        i = i + 1;
    }
    assert(d.take(list.len() as int) =~= d);
    r
}

/// Whether no two entries share an address.
fn keys_distinct<V: DeepView>(entries: &Vec<(String, V)>) -> (r: bool)
    ensures
        r == keys_unique(entries.deep_view()),
{
    let ghost d = entries.deep_view();
    let mut i: usize = 0;
    while i < entries.len()
        invariant
            i <= entries.len(),
            d == entries.deep_view(),
            d.len() == entries.len(),
            forall|a: int, b: int| 0 <= a < b < i ==> d[a].0 != d[b].0,
        decreases entries.len() - i,
    {
        let mut j: usize = 0;
        while j < i
            invariant
                j <= i < entries.len(),
                d == entries.deep_view(),
                d.len() == entries.len(),
                forall|a: int, b: int| 0 <= a < b < i ==> d[a].0 != d[b].0,
                forall|a: int| 0 <= a < j ==> d[a].0 != d[i as int].0,
            decreases i - j,
        {
            assert(d[i as int].0 == entries[i as int].0@);
            assert(d[j as int].0 == entries[j as int].0@);
            if entries[i].0 == entries[j].0 {
                assert(!keys_unique(d)) by {
                    assert(d[j as int].0 == d[i as int].0);
                }
                return false;
            }
            j = j + 1;
        }
        i = i + 1;
    }
    assert forall|a: int, b: int| 0 <= a < d.len() && 0 <= b < d.len() && a != b implies #[trigger] d[a].0
        != #[trigger] d[b].0 by {
        if a > b {
            assert(d[b].0 != d[a].0);
        }
    }
    true
}

/// Whether no address occurs twice in `list`.
fn addresses_distinct(list: &Vec<String>) -> (r: bool)
    ensures
        r == list.deep_view().no_duplicates(),
{
    let ghost d = list.deep_view();
    let mut i: usize = 0;
    while i < list.len()
        invariant
            i <= list.len(),
            d == list.deep_view(),
            d.len() == list.len(),
            forall|a: int, b: int| 0 <= a < b < i ==> d[a] != d[b],
        decreases list.len() - i,
    {
        let mut j: usize = 0;
        while j < i
            invariant
                j <= i < list.len(),
                d == list.deep_view(),
                d.len() == list.len(),
                forall|a: int, b: int| 0 <= a < b < i ==> d[a] != d[b],
                forall|a: int| 0 <= a < j ==> d[a] != d[i as int],
            decreases i - j,
        {
            assert(d[i as int] == list[i as int]@);
            assert(d[j as int] == list[j as int]@);
            if list[i] == list[j] {
                return false;
            }
            j = j + 1;
        }
        i = i + 1;
    }
    assert forall|a: int, b: int| 0 <= a < d.len() && 0 <= b < d.len() && a != b implies d[a] != d[b] by {
        if a > b {
            assert(d[b] != d[a]);
        }
    }
    true
}

/// Whether every vouch list holds no address twice and fits the ledger's
/// limit.
fn vouch_lists_valid(vouches: &Vec<(String, Vec<String>)>) -> (r: bool)
    ensures
        r == forall|i: int|
            0 <= i < vouches.len() ==> (#[trigger] vouches.deep_view()[i]).1.no_duplicates()
                && vouches.deep_view()[i].1.len() <= u32::MAX,
{
    let ghost d = vouches.deep_view();
    let mut i: usize = 0;
    while i < vouches.len()
        invariant
            i <= vouches.len(),
            d == vouches.deep_view(),
            d.len() == vouches.len(),
            forall|a: int|
                0 <= a < i ==> (#[trigger] d[a]).1.no_duplicates() && d[a].1.len() <= u32::MAX,
        decreases vouches.len() - i,
    {
        assert(d[i as int].1 == vouches[i as int].1.deep_view());
        if !addresses_distinct(&vouches[i].1) || vouches[i].1.len() > u32::MAX as usize {
            return false;
        }
        i = i + 1;
    }
    true
}

/// Whether no member has two records for one cycle.
fn records_distinct(cs: &Vec<Contribution>) -> (r: bool)
    ensures
        r == records_unique(cs@.map_values(|c: Contribution| c@)),
{
    let ghost d = cs@.map_values(|c: Contribution| c@);
    let mut i: usize = 0;
    while i < cs.len()
        invariant
            i <= cs.len(),
            d == cs@.map_values(|c: Contribution| c@),
            d.len() == cs.len(),
            forall|a: int, b: int|
                0 <= a < b < i ==> !(d[a].member == d[b].member && d[a].cycle == d[b].cycle),
        decreases cs.len() - i,
    {
        let mut j: usize = 0;
        while j < i
            invariant
                j <= i < cs.len(),
                d == cs@.map_values(|c: Contribution| c@),
                d.len() == cs.len(),
                forall|a: int, b: int|
                    0 <= a < b < i ==> !(d[a].member == d[b].member && d[a].cycle == d[b].cycle),
                forall|a: int| 0 <= a < j ==> !(d[a].member == d[i as int].member && d[a].cycle == d[i as int].cycle),
            decreases i - j,
        {
            assert(d[i as int] == cs[i as int]@);
            assert(d[j as int] == cs[j as int]@);
            if cs[i].cycle == cs[j].cycle && cs[i].member == cs[j].member {
                assert(!records_unique(d)) by {
                    assert(d[j as int].member == d[i as int].member);
                }
                return false;
            }
            j = j + 1;
        }
        i = i + 1;
    }
    assert forall|a: int, b: int|
        0 <= a < d.len() && 0 <= b < d.len() && a != b implies !(#[trigger] d[a].member
        == #[trigger] d[b].member && d[a].cycle == d[b].cycle) by {
        if a > b {
            assert(!(d[b].member == d[a].member && d[b].cycle == d[a].cycle));
        }
    }
    true
}

/// Whether each proposal's id is its position and its tally counts its
/// distinct voters.
fn proposals_valid(proposals: &Vec<Proposal>) -> (r: bool)
    ensures
        r == (proposals.len() <= u32::MAX && forall|i: int|
            0 <= i < proposals.len() ==> (#[trigger] proposals@[i])@.id == i
                && proposals@[i]@.wf()),
{
    if proposals.len() > u32::MAX as usize {
        return false;
    }
    let mut i: usize = 0;
    while i < proposals.len()
        invariant
            i <= proposals.len() <= u32::MAX,
            forall|a: int| 0 <= a < i ==> (#[trigger] proposals@[a])@.id == a && proposals@[a]@.wf(),
        decreases proposals.len() - i,
    {
        let p = &proposals[i];
        if p.id as usize != i {
            return false;
        }
        if p.votes_yes as u64 + p.votes_no as u64 != p.voters.len() as u64 {
            return false;
        }
        if !addresses_distinct(&p.voters) {
            return false;
        }
        i = i + 1;
    }
    true
}

impl TrustCircle {
    /// The storage invariant: no address has two reputation or vouch
    /// entries, and the abstract state keeps its own invariant.
    pub closed spec fn wf(&self) -> bool {
        &&& keys_unique(self.reputation.deep_view())
        &&& keys_unique(self.vouches.deep_view())
        &&& self@.wf()
    }

    /// A well-formed contract's state keeps the state invariant, so the laws
    /// apply to it.
    pub proof fn lemma_state_wf(&self)
        requires
            self.wf(),
        ensures
            self@.wf(),
    {
    }

    /// A contract that holds nothing yet.
    pub fn new() -> (r: TrustCircle)
        ensures
            r.wf(),
            r@ == CircleState::empty(),
    {
        let r = TrustCircle {
            circle: None,
            contributions: Vec::new(),
            reputation: Vec::new(),
            vouches: Vec::new(),
            proposals: Vec::new(),
        };
        assert(r@.contributions =~= Seq::empty());
        assert(r@.reputation =~= Map::empty());
        assert(r@.vouches =~= Map::empty());
        assert(r@.proposals =~= Seq::empty());
        r
    }

    /// Assembles a contract state from its stored parts, or `None` where the
    /// parts break the storage invariant.
    pub fn from_parts(
        circle: Option<Circle>,
        contributions: Vec<Contribution>,
        reputation: Vec<(String, u32)>,
        vouches: Vec<(String, Vec<String>)>,
        proposals: Vec<Proposal>,
    ) -> (r: Option<TrustCircle>)
        ensures
            ({
                let s = CircleState {
                    circle: circle_model(circle),
                    contributions: contributions@.map_values(|c: Contribution| c@),
                    reputation: entries_map(reputation.deep_view()),
                    vouches: entries_map(vouches.deep_view()),
                    proposals: proposals@.map_values(|p: Proposal| p@),
                };
                let valid = keys_unique(reputation.deep_view()) && keys_unique(vouches.deep_view())
                    && s.wf();
                match r {
                    Some(t) => valid && t.wf() && t@ == s,
                    None => !valid,
                }
            }),
    {
        let ghost vd = vouches.deep_view();
        let ghost s = CircleState {
            circle: circle_model(circle),
            contributions: contributions@.map_values(|c: Contribution| c@),
            reputation: entries_map(reputation.deep_view()),
            vouches: entries_map(vouches.deep_view()),
            proposals: proposals@.map_values(|p: Proposal| p@),
        };
        match &circle {
            Some(c) => {
                if c.members.len() > u32::MAX as usize {
                    return None;
                }
            },
            None => {},
        }
        if !records_distinct(&contributions) {
            return None;
        }
        if !keys_distinct(&reputation) || !keys_distinct(&vouches) {
            return None;
        }
        let lists_ok = vouch_lists_valid(&vouches);
        proof {
            if lists_ok {
                assert forall|a: AddressModel| #[trigger] s.vouches.contains_key(a) implies s.vouches[a].no_duplicates()
                    && s.vouches[a].len() <= u32::MAX by {
                    let k = choose|k: int| 0 <= k < vd.len() && #[trigger] vd[k].0 == a;
                    lemma_entry_value(vd, k);
                    assert(vd[k].1.no_duplicates());
                }
            } else {
                let k = choose|k: int|
                    !(0 <= k < vd.len() ==> (#[trigger] vd[k]).1.no_duplicates() && vd[k].1.len()
                        <= u32::MAX);
                lemma_entry_value(vd, k);
                assert(s.vouches.contains_key(vd[k].0));
            }
        }
        if !lists_ok {
            return None;
        }
        let props_ok = proposals_valid(&proposals);
        proof {
            if !props_ok && proposals.len() <= u32::MAX {
                let k = choose|k: int|
                    !(0 <= k < proposals.len() ==> (#[trigger] proposals@[k])@.id == k
                        && proposals@[k]@.wf());
                assert(s.proposals[k] == proposals@[k]@);
            }
        }
        if !props_ok {
            return None;
        }
        let t = TrustCircle { circle, contributions, reputation, vouches, proposals };
        assert(t@ == s);
        Some(t)
    }

    /// The stored circle.
    pub fn stored_circle(&self) -> (r: &Option<Circle>)
        ensures
            circle_model(*r) == self@.circle,
    {
        &self.circle
    }

    /// Every stored contribution record.
    pub fn stored_contributions(&self) -> (r: &Vec<Contribution>)
        ensures
            r@.map_values(|c: Contribution| c@) == self@.contributions,
    {
        &self.contributions
    }

    /// The stored reputation entries, one per address.
    pub fn stored_reputation(&self) -> (r: &Vec<(String, u32)>)
        requires
            self.wf(),
        ensures
            keys_unique(r.deep_view()),
            entries_map(r.deep_view()) == self@.reputation,
    {
        &self.reputation
    }

    /// The stored vouch lists, one per vouched-for address.
    pub fn stored_vouches(&self) -> (r: &Vec<(String, Vec<String>)>)
        requires
            self.wf(),
        ensures
            keys_unique(r.deep_view()),
            entries_map(r.deep_view()) == self@.vouches,
    {
        &self.vouches
    }

    /// The stored proposals, in id order.
    pub fn stored_proposals(&self) -> (r: &Vec<Proposal>)
        ensures
            r@.map_values(|p: Proposal| p@) == self@.proposals,
    {
        &self.proposals
    }

    /// View a member's reputation score, zero where none is stored.
    pub fn get_reputation(&self, member: &String) -> (r: u32)
        requires
            self.wf(),
        ensures
            r == self@.reputation_of(member@),
    {
        score_of(&self.reputation, member)
    }

    /// Whether `member` has contributed in `cycle`.
    pub fn has_contributed(&self, member: &String, cycle: u32) -> (r: bool)
        ensures
            r == self@.has_contributed(member@, cycle),
    {
        find_contribution(&self.contributions, member, cycle)
    }

    /// How many addresses have vouched for `address`.
    pub fn get_vouches(&self, address: &String) -> (r: u32)
        requires
            self.wf(),
        ensures
            r == self@.vouchers_of(address@).len(),
    {
        match find_key(&self.vouches, address) {
            Some(i) => {
                proof {
                    lemma_entry_value(self.vouches.deep_view(), i as int);
                    assert(self.vouches[i as int].1.deep_view().len() == self.vouches[i as int].1.len());
                }
                self.vouches[i].1.len() as u32
            },
            None => 0,
        }
    }

    /// The current circle.
    pub fn get_circle(&self) -> (r: Result<&Circle, CircleError>)
        ensures
            match self@.circle {
                Some(c) => r matches Ok(x) && x@ == c,
                None => r == Err::<&Circle, CircleError>(CircleError::CircleNotFound),
            },
    {
        match &self.circle {
            Some(c) => Ok(c),
            None => Err(CircleError::CircleNotFound),
        }
    }

    /// The proposal with id `proposal_id`.
    pub fn get_proposal(&self, proposal_id: u32) -> (r: Result<&Proposal, CircleError>)
        ensures
            if proposal_id < self@.proposals.len() {
                r matches Ok(p) && p@ == self@.proposals[proposal_id as int]
            } else {
                r == Err::<&Proposal, CircleError>(CircleError::ProposalNotFound)
            },
    {
        if (proposal_id as usize) < self.proposals.len() {
            Ok(&self.proposals[proposal_id as usize])
        } else {
            Err(CircleError::ProposalNotFound)
        }
    }

    /// Create the circle, once, with its members in payout order. The first
    /// cycle ends `cycle_length_secs` after `now`.
    pub fn create_circle(
        &mut self,
        admin: String,
        name: Vec<u8>,
        usdc_token: String,
        members: Vec<String>,
        contribution_amount: i128,
        cycle_length_secs: u64,
        now: u64,
    ) -> (r: Result<(), CircleError>)
        requires
            old(self).wf(),
            members.len() <= u32::MAX,
        ensures
            final(self).wf(),
            final(self)@ == after(
                old(self)@,
                step_create_circle(
                    old(self)@,
                    admin@,
                    name@,
                    usdc_token@,
                    members.deep_view(),
                    contribution_amount,
                    cycle_length_secs,
                    now,
                ),
            ),
            outcome(r) == output(
                step_create_circle(
                    old(self)@,
                    admin@,
                    name@,
                    usdc_token@,
                    members.deep_view(),
                    contribution_amount,
                    cycle_length_secs,
                    now,
                ),
            ),
    {
        if members.len() < 2 {
            return Err(CircleError::NotEnoughMembers);
        }
        if contribution_amount <= 0 {
            return Err(CircleError::NonPositiveContribution);
        }
        if cycle_length_secs < MIN_CYCLE_SECS {
            return Err(CircleError::CycleTooShort);
        }
        if self.circle.is_some() {
            return Err(CircleError::CircleExists);
        }
        let deadline = match now.checked_add(cycle_length_secs) {
            Some(d) => d,
            None => return Err(CircleError::Overflow),
        };
        self.circle = Some(
            Circle {
                name,
                admin,
                usdc_token,
                contribution_amount,
                members,
                current_cycle: 1,
                payout_index: 0,
                cycle_deadline: deadline,
                cycle_length_secs,
                is_active: true,
            },
        );
        self.contributions = Vec::new();
        assert(self@.contributions =~= Seq::empty());
        Ok(())
    }

    /// A member pays the contribution amount for the current cycle. On
    /// success the returned record says what the member owes the contract.
    pub fn contribute(&mut self, member: &String, now: u64) -> (r: Result<Contribution, CircleError>)
        requires
            old(self).wf(),
        ensures
            final(self).wf(),
            final(self)@ == after(old(self)@, step_contribute(old(self)@, member@, now)),
            outcome(r) == output(step_contribute(old(self)@, member@, now)),
    {
        let ghost s = self@;
        let (cycle, amount) = match &self.circle {
            None => return Err(CircleError::CircleNotFound),
            Some(c) => {
                if !c.is_active {
                    return Err(CircleError::CircleNotActive);
                }
                if !contains_address(&c.members, member) {
                    return Err(CircleError::NotMember);
                }
                if now > c.cycle_deadline {
                    return Err(CircleError::DeadlinePassed);
                }
                (c.current_cycle, c.contribution_amount)
            },
        };
        if find_contribution(&self.contributions, member, cycle) {
            return Err(CircleError::AlreadyContributed);
        }
        let score = self.get_reputation(member);
        if score > u32::MAX - CONTRIBUTION_REWARD {
            return Err(CircleError::Overflow);
        }
        self.contributions.push(
            Contribution { member: member.clone(), cycle, amount, timestamp: now },
        );
        set_entry(&mut self.reputation, member, score + CONTRIBUTION_REWARD);
        proof {
            let rec = ContributionModel { member: member@, cycle, amount, timestamp: now };
            assert(self@.contributions =~= s.contributions.push(rec));
            lemma_push_record_unique(s.contributions, rec);
        }
        Ok(Contribution { member: member.clone(), cycle, amount, timestamp: now })
    }

    /// Release the pot of the current cycle, which is every amount paid in
    /// for it, to the member at the payout index. The admin may do so at any
    /// time, a member once the deadline is reached. Every place of the rotation whose holder missed the cycle costs
    /// that holder a penalty, and the rotation advances; the circle closes once
    /// the rotation is back at its first member.
    pub fn release_payout(&mut self, caller: &String, now: u64) -> (r: Result<Payout, CircleError>)
        requires
            old(self).wf(),
        ensures
            final(self).wf(),
            final(self)@ == after(old(self)@, step_release_payout(old(self)@, caller@, now)),
            outcome(r) == output(step_release_payout(old(self)@, caller@, now)),
    {
        let ghost s = self@;
        let (recipient, total, cycle, next_index, deadline) = match &self.circle {
            None => return Err(CircleError::CircleNotFound),
            Some(c) => {
                if !c.is_active {
                    return Err(CircleError::CircleNotActive);
                }
                let is_admin = c.admin == *caller;
                if !is_admin && now < c.cycle_deadline {
                    return Err(CircleError::DeadlineNotReached);
                }
                if !is_admin && !contains_address(&c.members, caller) {
                    return Err(CircleError::NotMember);
                }
                let total = match pot_total(&self.contributions, c.current_cycle) {
                    Some(t) => t,
                    None => return Err(CircleError::Overflow),
                };
                if total <= 0 {
                    return Err(CircleError::NoContributions);
                }
                if c.payout_index as usize >= c.members.len() {
                    return Err(CircleError::RecipientMissing);
                }
                if c.current_cycle == u32::MAX {
                    return Err(CircleError::Overflow);
                }
                let deadline = match now.checked_add(c.cycle_length_secs) {
                    Some(d) => d,
                    None => return Err(CircleError::Overflow),
                };
                let n = c.members.len() as u32;
                let next_index = (c.payout_index + 1) % n;
                let recipient = c.members[c.payout_index as usize].clone();
                assert(recipient@ == c@.members[c.payout_index as int]);
                penalize_missed_places(
                    &mut self.reputation,
                    &c.members,
                    &self.contributions,
                    c.current_cycle,
                );
                (recipient, total, c.current_cycle, next_index, deadline)
            },
        };
        match &mut self.circle {
            Some(c) => {
                c.payout_index = next_index;
                c.current_cycle = cycle + 1;
                c.cycle_deadline = deadline;
                c.is_active = next_index != 0;
            },
            None => {},
        }
        Ok(Payout { recipient, amount: total, cycle, completed: next_index == 0, next_cycle: cycle + 1 })
    }
    /// The admin reopens a closed circle for another rotation, starting again
    /// from the first member; the cycle count carries on. On success returns
    /// the current cycle.
    pub fn restart_circle(&mut self, admin: &String, now: u64) -> (r: Result<u32, CircleError>)
        requires
            old(self).wf(),
        ensures
            final(self).wf(),
            final(self)@ == after(old(self)@, step_restart_circle(old(self)@, admin@, now)),
            outcome(r) == output(step_restart_circle(old(self)@, admin@, now)),
    {
        let (cycle, deadline) = match &self.circle {
            None => return Err(CircleError::CircleNotFound),
            Some(c) => {
                if !(c.admin == *admin) {
                    return Err(CircleError::NotAdmin);
                }
                if c.is_active {
                    return Err(CircleError::CircleStillActive);
                }
                match now.checked_add(c.cycle_length_secs) {
                    Some(d) => (c.current_cycle, d),
                    None => return Err(CircleError::Overflow),
                }
            },
        };
        match &mut self.circle {
            Some(c) => {
                c.is_active = true;
                c.payout_index = 0;
                c.cycle_deadline = deadline;
            },
            None => {},
        }
        Ok(cycle)
    }

    /// `voucher` vouches for `newcomer`. The voucher needs a reputation of at
    /// least fifty and can vouch for a given newcomer only once.
    pub fn vouch(&mut self, voucher: &String, newcomer: &String) -> (r: Result<(), CircleError>)
        requires
            old(self).wf(),
        ensures
            final(self).wf(),
            final(self)@ == after(old(self)@, step_vouch(old(self)@, voucher@, newcomer@)),
            outcome(r) == output(step_vouch(old(self)@, voucher@, newcomer@)),
    {
        let ghost s = self@;
        let ghost d = self.vouches.deep_view();
        if score_of(&self.reputation, voucher) < VOUCH_THRESHOLD {
            return Err(CircleError::InsufficientReputation);
        }
        match find_key(&self.vouches, newcomer) {
            Some(i) => {
                proof {
                    lemma_entry_value(d, i as int);
                }
                if contains_address(&self.vouches[i].1, voucher) {
                    return Err(CircleError::AlreadyVouched);
                }
                if self.vouches[i].1.len() >= u32::MAX as usize {
                    return Err(CircleError::Overflow);
                }
                let ghost list = d[i as int].1;
                let ghost old_entries = self.vouches@;
                assert(self.vouches[i as int].1.deep_view() == list);
                let v = voucher.clone();
                self.vouches[i].1.push(v);
                assert(self.vouches[i as int].1.deep_view() =~= list.push(voucher@));
                assert(forall|j: int|
                    0 <= j < self.vouches.len() && j != i ==> self.vouches@[j] == old_entries[j]);
                proof {
                    assert(self.vouches.deep_view() =~= d.update(
                        i as int,
                        (d[i as int].0, list.push(voucher@)),
                    ));
                    lemma_update_entry(d, i as int, list.push(voucher@));
                }
            },
            None => {
                let mut list: Vec<String> = Vec::new();
                list.push(voucher.clone());
                assert(list.deep_view() =~= seq![voucher@]);
                self.vouches.push((newcomer.clone(), list));
                proof {
                    assert(self.vouches.deep_view() =~= d.push((newcomer@, seq![voucher@])));
                    assert(s.vouchers_of(newcomer@) =~= Seq::<AddressModel>::empty());
                    assert(Seq::<AddressModel>::empty().push(voucher@) =~= seq![voucher@]);
                    lemma_push_entry(d, newcomer@, seq![voucher@]);
                }
            },
        }
        Ok(())
    }

    /// A member opens a proposal; returns its id, which is the number of
    /// proposals opened before it.
    pub fn propose(&mut self, proposer: &String, proposal_type: ProposalType) -> (r: Result<
        u32,
        CircleError,
    >)
        requires
            old(self).wf(),
        ensures
            final(self).wf(),
            final(self)@ == after(
                old(self)@,
                step_propose(old(self)@, proposer@, proposal_type@),
            ),
            outcome(r) == output(step_propose(old(self)@, proposer@, proposal_type@)),
    {
        let ghost s = self@;
        match &self.circle {
            None => return Err(CircleError::CircleNotFound),
            Some(c) => {
                if !contains_address(&c.members, proposer) {
                    return Err(CircleError::ProposerNotMember);
                }
            },
        }
        if self.proposals.len() >= u32::MAX as usize {
            return Err(CircleError::Overflow);
        }
        let id = self.proposals.len() as u32;
        let p = Proposal {
            id,
            proposer: proposer.clone(),
            proposal_type,
            votes_yes: 0,
            votes_no: 0,
            voters: Vec::new(),
            executed: false,
        };
        assert(p@.voters =~= Seq::<AddressModel>::empty());
        self.proposals.push(p);
        assert(self@.proposals =~= s.proposals.push(p@));
        Ok(id)
    }

    /// A member votes yes or no on an open proposal, once.
    pub fn vote(&mut self, voter: &String, proposal_id: u32, vote_yes: bool) -> (r: Result<
        (),
        CircleError,
    >)
        requires
            old(self).wf(),
        ensures
            final(self).wf(),
            final(self)@ == after(
                old(self)@,
                step_vote(old(self)@, voter@, proposal_id, vote_yes),
            ),
            outcome(r) == output(step_vote(old(self)@, voter@, proposal_id, vote_yes)),
    {
        let ghost s = self@;
        match &self.circle {
            None => return Err(CircleError::CircleNotFound),
            Some(c) => {
                if !contains_address(&c.members, voter) {
                    return Err(CircleError::VoterNotMember);
                }
            },
        }
        if proposal_id as usize >= self.proposals.len() {
            return Err(CircleError::ProposalNotFound);
        }
        let idx = proposal_id as usize;
        assert(self.proposals[idx as int]@ == s.proposals[idx as int]);
        if self.proposals[idx].executed {
            return Err(CircleError::ProposalExecuted);
        }
        if contains_address(&self.proposals[idx].voters, voter) {
            return Err(CircleError::AlreadyVoted);
        }
        if vote_yes {
            if self.proposals[idx].votes_yes == u32::MAX {
                return Err(CircleError::Overflow);
            }
            self.proposals[idx].votes_yes = self.proposals[idx].votes_yes + 1;
        } else {
            if self.proposals[idx].votes_no == u32::MAX {
                return Err(CircleError::Overflow);
            }
            self.proposals[idx].votes_no = self.proposals[idx].votes_no + 1;
        }
        let ghost before = self.proposals[idx as int].voters.deep_view();
        self.proposals[idx].voters.push(voter.clone());
        assert(self.proposals[idx as int].voters.deep_view() =~= before.push(voter@));
        assert(self@.proposals =~= s.proposals.update(idx as int, self.proposals[idx as int]@));
        Ok(())
    }

    /// Applies a proposal that has more yes votes than half the members, and
    /// marks it executed.
    pub fn execute_proposal(&mut self, caller: &String, proposal_id: u32) -> (r: Result<
        (),
        CircleError,
    >)
        requires
            old(self).wf(),
        ensures
            final(self).wf(),
            final(self)@ == after(
                old(self)@,
                step_execute_proposal(old(self)@, caller@, proposal_id),
            ),
            outcome(r) == output(step_execute_proposal(old(self)@, caller@, proposal_id)),
    {
        let ghost s = self@;
        let n = match &self.circle {
            None => return Err(CircleError::CircleNotFound),
            Some(c) => c.members.len(),
        };
        if proposal_id as usize >= self.proposals.len() {
            return Err(CircleError::ProposalNotFound);
        }
        let idx = proposal_id as usize;
        assert(self.proposals[idx as int]@ == s.proposals[idx as int]);
        if self.proposals[idx].executed {
            return Err(CircleError::ProposalExecuted);
        }
        if !(self.proposals[idx].votes_yes > (n as u32) / 2) {
            return Err(CircleError::NoMajority);
        }
        match &self.proposals[idx].proposal_type {
            ProposalType::AddMember(_) => {
                if n >= u32::MAX as usize {
                    return Err(CircleError::Overflow);
                }
            },
            _ => {},
        }
        match &mut self.circle {
            Some(c) => {
                match &self.proposals[idx].proposal_type {
                    ProposalType::ChangeAmount(a) => {
                        c.contribution_amount = *a;
                    },
                    ProposalType::ChangeCycleLength(l) => {
                        c.cycle_length_secs = *l;
                    },
                    ProposalType::AddMember(m) => {
                        let ghost before = c.members.deep_view();
                        c.members.push(m.clone());
                        assert(c.members.deep_view() =~= before.push(m@));
                    },
                    ProposalType::RemoveMember(m) => {
                        let kept = remove_address(&c.members, m);
                        c.members = kept;
                    },
                }
            },
            None => {},
        }
        self.proposals[idx].executed = true;
        assert(self@.proposals =~= s.proposals.update(idx as int, self.proposals[idx as int]@));
        Ok(())
    }
}

} // verus!
