//! The matchmaking function: turns the pool of open tickets into match
//! proposals.
//!
//! Tickets are taken in the order the query returned them and cut into
//! consecutive groups of the configured size; each full group becomes one
//! proposed match under a fresh match identifier, and a leftover smaller
//! than one group proposes nothing. The surrounding RPC streaming belongs
//! to the embedding process; the grouping rule itself is verified here.

use vstd::prelude::*;

verus! {

/// One proposed match: a fresh identifier and the tickets it binds.
#[derive(Debug)]
pub struct MatchProposal {
    pub match_id: String,
    pub match_profile: String,
    pub match_function: String,
    pub tickets: Vec<String>,
}

/// The tickets of a run of groups, in order.
pub open spec fn tickets_of_groups(gs: Seq<Vec<String>>) -> Seq<String>
    decreases gs.len(),
{
    if gs.len() == 0 {
        Seq::empty()
    } else {
        tickets_of_groups(gs.drop_last()) + gs.last()@
    }
}

/// The tickets of a run of proposals, in order.
pub open spec fn tickets_of_proposals(ps: Seq<MatchProposal>) -> Seq<String>
    decreases ps.len(),
{
    if ps.len() == 0 {
        Seq::empty()
    } else {
        tickets_of_proposals(ps.drop_last()) + ps.last().tickets@
    }
}

/// Relies on `uuid::Uuid::new_v4` and the `Display` form of a `Uuid`: a
/// fresh random version-4 identifier, rendered hyphenated, which is 36
/// characters. Nothing else can be promised of a random value.
#[verifier::external_body]
pub fn new_match_id() -> (r: String)
    ensures
        r@.len() == 36,
{
    uuid::Uuid::new_v4().to_string()
}

/// Cuts `tickets` into consecutive groups of `group_size`, in order,
/// dropping the leftover shorter than one group.
pub fn group_tickets(tickets: Vec<String>, group_size: usize) -> (r: Vec<Vec<String>>)
    requires
        group_size >= 1,
    ensures
        r@.len() == tickets@.len() as int / group_size as int,
        forall|g: int| 0 <= g < r@.len() ==> (#[trigger] r@[g])@.len() == group_size,
        tickets_of_groups(r@) =~= tickets@.take(r@.len() * group_size as int),
{
    let n = tickets.len();
    let mut groups: Vec<Vec<String>> = Vec::new();
    let mut current: Vec<String> = Vec::new();
    let mut i: usize = 0;
    proof {
        assert(groups@.len() * group_size as int == 0) by (nonlinear_arith)
            requires
                groups@.len() == 0,
        ;
    }
    while i < n
        invariant
            i <= n,
            n == tickets@.len(),
            group_size >= 1,
            current@.len() < group_size,
            i == groups@.len() * group_size as int + current@.len(),
            forall|g: int| 0 <= g < groups@.len() ==> (#[trigger] groups@[g])@.len() == group_size,
            tickets_of_groups(groups@) + current@ =~= tickets@.take(i as int),
        decreases n - i,
    {
        let ghost groups_before = groups@;
        current.push(tickets[i].clone());
        i = i + 1;
        if current.len() == group_size {
            groups.push(current);
            current = Vec::new();
            proof {
                assert(groups@.drop_last() =~= groups_before);
                assert(tickets_of_groups(groups@) =~= tickets_of_groups(groups_before)
                    + groups@.last()@);
                assert((groups_before.len() + 1) * group_size as int == groups_before.len()
                    * group_size as int + group_size as int) by (nonlinear_arith);
            }
        }
        proof {
            assert(tickets@.take(i as int) =~= tickets@.take(i - 1 as int).push(
                tickets@[i - 1 as int],
            ));
        }
    }
    proof {
        assert(n as int == groups@.len() * group_size as int + current@.len());
        vstd::arithmetic::div_mod::lemma_fundamental_div_mod_converse(
            n as int,
            group_size as int,
            groups@.len() as int,
            current@.len() as int,
        );
        assert(tickets@.take(i as int) =~= tickets@);
        assert forall|t: Seq<String>| t =~= tickets_of_groups(groups@) + current@ implies
            tickets_of_groups(groups@) =~= t.take(tickets_of_groups(groups@).len() as int) by {}
        assert(tickets_of_groups(groups@).len() == groups@.len() * group_size as int) by {
            lemma_tickets_of_groups_len(groups@, group_size as int);
        }
    }
    groups
}

/// The length of the tickets of a run of uniformly sized groups.
proof fn lemma_tickets_of_groups_len(gs: Seq<Vec<String>>, group_size: int)
    requires
        forall|g: int| 0 <= g < gs.len() ==> (#[trigger] gs[g])@.len() == group_size,
    ensures
        tickets_of_groups(gs).len() == gs.len() * group_size,
    decreases gs.len(),
{
    if gs.len() == 0 {
    } else {
        lemma_tickets_of_groups_len(gs.drop_last(), group_size);
        assert((gs.len() - 1) * group_size + group_size == gs.len() * group_size)
            by (nonlinear_arith);
    }
}

/// The matchmaking function's configuration: its advertised name and how
/// many tickets make one match.
pub struct MatchMakingFunctionService {
    pub match_function_name: String,
    pub num_matching_members: usize,
}

impl MatchMakingFunctionService {
    /// A matchmaking function that binds `num_matching_members` tickets
    /// into each match it proposes.
    pub fn new(match_function_name: String, num_matching_members: usize) -> (r:
        MatchMakingFunctionService)
        requires
            num_matching_members >= 1,
        ensures
            r.match_function_name == match_function_name,
            r.num_matching_members == num_matching_members,
    {
        MatchMakingFunctionService { match_function_name, num_matching_members }
    }

    /// Proposes matches for one profile: every consecutive full group of
    /// tickets becomes a proposal carrying the profile's name, this
    /// function's name and a fresh 36-character match identifier; leftover
    /// tickets propose nothing.
    pub fn make_matches(&self, match_profile: &String, tickets: Vec<String>) -> (r: Vec<
        MatchProposal,
    >)
        requires
            self.num_matching_members >= 1,
        ensures
            r@.len() == tickets@.len() as int / self.num_matching_members as int,
            forall|g: int|
                0 <= g < r@.len() ==> (#[trigger] r@[g]).match_profile@ == match_profile@
                    && r@[g].match_function@ == self.match_function_name@ && r@[g].tickets@.len()
                    == self.num_matching_members && r@[g].match_id@.len() == 36,
            tickets_of_proposals(r@) =~= tickets@.take(r@.len() * self.num_matching_members as int),
    {
        let ghost total = tickets@;
        let mut groups = group_tickets(tickets, self.num_matching_members);
        let ghost groups0 = groups@;
        let mut proposals: Vec<MatchProposal> = Vec::new();
        while groups.len() > 0
            invariant
                proposals@.len() + groups@.len() == groups0.len(),
                groups@ =~= groups0.skip(proposals@.len() as int),
                forall|p: int|
                    0 <= p < proposals@.len() ==> (#[trigger] proposals@[p]).tickets@
                        == groups0[p]@ && proposals@[p].match_profile@ == match_profile@
                        && proposals@[p].match_function@ == self.match_function_name@
                        && proposals@[p].match_id@.len() == 36,
            decreases groups@.len(),
        {
            let group = groups.remove(0);
            proposals.push(
                MatchProposal {
                    match_id: new_match_id(),
                    match_profile: match_profile.clone(),
                    match_function: self.match_function_name.clone(),
                    tickets: group,
                },
            );
        }
        proof {
            lemma_proposal_tickets(proposals@, groups0);
            assert(tickets_of_proposals(proposals@) =~= tickets_of_groups(groups0));
            assert(tickets_of_groups(groups0) =~= total.take(
                groups0.len() * self.num_matching_members as int,
            ));
        }
        proposals
    }
}

/// Proposals that carry the groups' tickets, in order, carry the same
/// tickets overall.
proof fn lemma_proposal_tickets(ps: Seq<MatchProposal>, gs: Seq<Vec<String>>)
    requires
        ps.len() == gs.len(),
        forall|p: int| 0 <= p < ps.len() ==> (#[trigger] ps[p]).tickets@ == gs[p]@,
    ensures
        tickets_of_proposals(ps) =~= tickets_of_groups(gs),
    decreases ps.len(),
{
    if ps.len() > 0 {
        assert forall|p: int|
            0 <= p < ps.drop_last().len() implies (#[trigger] ps.drop_last()[p]).tickets@
            == gs.drop_last()[p]@ by {
            assert(ps.drop_last()[p] == ps[p]);
        }
        lemma_proposal_tickets(ps.drop_last(), gs.drop_last());
    }
}

} // verus!
