use vstd::prelude::*;

verus! {

/// The views of a sequence of strings.
pub open spec fn str_views(s: Seq<String>) -> Seq<Seq<char>> {
    s.map_values(|x: String| x@)
}

/// Clock reading in milliseconds since the Unix epoch (0 if the clock reads earlier).
#[verifier::external_body]
pub(crate) fn unix_time_ms() -> u64 {
    match std::time::SystemTime::now().duration_since(std::time::UNIX_EPOCH) {
        Ok(d) => d.as_millis() as u64,
        Err(_) => 0,
    }
}

/// Whether `v` holds a string whose view is `x`.
pub fn contains_string(v: &Vec<String>, x: &String) -> (r: bool)
    ensures
        r == str_views(v@).contains(x@),
{
    let mut i: usize = 0;
    while i < v.len()
        invariant
            i <= v.len(),
            forall|j: int| 0 <= j < i ==> v@[j]@ != x@,
        decreases v.len() - i,
    {
        if v[i] == *x {
            assert(str_views(v@)[i as int] == x@);
            return true;
        }
        i = i + 1;
    }
    assert forall|j: int| 0 <= j < str_views(v@).len() implies str_views(v@)[j] != x@ by {}
    false
}

/// Configuration of a quorum: this node and the member nodes.
pub struct QuorumConfig {
    node_id: String,
    nodes: Vec<String>,
}

impl QuorumConfig {
    /// This node's name.
    pub closed spec fn id(&self) -> Seq<char> {
        self.node_id@
    }

    /// The member nodes, each once.
    pub closed spec fn members(&self) -> Seq<Seq<char>> {
        str_views(self.nodes@)
    }

    /// The set of member nodes.
    pub open spec fn node_set(&self) -> Set<Seq<char>> {
        self.members().to_set()
    }

    /// The members hold no duplicate.
    pub closed spec fn wf(&self) -> bool {
        self.members().no_duplicates()
    }

    /// Majority size for `n` members.
    pub open spec fn quorum_of(n: nat) -> nat {
        n / 2 + 1
    }

    /// Create a configuration; duplicate node names are kept once.
    pub fn new(node_id: &str, nodes: Vec<String>) -> (r: Self)
        ensures
            r.wf(),
            r.id() == node_id@,
            r.node_set() == str_views(nodes@).to_set(),
            r.members().len() == r.node_set().len(),
    {
        let mut uniq: Vec<String> = Vec::new();
        let mut i: usize = 0;
        while i < nodes.len()
            invariant
                i <= nodes.len(),
                str_views(uniq@).no_duplicates(),
                str_views(uniq@).to_set() == str_views(nodes@.take(i as int)).to_set(),
            decreases nodes.len() - i,
        {
            let n = nodes[i].clone();
            let ghost before = str_views(uniq@);
            let ghost pre = str_views(nodes@.take(i as int));
            assert(str_views(nodes@.take(i as int + 1)) == pre.push(n@));
            proof {
                pre.lemma_push_to_set_commute(n@);
            }
            if !contains_string(&uniq, &n) {
                uniq.push(n);
                assert(str_views(uniq@) == before.push(nodes@[i as int]@));
                proof {
                    before.lemma_push_to_set_commute(nodes@[i as int]@);
                }
            } else {
                assert(before.to_set().contains(n@));
                assert(pre.to_set().insert(n@) =~= pre.to_set());
            }
            i = i + 1;
        }
        assert(nodes@.take(nodes.len() as int) == nodes@);
        proof {
            str_views(uniq@).unique_seq_to_set();
        }
        QuorumConfig { node_id: node_id.to_owned(), nodes: uniq }
    }

    /// This node's name.
    pub fn node_id(&self) -> (r: &String)
        ensures
            r@ == self.id(),
    {
        &self.node_id
    }

    /// The member nodes.
    pub fn nodes(&self) -> (r: &Vec<String>)
        ensures
            str_views(r@) == self.members(),
    {
        &self.nodes
    }

    /// Majority size: half the members, plus one.
    pub fn quorum_size(&self) -> (r: usize)
        ensures
            r == Self::quorum_of(self.members().len()),
            r == self.members().len() / 2 + 1,
            2 * r > self.members().len(),
            2 * (r - 1) <= self.members().len(),
    {
        proof {
            lemma_quorum_is_least_majority(self.members().len());
        }
        (self.nodes.len() / 2) + 1
    }

    /// Whether `votes` votes reach the majority.
    pub fn has_quorum(&self, votes: usize) -> (r: bool)
        ensures
            r == (votes >= Self::quorum_of(self.members().len())),
            r == (2 * votes > self.members().len()),
    {
        proof {
            lemma_majority_threshold(self.members().len(), votes as nat);
        }
        votes >= self.quorum_size()
    }

    /// Number of member nodes.
    pub fn total_nodes(&self) -> (r: usize)
        ensures
            r == self.members().len(),
    {
        self.nodes.len()
    }

    /// Whether `node_id` is a member.
    pub fn contains_node(&self, node_id: &str) -> (r: bool)
        ensures
            r == self.node_set().contains(node_id@),
    {
        let id: String = node_id.to_owned();
        contains_string(&self.nodes, &id)
    }
}

/// The quorum is the least majority: it is more than half of `n` members, and one vote
/// fewer is not.
pub proof fn lemma_quorum_is_least_majority(n: nat)
    ensures
        2 * QuorumConfig::quorum_of(n) > n,
        2 * (QuorumConfig::quorum_of(n) - 1) <= n,
        QuorumConfig::quorum_of(n) == n / 2 + 1,
{
}

/// A number of votes reaches the quorum of `n` members exactly when it is more than half
/// of them.
pub proof fn lemma_majority_threshold(n: nat, votes: nat)
    ensures
        votes >= QuorumConfig::quorum_of(n) <==> 2 * votes > n,
{
    lemma_quorum_is_least_majority(n);
}

/// Two majorities of the same members share a member: a quorum-based decision can
/// never be taken twice with disjoint support.
pub proof fn lemma_quorums_intersect(cfg: QuorumConfig, a: Set<Seq<char>>, b: Set<Seq<char>>)
    requires
        cfg.wf(),
        a.subset_of(cfg.node_set()),
        b.subset_of(cfg.node_set()),
        a.len() >= QuorumConfig::quorum_of(cfg.members().len()),
        b.len() >= QuorumConfig::quorum_of(cfg.members().len()),
    ensures
        exists|x: Seq<char>| a.contains(x) && b.contains(x),
{
    cfg.members().unique_seq_to_set();
    vstd::set_lib::lemma_len_subset(a, cfg.node_set());
    vstd::set_lib::lemma_len_subset(b, cfg.node_set());
    assert((a + b).subset_of(cfg.node_set()));
    vstd::set_lib::lemma_len_subset(a + b, cfg.node_set());
    vstd::set_lib::lemma_set_intersect_union_lens(a, b);
    assert(a.intersect(b).len() > 0);
    let x = a.intersect(b).choose();
    assert(a.intersect(b).contains(x));
}

} // verus!

verus! {

/// A vote cast by a node.
#[derive(Clone, Copy, Debug, PartialEq, Eq, Structural)]
pub enum Vote {
    Yes,
    No,
    Unknown,
}

/// Role of a node in the election protocol.
#[derive(Clone, Copy, Debug, PartialEq, Eq, Structural)]
pub enum ConsensusState {
    Follower,
    Candidate,
    Leader,
}

/// Why a consensus operation was refused.
#[derive(Clone, Copy, Debug, PartialEq, Eq, Structural)]
pub enum ConsensusError {
    /// The requested term is not above the current term.
    StaleTerm { requested: u64, current: u64 },
    /// The voter is not a member of the quorum.
    UnknownNode,
    /// Only a candidate may become leader.
    NotCandidate,
}

/// The ballot box as a sequence of (node, vote).
pub type Ballots = Seq<(Seq<char>, Vote)>;

pub open spec fn ballot_views(v: Seq<(String, Vote)>) -> Ballots {
    v.map_values(|p: (String, Vote)| (p.0@, p.1))
}

pub open spec fn ballot_keys(b: Ballots) -> Seq<Seq<char>> {
    b.map_values(|p: (Seq<char>, Vote)| p.0)
}

/// Record `v` as the vote of `k`: replace the ballot of `k`, or add one at the end.
pub open spec fn ballots_set(b: Ballots, k: Seq<char>, v: Vote) -> Ballots {
    if ballot_keys(b).contains(k) {
        b.update(ballot_keys(b).index_of(k), (k, v))
    } else {
        b.push((k, v))
    }
}

/// Every ballot back to `Unknown`.
pub open spec fn ballots_reset(b: Ballots) -> Ballots {
    b.map_values(|p: (Seq<char>, Vote)| (p.0, Vote::Unknown))
}

/// Number of `Yes` ballots.
pub open spec fn count_yes(b: Ballots) -> nat
    decreases b.len(),
{
    if b.len() == 0 {
        0
    } else {
        count_yes(b.drop_last()) + if b.last().1 == Vote::Yes { 1nat } else { 0nat }
    }
}

/// A `Yes` ballot for each member is the most `count_yes` can reach.
pub proof fn lemma_count_yes_bounded(b: Ballots)
    ensures
        count_yes(b) <= b.len(),
    decreases b.len(),
{
    if b.len() > 0 {
        lemma_count_yes_bounded(b.drop_last());
    }
}

/// Label of a vote in the summary.
pub open spec fn vote_label(v: Vote) -> Seq<char> {
    match v {
        Vote::Yes => "yes"@,
        Vote::No => "no"@,
        Vote::Unknown => "unknown"@,
    }
}

/// Abstract state of a quorum consensus tracker.
pub struct ConsensusView {
    pub node_id: Seq<char>,
    pub members: Seq<Seq<char>>,
    pub state: ConsensusState,
    pub term: u64,
    pub voted_for: Option<Seq<char>>,
    pub ballots: Ballots,
    pub last_heartbeat: u64,
}

/// Quorum consensus tracker: term, role and the votes of one election.
pub struct QuorumConsensus {
    config: QuorumConfig,
    state: ConsensusState,
    current_term: u64,
    voted_for: Option<String>,
    votes: Vec<(String, Vote)>,
    last_heartbeat: u64,
}

impl View for QuorumConsensus {
    type V = ConsensusView;

    closed spec fn view(&self) -> ConsensusView {
        ConsensusView {
            node_id: self.config.id(),
            members: self.config.members(),
            state: self.state,
            term: self.current_term,
            voted_for: match self.voted_for {
                Some(s) => Some(s@),
                None => None,
            },
            ballots: ballot_views(self.votes@),
            last_heartbeat: self.last_heartbeat,
        }
    }
}

/// Whether more than `timeout_ms` passed from a heartbeat at `last_ms` to `now_ms`.
pub open spec fn timed_out_at(last_ms: u64, now_ms: u64, timeout_ms: u64) -> bool {
    now_ms >= last_ms && now_ms - last_ms > timeout_ms
}

impl QuorumConsensus {
    /// Members hold no duplicate, nor do the voters.
    pub closed spec fn wf(&self) -> bool {
        &&& self.config.wf()
        &&& ballot_keys(ballot_views(self.votes@)).no_duplicates()
    }

    /// The configuration this tracker was built from.
    pub closed spec fn config_spec(&self) -> QuorumConfig {
        self.config
    }

    /// Create a follower at term 0 with an `Unknown` vote for every member.
    pub fn new(config: QuorumConfig) -> (r: Self)
        requires
            config.wf(),
        ensures
            r.wf(),
            r.config_spec() == config,
            r@.node_id == config.id(),
            r@.members == config.members(),
            r@.state == ConsensusState::Follower,
            r@.term == 0,
            r@.voted_for is None,
            r@.ballots == config.members().map_values(|m: Seq<char>| (m, Vote::Unknown)),
            r@.last_heartbeat == 0,
    {
        let mut votes: Vec<(String, Vote)> = Vec::new();
        let nodes = config.nodes();
        let mut i: usize = 0;
        while i < nodes.len()
            invariant
                i <= nodes.len(),
                str_views(nodes@) == config.members(),
                ballot_views(votes@) == config.members().take(i as int).map_values(|m: Seq<char>| (m, Vote::Unknown)),
            decreases nodes.len() - i,
        {
            let n = nodes[i].clone();
            let ghost prev = ballot_views(votes@);
            assert(n@ == config.members()[i as int]);
            votes.push((n, Vote::Unknown));
            assert(ballot_views(votes@) =~= prev.push((config.members()[i as int], Vote::Unknown)));
            assert(config.members().take(i as int + 1) == config.members().take(i as int).push(config.members()[i as int]));
            assert(ballot_views(votes@) =~= config.members().take(i as int + 1).map_values(|m: Seq<char>| (m, Vote::Unknown)));
            i = i + 1;
        }
        assert(config.members().take(nodes.len() as int) == config.members());
        assert(ballot_keys(ballot_views(votes@)) =~= config.members());
        QuorumConsensus {
            config,
            state: ConsensusState::Follower,
            current_term: 0,
            voted_for: None,
            votes,
            last_heartbeat: 0,
        }
    }

    /// The configuration.
    pub fn config(&self) -> (r: &QuorumConfig)
        ensures
            *r == self.config_spec(),
            r.id() == self@.node_id,
            r.members() == self@.members,
    {
        &self.config
    }

    /// Current role.
    pub fn state(&self) -> (r: ConsensusState)
        ensures
            r == self@.state,
    {
        self.state
    }

    /// Current term.
    pub fn current_term(&self) -> (r: u64)
        ensures
            r == self@.term,
    {
        self.current_term
    }

    fn set_ballot(votes: &mut Vec<(String, Vote)>, k: String, v: Vote)
        requires
            ballot_keys(ballot_views(old(votes)@)).no_duplicates(),
        ensures
            ballot_views(final(votes)@) == ballots_set(ballot_views(old(votes)@), k@, v),
            ballot_keys(ballot_views(final(votes)@)).no_duplicates(),
    {
        let ghost b = ballot_views(votes@);
        let mut i: usize = 0;
        while i < votes.len()
            invariant
                i <= votes.len(),
                votes@ == old(votes)@,
                b == ballot_views(votes@),
                ballot_keys(b).no_duplicates(),
                forall|j: int| 0 <= j < i ==> ballot_keys(b)[j] != k@,
            decreases votes.len() - i,
        {
            if votes[i].0 == k {
                proof {
                    assert(ballot_keys(b)[i as int] == k@);
                    assert(ballot_keys(b).contains(k@));
                    let c = ballot_keys(b).index_of(k@);
                    assert(0 <= c < ballot_keys(b).len() && ballot_keys(b)[c] == k@);
                    assert(c == i as int);
                }
                votes.set(i, (k, v));
                assert(ballot_views(votes@) =~= b.update(i as int, (k@, v)));
                assert(ballot_keys(ballot_views(votes@)) =~= ballot_keys(b));
                return;
            }
            i = i + 1;
        }
        assert(!ballot_keys(b).contains(k@));
        votes.push((k, v));
        assert(ballot_views(votes@) =~= b.push((k@, v)));
        assert(ballot_keys(ballot_views(votes@)) =~= ballot_keys(b).push(k@));
    }

    fn reset_votes(&mut self)
        requires
            old(self).wf(),
        ensures
            final(self).wf(),
            final(self)@ == (ConsensusView { ballots: ballots_reset(old(self)@.ballots), ..old(self)@ }),
            final(self).config_spec() == old(self).config_spec(),
    {
        let ghost b = self@.ballots;
        let mut i: usize = 0;
        while i < self.votes.len()
            invariant
                i <= self.votes.len(),
                self.votes.len() == b.len(),
                self.wf(),
                self.config == old(self).config,
                self.state == old(self).state,
                self.current_term == old(self).current_term,
                self.voted_for == old(self).voted_for,
                self.last_heartbeat == old(self).last_heartbeat,
                ballot_keys(ballot_views(self.votes@)) == ballot_keys(b),
                forall|j: int| 0 <= j < i ==> #[trigger] ballot_views(self.votes@)[j] == (b[j].0, Vote::Unknown),
                forall|j: int| i <= j < b.len() ==> #[trigger] ballot_views(self.votes@)[j] == b[j],
            decreases self.votes.len() - i,
        {
            let k = self.votes[i].0.clone();
            let ghost before = ballot_views(self.votes@);
            assert(ballot_keys(before)[i as int] == before[i as int].0);
            assert(ballot_keys(b)[i as int] == b[i as int].0);
            assert(k@ == b[i as int].0);
            self.votes.set(i, (k, Vote::Unknown));
            assert(ballot_views(self.votes@) =~= before.update(i as int, (b[i as int].0, Vote::Unknown)));
            assert(ballot_keys(ballot_views(self.votes@)) =~= ballot_keys(before));
            i = i + 1;
        }
        assert(ballot_views(self.votes@) =~= ballots_reset(b));
    }

    /// Move to a strictly newer term: the vote given and every ballot are cleared.
    pub fn advance_term(&mut self, new_term: u64) -> (r: Result<(), ConsensusError>)
        requires
            old(self).wf(),
        ensures
            final(self).wf(),
            final(self).config_spec() == old(self).config_spec(),
            new_term <= old(self)@.term ==> r == Err::<(), ConsensusError>(ConsensusError::StaleTerm { requested: new_term, current: old(self)@.term })
                && final(self)@ == old(self)@,
            new_term > old(self)@.term ==> r is Ok && final(self)@ == (ConsensusView {
                term: new_term,
                voted_for: None,
                ballots: ballots_reset(old(self)@.ballots),
                ..old(self)@
            }),
    {
        let current = self.current_term;
        if new_term <= current {
            return Err(ConsensusError::StaleTerm { requested: new_term, current });
        }
        self.current_term = new_term;
        self.voted_for = None;
        self.reset_votes();
        Ok(())
    }

    /// Start an election: move to the next term, become candidate and vote for itself.
    /// At the largest term the next term wraps to 0 and is refused as stale.
    pub fn request_votes(&mut self) -> (r: Result<(), ConsensusError>)
        requires
            old(self).wf(),
        ensures
            final(self).wf(),
            final(self).config_spec() == old(self).config_spec(),
            old(self)@.term == u64::MAX ==> r == Err::<(), ConsensusError>(ConsensusError::StaleTerm { requested: 0, current: u64::MAX })
                && final(self)@ == old(self)@,
            old(self)@.term < u64::MAX ==> r is Ok && final(self)@ == (ConsensusView {
                state: ConsensusState::Candidate,
                term: (old(self)@.term + 1) as u64,
                voted_for: Some(old(self)@.node_id),
                ballots: ballots_set(ballots_reset(old(self)@.ballots), old(self)@.node_id, Vote::Yes),
                ..old(self)@
            }),
    {
        let term = self.current_term;
        if term == u64::MAX {
            return Err(ConsensusError::StaleTerm { requested: 0, current: u64::MAX });
        }
        let res = self.advance_term(term + 1);
        match res {
            Ok(()) => {},
            Err(e) => return Err(e),
        }
        self.state = ConsensusState::Candidate;
        let me = self.config.node_id().clone();
        self.voted_for = Some(me.clone());
        Self::set_ballot(&mut self.votes, me, Vote::Yes);
        Ok(())
    }

    /// Record a member's vote; a vote from a non-member is refused.
    pub fn receive_vote(&mut self, from: &str, vote: Vote) -> (r: Result<(), ConsensusError>)
        requires
            old(self).wf(),
        ensures
            final(self).wf(),
            final(self).config_spec() == old(self).config_spec(),
            !old(self).config_spec().node_set().contains(from@) ==> r == Err::<(), ConsensusError>(ConsensusError::UnknownNode)
                && final(self)@ == old(self)@,
            old(self).config_spec().node_set().contains(from@) ==> r is Ok && final(self)@ == (ConsensusView {
                ballots: ballots_set(old(self)@.ballots, from@, vote),
                ..old(self)@
            }),
    {
        if !self.config.contains_node(from) {
            return Err(ConsensusError::UnknownNode);
        }
        let k: String = from.to_owned();
        Self::set_ballot(&mut self.votes, k, vote);
        Ok(())
    }

    /// Number of `Yes` ballots.
    pub fn count_yes_votes(&self) -> (r: usize)
        ensures
            r == count_yes(self@.ballots),
    {
        let ghost b = self@.ballots;
        let mut c: usize = 0;
        let mut i: usize = 0;
        while i < self.votes.len()
            invariant
                i <= self.votes.len(),
                b == ballot_views(self.votes@),
                c == count_yes(b.take(i as int)),
                c <= i,
            decreases self.votes.len() - i,
        {
            assert(b.take(i as int + 1).drop_last() == b.take(i as int));
            if self.votes[i].1 == Vote::Yes {
                c = c + 1;
            }
            i = i + 1;
        }
        assert(b.take(self.votes.len() as int) == b);
        c
    }

    /// Whether the `Yes` ballots reach a majority; a candidate that reaches it becomes leader.
    pub fn check_election_won(&mut self) -> (won: bool)
        requires
            old(self).wf(),
        ensures
            final(self).wf(),
            final(self).config_spec() == old(self).config_spec(),
            won == (count_yes(old(self)@.ballots) >= QuorumConfig::quorum_of(old(self)@.members.len())),
            won == (2 * count_yes(old(self)@.ballots) > old(self)@.members.len()),
            final(self)@ == (ConsensusView {
                state: if won && old(self)@.state == ConsensusState::Candidate {
                    ConsensusState::Leader
                } else {
                    old(self)@.state
                },
                ..old(self)@
            }),
    {
        let yes = self.count_yes_votes();
        let won = self.config.has_quorum(yes);
        if won && self.state == ConsensusState::Candidate {
            self.state = ConsensusState::Leader;
        }
        won
    }

    /// A candidate becomes leader; any other role is refused.
    pub fn become_leader(&mut self) -> (r: Result<(), ConsensusError>)
        requires
            old(self).wf(),
        ensures
            final(self).wf(),
            final(self).config_spec() == old(self).config_spec(),
            old(self)@.state != ConsensusState::Candidate ==> r == Err::<(), ConsensusError>(ConsensusError::NotCandidate)
                && final(self)@ == old(self)@,
            old(self)@.state == ConsensusState::Candidate ==> r is Ok
                && final(self)@ == (ConsensusView { state: ConsensusState::Leader, ..old(self)@ }),
    {
        if self.state != ConsensusState::Candidate {
            return Err(ConsensusError::NotCandidate);
        }
        self.state = ConsensusState::Leader;
        Ok(())
    }

    /// Step down to follower.
    pub fn become_follower(&mut self) -> (r: Result<(), ConsensusError>)
        requires
            old(self).wf(),
        ensures
            final(self).wf(),
            final(self).config_spec() == old(self).config_spec(),
            r is Ok,
            final(self)@ == (ConsensusView { state: ConsensusState::Follower, ..old(self)@ }),
    {
        self.state = ConsensusState::Follower;
        Ok(())
    }

    /// Record that a heartbeat arrived at `now_ms`.
    pub fn heartbeat_received_at(&mut self, now_ms: u64)
        requires
            old(self).wf(),
        ensures
            final(self).wf(),
            final(self).config_spec() == old(self).config_spec(),
            final(self)@ == (ConsensusView { last_heartbeat: now_ms, ..old(self)@ }),
    {
        self.last_heartbeat = now_ms;
    }

    /// Record that a heartbeat arrived now.
    pub fn heartbeat_received(&mut self)
        requires
            old(self).wf(),
        ensures
            final(self).wf(),
            final(self).config_spec() == old(self).config_spec(),
            final(self)@ == (ConsensusView { last_heartbeat: final(self)@.last_heartbeat, ..old(self)@ }),
    {
        let now = unix_time_ms();
        self.heartbeat_received_at(now);
    }

    /// Whether more than `timeout_ms` has passed between the last heartbeat and `now_ms`.
    pub fn election_timeout_elapsed_at(&self, now_ms: u64, timeout_ms: u64) -> (r: bool)
        ensures
            r == (now_ms >= self@.last_heartbeat && now_ms - self@.last_heartbeat > timeout_ms),
    {
        now_ms >= self.last_heartbeat && now_ms - self.last_heartbeat > timeout_ms
    }

    /// Whether more than `timeout_ms` has passed since the last heartbeat, by the clock:
    /// the answer of `election_timeout_elapsed_at` for the clock's reading.
    pub fn election_timeout_elapsed(&self, timeout_ms: u64) -> (r: bool)
        ensures
            exists|now_ms: u64| r == #[trigger] timed_out_at(self@.last_heartbeat, now_ms, timeout_ms),
    {
        let now = unix_time_ms();
        let r = self.election_timeout_elapsed_at(now, timeout_ms);
        assert(r == timed_out_at(self@.last_heartbeat, now, timeout_ms));
        r
    }

    /// Each voter with the label of its vote: "yes", "no" or "unknown".
    pub fn get_vote_summary(&self) -> (r: Vec<(String, String)>)
        ensures
            r@.len() == self@.ballots.len(),
            forall|i: int| 0 <= i < r@.len() ==> (#[trigger] r@[i]).0@ == self@.ballots[i].0
                && r@[i].1@ == vote_label(self@.ballots[i].1),
    {
        let ghost b = self@.ballots;
        let mut out: Vec<(String, String)> = Vec::new();
        let mut i: usize = 0;
        while i < self.votes.len()
            invariant
                i <= self.votes.len(),
                b == ballot_views(self.votes@),
                out@.len() == i,
                forall|j: int| 0 <= j < i ==> (#[trigger] out@[j]).0@ == b[j].0 && out@[j].1@ == vote_label(b[j].1),
            decreases self.votes.len() - i,
        {
            let label = match self.votes[i].1 {
                Vote::Yes => String::from_str("yes"),
                Vote::No => String::from_str("no"),
                Vote::Unknown => String::from_str("unknown"),
            };
            out.push((self.votes[i].0.clone(), label));
            i = i + 1;
        }
        out
    }
}

} // verus!
