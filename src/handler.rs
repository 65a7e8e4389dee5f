//! The race handler's decisions: which upstreams a query goes to, which
//! arriving answer reaches the client, and what is sent when none is
//! acceptable.  The caller performs the queries and the sends and reports
//! each outcome back.
use vstd::prelude::*;
use crate::rules::{DomainRules, RuleSet, rules_match, matches_domain};

verus! {

/// Response code of a successful answer.
pub const NO_ERROR: u16 = 0;

/// Response code of a server failure.
pub const SERV_FAIL: u16 = 2;

/// Response code of a name that does not exist.
pub const NX_DOMAIN: u16 = 3;

/// One configured upstream: its client handle, display name and rule set.
pub struct DnsClientEntry<C> {
    pub client: C,
    pub name: String,
    pub domain_rules: DomainRules,
}

/// The ordered registry of upstreams that queries are raced against.
pub struct RaceHandler<C> {
    pub dns_clients: Vec<DnsClientEntry<C>>,
}

/// Whether a rule set names the query specifically (it has includes and they
/// apply).
pub open spec fn is_specific(r: RuleSet, q: Seq<char>) -> bool {
    r.includes.len() > 0 && rules_match(q, r)
}

/// Indices, in order, of the rule sets that `keep` accepts.
pub open spec fn select(rules: Seq<RuleSet>, keep: spec_fn(RuleSet) -> bool) -> Seq<int>
    decreases rules.len(),
{
    if rules.len() == 0 {
        Seq::empty()
    } else {
        let prev = select(rules.drop_last(), keep);
        if keep(rules.last()) {
            prev.push(rules.len() - 1)
        } else {
            prev
        }
    }
}

/// The upstreams consulted for a query: those whose rules name it
/// specifically, or, when there are none, the universal ones.
pub open spec fn candidates(rules: Seq<RuleSet>, q: Seq<char>) -> Seq<int> {
    let specific = select(rules, |r: RuleSet| is_specific(r, q));
    if specific.len() > 0 {
        specific
    } else {
        select(rules, |r: RuleSet| r.includes.len() == 0)
    }
}

/// Indices as mathematical integers.
pub open spec fn ints(v: Seq<usize>) -> Seq<int> {
    v.map_values(|i: usize| i as int)
}

proof fn lemma_select_step(rules: Seq<RuleSet>, keep: spec_fn(RuleSet) -> bool, i: int)
    requires
        0 <= i < rules.len(),
    ensures
        select(rules.subrange(0, i + 1), keep) == if keep(rules[i]) {
            select(rules.subrange(0, i), keep).push(i)
        } else {
            select(rules.subrange(0, i), keep)
        },
{
    assert(rules.subrange(0, i + 1).drop_last() =~= rules.subrange(0, i));
}

impl<C> RaceHandler<C> {
    /// The rule sets of the registry, in order.
    pub open spec fn rule_sets(&self) -> Seq<RuleSet> {
        self.dns_clients@.map_values(|e: DnsClientEntry<C>| e.domain_rules@)
    }

    /// A handler over the given registry, in its order.
    pub fn new(dns_clients: Vec<DnsClientEntry<C>>) -> (r: Self)
        ensures
            r.dns_clients == dns_clients,
    {
        RaceHandler { dns_clients }
    }

    /// Indices of the upstreams that a query for `query_name` is sent to.
    /// Empty when no upstream is eligible.
    pub fn select_candidates(&self, query_name: &str) -> (r: Vec<usize>)
        ensures
            ints(r@) == candidates(self.rule_sets(), query_name@),
    {
        let ghost rules = self.rule_sets();
        let ghost q = query_name@;
        let ghost spec_keep = |r: RuleSet| is_specific(r, q);
        let ghost univ_keep = |r: RuleSet| r.includes.len() == 0;
        let n = self.dns_clients.len();
        let mut specific: Vec<usize> = Vec::new();
        let mut i: usize = 0;
        while i < n
            invariant
                n == self.dns_clients@.len(),
                rules == self.rule_sets(),
                q == query_name@,
                spec_keep == (|r: RuleSet| is_specific(r, q)),
                i <= n,
                ints(specific@) == select(rules.subrange(0, i as int), spec_keep),
            decreases n - i,
        {
            let rules_i = &self.dns_clients[i].domain_rules;
            proof {
                lemma_select_step(rules, spec_keep, i as int);
                assert(rules[i as int] == rules_i@);
            }
            if rules_i.includes.len() > 0 && matches_domain(query_name, rules_i) {
                specific.push(i);
                assert(ints(specific@) =~= select(rules.subrange(0, i as int), spec_keep).push(i as int));
            }
            i = i + 1;
        }
        assert(rules.subrange(0, n as int) =~= rules);
        if specific.len() > 0 {
            return specific;
        }
        let mut universal: Vec<usize> = Vec::new();
        let mut k: usize = 0;
        while k < n
            invariant
                n == self.dns_clients@.len(),
                rules == self.rule_sets(),
                univ_keep == (|r: RuleSet| r.includes.len() == 0),
                k <= n,
                ints(universal@) == select(rules.subrange(0, k as int), univ_keep),
            decreases n - k,
        {
            let rules_k = &self.dns_clients[k].domain_rules;
            proof {
                lemma_select_step(rules, univ_keep, k as int);
                assert(rules[k as int] == rules_k@);
            }
            if rules_k.includes.len() == 0 {
                universal.push(k);
                assert(ints(universal@) =~= select(rules.subrange(0, k as int), univ_keep).push(k as int));
            }
            k = k + 1;
        }
        universal
    }
}

/// Whether a response code is negative: a server failure or a name that
/// does not exist.  Negative answers are held back while others may come.
pub open spec fn is_negative(code: u16) -> bool {
    code == SERV_FAIL || code == NX_DOMAIN
}

/// The position of the first `c` in `codes`.
pub open spec fn first_index(codes: Seq<u16>, c: u16) -> Option<int>
    decreases codes.len(),
{
    if codes.len() == 0 {
        None
    } else if codes[0] == c {
        Some(0)
    } else {
        match first_index(codes.drop_first(), c) {
            Some(i) => Some(i + 1),
            None => None,
        }
    }
}

/// The recorded answer sent when none was acceptable: the first NXDomain,
/// else the first server failure, else the first answer; none if nothing
/// was recorded.
pub open spec fn fallback_choice(codes: Seq<u16>) -> Option<int> {
    if codes.len() == 0 {
        None
    } else if first_index(codes, NX_DOMAIN) is Some {
        first_index(codes, NX_DOMAIN)
    } else if first_index(codes, SERV_FAIL) is Some {
        first_index(codes, SERV_FAIL)
    } else {
        Some(0)
    }
}

proof fn lemma_first_index_range(codes: Seq<u16>, c: u16)
    ensures
        first_index(codes, c) matches Some(i) ==> 0 <= i < codes.len() && codes[i] == c,
    decreases codes.len(),
{
    if codes.len() > 0 {
        lemma_first_index_range(codes.drop_first(), c);
    }
}

/// Whenever at least one answer was recorded, the fallback picks one of
/// them, so a race that received any answer always has a reply to send.
pub proof fn lemma_fallback_exists(codes: Seq<u16>)
    ensures
        codes.len() > 0 <==> fallback_choice(codes) is Some,
        fallback_choice(codes) matches Some(i) ==> 0 <= i < codes.len(),
{
    lemma_first_index_range(codes, NX_DOMAIN);
    lemma_first_index_range(codes, SERV_FAIL);
}

proof fn lemma_first_index_found(codes: Seq<u16>, c: u16, i: int)
    requires
        0 <= i < codes.len(),
        codes[i] == c,
        forall|j: int| 0 <= j < i ==> codes[j] != c,
    ensures
        first_index(codes, c) == Some(i),
    decreases i,
{
    if i > 0 {
        lemma_first_index_found(codes.drop_first(), c, i - 1);
    }
}

proof fn lemma_first_index_absent(codes: Seq<u16>, c: u16)
    requires
        forall|j: int| 0 <= j < codes.len() ==> codes[j] != c,
    ensures
        first_index(codes, c) is None,
    decreases codes.len(),
{
    if codes.len() > 0 {
        lemma_first_index_absent(codes.drop_first(), c);
    }
}

fn find_code(codes: &Vec<u16>, c: u16) -> (r: Option<usize>)
    ensures
        r matches Some(i) ==> first_index(codes@, c) == Some(i as int),
        r is None ==> first_index(codes@, c) is None,
{
    let mut i: usize = 0;
    while i < codes.len()
        invariant
            i <= codes@.len(),
            forall|j: int| 0 <= j < i ==> codes@[j] != c,
        decreases codes@.len() - i,
    {
        if codes[i] == c {
            proof {
                lemma_first_index_found(codes@, c, i as int);
            }
            return Some(i);
        }
        i = i + 1;
    }
    proof {
        lemma_first_index_absent(codes@, c);
    }
    None
}

/// An answer that an upstream returned: its response code, the message,
/// the upstream's display name and how long it took.
pub struct Arrival<M> {
    pub code: u16,
    pub message: M,
    pub upstream: String,
    pub elapsed_ms: u64,
}

/// The header fields of a reply to the client.
#[derive(Clone, Copy, Debug, PartialEq, Eq, Structural)]
pub struct ReplyHeader {
    pub id: u16,
    pub code: u16,
}

/// The fan-in state of one request: every answer recorded in arrival order,
/// and the code of the answer that reached the client, once one has.
pub struct Race<M> {
    /// The transaction id of the client's request.
    pub request_id: u16,
    /// The answers recorded so far, in arrival order.
    pub arrivals: Vec<Arrival<M>>,
    /// The response code of each recorded answer, in the same order.
    pub codes: Vec<u16>,
    /// The code of the answer that reached the client, once one has.
    pub sent_code: Option<u16>,
}

impl<M> Race<M> {
    /// The codes of the recorded answers always line up with the answers.
    pub open spec fn wf(&self) -> bool {
        &&& self.codes@.len() == self.arrivals@.len()
        &&& forall|i: int| 0 <= i < self.codes@.len() ==> #[trigger] self.codes@[i] == self.arrivals@[i].code
    }

    /// The code that the client's reply carries once the race is over.
    pub open spec fn final_code(&self) -> u16 {
        match self.sent_code {
            Some(c) => c,
            None => SERV_FAIL,
        }
    }

    /// A race for the request with the given transaction id, with nothing
    /// recorded or sent yet.
    pub fn new(request_id: u16) -> (r: Self)
        ensures
            r.wf(),
            r.request_id == request_id,
            r.arrivals@.len() == 0,
            r.sent_code is None,
    {
        Race { request_id, arrivals: Vec::new(), codes: Vec::new(), sent_code: None }
    }

    /// Records an answer as it arrives.  Returns whether it is to be sent
    /// to the client now: only while no reply has reached the client, and
    /// only when its code is not negative.
    pub fn record(&mut self, arrival: Arrival<M>) -> (send_now: bool)
        requires
            old(self).wf(),
        ensures
            final(self).wf(),
            final(self).request_id == old(self).request_id,
            final(self).sent_code == old(self).sent_code,
            final(self).arrivals@ == old(self).arrivals@.push(arrival),
            send_now == (old(self).sent_code is None && !is_negative(arrival.code)),
    {
        let code = arrival.code;
        self.arrivals.push(arrival);
        self.codes.push(code);
        proof {
            let s = &*self;
            assert forall|i: int| 0 <= i < s.codes@.len() implies #[trigger] s.codes@[i]
                == s.arrivals@[i].code by {
                if i < s.codes@.len() - 1 {
                    assert(s.codes@[i] == old(self).codes@[i]);
                }
            }
        }
        self.sent_code.is_none() && code != SERV_FAIL && code != NX_DOMAIN
    }

    /// Notes that the answer at `index` has reached the client.
    pub fn mark_sent(&mut self, index: usize)
        requires
            old(self).wf(),
            index < old(self).arrivals@.len(),
            old(self).sent_code is None,
        ensures
            final(self).wf(),
            final(self).request_id == old(self).request_id,
            final(self).arrivals@ == old(self).arrivals@,
            final(self).sent_code == Some(old(self).arrivals@[index as int].code),
    {
        self.sent_code = Some(self.codes[index]);
    }

    /// The answer to send when the race is over and none has reached the
    /// client: the first NXDomain, else the first server failure, else the
    /// first answer.  None once a reply was sent, or when nothing was
    /// recorded.
    pub fn fallback(&self) -> (r: Option<usize>)
        requires
            self.wf(),
        ensures
            self.sent_code is Some ==> r is None,
            r matches Some(i) ==> i < self.arrivals@.len(),
            self.sent_code is None ==> match r {
                Some(i) => fallback_choice(self.codes@) == Some(i as int),
                None => fallback_choice(self.codes@) is None,
            },
    {
        proof {
            lemma_fallback_exists(self.codes@);
        }
        if self.sent_code.is_some() || self.codes.len() == 0 {
            return None;
        }
        match find_code(&self.codes, NX_DOMAIN) {
            Some(i) => Some(i),
            None => match find_code(&self.codes, SERV_FAIL) {
                Some(i) => Some(i),
                None => Some(0),
            },
        }
    }

    /// The message recorded at `index`, as the upstream returned it: the
    /// reply built from it carries its sections unchanged.
    pub fn message(&self, index: usize) -> (r: &M)
        requires
            index < self.arrivals@.len(),
        ensures
            *r == self.arrivals@[index as int].message,
    {
        &self.arrivals[index].message
    }

    /// The header of the reply that forwards the answer at `index`: the
    /// request's transaction id and that answer's code.
    pub fn reply_header(&self, index: usize) -> (r: ReplyHeader)
        requires
            index < self.arrivals@.len(),
        ensures
            r.id == self.request_id,
            r.code == self.arrivals@[index as int].code,
    {
        ReplyHeader { id: self.request_id, code: self.arrivals[index].code }
    }

    /// The header describing how the request ended: the code of the answer
    /// that reached the client, or a server failure when none did.
    pub fn outcome(&self) -> (r: ReplyHeader)
        ensures
            r.id == self.request_id,
            r.code == self.final_code(),
    {
        match self.sent_code {
            Some(c) => ReplyHeader { id: self.request_id, code: c },
            None => ReplyHeader { id: self.request_id, code: SERV_FAIL },
        }
    }
}

} // verus!
