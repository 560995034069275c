//! The provider-set resolver: a collection of adapters tried in random
//! order until one yields an address or all fail.  The resolver owns the
//! selection policy and the error aggregation; performing one bounded
//! attempt is the caller's part, driven through a `ResolveRun`.

use vstd::prelude::*;

use crate::adapters::DEFAULT_TIMEOUT_MS;
use crate::adapters::ProviderDns;
use crate::adapters::ProviderHttpJson;
use crate::adapters::ProviderHttpPlane;
use crate::address::GlobalAddress;
use crate::error::Error;
use crate::info::ProviderInfo;
use crate::info::ProviderInfoModel;
use crate::info::ProviderInfoProtocol;
use crate::info::ProviderInfoType;

verus! {

broadcast use vstd::seq_lib::group_to_multiset_ensures;

/// One member of a provider set: the adapter matching its descriptor's
/// protocol.
pub enum ProviderEntry {
    HttpPlane(ProviderHttpPlane),
    HttpJson(ProviderHttpJson),
    Dns(ProviderDns),
}

impl ProviderEntry {
    /// The descriptor inside, whichever adapter holds it.
    pub open spec fn info_spec(&self) -> ProviderInfoModel {
        match self {
            ProviderEntry::HttpPlane(p) => p.info@,
            ProviderEntry::HttpJson(p) => p.info@,
            ProviderEntry::Dns(p) => p.info@,
        }
    }

    /// The adapter's timeout in milliseconds.
    pub open spec fn timeout_spec(&self) -> usize {
        match self {
            ProviderEntry::HttpPlane(p) => p.timeout,
            ProviderEntry::HttpJson(p) => p.timeout,
            ProviderEntry::Dns(p) => p.timeout,
        }
    }

    /// The adapter's proxy, as host characters and port.  A DNS adapter
    /// never holds one.
    pub open spec fn proxy_spec(&self) -> Option<(Seq<char>, u16)> {
        match self {
            ProviderEntry::HttpPlane(p) => match p.proxy {
                Some(hp) => Some((hp.0@, hp.1)),
                None => None,
            },
            ProviderEntry::HttpJson(p) => match p.proxy {
                Some(hp) => Some((hp.0@, hp.1)),
                None => None,
            },
            ProviderEntry::Dns(_) => None,
        }
    }

    /// Which adapter variant this entry is.
    pub open spec fn protocol_kind(&self) -> ProviderInfoProtocol {
        match self {
            ProviderEntry::HttpPlane(_) => ProviderInfoProtocol::HttpPlane,
            ProviderEntry::HttpJson(_) => ProviderInfoProtocol::HttpJson,
            ProviderEntry::Dns(_) => ProviderInfoProtocol::Dns,
        }
    }

    /// The provider's name.
    pub fn get_name(&self) -> (r: String)
        ensures
            r@ == self.info_spec().name,
    {
        match self {
            ProviderEntry::HttpPlane(p) => p.info.name.clone(),
            ProviderEntry::HttpJson(p) => p.info.name.clone(),
            ProviderEntry::Dns(p) => p.info.name.clone(),
        }
    }

    /// The provider's address family.
    pub fn get_type(&self) -> (r: ProviderInfoType)
        ensures
            r == self.info_spec().ptype,
    {
        match self {
            ProviderEntry::HttpPlane(p) => p.info.ptype,
            ProviderEntry::HttpJson(p) => p.info.ptype,
            ProviderEntry::Dns(p) => p.info.ptype,
        }
    }

    /// The adapter's timeout in milliseconds.
    pub fn timeout(&self) -> (r: usize)
        ensures
            r == self.timeout_spec(),
    {
        match self {
            ProviderEntry::HttpPlane(p) => p.timeout,
            ProviderEntry::HttpJson(p) => p.timeout,
            ProviderEntry::Dns(p) => p.timeout,
        }
    }

    /// The entry with its timeout replaced; everything else is kept.
    pub fn with_timeout(self, timeout: usize) -> (r: ProviderEntry)
        ensures
            r.protocol_kind() == self.protocol_kind(),
            r.info_spec() == self.info_spec(),
            r.proxy_spec() == self.proxy_spec(),
            r.timeout_spec() == timeout,
    {
        match self {
            ProviderEntry::HttpPlane(p) => ProviderEntry::HttpPlane(
                ProviderHttpPlane { timeout, ..p },
            ),
            ProviderEntry::HttpJson(p) => ProviderEntry::HttpJson(
                ProviderHttpJson { timeout, ..p },
            ),
            ProviderEntry::Dns(p) => ProviderEntry::Dns(ProviderDns { timeout, ..p }),
        }
    }

    /// The entry with its proxy set; a DNS entry accepts the call but
    /// ignores it.  Everything else is kept.
    pub fn with_proxy(self, host: &str, port: u16) -> (r: ProviderEntry)
        ensures
            r.protocol_kind() == self.protocol_kind(),
            r.info_spec() == self.info_spec(),
            r.timeout_spec() == self.timeout_spec(),
            self.protocol_kind() == ProviderInfoProtocol::Dns ==> r.proxy_spec() is None,
            self.protocol_kind() != ProviderInfoProtocol::Dns ==> r.proxy_spec() == Some(
                (host@, port),
            ),
    {
        match self {
            ProviderEntry::HttpPlane(p) => ProviderEntry::HttpPlane(
                ProviderHttpPlane { proxy: Some((String::from_str(host), port)), ..p },
            ),
            ProviderEntry::HttpJson(p) => ProviderEntry::HttpJson(
                ProviderHttpJson { proxy: Some((String::from_str(host), port)), ..p },
            ),
            ProviderEntry::Dns(p) => ProviderEntry::Dns(p),
        }
    }
}

/// What `ProviderInfo::create` hands back: an adapter of the descriptor's
/// protocol over exactly that descriptor, with the default timeout and no
/// proxy.
pub open spec fn created_entry(m: ProviderInfoModel, e: ProviderEntry) -> bool {
    e.info_spec() == m && e.timeout_spec() == DEFAULT_TIMEOUT_MS && e.proxy_spec() is None
        && e.protocol_kind() == m.protocol
}

impl ProviderInfo {
    /// Wraps the descriptor in the adapter its protocol calls for.
    pub fn create(self) -> (r: ProviderEntry)
        ensures
            created_entry(self@, r),
    {
        match self.protocol {
            ProviderInfoProtocol::HttpPlane => {
                let mut p = ProviderHttpPlane::new();
                p.info = self;
                ProviderEntry::HttpPlane(p)
            },
            ProviderInfoProtocol::HttpJson => {
                let mut p = ProviderHttpJson::new();
                p.info = self;
                ProviderEntry::HttpJson(p)
            },
            ProviderInfoProtocol::Dns => {
                let mut p = ProviderDns::new();
                p.info = self;
                ProviderEntry::Dns(p)
            },
        }
    }
}

// ------------------------------------------------------------------
// The provider set
// ------------------------------------------------------------------

/// Tries multiple providers until one answers.
pub struct ProviderAny {
    /// The member adapters.
    pub providers: Vec<ProviderEntry>,
    /// The address family resolution asks for; members of the other
    /// family stay in the set but sit out.
    pub ptype: ProviderInfoType,
}

/// `b` is `a` with only its timeout changed, to `t`.
pub open spec fn entry_retimed(a: ProviderEntry, b: ProviderEntry, t: usize) -> bool {
    b.protocol_kind() == a.protocol_kind() && b.info_spec() == a.info_spec() && b.proxy_spec()
        == a.proxy_spec() && b.timeout_spec() == t
}

/// `b` is `a` with only its proxy changed, to `host:port`; a DNS entry
/// keeps having none.
pub open spec fn entry_reproxied(
    a: ProviderEntry,
    b: ProviderEntry,
    host: Seq<char>,
    port: u16,
) -> bool {
    b.protocol_kind() == a.protocol_kind() && b.info_spec() == a.info_spec() && b.timeout_spec()
        == a.timeout_spec() && (if a.protocol_kind() == ProviderInfoProtocol::Dns {
        b.proxy_spec() is None
    } else {
        b.proxy_spec() == Some((host, port))
    })
}

/// The indices of the first `i` members whose family is `fam`, in member
/// order.
pub open spec fn spec_candidates(
    ps: Seq<ProviderEntry>,
    fam: ProviderInfoType,
    i: int,
) -> Seq<usize>
    decreases i,
{
    if i <= 0 {
        Seq::<usize>::empty()
    } else {
        let rest = spec_candidates(ps, fam, i - 1);
        if ps[i - 1].info_spec().ptype == fam {
            rest.push((i - 1) as usize)
        } else {
            rest
        }
    }
}

/// Every candidate index is in range and names a member of the requested
/// family.
pub proof fn lemma_candidates_valid(ps: Seq<ProviderEntry>, fam: ProviderInfoType, i: int)
    requires
        0 <= i <= ps.len(),
        ps.len() <= usize::MAX,
    ensures
        forall|k: int|
            0 <= k < spec_candidates(ps, fam, i).len() ==> (spec_candidates(ps, fam, i)[k] as int)
                < i && ps[spec_candidates(ps, fam, i)[k] as int].info_spec().ptype == fam,
    decreases i,
{
    if i > 0 {
        lemma_candidates_valid(ps, fam, i - 1);
        let rest = spec_candidates(ps, fam, i - 1);
        let cur = spec_candidates(ps, fam, i);
        assert forall|k: int| 0 <= k < cur.len() implies (cur[k] as int) < i && ps[cur[k] as int].info_spec().ptype
            == fam by {
            if ps[i - 1].info_spec().ptype == fam {
                assert(cur == rest.push((i - 1) as usize));
                if k < rest.len() {
                    assert(cur[k] == rest[k]);
                } else {
                    assert(cur[k] == (i - 1) as usize);
                }
            } else {
                assert(cur == rest);
            }
        }
    }
}

/// Relies on rand::seq::SliceRandom::shuffle, seeded from rand::thread_rng:
/// a Fisher-Yates shuffle permutes the slice in place, so the new order
/// holds exactly the old elements; which order comes out depends on the
/// thread's generator, and nothing more is promised of it.
#[verifier::external_body]
fn shuffle_order(v: &mut Vec<usize>)
    ensures
        final(v)@.to_multiset() == old(v)@.to_multiset(),
        final(v)@.len() == old(v)@.len(),
{
    rand::seq::SliceRandom::shuffle(v.as_mut_slice(), &mut rand::thread_rng());
}

impl ProviderAny {
    /// An empty set asking for IPv4.
    pub fn new() -> (r: ProviderAny)
        ensures
            r.providers@.len() == 0,
            r.ptype == ProviderInfoType::IPv4,
    {
        ProviderAny { providers: Vec::new(), ptype: ProviderInfoType::IPv4 }
    }

    /// Builds the set from a configuration text: one adapter per parsed
    /// descriptor, in the text's order, each with the default timeout and
    /// no proxy; the set asks for IPv4 until told otherwise.  Success and
    /// failure follow `spec_parse_config` exactly.
    pub fn from_toml(s: &str) -> (r: Result<ProviderAny, Error>)
        ensures
            r is Ok <==> crate::config::spec_parse_config(s@) is Ok,
            r matches Ok(p) ==> (crate::config::spec_parse_config(s@) matches Ok(ms)
                && p.ptype == ProviderInfoType::IPv4 && p.providers@.len() == ms.len() && (forall|
                i: int,
            | 0 <= i < ms.len() ==> created_entry(ms[i], p.providers@[i]))),
            r matches Err(e) ==> (e matches Error::ConfigParse { line }
                && crate::config::spec_parse_config(s@) == Err::<Seq<ProviderInfoModel>, int>(
                line as int,
            )),
    {
        let list = match crate::config::ProviderInfoList::from_toml(s) {
            Err(e) => {
                return Err(e);
            },
            Ok(list) => list,
        };
        let ghost ms = list@;
        let mut infos = list.providers;
        let mut providers: Vec<ProviderEntry> = Vec::new();
        while infos.len() > 0
            invariant
                providers@.len() + infos@.len() == ms.len(),
                forall|i: int|
                    0 <= i < infos@.len() ==> infos@[i]@ == ms[providers@.len() + i],
                forall|i: int| 0 <= i < providers@.len() ==> created_entry(ms[i], providers@[i]),
            decreases infos@.len(),
        {
            let info = infos.remove(0);
            providers.push(info.create());
        }
        Ok(ProviderAny { providers, ptype: ProviderInfoType::IPv4 })
    }

    /// The resolver's own name.
    pub fn get_name(&self) -> (r: String)
        ensures
            r@ == "any"@,
    {
        String::from_str("any")
    }

    /// The family the set currently asks for.
    pub fn get_type(&self) -> (r: ProviderInfoType)
        ensures
            r == self.ptype,
    {
        self.ptype
    }

    /// Sets the timeout of every member uniformly; it governs each
    /// member's next attempt.
    pub fn set_timeout(&mut self, timeout: usize)
        ensures
            final(self).ptype == old(self).ptype,
            final(self).providers@.len() == old(self).providers@.len(),
            forall|i: int|
                0 <= i < old(self).providers@.len() ==> entry_retimed(
                    old(self).providers@[i],
                    final(self).providers@[i],
                    timeout,
                ),
    {
        let ghost orig = self.providers@;
        let mut out: Vec<ProviderEntry> = Vec::new();
        while self.providers.len() > 0
            invariant
                orig == old(self).providers@,
                self.ptype == old(self).ptype,
                self.providers@ == orig.subrange(out@.len() as int, orig.len() as int),
                out@.len() <= orig.len(),
                forall|i: int| 0 <= i < out@.len() ==> entry_retimed(orig[i], out@[i], timeout),
            decreases self.providers@.len(),
        {
            let p = self.providers.remove(0);
            out.push(p.with_timeout(timeout));
            proof {
                assert(self.providers@ =~= orig.subrange(out@.len() as int, orig.len() as int));
            }
        }
        self.providers = out;
    }

    /// Sets the proxy of every member uniformly; DNS members accept and
    /// ignore it.  It governs each member's next attempt.
    pub fn set_proxy(&mut self, host: &str, port: u16)
        ensures
            final(self).ptype == old(self).ptype,
            final(self).providers@.len() == old(self).providers@.len(),
            forall|i: int|
                0 <= i < old(self).providers@.len() ==> entry_reproxied(
                    old(self).providers@[i],
                    final(self).providers@[i],
                    host@,
                    port,
                ),
    {
        let ghost orig = self.providers@;
        let mut out: Vec<ProviderEntry> = Vec::new();
        while self.providers.len() > 0
            invariant
                orig == old(self).providers@,
                self.ptype == old(self).ptype,
                self.providers@ == orig.subrange(out@.len() as int, orig.len() as int),
                out@.len() <= orig.len(),
                forall|i: int|
                    0 <= i < out@.len() ==> entry_reproxied(orig[i], out@[i], host@, port),
            decreases self.providers@.len(),
        {
            let p = self.providers.remove(0);
            out.push(p.with_proxy(host, port));
            proof {
                assert(self.providers@ =~= orig.subrange(out@.len() as int, orig.len() as int));
            }
        }
        self.providers = out;
    }

    /// Each member's name and family, in member order.  No network
    /// activity.
    pub fn list_providers(&self) -> (r: Vec<(String, ProviderInfoType)>)
        ensures
            r@.len() == self.providers@.len(),
            forall|i: int|
                0 <= i < r@.len() ==> r@[i].0@ == self.providers@[i].info_spec().name && r@[i].1
                    == self.providers@[i].info_spec().ptype,
    {
        let mut r: Vec<(String, ProviderInfoType)> = Vec::new();
        let mut i: usize = 0;
        while i < self.providers.len()
            invariant
                0 <= i <= self.providers@.len(),
                r@.len() == i,
                forall|j: int|
                    0 <= j < i ==> r@[j].0@ == self.providers@[j].info_spec().name && r@[j].1
                        == self.providers@[j].info_spec().ptype,
            decreases self.providers@.len() - i,
        {
            let p = &self.providers[i];
            r.push((p.get_name(), p.get_type()));
            i = i + 1;
        }
        r
    }

    /// The members of the requested family, in member order.
    pub fn candidate_indices(&self) -> (r: Vec<usize>)
        ensures
            r@ == spec_candidates(self.providers@, self.ptype, self.providers@.len() as int),
    {
        let mut r: Vec<usize> = Vec::new();
        let mut i: usize = 0;
        while i < self.providers.len()
            invariant
                0 <= i <= self.providers@.len(),
                r@ == spec_candidates(self.providers@, self.ptype, i as int),
            decreases self.providers@.len() - i,
        {
            if self.providers[i].get_type() == self.ptype {
                r.push(i);
            }
            i = i + 1;
        }
        r
    }

    /// The order one resolution call will try the members of the
    /// requested family: a permutation of the candidate indices, freshly
    /// shuffled so no run prefers a fixed member.
    pub fn resolution_order(&self) -> (r: Vec<usize>)
        ensures
            r@.to_multiset() == spec_candidates(
                self.providers@,
                self.ptype,
                self.providers@.len() as int,
            ).to_multiset(),
            r@.len() == spec_candidates(
                self.providers@,
                self.ptype,
                self.providers@.len() as int,
            ).len(),
            forall|k: int|
                0 <= k < r@.len() ==> (r@[k] as int) < self.providers@.len()
                    && self.providers@[r@[k] as int].info_spec().ptype == self.ptype,
    {
        let ghost cands = spec_candidates(
            self.providers@,
            self.ptype,
            self.providers@.len() as int,
        );
        let mut order = self.candidate_indices();
        shuffle_order(&mut order);
        proof {
            assert(self.providers@.len() == self.providers.len());
            lemma_candidates_valid(self.providers@, self.ptype, self.providers@.len() as int);
            assert forall|k: int| 0 <= k < order@.len() implies (order@[k] as int)
                < self.providers@.len() && self.providers@[order@[k] as int].info_spec().ptype
                == self.ptype by {
                let x = order@[k];
                assert(order@.to_multiset().contains(x));
                assert(cands.to_multiset().contains(x));
                assert(cands.contains(x));
                let j = choose|j: int| 0 <= j < cands.len() && cands[j] == x;
                assert((x as int) < self.providers@.len() && self.providers@[x as int].info_spec().ptype
                    == self.ptype);
            }
        }
        order
    }

    /// Opens one resolution call: the candidates of the requested family
    /// in this call's randomized order, no attempts made yet.
    pub fn start_resolve(&self) -> (r: ResolveRun)
        ensures
            r.wf(),
            r.next == 0,
            r.errors@.len() == 0,
            r.order@.to_multiset() == spec_candidates(
                self.providers@,
                self.ptype,
                self.providers@.len() as int,
            ).to_multiset(),
            r.order@.len() == spec_candidates(
                self.providers@,
                self.ptype,
                self.providers@.len() as int,
            ).len(),
            forall|k: int|
                0 <= k < r.order@.len() ==> (r.order@[k] as int) < self.providers@.len()
                    && self.providers@[r.order@[k] as int].info_spec().ptype == self.ptype,
    {
        ResolveRun { order: self.resolution_order(), next: 0, errors: Vec::new() }
    }
}

// ------------------------------------------------------------------
// One resolution call
// ------------------------------------------------------------------

/// The progress of one resolution call: which candidates remain, and the
/// failures seen so far, in attempt order.  The caller asks for the next
/// candidate, performs the bounded attempt, and reports the outcome;
/// the first success ends the run, and exhaustion aggregates the errors.
pub struct ResolveRun {
    /// Candidate member indices, fixed at the start of the call.
    pub order: Vec<usize>,
    /// Position of the next candidate to try.
    pub next: usize,
    /// One error per failed attempt so far.
    pub errors: Vec<Error>,
}

impl ResolveRun {
    /// One error has been recorded per attempted candidate.
    pub open spec fn wf(&self) -> bool {
        self.next as int == self.errors@.len() && self.next <= self.order@.len()
    }

    /// The member to try next, or `None` when every candidate has been
    /// attempted.
    pub fn next_candidate(&self) -> (r: Option<usize>)
        ensures
            (self.next as int) < self.order@.len() ==> r == Some(self.order@[self.next as int]),
            (self.next as int) >= self.order@.len() ==> r is None,
    {
        if self.next < self.order.len() {
            Some(self.order[self.next])
        } else {
            None
        }
    }

    /// Records that the current candidate's attempt failed with `e` and
    /// moves on to the next.
    pub fn record_failure(&mut self, e: Error)
        requires
            old(self).wf(),
            (old(self).next as int) < old(self).order@.len(),
        ensures
            final(self).wf(),
            final(self).order == old(self).order,
            final(self).next == old(self).next + 1,
            final(self).errors@ == old(self).errors@.push(e),
    {
        self.errors.push(e);
        self.next = self.errors.len();
    }

    /// Closes an exhausted run: every candidate failed, and the aggregate
    /// carries their errors in attempt order, one per filtered member.
    pub fn all_failed(self) -> (r: Error)
        requires
            self.wf(),
            self.next as int == self.order@.len(),
        ensures
            r matches Error::AllProvidersFailed { errors } && errors@ == self.errors@
                && errors@.len() == self.order@.len(),
    {
        Error::AllProvidersFailed { errors: self.errors }
    }
}

// ------------------------------------------------------------------
// The resolution outcome as a value
// ------------------------------------------------------------------

/// Index of the first successful outcome at or after `i`; the length when
/// every attempt failed.
pub open spec fn first_success(outcomes: Seq<Result<GlobalAddress, Error>>, i: int) -> int
    decreases outcomes.len() - i when 0 <= i <= outcomes.len()
{
    if i >= outcomes.len() {
        i
    } else if outcomes[i] is Ok {
        i
    } else {
        first_success(outcomes, i + 1)
    }
}

/// `first_success` stays in range, lands on a success when one exists,
/// and everything before it failed.
pub proof fn lemma_first_success_props(outcomes: Seq<Result<GlobalAddress, Error>>, i: int)
    requires
        0 <= i <= outcomes.len(),
    ensures
        i <= first_success(outcomes, i) <= outcomes.len(),
        first_success(outcomes, i) < outcomes.len() ==> outcomes[first_success(outcomes, i)] is Ok,
        forall|j: int| i <= j < first_success(outcomes, i) ==> outcomes[j] is Err,
    decreases outcomes.len() - i,
{
    if i < outcomes.len() && !(outcomes[i] is Ok) {
        lemma_first_success_props(outcomes, i + 1);
    }
}

/// The resolver's decision on a transcript of attempt outcomes, one per
/// candidate in attempt order: the first success wins and later attempts
/// are never consulted; with no success the aggregate failure carries
/// every error in order.
#[verifier::loop_isolation(false)]
pub fn resolve_from_outcomes(outcomes: Vec<Result<GlobalAddress, Error>>) -> (r: Result<
    GlobalAddress,
    Error,
>)
    ensures
        ({
            let k = first_success(outcomes@, 0);
            &&& (k < outcomes@.len() ==> r == outcomes@[k])
            &&& (k == outcomes@.len() ==> (r matches Err(e) && e matches Error::AllProvidersFailed {
                errors,
            } && errors@.len() == outcomes@.len() && (forall|j: int|
                0 <= j < outcomes@.len() ==> errors@[j] == outcomes@[j]->Err_0)))
        }),
{
    let ghost orig = outcomes@;
    let mut rest = outcomes;
    let mut errors: Vec<Error> = Vec::new();
    while rest.len() > 0
        invariant
            rest@ == orig.subrange(errors@.len() as int, orig.len() as int),
            errors@.len() <= orig.len(),
            errors_match(orig, errors@),
            first_success(orig, 0) == first_success(orig, errors@.len() as int),
        decreases rest@.len(),
    {
        let ghost i = errors@.len() as int;
        let o = rest.remove(0);
        proof {
            assert(o == orig[i]);
        }
        match o {
            Ok(g) => {
                proof {
                    assert(first_success(orig, i) == i);
                    assert(o == Ok::<GlobalAddress, Error>(g));
                    assert(Ok::<GlobalAddress, Error>(g) == orig[first_success(orig, 0)]);
                }
                return Ok(g);
            },
            Err(e) => {
                let ghost e0 = errors@;
                errors.push(e);
                proof {
                    assert(orig[i] is Err);
                    assert(orig[i]->Err_0 == e);
                    lemma_errors_match_push(orig, e0, e);
                    assert(errors@ == e0.push(e));
                    assert(rest@ =~= orig.subrange(errors@.len() as int, orig.len() as int));
                    assert(first_success(orig, i) == first_success(orig, i + 1));
                }
            },
        }
    }
    proof {
        assert(errors@.len() == orig.len());
        assert(first_success(orig, orig.len() as int) == orig.len());
        assert forall|j: int| 0 <= j < orig.len() implies errors@[j] == orig[j]->Err_0 by {
            lemma_errors_match_index(orig, errors@, j);
        }
    }
    Err(Error::AllProvidersFailed { errors })
}

/// The errors collected so far match the failed prefix of the transcript,
/// one per attempt, in order.
pub open spec fn errors_match(orig: Seq<Result<GlobalAddress, Error>>, errs: Seq<Error>) -> bool
    decreases errs.len(),
{
    if errs.len() == 0 {
        true
    } else {
        let n = errs.len() - 1;
        errors_match(orig, errs.drop_last()) && n < orig.len() && orig[n] is Err && errs[n]
            == orig[n]->Err_0
    }
}

proof fn lemma_errors_match_push(orig: Seq<Result<GlobalAddress, Error>>, errs: Seq<Error>, e: Error)
    requires
        errors_match(orig, errs),
        errs.len() < orig.len(),
        orig[errs.len() as int] is Err,
        orig[errs.len() as int]->Err_0 == e,
    ensures
        errors_match(orig, errs.push(e)),
{
    assert(errs.push(e).drop_last() =~= errs);
    assert(errs.push(e)[errs.len() as int] == e);
}

proof fn lemma_errors_match_index(orig: Seq<Result<GlobalAddress, Error>>, errs: Seq<Error>, j: int)
    requires
        errors_match(orig, errs),
        0 <= j < errs.len(),
    ensures
        orig[j] is Err,
        errs[j] == orig[j]->Err_0,
    decreases errs.len(),
{
    if j < errs.len() - 1 {
        lemma_errors_match_index(orig, errs.drop_last(), j);
        assert(errs.drop_last()[j] == errs[j]);
    }
}

/// Whether `g` is a usable answer for the requested family: an address of
/// that family, not the zero address, the other family empty.
pub open spec fn usable_for(g: GlobalAddress, fam: ProviderInfoType) -> bool {
    match fam {
        ProviderInfoType::IPv4 => g.v4addr matches Some(a) && a.bits != 0 && g.v6addr is None,
        ProviderInfoType::IPv6 => g.v6addr matches Some(a) && a.bits != 0 && g.v4addr is None,
    }
}

/// Law: an address an adapter extracted for its descriptor's family is a
/// usable answer for that family whenever its value is not the zero
/// address: the family matches and the other family is empty.
pub proof fn lemma_extracted_address_usable(
    g: GlobalAddress,
    ptype: ProviderInfoType,
    bits: int,
)
    requires
        crate::adapters::spec_address_fields(g, ptype, bits),
        bits != 0,
    ensures
        usable_for(g, ptype),
{
}

/// Law: when at least one attempt succeeds and every success is a usable
/// address of the requested family, resolution returns the first success —
/// an address of that family, never the zero address — and no attempt
/// before it succeeded.
pub proof fn lemma_resolve_first_success(
    outcomes: Seq<Result<GlobalAddress, Error>>,
    fam: ProviderInfoType,
)
    requires
        exists|i: int| 0 <= i < outcomes.len() && outcomes[i] is Ok,
        forall|i: int|
            0 <= i < outcomes.len() && outcomes[i] is Ok ==> usable_for(outcomes[i]->Ok_0, fam),
    ensures
        0 <= first_success(outcomes, 0) < outcomes.len(),
        outcomes[first_success(outcomes, 0)] is Ok,
        usable_for(outcomes[first_success(outcomes, 0)]->Ok_0, fam),
        forall|j: int| 0 <= j < first_success(outcomes, 0) ==> outcomes[j] is Err,
{
    let w = choose|i: int| 0 <= i < outcomes.len() && outcomes[i] is Ok;
    lemma_first_success_props(outcomes, 0);
    if first_success(outcomes, 0) == outcomes.len() {
        assert(outcomes[w] is Err);
    }
}

/// Law: when every attempt fails, resolution reaches no success at all,
/// so the aggregate failure carries exactly one error per attempted
/// candidate.
pub proof fn lemma_resolve_all_failed(outcomes: Seq<Result<GlobalAddress, Error>>)
    requires
        forall|i: int| 0 <= i < outcomes.len() ==> outcomes[i] is Err,
    ensures
        first_success(outcomes, 0) == outcomes.len(),
{
    lemma_first_success_props(outcomes, 0);
    if first_success(outcomes, 0) < outcomes.len() {
        assert(outcomes[first_success(outcomes, 0)] is Err);
    }
}

} // verus!
