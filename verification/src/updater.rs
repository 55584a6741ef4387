//! The per-domain updater state machine. An updater is Uninitialized until
//! one fetched record is stored, and Ready from then on. A cycle plans at
//! most one remote write, writes only when the fetched address differs from
//! the cached record's content, and replaces the cache only on a confirmed
//! answer. The transport that performs the fetches runs outside the library
//! and hands their results to the step functions here.

use vstd::prelude::*;

use crate::api::{RecordDetails, UpdateRequest};
use crate::error::{uninitialized_chars, Error};
use crate::ip::{ip_chars, ip_string, IpAddress};
use crate::source::IpSourceKind;
use crate::text::append_str;

verus! {

/// The outcome of one successful update cycle.
#[derive(Debug)]
pub enum UpdateOutcome {
    /// The source reported the cached address; nothing was written.
    Unchanged { address: IpAddress },
    /// The record was rewritten from `previous` to `current`.
    Changed { previous: IpAddress, current: IpAddress },
}

/// What an update cycle must do after the address has been fetched.
#[derive(Debug)]
pub enum UpdatePlan {
    /// The cycle is over: the updater was not ready, or the source failed.
    Fail(Error),
    /// The fetched address equals the cached content: no remote write.
    NoChange { address: IpAddress },
    /// The fetched address differs: send this one request.
    Publish(UpdateRequest),
}

/// What follows one initialization attempt.
#[derive(Debug)]
pub enum InitStep {
    /// The record was stored; the updater is Ready.
    Done,
    /// The fetch failed: sleep this many seconds and try again.
    RetryAfter { seconds: u64, reason: Error },
}

/// One domain's updater: its fixed configuration and the cached record.
#[derive(Debug)]
pub struct Updater {
    pub bind_address: Option<IpAddress>,
    pub refresh_interval: u64,
    pub retry_interval: u64,
    pub nickname: String,
    pub token: String,
    pub id: String,
    pub zone_id: String,
    pub ip_source: IpSourceKind,
    pub details: Option<RecordDetails>,
}

/// Whether a step kept the updater's fixed configuration; every step does.
pub open spec fn config_kept(a: Updater, b: Updater) -> bool {
    &&& a.bind_address == b.bind_address
    &&& a.refresh_interval == b.refresh_interval
    &&& a.retry_interval == b.retry_interval
    &&& a.nickname == b.nickname
    &&& a.token == b.token
    &&& a.id == b.id
    &&& a.zone_id == b.zone_id
    &&& a.ip_source == b.ip_source
}

/// Whether a cycle of a ready updater writes at all: only when the fetched
/// address differs from the cached content.
pub open spec fn plans_write(u: Updater, ip: IpAddress) -> bool {
    u.is_ready() && ip != u.cached()->0.content
}

/// The one request a writing cycle sends: the cached record's fields with the
/// fetched address as content.
pub open spec fn planned_request(u: Updater, ip: IpAddress) -> UpdateRequest {
    UpdateRequest {
        record_type: u.cached()->0.record_type,
        ttl: u.cached()->0.ttl,
        name: u.cached()->0.name,
        content: ip,
        proxied: u.cached()->0.proxied,
    }
}

impl Updater {
    /// The cached record, `None` until initialization has succeeded.
    pub open spec fn cached(&self) -> Option<RecordDetails> {
        self.details
    }

    /// Whether initialization has succeeded.
    pub open spec fn is_ready(&self) -> bool {
        self.cached() is Some
    }

    /// A new updater for one domain, not yet initialized.
    pub fn new(
        bind_address: Option<IpAddress>,
        ip_source: IpSourceKind,
        nickname: &str,
        token: &str,
        id: &str,
        zone_id: &str,
        refresh_interval: u64,
        retry_interval: u64,
    ) -> (u: Updater)
        ensures
            u.bind_address == bind_address,
            u.ip_source == ip_source,
            u.nickname@ == nickname@,
            u.token@ == token@,
            u.id@ == id@,
            u.zone_id@ == zone_id@,
            u.refresh_interval == refresh_interval,
            u.retry_interval == retry_interval,
            !u.is_ready(),
    {
        Updater {
            bind_address,
            ip_source,
            nickname: nickname.to_owned(),
            token: token.to_owned(),
            id: id.to_owned(),
            zone_id: zone_id.to_owned(),
            refresh_interval,
            retry_interval,
            details: None,
        }
    }

    /// The cached record, for inspection.
    pub fn cached_record(&self) -> (r: &Option<RecordDetails>)
        ensures
            *r == self.cached(),
    {
        &self.details
    }

    /// One initialization attempt: a fetched record is stored and the
    /// updater becomes Ready; on a failure nothing changes and the next
    /// attempt is due after `retry_interval` seconds. Initialization never
    /// gives up on its own: only the caller's termination signal ends the
    /// retries.
    pub fn init_step(&mut self, fetched: Result<RecordDetails, Error>) -> (step: InitStep)
        ensures
            match fetched {
                Ok(d) => final(self).cached() == Some(d) && config_kept(*final(self), *old(self))
                    && step is Done,
                Err(e) => *final(self) == *old(self) && (step matches InitStep::RetryAfter {
                    seconds,
                    reason,
                } && seconds == old(self).retry_interval && reason@ == e@),
            },
    {
        match fetched {
            Ok(d) => {
                self.details = Some(d);
                InitStep::Done
            },
            Err(e) => InitStep::RetryAfter { seconds: self.retry_interval, reason: e },
        }
    }

    /// Plans one update cycle from the fetched address. Before
    /// initialization every cycle fails with the defensive guard; a source
    /// failure is passed through; otherwise the cycle writes exactly when
    /// the address differs from the cached content, and the one planned
    /// request carries the cached record's fields with the new address.
    pub fn plan_update(&self, fetched_ip: Result<IpAddress, Error>) -> (p: UpdatePlan)
        ensures
            !self.is_ready() ==> (p matches UpdatePlan::Fail(e) && e@ == uninitialized_chars()),
            self.is_ready() ==> match fetched_ip {
                Err(e) => p matches UpdatePlan::Fail(f) && f@ == e@,
                Ok(ip) => if plans_write(*self, ip) {
                    p matches UpdatePlan::Publish(q) && q == planned_request(*self, ip)
                } else {
                    p matches UpdatePlan::NoChange { address } && address == ip
                },
            },
    {
        match (&self.details, fetched_ip) {
            (None, _) => UpdatePlan::Fail(Error::uninitialized()),
            (Some(_), Err(e)) => UpdatePlan::Fail(e),
            (Some(cached), Ok(ip)) => {
                if ip == cached.content {
                    UpdatePlan::NoChange { address: ip }
                } else {
                    UpdatePlan::Publish(
                        UpdateRequest {
                            record_type: cached.record_type.clone(),
                            ttl: cached.ttl,
                            name: cached.name.clone(),
                            content: ip,
                            proxied: cached.proxied,
                        },
                    )
                }
            },
        }
    }

    /// Applies the server's answer to a published update: a confirmed record
    /// replaces the cache wholesale; any failure leaves the cache exactly as
    /// it was, so a retry repeats the same comparison.
    pub fn apply_update(&mut self, response: Result<RecordDetails, Error>) -> (r: Result<
        UpdateOutcome,
        Error,
    >)
        requires
            old(self).is_ready(),
        ensures
            match response {
                Ok(d) => final(self).cached() == Some(d) && config_kept(*final(self), *old(self))
                    && (r matches Ok(o) && o == (UpdateOutcome::Changed {
                    previous: old(self).cached()->0.content,
                    current: d.content,
                })),
                Err(e) => *final(self) == *old(self) && (r matches Err(f) && f@ == e@),
            },
    {
        match response {
            Ok(d) => {
                let previous = match self.details.as_ref() {
                    Some(c) => c.content,
                    None => vstd::pervasive::unreached(),
                };
                let current = d.content;
                self.details = Some(d);
                Ok(UpdateOutcome::Changed { previous, current })
            },
            Err(e) => Err(e),
        }
    }
}

/// The rendered text of an update outcome, as the schedulers log it.
pub open spec fn outcome_chars(o: UpdateOutcome) -> Seq<char> {
    match o {
        UpdateOutcome::Unchanged { address } => "IP \u{5730}\u{5740}\u{672a}\u{53d1}\u{751f}\u{53d8}\u{5316}\u{ff0c}\u{5f53}\u{524d}\u{5730}\u{5740}\u{4e3a}\u{ff1a}"@
            + ip_chars(address),
        UpdateOutcome::Changed { previous, current } => "Cloudflare DNS \u{8bb0}\u{5f55}\u{66f4}\u{65b0}\u{6210}\u{529f}\u{ff0c}IP \u{5730}\u{5740}\u{66f4}\u{65b0}\u{4e3a}\u{ff1a}"@
            + ip_chars(current) + "\u{ff08}\u{66f4}\u{65b0}\u{524d}\u{4e3a}\u{ff1a}"@ + ip_chars(previous) + "\u{ff09}"@,
    }
}

/// Renders an update outcome.
pub fn describe_outcome(o: &UpdateOutcome) -> (s: String)
    ensures
        s@ == outcome_chars(*o),
{
    match o {
        UpdateOutcome::Unchanged { address } => {
            let mut s = "IP \u{5730}\u{5740}\u{672a}\u{53d1}\u{751f}\u{53d8}\u{5316}\u{ff0c}\u{5f53}\u{524d}\u{5730}\u{5740}\u{4e3a}\u{ff1a}".to_owned();
            let t = ip_string(address);
            append_str(&mut s, t.as_str());
            s
        },
        UpdateOutcome::Changed { previous, current } => {
            let mut s = "Cloudflare DNS \u{8bb0}\u{5f55}\u{66f4}\u{65b0}\u{6210}\u{529f}\u{ff0c}IP \u{5730}\u{5740}\u{66f4}\u{65b0}\u{4e3a}\u{ff1a}"
                .to_owned();
            let c = ip_string(current);
            append_str(&mut s, c.as_str());
            append_str(&mut s, "\u{ff08}\u{66f4}\u{65b0}\u{524d}\u{4e3a}\u{ff1a}");
            let p = ip_string(previous);
            append_str(&mut s, p.as_str());
            append_str(&mut s, "\u{ff09}");
            s
        },
    }
}

/// The cache after a whole initialization run: attempts are taken in order
/// until the first fetched record, which is stored.
pub open spec fn init_run(cache: Option<RecordDetails>, outcomes: Seq<Option<RecordDetails>>) -> Option<
    RecordDetails,
>
    decreases outcomes.len(),
{
    if outcomes.len() == 0 {
        cache
    } else {
        match outcomes[0] {
            Some(d) => Some(d),
            None => init_run(cache, outcomes.skip(1)),
        }
    }
}

/// How many attempts an initialization run makes: every attempt up to and
/// including the first one that fetches a record.
pub open spec fn init_attempts(outcomes: Seq<Option<RecordDetails>>) -> int
    decreases outcomes.len(),
{
    if outcomes.len() == 0 {
        0
    } else if outcomes[0] is Some {
        1
    } else {
        1 + init_attempts(outcomes.skip(1))
    }
}

/// Law: idempotence. A ready updater whose source reports the cached content
/// plans no remote write for it.
pub proof fn lemma_update_idempotent(u: Updater, ip: IpAddress)
    requires
        u.is_ready(),
        ip == u.cached()->0.content,
    ensures
        !plans_write(u, ip),
{
}

/// Law: convergence. With cached content `a` and a source now reporting
/// `b != a`, the cycle writes and its one request carries `b`; once a
/// confirming record `d` with content `b` is applied, giving `after`, the
/// cached content is `b` and a further cycle for `b` plans no write.
pub proof fn lemma_convergence(u: Updater, b: IpAddress, d: RecordDetails, after: Updater)
    requires
        u.is_ready(),
        b != u.cached()->0.content,
        d.content == b,
        after.cached() == Some(d),
    ensures
        plans_write(u, b),
        planned_request(u, b).content == b,
        after.is_ready(),
        after.cached()->0.content == b,
        !plans_write(after, b),
{
}

/// Law: initialization retry. When the first `n` fetch attempts fail and
/// attempt `n` (counting from zero) fetches a record, the run stores exactly
/// that record, makes exactly `n + 1` attempts, and each failed attempt
/// leaves the updater as it was.
pub proof fn lemma_init_retry(
    cache: Option<RecordDetails>,
    outcomes: Seq<Option<RecordDetails>>,
    n: int,
)
    requires
        0 <= n < outcomes.len(),
        forall|k: int| 0 <= k < n ==> outcomes[k] is None,
        outcomes[n] is Some,
    ensures
        init_run(cache, outcomes) == Some(outcomes[n]->0),
        init_attempts(outcomes) == n + 1,
        forall|k: int| 0 <= k <= n ==> init_run(cache, outcomes.take(k)) == cache,
    decreases n,
{
    assert forall|k: int| 0 <= k <= n implies init_run(cache, outcomes.take(k)) == cache by {
        lemma_init_run_failures(cache, outcomes.take(k));
    }
    if n == 0 {
    } else {
        assert(outcomes.skip(1)[n - 1] == outcomes[n]);
        assert(forall|k: int| 0 <= k < n - 1 ==> outcomes.skip(1)[k] == outcomes[k + 1]);
        lemma_init_retry(cache, outcomes.skip(1), n - 1);
    }
}

/// A run whose attempts all fail changes nothing.
proof fn lemma_init_run_failures(cache: Option<RecordDetails>, outcomes: Seq<Option<RecordDetails>>)
    requires
        forall|k: int| 0 <= k < outcomes.len() ==> outcomes[k] is None,
    ensures
        init_run(cache, outcomes) == cache,
    decreases outcomes.len(),
{
    if outcomes.len() > 0 {
        assert(forall|k: int| 0 <= k < outcomes.len() - 1 ==> outcomes.skip(1)[k] == outcomes[k
            + 1]);
        lemma_init_run_failures(cache, outcomes.skip(1));
    }
}

} // verus!
