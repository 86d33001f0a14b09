//! Scan orchestrator: one run per target.  Setup normalizes the target,
//! derives the strategy table and builds the request configuration; the
//! caller then drives the per-strategy loop, handing each response (or
//! transport failure) back to the state machine, which classifies it and
//! records the outcome.  All strategies always run; nothing short-circuits.

use vstd::prelude::*;
use vstd::string::StringExecFns;
use crate::classify::Verdict;
use crate::classify::classify;
use crate::classify::spec_classify;
use crate::config::Method;
use crate::config::RequestConfig;
use crate::config::build_request_config;
use crate::config::cookie_ok;
use crate::config::is_get_method;
use crate::config::is_post_method;
use crate::config::opt_str_view;
use crate::config::opt_string_view;
use crate::config::proxy_ok;
use crate::config::spec_config_error;
use crate::config::spec_config_headers;
use crate::config::valid_method;
use crate::errors::ScanError;
use crate::headers::Header;
use crate::headers::HeaderList;
use crate::headers::headers_wf;
use crate::headers::lemma_insert_lookup_same;
use crate::headers::spec_lookup_header;
use crate::headers::spec_insert_header;
use crate::strategies::Strategy;
use crate::strategies::generate_strategies;
use crate::strategies::strategy_table_ok;
use crate::target::Target;
use crate::target::normalize_target;
use crate::target::percent_decoded;
use crate::target::url_host;

verus! {

/// Everything recorded about one probed strategy.
#[derive(Debug)]
pub struct ProbeOutcome {
    pub strategy_name: String,
    pub origin_value: String,
    pub http_status: u16,
    pub response_headers: Vec<Header>,
    pub acao: String,
    pub acac: String,
    pub verdict: Verdict,
}

/// The state of one run: the normalized target, the request configuration,
/// the fixed strategy table, the index of the next strategy to probe and
/// the outcomes recorded so far.
#[derive(Debug)]
pub struct Scan {
    pub target: Target,
    pub config: RequestConfig,
    pub strategies: Vec<Strategy>,
    pub next_index: usize,
    pub outcomes: Vec<ProbeOutcome>,
}

/// Which fatal error setup reports first: the target, then the
/// configuration (method, cookie, proxy, in that order).
pub open spec fn spec_setup_error(
    url: Seq<char>,
    method: Seq<char>,
    cookie: Option<Seq<char>>,
    proxy: Option<Seq<char>>,
) -> ScanError {
    if url_host(percent_decoded(url)) is None {
        ScanError::InvalidTarget
    } else {
        spec_config_error(method, cookie, proxy)
    }
}

impl Scan {
    /// The state machine's invariant: the probe position never passes the
    /// end of the strategy table, at most one outcome exists per probed
    /// strategy, and the merged header names stay unique.
    pub open spec fn wf(self) -> bool {
        &&& self.next_index <= self.strategies@.len()
        &&& self.outcomes@.len() <= self.next_index
        &&& headers_wf(self.config.headers@)
    }

    /// Set a run up.  Fails — with no outcome recorded and no request owed —
    /// exactly when the target, the method, the cookie or the proxy is
    /// rejected; otherwise the strategy table and the merged headers are
    /// fixed for the whole run.
    pub fn new(
        url: &String,
        method: &String,
        custom_headers: Option<&String>,
        cookie: Option<&String>,
        proxy: Option<&String>,
        delay_ms: Option<u64>,
        thirdparty: &String,
        invalid_origin: &String,
    ) -> (r: Result<Scan, ScanError>)
        ensures
            r is Ok <==> url_host(percent_decoded(url@)) is Some && valid_method(method@)
                && cookie_ok(opt_str_view(cookie)) && proxy_ok(opt_str_view(proxy)),
            r matches Err(e) ==> e == spec_setup_error(
                url@,
                method@,
                opt_str_view(cookie),
                opt_str_view(proxy),
            ),
            r matches Ok(s) ==> s.wf(),
            r matches Ok(s) ==> s.target.url@ == percent_decoded(url@) && url_host(
                percent_decoded(url@),
            ) == Some(s.target.host@),
            r matches Ok(s) ==> strategy_table_ok(
                s.strategies@,
                s.target.url@,
                s.target.host@,
                thirdparty@,
                invalid_origin@,
            ),
            r matches Ok(s) ==> s.config.headers@ == spec_config_headers(
                opt_str_view(custom_headers),
                opt_str_view(cookie),
            ),
            r matches Ok(s) ==> (s.config.method == Method::Post <==> is_post_method(method@)),
            r matches Ok(s) ==> (s.config.method == Method::Get <==> is_get_method(method@)),
            r matches Ok(s) ==> opt_string_view(s.config.proxy) == opt_str_view(proxy),
            r matches Ok(s) ==> s.config.delay_ms == delay_ms,
            r matches Ok(s) ==> s.next_index == 0 && s.outcomes@.len() == 0,
    {
        let target = match normalize_target(url) {
            Ok(t) => t,
            Err(e) => {
                return Err(e);
            },
        };
        let config = match build_request_config(method, custom_headers, cookie, proxy, delay_ms) {
            Ok(c) => c,
            Err(e) => {
                return Err(e);
            },
        };
        let strategies = generate_strategies(&target.url, &target.host, thirdparty, invalid_origin);
        Ok(Scan { target, config, strategies, next_index: 0, outcomes: Vec::new() })
    }

    /// Whether every strategy has been probed or forfeited.
    pub fn finished(&self) -> (r: bool)
        ensures
            r == (self.next_index == self.strategies@.len()),
    {
        self.next_index == self.strategies.len()
    }

    /// The strategy the next probe belongs to.
    pub fn current_strategy(&self) -> (s: &Strategy)
        requires
            self.next_index < self.strategies@.len(),
        ensures
            *s == self.strategies@[self.next_index as int],
    {
        &self.strategies[self.next_index]
    }

    /// The headers for the next probe: the merged configuration headers
    /// with the current strategy's candidate value under `origin` — the
    /// candidate always overwrites any configured `Origin` header.
    pub fn headers_for_current(&self) -> (h: HeaderList)
        requires
            self.next_index < self.strategies@.len(),
        ensures
            h@ == spec_insert_header(
                self.config.headers@,
                "origin"@,
                self.strategies@[self.next_index as int].value@,
            ),
    {
        let mut h = self.config.headers.duplicate();
        h.insert(String::from_str("origin"), self.strategies[self.next_index].value.clone());
        h
    }

    /// Record the response of the current probe: classify it, append the
    /// outcome and move to the next strategy.  Everything else is left
    /// unchanged.
    pub fn record_response(
        &mut self,
        http_status: u16,
        response_headers: Vec<Header>,
        acao: String,
        acac: String,
    ) -> (v: Verdict)
        requires
            old(self).next_index < old(self).strategies@.len(),
        ensures
            v == spec_classify(
                old(self).strategies@[old(self).next_index as int].value@,
                acao@,
                acac@,
            ),
            final(self).next_index == old(self).next_index + 1,
            final(self).outcomes@.len() == old(self).outcomes@.len() + 1,
            final(self).outcomes@.drop_last() == old(self).outcomes@,
            final(self).outcomes@.last().strategy_name@ == old(self).strategies@[old(
                self,
            ).next_index as int].name@,
            final(self).outcomes@.last().origin_value@ == old(self).strategies@[old(
                self,
            ).next_index as int].value@,
            final(self).outcomes@.last().http_status == http_status,
            final(self).outcomes@.last().response_headers@ == response_headers@,
            final(self).outcomes@.last().acao@ == acao@,
            final(self).outcomes@.last().acac@ == acac@,
            final(self).outcomes@.last().verdict == v,
            final(self).target == old(self).target,
            final(self).config == old(self).config,
            final(self).strategies == old(self).strategies,
            old(self).wf() ==> final(self).wf(),
    {
        let i = self.next_index;
        let strategy_name = self.strategies[i].name.clone();
        let origin_value = self.strategies[i].value.clone();
        let v = classify(&origin_value, &acao, &acac);
        self.outcomes.push(
            ProbeOutcome {
                strategy_name,
                origin_value,
                http_status,
                response_headers,
                acao,
                acac,
                verdict: v,
            },
        );
        let n = self.strategies.len();
        proof {
            assert(i < n);
        }
        self.next_index = i + 1;
        proof {
            assert(self.outcomes@.drop_last() =~= old(self).outcomes@);
        }
        v
    }

    /// Forfeit the current strategy after a transport failure: no outcome
    /// is recorded, the run continues with the next strategy.
    pub fn skip_failed(&mut self)
        requires
            old(self).next_index < old(self).strategies@.len(),
        ensures
            final(self).next_index == old(self).next_index + 1,
            final(self).outcomes@ == old(self).outcomes@,
            final(self).target == old(self).target,
            final(self).config == old(self).config,
            final(self).strategies == old(self).strategies,
            old(self).wf() ==> final(self).wf(),
    {
        let n = self.strategies.len();
        proof {
            assert(self.next_index < n);
        }
        self.next_index = self.next_index + 1;
    }
}

/// Law: header merge precedence — whatever the configured headers hold,
/// even an `Origin` entry smuggled in through a custom header line, the
/// headers built for a strategy carry the strategy's own candidate value
/// under `origin`.
pub proof fn lemma_origin_always_overridden(
    configured: Seq<(Seq<char>, Seq<char>)>,
    candidate: Seq<char>,
)
    ensures
        spec_lookup_header(spec_insert_header(configured, "origin"@, candidate), "origin"@)
            == Some(candidate),
{
    lemma_insert_lookup_same(configured, "origin"@, candidate);
}

/// The verdicts a run yields as a function of the origins it sent and the
/// (ACAO, ACAC) response pairs it received.
pub open spec fn verdicts_of(
    origins: Seq<Seq<char>>,
    responses: Seq<(Seq<char>, Seq<char>)>,
) -> Seq<Verdict> {
    Seq::new(origins.len(), |i: int| spec_classify(origins[i], responses[i].0, responses[i].1))
}

/// Law: a scan is idempotent against a server with static CORS headers.
/// The verdicts depend on nothing but the origins sent and the response
/// headers received: two runs that send the same origins and are answered
/// with the same ACAO/ACAC pairs classify every strategy identically.
pub proof fn lemma_scan_idempotent(
    origins_first: Seq<Seq<char>>,
    responses_first: Seq<(Seq<char>, Seq<char>)>,
    origins_second: Seq<Seq<char>>,
    responses_second: Seq<(Seq<char>, Seq<char>)>,
)
    requires
        origins_first == origins_second,
        responses_first == responses_second,
    ensures
        verdicts_of(origins_first, responses_first) == verdicts_of(
            origins_second,
            responses_second,
        ),
{
}

} // verus!
