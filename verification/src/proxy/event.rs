//! Events that report queries, and what of a query they may show.
//!
//! With anonymization on, an event shows the normalized query, the types of
//! the parameters and the scrubbed error: never the query text, a parameter's
//! value or an error message as they came.
use crate::config::{ParseFailureMode, PublisherConfig};
use crate::proxy::params;
use crate::proxy::params::{redact_all, ParamValue};
use std::time::Duration;
use vstd::prelude::*;

verus! {

/// What stands in for a query that cannot be anonymized.
pub const REDACTED_QUERY: &'static str = "<redacted: unparseable>";

/// A query without its literals.
#[derive(Debug)]
pub struct AnonymizedQuery {
    /// The query with placeholders in place of literals.
    pub normalized_query: String,
    /// A fingerprint for each literal.
    pub value_fingerprints: Vec<String>,
}

/// A report of one query.
#[derive(Debug)]
pub struct QueryReport {
    pub query: String,
    pub params: Vec<ParamValue>,
    pub params_incomplete: bool,
    pub normalized_query: Option<String>,
    pub value_fingerprints: Option<Vec<String>>,
    pub duration: Duration,
    pub success: bool,
    pub error: Option<String>,
    pub database: String,
    pub connection_id: String,
}

/// A report of one query, over sequences.
#[verifier::ext_equal]
pub struct Event {
    pub query: Seq<char>,
    pub params: Seq<params::Param>,
    pub params_incomplete: bool,
    pub normalized_query: Option<Seq<char>>,
    pub value_fingerprints: Option<Seq<Seq<char>>>,
    pub duration: Duration,
    pub success: bool,
    pub error: Option<Seq<char>>,
    pub database: Seq<char>,
    pub connection_id: Seq<char>,
}

/// A text over sequences, where there is one.
pub open spec fn text_view(s: Option<String>) -> Option<Seq<char>> {
    match s {
        Some(t) => Some(t@),
        None => None,
    }
}

/// Texts over sequences.
pub open spec fn texts_view(v: Seq<String>) -> Seq<Seq<char>> {
    Seq::new(v.len(), |i: int| v[i]@)
}

impl QueryReport {
    /// The report over sequences.
    pub open spec fn view(&self) -> Event {
        Event {
            query: self.query@,
            params: params::views(self.params@),
            params_incomplete: self.params_incomplete,
            normalized_query: text_view(self.normalized_query),
            value_fingerprints: match self.value_fingerprints {
                Some(v) => Some(texts_view(v@)),
                None => None,
            },
            duration: self.duration,
            success: self.success,
            error: text_view(self.error),
            database: self.database@,
            connection_id: self.connection_id@,
        }
    }
}

/// What an event shows of a query.
#[verifier::ext_equal]
pub struct Shown {
    pub query: Seq<char>,
    pub normalized: Option<Seq<char>>,
    pub fingerprints: Seq<Seq<char>>,
}

/// What an event may show of `query`, when the anonymizer made `anonymized` of
/// it; nothing where the event must be dropped.
pub open spec fn shown(
    enabled: bool,
    parse_failure: ParseFailureMode,
    query: Seq<char>,
    anonymized: Option<AnonymizedQuery>,
) -> Option<Shown> {
    if !enabled {
        Some(Shown { query, normalized: None, fingerprints: Seq::empty() })
    } else {
        match anonymized {
            Some(a) => Some(
                Shown {
                    query: a.normalized_query@,
                    normalized: Some(a.normalized_query@),
                    fingerprints: texts_view(a.value_fingerprints@),
                },
            ),
            None => match parse_failure {
                ParseFailureMode::Drop => None,
                ParseFailureMode::Redact => Some(
                    Shown {
                        query: REDACTED_QUERY@,
                        normalized: Some(REDACTED_QUERY@),
                        fingerprints: Seq::empty(),
                    },
                ),
            },
        }
    }
}

/// The parameters as an event may show them.
pub open spec fn shown_params(enabled: bool, p: Seq<params::Param>) -> Seq<params::Param> {
    if enabled {
        params::redact_each(p)
    } else {
        p
    }
}

/// Copies of texts.
pub fn copy_strings(v: &Vec<String>) -> (r: Vec<String>)
    ensures
        r@ == v@,
{
    let mut out: Vec<String> = Vec::new();
    let mut i: usize = 0;
    while i < v.len()
        invariant
            i <= v@.len(),
            out@ == v@.take(i as int),
        decreases v.len() - i,
    {
        out.push(v[i].clone());
        i += 1;
        assert(out@ =~= v@.take(i as int));
    }
    assert(out@ =~= v@);
    out
}

/// The anonymization policy of a connection.
#[derive(Debug, Clone, Copy)]
pub struct AnonymizationSettings {
    pub enabled: bool,
    pub parse_failure: ParseFailureMode,
}

impl AnonymizationSettings {
    /// The policy that the settings ask for.
    pub fn from_config(config: &PublisherConfig) -> (r: Self)
        ensures
            r.enabled == config.anonymize,
            r.parse_failure == config.parse_failure_mode,
    {
        AnonymizationSettings {
            enabled: config.anonymize,
            parse_failure: config.parse_failure_mode,
        }
    }

    /// The error as an event may show it: the scrubbed form with anonymization
    /// on, the full message with it off.
    pub fn error_field(&self, scrubbed: Option<String>, full_error: String) -> (r: Option<String>)
        ensures
            r == if self.enabled {
                scrubbed
            } else {
                Some(full_error)
            },
    {
        if self.enabled {
            scrubbed
        } else {
            Some(full_error)
        }
    }

    /// The parameters as an event may show them.
    pub fn redact_params(&self, params: Vec<ParamValue>) -> (r: Vec<ParamValue>)
        ensures
            params::views(r@) == shown_params(self.enabled, params::views(params@)),
            !self.enabled ==> r == params,
    {
        if !self.enabled {
            return params;
        }
        redact_all(&params)
    }

    /// The event that reports a query, with the fingerprints of its literals;
    /// none where the event must be dropped. `anonymized` is what the
    /// anonymizer made of `query`.
    pub fn build_event(
        &self,
        query: &str,
        anonymized: Option<AnonymizedQuery>,
        params: Vec<ParamValue>,
        params_incomplete: bool,
        duration: Duration,
        success: bool,
        error: Option<String>,
        connection_id: &str,
        database: &str,
    ) -> (r: Option<(QueryReport, Vec<String>)>)
        ensures
            r is Some <==> shown(self.enabled, self.parse_failure, query@, anonymized) is Some,
            r matches Some((event, fingerprints)) ==> {
                let s = shown(self.enabled, self.parse_failure, query@, anonymized)->0;
                &&& texts_view(fingerprints@) == s.fingerprints
                &&& event@ == event_of(
                    s,
                    shown_params(self.enabled, params::views(params@)),
                    params_incomplete,
                    duration,
                    success,
                    text_view(error),
                    connection_id@,
                    database@,
                )
            },
    {
        let (query_text, normalized, fingerprints): (String, Option<String>, Vec<String>) =
            if !self.enabled {
            (query.to_owned(), None, Vec::new())
        } else {
            match anonymized {
                Some(anon) => (
                    anon.normalized_query.clone(),
                    Some(anon.normalized_query),
                    anon.value_fingerprints,
                ),
                None => match self.parse_failure {
                    ParseFailureMode::Drop => {
                        return None;
                    },
                    ParseFailureMode::Redact => (
                        REDACTED_QUERY.to_owned(),
                        Some(REDACTED_QUERY.to_owned()),
                        Vec::new(),
                    ),
                },
            }
        };
        let ghost s = shown(self.enabled, self.parse_failure, query@, anonymized)->0;
        assert(texts_view(fingerprints@) =~= s.fingerprints);
        let value_fingerprints = if fingerprints.len() > 0 {
            Some(copy_strings(&fingerprints))
        } else {
            None
        };
        let event = QueryReport {
            query: query_text,
            params: self.redact_params(params),
            params_incomplete,
            normalized_query: normalized,
            value_fingerprints,
            duration,
            success,
            error,
            database: database.to_owned(),
            connection_id: connection_id.to_owned(),
        };
        Some((event, fingerprints))
    }
}

/// The event that shows `s` of a query.
pub open spec fn event_of(
    s: Shown,
    params: Seq<params::Param>,
    params_incomplete: bool,
    duration: Duration,
    success: bool,
    error: Option<Seq<char>>,
    connection_id: Seq<char>,
    database: Seq<char>,
) -> Event {
    Event {
        query: s.query,
        params,
        params_incomplete,
        normalized_query: s.normalized,
        value_fingerprints: if s.fingerprints.len() > 0 {
            Some(s.fingerprints)
        } else {
            None
        },
        duration,
        success,
        error,
        database,
        connection_id,
    }
}

/// With anonymization on, what is shown of two queries of which the anonymizer
/// made the same is the same: nothing else of their text is shown.
pub proof fn law_query_text_is_hidden(
    parse_failure: ParseFailureMode,
    a: Seq<char>,
    b: Seq<char>,
    anonymized: Option<AnonymizedQuery>,
)
    ensures
        shown(true, parse_failure, a, anonymized) == shown(true, parse_failure, b, anonymized),
{
}

/// With anonymization on, the query of an event is its normalized form.
pub proof fn law_query_is_normalized(
    parse_failure: ParseFailureMode,
    query: Seq<char>,
    anonymized: Option<AnonymizedQuery>,
)
    requires
        shown(true, parse_failure, query, anonymized) is Some,
    ensures
        shown(true, parse_failure, query, anonymized)->0.normalized == Some(
            shown(true, parse_failure, query, anonymized)->0.query,
        ),
{
}

/// A query that the anonymizer rejects is dropped or replaced by a fixed text.
pub proof fn law_rejected_query_is_never_shown(parse_failure: ParseFailureMode, query: Seq<char>)
    ensures
        shown(true, parse_failure, query, None) matches Some(s) ==> s.query == REDACTED_QUERY@
            && s.fingerprints.len() == 0,
        shown(true, parse_failure, query, None) is None <==> parse_failure
            == ParseFailureMode::Drop,
{
}

/// With anonymization on, parameters of the same types are shown the same.
pub proof fn law_parameter_values_are_hidden(p: Seq<params::Param>, q: Seq<params::Param>)
    requires
        p.len() == q.len(),
        forall|i: int| 0 <= i < p.len() ==> params::same_type(#[trigger] p[i], q[i]),
    ensures
        shown_params(true, p) == shown_params(true, q),
{
    assert forall|i: int| 0 <= i < p.len() implies params::redact(#[trigger] p[i])
        == params::redact(q[i]) by {
        params::law_redaction_hides_values(p[i], q[i]);
    }
    assert(shown_params(true, p) =~= shown_params(true, q));
}

/// Without anonymization an event shows the query and the parameters as they
/// came, and nothing of an anonymizer.
pub proof fn law_nothing_is_hidden_without_anonymization(
    parse_failure: ParseFailureMode,
    query: Seq<char>,
    anonymized: Option<AnonymizedQuery>,
    p: Seq<params::Param>,
)
    ensures
        shown(false, parse_failure, query, anonymized) matches Some(s) && s.query == query
            && s.normalized is None && s.fingerprints.len() == 0,
        shown_params(false, p) == p,
{
}

/// With anonymization on, an event shows what the anonymizer made of the query
/// with all its fingerprints, and of each parameter what is left when its value
/// is gone.
pub proof fn law_anonymized_form_is_shown(
    parse_failure: ParseFailureMode,
    query: Seq<char>,
    a: AnonymizedQuery,
    p: Seq<params::Param>,
    i: int,
)
    requires
        0 <= i < p.len(),
    ensures
        shown(true, parse_failure, query, Some(a)) matches Some(s) && s.query
            == a.normalized_query@ && s.fingerprints.len() == a.value_fingerprints@.len() && (
        forall|k: int| 0 <= k < s.fingerprints.len() ==> #[trigger] s.fingerprints[k]
            == a.value_fingerprints@[k]@),
        shown_params(true, p).len() == p.len(),
        shown_params(true, p)[i] == params::redact(p[i]),
{
}

/// An event reports what it is given: the query as it may be shown, with its
/// parameters, how long it took, whether it succeeded, its error, and where it
/// ran. It lists fingerprints where there are any.
pub proof fn law_event_reports_what_it_is_given(
    s: Shown,
    params: Seq<params::Param>,
    params_incomplete: bool,
    duration: Duration,
    success: bool,
    error: Option<Seq<char>>,
    connection_id: Seq<char>,
    database: Seq<char>,
)
    ensures
        ({
            let e = event_of(
                s,
                params,
                params_incomplete,
                duration,
                success,
                error,
                connection_id,
                database,
            );
            &&& e.query == s.query
            &&& e.normalized_query == s.normalized
            &&& e.params == params
            &&& e.params_incomplete == params_incomplete
            &&& e.duration == duration
            &&& e.success == success
            &&& e.error == error
            &&& e.connection_id == connection_id
            &&& e.database == database
            &&& s.fingerprints.len() == 0 ==> e.value_fingerprints is None
            &&& s.fingerprints.len() > 0 ==> e.value_fingerprints == Some(s.fingerprints)
        }),
{
}

} // verus!
