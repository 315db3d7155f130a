//! Provider-neutral moderation signals: evidence from classifiers, heuristics
//! and people, attached to a moderation target.

use vstd::prelude::*;

use crate::error::{is_bad_request, refused_as_bad_request, refused_with, ApiError};
use crate::moderation::TargetType;
use crate::review::{clamped_limit, page_size, same_optional_text};
use crate::text::same_text;
use crate::validation::{
    at_most_message, fits_optional, fits_required, optional_text, present_text, range_message,
    required_text, text_view,
};

verus! {

/// How severe a signal is, from least to most.
#[derive(Debug, Clone, Copy, PartialEq, Eq, Structural)]
pub enum SignalSeverity {
    Low,
    Medium,
    High,
    Critical,
}

/// The largest accepted evidence, in bytes of JSON text.
pub const MAX_EVIDENCE_BYTES: usize = 16384;

/// The filters and page size of the signal list.
#[derive(Debug, Clone)]
pub struct SignalQuery {
    pub target_type: Option<TargetType>,
    pub target_id: Option<u128>,
    pub case_id: Option<u128>,
    pub minimum_severity: Option<SignalSeverity>,
    pub source: Option<String>,
    pub limit: Option<i64>,
}

/// The view of an optional owned text.
pub open spec fn owned_view(value: &Option<String>) -> Option<Seq<char>> {
    match value {
        Some(v) => Some(v@),
        None => None,
    }
}

impl SignalQuery {
    /// How many signals one page holds: 50 unless asked, between 1 and 100.
    pub fn page_size(&self) -> (r: i64)
        ensures
            r == clamped_limit(self.limit, 50, 1, 100),
    {
        page_size(self.limit, 50, 1, 100)
    }

    /// Checks the filters: a target is given by both its type and id or not at
    /// all; a source filter is trimmed, empty counts as absent, at most 120 characters.
    pub fn source_filter(&self) -> (r: Result<Option<&str>, ApiError>)
        ensures
            self.target_type is Some != self.target_id is Some ==> refused_as_bad_request(
                r,
                "targetType and targetId must be provided together"@,
            ),
            self.target_type is Some == self.target_id is Some ==> {
                &&& (r is Ok <==> fits_optional(owned_view(&self.source), 120))
                &&& (r matches Ok(s) ==> text_view(s) == present_text(owned_view(&self.source)))
                &&& (r matches Err(e) ==> is_bad_request(e, at_most_message("source"@, 120)))
            },
    {
        if self.target_type.is_some() != self.target_id.is_some() {
            return Err(
                ApiError::BadRequest("targetType and targetId must be provided together".to_owned()),
            );
        }
        let source = match &self.source {
            Some(s) => Some(s.as_str()),
            None => None,
        };
        optional_text(source, "source", 120)
    }
}

/// The checked text of a new signal.
#[derive(Debug, Clone, Copy)]
pub struct SignalText<'a> {
    pub source: &'a str,
    pub kind: &'a str,
    pub idempotency_key: &'a str,
    pub model: Option<&'a str>,
    pub model_version: Option<&'a str>,
}

/// Checks the text of a new signal, in this order: a source and a kind of 1 to
/// 120 characters, an idempotency key of 1 to 128, an optional model of at
/// most 200 and an optional model version of at most 120; all trimmed.
pub fn validate_signal_text<'a>(
    source: &'a str,
    kind: &'a str,
    idempotency_key: &'a str,
    model: Option<&'a str>,
    model_version: Option<&'a str>,
) -> (r: Result<SignalText<'a>, ApiError>)
    ensures
        !fits_required(source@, 120) ==> refused_as_bad_request(r, range_message("source"@, 120)),
        fits_required(source@, 120) && !fits_required(kind@, 120) ==> refused_as_bad_request(
            r,
            range_message("kind"@, 120),
        ),
        fits_required(source@, 120) && fits_required(kind@, 120) && !fits_required(
            idempotency_key@,
            128,
        ) ==> refused_as_bad_request(r, range_message("idempotencyKey"@, 128)),
        fits_required(source@, 120) && fits_required(kind@, 120) && fits_required(
            idempotency_key@,
            128,
        ) && !fits_optional(text_view(model), 200) ==> refused_as_bad_request(
            r,
            at_most_message("model"@, 200),
        ),
        fits_required(source@, 120) && fits_required(kind@, 120) && fits_required(
            idempotency_key@,
            128,
        ) && fits_optional(text_view(model), 200) && !fits_optional(text_view(model_version), 120)
            ==> refused_as_bad_request(r, at_most_message("modelVersion"@, 120)),
        fits_required(source@, 120) && fits_required(kind@, 120) && fits_required(
            idempotency_key@,
            128,
        ) && fits_optional(text_view(model), 200) && fits_optional(text_view(model_version), 120)
            ==> (r matches Ok(t) && t.source@ == crate::text::trimmed(source@) && t.kind@
            == crate::text::trimmed(kind@) && t.idempotency_key@ == crate::text::trimmed(
            idempotency_key@,
        ) && text_view(t.model) == present_text(text_view(model)) && text_view(t.model_version)
            == present_text(text_view(model_version))),
{
    let source = match required_text(source, "source", 120) {
        Ok(v) => v,
        Err(e) => {
            return Err(e);
        },
    };
    let kind = match required_text(kind, "kind", 120) {
        Ok(v) => v,
        Err(e) => {
            return Err(e);
        },
    };
    let idempotency_key = match required_text(idempotency_key, "idempotencyKey", 128) {
        Ok(v) => v,
        Err(e) => {
            return Err(e);
        },
    };
    let model = match optional_text(model, "model", 200) {
        Ok(v) => v,
        Err(e) => {
            return Err(e);
        },
    };
    let model_version = match optional_text(model_version, "modelVersion", 120) {
        Ok(v) => v,
        Err(e) => {
            return Err(e);
        },
    };
    Ok(SignalText { source, kind, idempotency_key, model, model_version })
}

/// Checks signal evidence, given whether it is a JSON object and the length of
/// its JSON text: it must be an object of at most 16384 bytes.
pub fn evidence_check(is_object: bool, text_len: usize) -> (r: Result<(), ApiError>)
    ensures
        !is_object ==> refused_as_bad_request(r, "evidence must be a JSON object"@),
        is_object && text_len > MAX_EVIDENCE_BYTES ==> refused_as_bad_request(
            r,
            "evidence must be at most 16384 bytes"@,
        ),
        is_object && text_len <= MAX_EVIDENCE_BYTES ==> r is Ok,
{
    if !is_object {
        return Err(ApiError::BadRequest("evidence must be a JSON object".to_owned()));
    }
    if text_len > MAX_EVIDENCE_BYTES {
        return Err(ApiError::BadRequest("evidence must be at most 16384 bytes".to_owned()));
    }
    Ok(())
}

/// A case named by a signal must exist and concern the signal's target.
pub fn signal_case_check(case_target: Option<(TargetType, u128)>, target_type: TargetType, target_id: u128) -> (r: Result<(), ApiError>)
    ensures
        case_target is None ==> refused_with(r, ApiError::NotFound("moderation case")),
        case_target matches Some(t) && t == (target_type, target_id) ==> r is Ok,
        case_target matches Some(t) && t != (target_type, target_id) ==> refused_as_bad_request(
            r,
            "caseId does not match moderation signal target"@,
        ),
{
    match case_target {
        None => Err(ApiError::NotFound("moderation case")),
        Some((t, id)) => {
            if t == target_type && id == target_id {
                Ok(())
            } else {
                Err(
                    ApiError::BadRequest(
                        "caseId does not match moderation signal target".to_owned(),
                    ),
                )
            }
        },
    }
}

/// The fields of a signal that a replay under the same source and
/// idempotency key must repeat, apart from its confidence, evidence and
/// observation time.
#[derive(Debug, Clone, Copy)]
pub struct SignalIdentity<'a> {
    pub case_id: Option<u128>,
    pub target_type: TargetType,
    pub target_id: u128,
    pub kind: &'a str,
    pub severity: SignalSeverity,
    pub model: Option<&'a str>,
    pub model_version: Option<&'a str>,
}

/// Two signals agree on every field of their identity.
pub open spec fn same_identity(a: SignalIdentity, b: SignalIdentity) -> bool {
    &&& a.case_id == b.case_id
    &&& a.target_type == b.target_type
    &&& a.target_id == b.target_id
    &&& a.kind@ == b.kind@
    &&& a.severity == b.severity
    &&& text_view(a.model) == text_view(b.model)
    &&& text_view(a.model_version) == text_view(b.model_version)
}

/// A replay agrees with the stored signal exactly when it names the same
/// case and target and repeats its kind, severity, model and model version;
/// every signal agrees with itself.
pub proof fn law_replay_repeats_every_field(a: SignalIdentity, b: SignalIdentity)
    ensures
        same_identity(a, b) ==> {
            &&& a.case_id == b.case_id
            &&& a.target_type == b.target_type
            &&& a.target_id == b.target_id
            &&& a.kind@ == b.kind@
            &&& a.severity == b.severity
            &&& text_view(a.model) == text_view(b.model)
            &&& text_view(a.model_version) == text_view(b.model_version)
        },
        (a.case_id == b.case_id && a.target_type == b.target_type && a.target_id == b.target_id
            && a.kind@ == b.kind@ && a.severity == b.severity && text_view(a.model) == text_view(
            b.model,
        ) && text_view(a.model_version) == text_view(b.model_version)) ==> same_identity(a, b),
        same_identity(a, a),
{
}

/// "idempotencyKey was already used for a different moderation signal".
pub open spec fn different_signal_message() -> Seq<char> {
    "idempotencyKey was already used for a different moderation signal"@
}

/// Decides a replayed signal: it is accepted, as the stored one, only when
/// it repeats every field of the stored signal — its identity, its confidence
/// and its evidence, and its observation time when the replay gives one;
/// otherwise the key was used for a different signal.
pub fn signal_replay_check(
    stored: SignalIdentity,
    replayed: SignalIdentity,
    same_confidence: bool,
    same_evidence: bool,
    observed_at_given: bool,
    same_observed_at: bool,
) -> (r: Result<(), ApiError>)
    ensures
        r is Ok <==> (same_identity(stored, replayed) && same_confidence && same_evidence && (
        !observed_at_given || same_observed_at)),
        r matches Err(e) ==> is_bad_request(e, different_signal_message()),
        r is Ok ==> {
            &&& stored.case_id == replayed.case_id
            &&& stored.target_type == replayed.target_type
            &&& stored.target_id == replayed.target_id
            &&& stored.kind@ == replayed.kind@
            &&& stored.severity == replayed.severity
            &&& text_view(stored.model) == text_view(replayed.model)
            &&& text_view(stored.model_version) == text_view(replayed.model_version)
            &&& same_confidence
            &&& same_evidence
            &&& (observed_at_given ==> same_observed_at)
        },
{
    let same = stored.case_id == replayed.case_id && stored.target_type == replayed.target_type
        && stored.target_id == replayed.target_id && same_text(stored.kind, replayed.kind)
        && stored.severity == replayed.severity && same_optional_text(
        stored.model,
        replayed.model,
    ) && same_optional_text(stored.model_version, replayed.model_version);
    if !same || !same_confidence || !same_evidence || (observed_at_given && !same_observed_at) {
        return Err(
            ApiError::BadRequest(
                "idempotencyKey was already used for a different moderation signal".to_owned(),
            ),
        );
    }
    Ok(())
}

/// Answers a replayed signal (same source and idempotency key): the stored
/// signal itself when the replay repeats every field, else the bad request
/// that the key was used for a different signal.
pub fn replayed_signal<T>(
    stored: T,
    stored_identity: SignalIdentity,
    replayed: SignalIdentity,
    same_confidence: bool,
    same_evidence: bool,
    observed_at_given: bool,
    same_observed_at: bool,
) -> (r: Result<T, ApiError>)
    ensures
        (same_identity(stored_identity, replayed) && same_confidence && same_evidence && (
        !observed_at_given || same_observed_at)) ==> r == Ok::<T, ApiError>(stored),
        !(same_identity(stored_identity, replayed) && same_confidence && same_evidence && (
        !observed_at_given || same_observed_at)) ==> refused_as_bad_request(
            r,
            different_signal_message(),
        ),
{
    match signal_replay_check(
        stored_identity,
        replayed,
        same_confidence,
        same_evidence,
        observed_at_given,
        same_observed_at,
    ) {
        Ok(()) => Ok(stored),
        Err(e) => Err(e),
    }
}

} // verus!
