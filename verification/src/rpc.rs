//! The RPC/schema adapter: the liveness query field, the detection mutation's
//! decision logic, its persistence plan, and the interactive exploration page.
//!
//! The mutation surfaces an indeterminate input as a typed error, the one
//! normalization all adapters share; the schema layer encodes it as a
//! request-level error with that message.

use vstd::prelude::*;

use crate::classify::{classify, classify_of, ClassificationView, DetectionError};
use crate::sink::{record_of, to_record, ClassificationRecord, storage_message_of, StorageError};

verus! {

/// The value of the schema's liveness query field.
pub fn howdy() -> (r: &'static str)
    ensures
        r@ == "partner"@,
{
    "partner"
}

/// The typed result of the detection mutation.
pub struct DetectResult {
    /// Human-readable English name of the detected language.
    pub lang: String,
    /// Human-readable name of the detected writing system.
    pub script: String,
    /// Detection confidence in parts per million of one unit.
    pub confidence_ppm: u32,
}

/// The mathematical shadow of a `DetectResult`.
pub struct DetectResultView {
    pub lang: Seq<char>,
    pub script: Seq<char>,
    pub confidence_ppm: int,
}

impl View for DetectResult {
    type V = DetectResultView;

    open spec fn view(&self) -> DetectResultView {
        DetectResultView {
            lang: self.lang@,
            script: self.script@,
            confidence_ppm: self.confidence_ppm as int,
        }
    }
}

/// What the mutation answers for a classification.
pub open spec fn detect_result_of(v: ClassificationView) -> DetectResultView {
    DetectResultView { lang: v.lang_name, script: v.script_name, confidence_ppm: v.confidence_ppm }
}

/// Decides the detection mutation: the typed answer together with the row to
/// persist. A persistence attempt is planned exactly on success, and the
/// answer never waits for it.
pub fn mutation_detect(text: &str) -> (r: Result<(DetectResult, ClassificationRecord), DetectionError>)
    ensures
        classify_of(text@) matches Ok(v) ==> r matches Ok(p) && p.0@ == detect_result_of(v)
            && p.1@ == record_of(v),
        classify_of(text@) matches Err(e) ==> r == Err::<(DetectResult, ClassificationRecord),
            DetectionError,
        >(e),
        text@.len() == 0 ==> r is Err,
{
    match classify(text) {
        Ok(info) => {
            let row = to_record(&info);
            let answer = DetectResult {
                lang: info.lang_name,
                script: info.script_name,
                confidence_ppm: info.confidence_ppm,
            };
            Ok((answer, row))
        },
        Err(e) => Err(e),
    }
}

/// Settles the request after the persistence attempt: the already-decided
/// answer is returned untouched whatever the storage outcome was, and a
/// failed write yields a line for the operational log and nothing else.
/// Persistence is best-effort telemetry, not part of the answer.
pub fn settle_recording(answer: DetectResult, stored: &Result<(), StorageError>) -> (r: (
    DetectResult,
    Option<&'static str>,
))
    ensures
        r.0 == answer,
        r.1 is Some <==> stored is Err,
        stored matches Err(e) ==> r.1 matches Some(m) && m@ == storage_message_of(*e),
{
    match stored {
        Ok(_) => (answer, None),
        Err(e) => (answer, Some(e.message())),
    }
}

/// What the interactive exploration page for an endpoint looks like.
pub uninterp spec fn graphiql_page_of(endpoint: Seq<char>) -> Seq<char>;

/// Relies on `async_graphql::http::GraphiQLSource`: the exploration page is a
/// fixed HTML template rendered from the endpoint alone.
#[verifier::external_body]
fn graphiql_html(endpoint: &str) -> (r: String)
    ensures
        r@ == graphiql_page_of(endpoint@),
{
    async_graphql::http::GraphiQLSource::build().endpoint(endpoint).finish()
}

/// The exploration page reply for the schema endpoint this service binds.
pub fn graphiql_reply(endpoint: &str) -> (r: crate::rest::HttpReply)
    ensures
        r.status == 200,
        r.body@ == graphiql_page_of(endpoint@),
{
    crate::rest::HttpReply { status: 200, body: graphiql_html(endpoint) }
}

} // verus!
