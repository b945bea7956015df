//! The detection gateway.
//!
//! It wraps the external language detector and normalizes its report: a text
//! with no detectable linguistic signal (the empty text among them) fails with
//! an explicit `Indeterminate` outcome, and a successful report is validated
//! into a `ClassificationInfo` whose confidence is an exact number of parts
//! per million within the unit interval. The gateway has no state and no side
//! effects, so it is safe to call concurrently from independent requests.

use vstd::prelude::*;

use crate::confidence::{ppm_of_decimal, PPM_SCALE};

verus! {

/// Why no classification was produced.
#[derive(Debug, Clone, Copy, PartialEq, Eq, Structural)]
pub enum DetectionError {
    /// The input carries no reliably classifiable linguistic signal.
    Indeterminate,
}

impl DetectionError {
    /// A diagnostic phrase for this failure.
    pub fn message(&self) -> (r: &'static str)
        ensures
            r@ == "Unable to detect language for body"@,
    {
        "Unable to detect language for body"
    }
}

/// The structured result of a successful detection.
pub struct ClassificationInfo {
    /// ISO 639-3 code of the detected language.
    pub lang_code: String,
    /// Human-readable English name of the detected language.
    pub lang_name: String,
    /// Human-readable name of the detected writing system.
    pub script_name: String,
    /// Detection confidence in parts per million of one unit.
    pub confidence_ppm: u32,
    /// Whether the confidence clears the detector's reliability threshold.
    pub is_reliable: bool,
}

/// The mathematical shadow of a `ClassificationInfo`.
pub struct ClassificationView {
    pub lang_code: Seq<char>,
    pub lang_name: Seq<char>,
    pub script_name: Seq<char>,
    pub confidence_ppm: int,
    pub is_reliable: bool,
}

impl View for ClassificationInfo {
    type V = ClassificationView;

    open spec fn view(&self) -> ClassificationView {
        ClassificationView {
            lang_code: self.lang_code@,
            lang_name: self.lang_name@,
            script_name: self.script_name@,
            confidence_ppm: self.confidence_ppm as int,
            is_reliable: self.is_reliable,
        }
    }
}

impl ClassificationView {
    /// A classification is well formed when it is fully populated and its
    /// confidence lies within the unit interval.
    pub open spec fn wf(self) -> bool {
        &&& 0 <= self.confidence_ppm <= PPM_SCALE
        &&& self.lang_code.len() > 0
        &&& self.lang_name.len() > 0
        &&& self.script_name.len() > 0
    }
}

/// What the external detector reports for a text, if anything: the language
/// code, the English language name, the script name, the confidence rendered
/// as a decimal numeral, and the reliability flag. Detection is a pure
/// function of the text, so its report can be given a name.
pub uninterp spec fn detect_of(t: Seq<char>) -> Option<(Seq<char>, Seq<char>, Seq<char>, Seq<char>, bool)>;

/// The view of a raw detector report.
pub open spec fn report_view(r: Option<(String, String, String, String, bool)>) -> Option<
    (Seq<char>, Seq<char>, Seq<char>, Seq<char>, bool),
> {
    match r {
        None => None,
        Some(d) => Some((d.0@, d.1@, d.2@, d.3@, d.4)),
    }
}

/// Relies on `whatlang::detect` and the accessors of its `Info`, `Lang` and
/// `Script` types: detection is deterministic in the text (every tie among
/// candidates is broken through a total order over fixed tables); an empty
/// text has no detectable script, so the report is `None`; language codes are
/// the three-letter ISO 639-3 codes; language and script names are nonempty.
/// The confidence accessor's value is rendered in decimal by the standard
/// formatter.
#[verifier::external_body]
fn detect_report(text: &str) -> (r: Option<(String, String, String, String, bool)>)
    ensures
        report_view(r) == detect_of(text@),
        text@.len() == 0 ==> r is None,
        r matches Some(d) ==> d.0@.len() == 3 && d.1@.len() > 0 && d.2@.len() > 0,
{
    whatlang::detect(text).map(|info| (
        info.lang().code().to_string(),
        info.lang().eng_name().to_string(),
        info.script().name().to_string(),
        format!("{}", info.confidence()),
        info.is_reliable(),
    ))
}

/// How a raw detector report is normalized: no report, a partial report, and
/// a confidence that is not a decimal numeral within the unit interval are all
/// indeterminate; anything else becomes a well-formed classification.
pub open spec fn classified(o: Option<(Seq<char>, Seq<char>, Seq<char>, Seq<char>, bool)>) -> Result<
    ClassificationView,
    DetectionError,
> {
    match o {
        None => Err(DetectionError::Indeterminate),
        Some(e) => match ppm_of_decimal(e.3) {
            Some(v) => if 0 <= v <= PPM_SCALE && e.0.len() > 0 && e.1.len() > 0 && e.2.len() > 0 {
                Ok(
                    ClassificationView {
                        lang_code: e.0,
                        lang_name: e.1,
                        script_name: e.2,
                        confidence_ppm: v,
                        is_reliable: e.4,
                    },
                )
            } else {
                Err(DetectionError::Indeterminate)
            },
            None => Err(DetectionError::Indeterminate),
        },
    }
}

/// What `classify` returns for a given text.
pub open spec fn classify_of(t: Seq<char>) -> Result<ClassificationView, DetectionError> {
    classified(detect_of(t))
}

/// The view of a classification outcome.
pub open spec fn outcome_view(r: Result<ClassificationInfo, DetectionError>) -> Result<
    ClassificationView,
    DetectionError,
> {
    match r {
        Ok(info) => Ok(info@),
        Err(e) => Err(e),
    }
}

/// Normalizes a raw detector report, whatever it holds.
pub fn classify_report(raw: Option<(String, String, String, String, bool)>) -> (r: Result<
    ClassificationInfo,
    DetectionError,
>)
    ensures
        outcome_view(r) == classified(report_view(raw)),
        r matches Ok(info) ==> info@.wf(),
{
    match raw {
        None => Err(DetectionError::Indeterminate),
        Some((code, name, script, conf, reliable)) => {
            if code.as_str().is_empty() || name.as_str().is_empty() || script.as_str().is_empty() {
                return Err(DetectionError::Indeterminate);
            }
            match crate::confidence::parse_confidence_ppm(conf.as_str()) {
                Some(ppm) => Ok(
                    ClassificationInfo {
                        lang_code: code,
                        lang_name: name,
                        script_name: script,
                        confidence_ppm: ppm,
                        is_reliable: reliable,
                    },
                ),
                None => Err(DetectionError::Indeterminate),
            }
        },
    }
}

/// Classifies a text by natural language, script and confidence.
///
/// Fails with `Indeterminate` exactly when the detector has no valid report
/// for the text; the empty text always fails. On success the classification
/// is fully populated and its confidence lies within the unit interval.
pub fn classify(text: &str) -> (r: Result<ClassificationInfo, DetectionError>)
    ensures
        outcome_view(r) == classify_of(text@),
        text@.len() == 0 ==> r == Err::<ClassificationInfo, DetectionError>(
            DetectionError::Indeterminate,
        ),
        r matches Ok(info) ==> info@.wf(),
{
    let raw = detect_report(text);
    classify_report(raw)
}

/// Every classification the gateway can return is well formed: fully
/// populated, with its confidence within the unit interval.
pub proof fn lemma_classification_well_formed(t: Seq<char>)
    ensures
        classify_of(t) matches Ok(v) ==> v.wf(),
{
}

/// Classification is idempotent: it is a pure function of the text, so any
/// two outcomes that meet `classify`'s contract for the same text are the
/// same classification.
pub proof fn lemma_classify_idempotent(
    t: Seq<char>,
    r1: Result<ClassificationInfo, DetectionError>,
    r2: Result<ClassificationInfo, DetectionError>,
)
    requires
        outcome_view(r1) == classify_of(t),
        outcome_view(r2) == classify_of(t),
    ensures
        outcome_view(r1) == outcome_view(r2),
{
}

} // verus!
