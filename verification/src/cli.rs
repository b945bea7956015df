//! The command-line adapter: one request per process invocation, a single
//! machine-parseable JSON line on standard output on success, a diagnostic on
//! standard error and a nonzero exit code on indeterminate input.

use vstd::prelude::*;

use crate::classify::{classify, classify_of, ClassificationView};
use crate::confidence::decimal_of_ppm;
use crate::json::json_string;

verus! {

/// How one command-line invocation ends.
pub enum CliOutcome {
    /// The JSON line for standard output; the process exits with 0.
    Success(String),
    /// The diagnostic for standard error; the process exits with 1.
    Failure(String),
}

impl CliOutcome {
    /// The process exit code this outcome asks for.
    pub fn exit_code(&self) -> (r: i32)
        ensures
            self matches CliOutcome::Success(_) <==> r == 0,
            self matches CliOutcome::Failure(_) <==> r == 1,
    {
        match self {
            CliOutcome::Success(_) => 0,
            CliOutcome::Failure(_) => 1,
        }
    }
}

pub open spec fn bool_chars(b: bool) -> Seq<char> {
    if b {
        "true"@
    } else {
        "false"@
    }
}

/// The JSON line printed for a successful classification.
pub open spec fn cli_json(v: ClassificationView) -> Seq<char> {
    "{\"lang\":"@ + json_string(v.lang_code) + ",\"script\":"@ + json_string(v.script_name)
        + ",\"confidence\":"@ + decimal_of_ppm(v.confidence_ppm) + ",\"is_reliable\":"@
        + bool_chars(v.is_reliable) + "}"@
}

/// Decides the outcome of `detect <text>` on the command line.
pub fn cli_detect(text: &str) -> (r: CliOutcome)
    ensures
        classify_of(text@) matches Ok(v) ==> (r matches CliOutcome::Success(line) && line@
            == cli_json(v)),
        classify_of(text@) is Err ==> (r matches CliOutcome::Failure(d) && d@
            == "Unable to detect language for the given text"@),
        text@.len() == 0 ==> r matches CliOutcome::Failure(_),
{
    match classify(text) {
        Ok(info) => {
            let mut out = String::from_str("{\"lang\":");
            crate::json::append_json_string(&mut out, info.lang_code.as_str());
            out.append(",\"script\":");
            crate::json::append_json_string(&mut out, info.script_name.as_str());
            out.append(",\"confidence\":");
            let conf = crate::confidence::ppm_to_decimal(info.confidence_ppm);
            out.append(conf.as_str());
            out.append(",\"is_reliable\":");
            if info.is_reliable {
                out.append("true");
            } else {
                out.append("false");
            }
            out.append("}");
            CliOutcome::Success(out)
        },
        Err(_) => CliOutcome::Failure(
            String::from_str("Unable to detect language for the given text"),
        ),
    }
}

} // verus!
