//! The REST adapter: the liveness probe and the detection endpoint, as plain
//! status-and-body replies that the HTTP layer sends verbatim.

use vstd::prelude::*;

use crate::classify::{classify, classify_of, ClassificationInfo, ClassificationView};
use crate::confidence::decimal_of_ppm;
use crate::json::json_string;

verus! {

/// A decided HTTP reply: a status code and a body.
pub struct HttpReply {
    pub status: u16,
    pub body: String,
}

/// The JSON body of a successful detection reply.
pub open spec fn rest_json(v: ClassificationView) -> Seq<char> {
    "{\"language\":"@ + json_string(v.lang_name) + ",\"script\":"@ + json_string(v.script_name)
        + ",\"confidence\":"@ + decimal_of_ppm(v.confidence_ppm) + "}"@
}

/// Renders a classification as the REST success body.
pub fn rest_success_body(info: &ClassificationInfo) -> (r: String)
    requires
        info@.wf(),
    ensures
        r@ == rest_json(info@),
{
    let mut out = String::from_str("{\"language\":");
    crate::json::append_json_string(&mut out, info.lang_name.as_str());
    out.append(",\"script\":");
    crate::json::append_json_string(&mut out, info.script_name.as_str());
    out.append(",\"confidence\":");
    let conf = crate::confidence::ppm_to_decimal(info.confidence_ppm);
    out.append(conf.as_str());
    out.append("}");
    out
}

/// The liveness probe: always plain `Ok`, independent of the detector's and
/// the storage collaborator's health.
pub fn health_reply() -> (r: HttpReply)
    ensures
        r.status == 200,
        r.body@ == "Ok"@,
{
    HttpReply { status: 200, body: String::from_str("Ok") }
}

/// Decides the reply to a detection request over the raw request body.
///
/// A classifiable body is answered 200 with the JSON classification; an
/// indeterminate one — the empty body among them — is answered 400 with an
/// explanatory phrase.
pub fn detect_reply(body: &str) -> (r: HttpReply)
    ensures
        classify_of(body@) matches Ok(v) ==> r.status == 200 && r.body@ == rest_json(v),
        classify_of(body@) is Err ==> r.status == 400 && r.body@
            == "Unable to detect language for body"@,
        body@.len() == 0 ==> r.status == 400 && r.body@.len() > 0,
{
    match classify(body) {
        Ok(info) => HttpReply { status: 200, body: rest_success_body(&info) },
        Err(e) => {
            let reply = HttpReply { status: 400, body: String::from_str(e.message()) };
            proof {
                reveal_strlit("Unable to detect language for body");
            }
            reply
        },
    }
}

} // verus!
