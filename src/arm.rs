use vstd::prelude::*;

use crate::binding::{bind_slots, bindings_for, bound_values, SlotBinding};
use crate::descriptor::{strings_view, CaseDescriptor, CaseModel, GenError};
use crate::template::{
    count_placeholders, marker, marker_count, replace_first, replace_first_occurrence, substitute,
};

verus! {

/// How the body of an arm's response is computed.
#[derive(Debug, Clone, PartialEq, Eq)]
pub enum ArmBody {
    /// The message is used verbatim.
    Literal(String),
    /// The bound slot values replace the template's markers, in slot order.
    Substituted(String),
}

/// The generated handling of one case: the pattern (case name and slot
/// bindings; a bare name when there are no slots) and the response built.
#[derive(Debug, Clone, PartialEq, Eq)]
pub struct GeneratedArm {
    pub case_name: String,
    pub bindings: Vec<SlotBinding>,
    pub status: u16,
    pub body: ArmBody,
}

/// The response that a generated conversion returns.
#[derive(Debug, Clone, PartialEq, Eq)]
pub struct Response {
    pub status: u16,
    pub body: String,
}

pub ghost enum BodyModel {
    Literal(Seq<char>),
    Substituted(Seq<char>),
}

pub ghost struct ArmModel {
    pub case_name: Seq<char>,
    pub bindings: Seq<SlotBinding>,
    pub status: u16,
    pub body: BodyModel,
}

pub ghost struct ResponseModel {
    pub status: u16,
    pub body: Seq<char>,
}

impl View for ArmBody {
    type V = BodyModel;

    open spec fn view(&self) -> BodyModel {
        match self {
            ArmBody::Literal(m) => BodyModel::Literal(m@),
            ArmBody::Substituted(t) => BodyModel::Substituted(t@),
        }
    }
}

impl View for GeneratedArm {
    type V = ArmModel;

    open spec fn view(&self) -> ArmModel {
        ArmModel {
            case_name: self.case_name@,
            bindings: self.bindings@,
            status: self.status,
            body: self.body@,
        }
    }
}

impl View for Response {
    type V = ResponseModel;

    open spec fn view(&self) -> ResponseModel {
        ResponseModel { status: self.status, body: self.body@ }
    }
}

/// A status code that the response library accepts.
pub open spec fn is_valid_status(code: u16) -> bool {
    100 <= code <= 999
}

/// The arm generated for a case: with no slots, or with slots and no
/// placeholder, the message is literal; otherwise it is substituted.
pub open spec fn arm_model(c: CaseModel) -> ArmModel {
    let n = c.slot_types.len();
    let p = marker_count(c.message);
    ArmModel {
        case_name: c.name,
        bindings: bindings_for(n, p),
        status: c.status,
        body: if n == 0 || p == 0 {
            BodyModel::Literal(c.message)
        } else {
            BodyModel::Substituted(c.message)
        },
    }
}

/// The JSON-shaped body `{"error": "<message>"}`, without any escaping.
pub open spec fn error_body(m: Seq<char>) -> Seq<char> {
    seq!['{', '"', 'e', 'r', 'r', 'o', 'r', '"', ':', ' ', '"'] + m + seq!['"', '}']
}

/// What the arm returns for a value of its case whose slots print as `values`.
pub open spec fn response_of(a: ArmModel, values: Seq<Seq<char>>) -> ResponseModel {
    ResponseModel {
        status: a.status,
        body: match a.body {
            BodyModel::Literal(m) => error_body(m),
            BodyModel::Substituted(t) => error_body(substitute(t, bound_values(a.bindings, values))),
        },
    }
}

/// Relies on axum::http::StatusCode::from_u16, which accepts a code exactly when
/// it lies in 100..=999.
#[verifier::external_body]
fn status_accepted(code: u16) -> (r: bool)
    ensures
        r == is_valid_status(code),
{
    axum::http::StatusCode::from_u16(code).is_ok()
}

fn error_body_of(m: &str) -> (r: String)
    ensures
        r@ == error_body(m@),
{
    let mut r = String::from_str("{\"error\": \"");
    r.append(m);
    r.append("\"}");
    proof {
        reveal_strlit("{\"error\": \"");
        reveal_strlit("\"}");
    }
    assert(r@ =~= error_body(m@));
    r
}

/// Builds the arm for one case; fails when its status code is not a valid HTTP
/// status.
pub fn build_arm(case: &CaseDescriptor) -> (r: Result<GeneratedArm, GenError>)
    ensures
        match r {
            Ok(a) => is_valid_status(case.status) && a@ == arm_model(case@),
            Err(e) => !is_valid_status(case.status) && (e matches GenError::InvalidStatus {
                case_name,
                status,
            } && case_name@ == case.name@ && status == case.status),
        },
{
    if !status_accepted(case.status) {
        return Err(GenError::InvalidStatus { case_name: case.name.clone(), status: case.status });
    }
    let n = case.slot_types.len();
    let p = count_placeholders(case.message.as_str());
    let bindings = bind_slots(n, p);
    let message = case.message.clone();
    let body = if n == 0 || p == 0 {
        ArmBody::Literal(message)
    } else {
        ArmBody::Substituted(message)
    };
    Ok(GeneratedArm { case_name: case.name.clone(), bindings, status: case.status, body })
}

impl GeneratedArm {
    /// Runs the arm on a value of its case whose slots print as `values`.
    pub fn respond(&self, values: &Vec<String>) -> (r: Response)
        requires
            values.len() == self.bindings.len(),
        ensures
            r@ == response_of(self@, strings_view(values@)),
    {
        match &self.body {
            ArmBody::Literal(m) => Response { status: self.status, body: error_body_of(m.as_str()) },
            ArmBody::Substituted(t) => {
                let ghost vs = strings_view(values@);
                let ghost b = self.bindings@;
                let mk = "{}";
                proof {
                    reveal_strlit("{}");
                    assert(mk@ =~= marker());
                }
                let n = self.bindings.len();
                let mut msg = t.clone();
                let mut i: usize = 0;
                assert(bound_values(b.take(0), vs.take(0)) =~= seq![]);
                while i < n
                    invariant
                        n == b.len(),
                        n == vs.len(),
                        vs == strings_view(values@),
                        b == self.bindings@,
                        mk@ == marker(),
                        i <= n,
                        msg@ == substitute(t@, bound_values(b.take(i as int), vs.take(i as int))),
                    decreases n - i,
                {
                    let ghost before = bound_values(b.take(i as int), vs.take(i as int));
                    assert(b.take(i + 1).drop_last() =~= b.take(i as int));
                    assert(vs.take(i + 1).drop_last() =~= vs.take(i as int));
                    match self.bindings[i] {
                        SlotBinding::Bound(_) => {
                            assert(bound_values(b.take(i + 1), vs.take(i + 1)) =~= before.push(
                                vs[i as int],
                            ));
                            assert(substitute(t@, before.push(vs[i as int])) == replace_first(
                                substitute(t@, before),
                                marker(),
                                vs[i as int],
                            )) by {
                                assert(before.push(vs[i as int]).drop_last() =~= before);
                            }
                            msg = replace_first_occurrence(msg.as_str(), mk, values[i].as_str());
                        },
                        SlotBinding::Discarded => {},
                    }
                    i = i + 1;
                }
                assert(b.take(n as int) =~= b);
                assert(vs.take(n as int) =~= vs);
                Response { status: self.status, body: error_body_of(msg.as_str()) }
            },
        }
    }
}

} // verus!
