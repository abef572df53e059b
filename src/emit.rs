use vstd::prelude::*;

use crate::arm::{
    arm_model, build_arm, is_valid_status, response_of, ArmModel, GeneratedArm, Response,
    ResponseModel,
};
use crate::descriptor::{strings_view, CaseModel, GenError, SumTypeDescriptor, SumTypeModel};

verus! {

/// The generated conversion for a whole sum type: one arm per case, in the
/// order of the cases, with the type's generic parameters as they were given.
pub struct GeneratedImpl {
    pub sum_type: String,
    pub generics: syn::Generics,
    pub arms: Vec<GeneratedArm>,
}

pub ghost struct ImplModel {
    pub sum_type: Seq<char>,
    pub generics: syn::Generics,
    pub arms: Seq<ArmModel>,
}

impl View for GeneratedImpl {
    type V = ImplModel;

    open spec fn view(&self) -> ImplModel {
        ImplModel {
            sum_type: self.sum_type@,
            generics: self.generics,
            arms: self.arms@.map_values(|a: GeneratedArm| a@),
        }
    }
}

/// The conversion generated for a sum type whose status codes are all valid.
pub open spec fn impl_model(d: SumTypeModel) -> ImplModel {
    ImplModel {
        sum_type: d.name,
        generics: d.generics,
        arms: d.cases.map_values(|c: CaseModel| arm_model(c)),
    }
}

/// Every case declares a valid status code.
pub open spec fn all_statuses_valid(cases: Seq<CaseModel>) -> bool {
    forall|k: int| 0 <= k < cases.len() ==> is_valid_status(#[trigger] cases[k].status)
}

/// `k` is the first case whose status code is not valid.
pub open spec fn is_first_invalid(cases: Seq<CaseModel>, k: int) -> bool {
    &&& 0 <= k < cases.len()
    &&& !is_valid_status(cases[k].status)
    &&& forall|j: int| 0 <= j < k ==> is_valid_status(#[trigger] cases[j].status)
}

/// The arm handles a value of the case named `name` that carries `n` slots.
pub open spec fn arm_accepts(a: ArmModel, name: Seq<char>, n: nat) -> bool {
    a.case_name == name && a.bindings.len() == n
}

pub open spec fn is_first_accepting(arms: Seq<ArmModel>, name: Seq<char>, n: nat, k: int) -> bool {
    &&& 0 <= k < arms.len()
    &&& arm_accepts(arms[k], name, n)
    &&& forall|j: int| 0 <= j < k ==> !arm_accepts(#[trigger] arms[j], name, n)
}

/// What the generated conversion returns for a value of the case `name` whose
/// slots print as `values`: the response of the arm that matches it, if any.
pub open spec fn dispatch(m: ImplModel, name: Seq<char>, values: Seq<Seq<char>>) -> Option<
    ResponseModel,
> {
    if exists|k: int| is_first_accepting(m.arms, name, values.len(), k) {
        let k = choose|k: int| is_first_accepting(m.arms, name, values.len(), k);
        Some(response_of(m.arms[k], values))
    } else {
        None
    }
}

/// Generates the conversion for a sum type: one arm per case, in order. Fails
/// on the first case whose status code is not a valid HTTP status.
pub fn generate(desc: SumTypeDescriptor) -> (r: Result<GeneratedImpl, GenError>)
    ensures
        match r {
            Ok(g) => all_statuses_valid(desc@.cases) && g@ == impl_model(desc@),
            Err(e) => exists|k: int|
                #![trigger desc@.cases[k]]
                is_first_invalid(desc@.cases, k) && (e matches GenError::InvalidStatus {
                    case_name,
                    status,
                } && case_name@ == desc@.cases[k].name && status == desc@.cases[k].status),
        },
{
    let ghost d = desc@;
    let SumTypeDescriptor { name, generics, cases } = desc;
    let mut arms: Vec<GeneratedArm> = Vec::new();
    let mut i: usize = 0;
    while i < cases.len()
        invariant
            d == desc@,
            d.cases == cases@.map_values(|c: crate::descriptor::CaseDescriptor| c@),
            i <= cases.len(),
            arms@.len() == i,
            forall|j: int| 0 <= j < i ==> is_valid_status(#[trigger] d.cases[j].status),
            forall|j: int| 0 <= j < i ==> #[trigger] arms@[j]@ == arm_model(d.cases[j]),
        decreases cases.len() - i,
    {
        match build_arm(&cases[i]) {
            Ok(a) => {
                arms.push(a);
            },
            Err(e) => {
                assert(is_first_invalid(d.cases, i as int));
                assert(d.cases[i as int] == cases@[i as int]@);
                return Err(e);
            },
        }
        i = i + 1;
    }
    let g = GeneratedImpl { sum_type: name, generics, arms };
    assert(g@.arms =~= impl_model(d).arms);
    Ok(g)
}

impl GeneratedImpl {
    /// Runs the generated conversion on a value of the case `case_name` whose
    /// slots print as `values`. `None` when no arm matches such a value.
    pub fn into_response(&self, case_name: &String, values: &Vec<String>) -> (r: Option<Response>)
        ensures
            match r {
                Some(resp) => dispatch(self@, case_name@, strings_view(values@)) == Some(resp@),
                None => dispatch(self@, case_name@, strings_view(values@)) is None,
            },
    {
        let ghost arms = self@.arms;
        let ghost n = strings_view(values@).len();
        let mut i: usize = 0;
        while i < self.arms.len()
            invariant
                arms == self@.arms,
                n == values@.len(),
                i <= self.arms.len(),
                forall|j: int| 0 <= j < i ==> !arm_accepts(#[trigger] arms[j], case_name@, n),
            decreases self.arms.len() - i,
        {
            let a = &self.arms[i];
            if a.case_name == *case_name && a.bindings.len() == values.len() {
                let ghost k = i as int;
                assert(is_first_accepting(arms, case_name@, n, k));
                proof {
                    let c = choose|c: int| is_first_accepting(arms, case_name@, n, c);
                    if c < k {
                        assert(!arm_accepts(arms[c], case_name@, n));
                    } else if k < c {
                        assert(!arm_accepts(arms[k], case_name@, n));
                    }
                }
                return Some(a.respond(values));
            }
            i = i + 1;
        }
        None
    }
}

} // verus!
