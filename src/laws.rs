use vstd::prelude::*;

use crate::arm::{arm_model, error_body, response_of, ResponseModel};
use crate::binding::{bound_values, SlotBinding};
use crate::descriptor::{CaseModel, SumTypeModel};
use crate::emit::{arm_accepts, dispatch, impl_model, is_first_accepting};
use crate::template::{marker, marker_count, replace_first, substitute};

verus! {

/// No two cases of the sum type share a name.
pub open spec fn names_unique(cases: Seq<CaseModel>) -> bool {
    forall|j: int, k: int|
        0 <= j < cases.len() && 0 <= k < cases.len() && j != k ==> #[trigger] cases[j].name
            != #[trigger] cases[k].name
}

/// A case without payload slots answers with its status and its message
/// verbatim, whatever markers the message holds.
pub proof fn lemma_no_slots_literal(c: CaseModel)
    requires
        c.slot_types.len() == 0,
    ensures
        arm_model(c).bindings.len() == 0,
        response_of(arm_model(c), seq![]) == (ResponseModel {
            status: c.status,
            body: error_body(c.message),
        }),
{
}

/// A case with payload slots and a template without markers discards every
/// slot in its pattern and answers with its message verbatim, whatever the
/// slot values.
pub proof fn lemma_no_placeholders_literal(c: CaseModel, values: Seq<Seq<char>>)
    requires
        c.slot_types.len() > 0,
        marker_count(c.message) == 0,
        values.len() == c.slot_types.len(),
    ensures
        arm_model(c).bindings.len() == c.slot_types.len(),
        forall|i: int|
            0 <= i < c.slot_types.len() ==> #[trigger] arm_model(c).bindings[i]
                == SlotBinding::Discarded,
        response_of(arm_model(c), values) == (ResponseModel {
            status: c.status,
            body: error_body(c.message),
        }),
{
}

/// With one marker and one slot, the body is the template with its marker
/// replaced by the slot's value.
pub proof fn lemma_one_placeholder(c: CaseModel, values: Seq<Seq<char>>)
    requires
        c.slot_types.len() == 1,
        marker_count(c.message) == 1,
        values.len() == 1,
    ensures
        response_of(arm_model(c), values) == (ResponseModel {
            status: c.status,
            body: error_body(replace_first(c.message, marker(), values[0])),
        }),
{
    let a = arm_model(c);
    assert(a.bindings[0] == SlotBinding::Bound(0));
    assert(a.bindings.drop_last().len() == 0);
    assert(bound_values(a.bindings.drop_last(), values.drop_last()) == Seq::<Seq<char>>::empty());
    assert(a.bindings.last() is Bound);
    assert(bound_values(a.bindings, values) =~= seq![values[0]]);
    assert(seq![values[0]].drop_last() =~= Seq::<Seq<char>>::empty());
    assert(substitute(c.message, Seq::<Seq<char>>::empty()) == c.message);
    assert(substitute(c.message, seq![values[0]]) == replace_first(c.message, marker(), values[0]));
}

/// With two markers and two slots, the first slot's value replaces the first
/// marker and then the second slot's value the first marker that remains.
pub proof fn lemma_two_placeholders_in_order(c: CaseModel, values: Seq<Seq<char>>)
    requires
        c.slot_types.len() == 2,
        marker_count(c.message) == 2,
        values.len() == 2,
    ensures
        response_of(arm_model(c), values) == (ResponseModel {
            status: c.status,
            body: error_body(
                replace_first(replace_first(c.message, marker(), values[0]), marker(), values[1]),
            ),
        }),
{
    let a = arm_model(c);
    let b = a.bindings;
    assert(b[0] == SlotBinding::Bound(0));
    assert(b[1] == SlotBinding::Bound(1));
    let b1 = b.drop_last();
    let v1 = values.drop_last();
    assert(b1.drop_last().len() == 0);
    assert(bound_values(b1.drop_last(), v1.drop_last()) == Seq::<Seq<char>>::empty());
    assert(b1.last() is Bound);
    assert(b.last() is Bound);
    assert(v1.last() == values[0]);
    assert(bound_values(b1, v1) =~= seq![values[0]]);
    assert(bound_values(b, values) =~= seq![values[0], values[1]]);
    let s2 = seq![values[0], values[1]];
    assert(s2.drop_last() =~= seq![values[0]]);
    assert(seq![values[0]].drop_last() =~= Seq::<Seq<char>>::empty());
    assert(substitute(c.message, Seq::<Seq<char>>::empty()) == c.message);
    assert(substitute(c.message, seq![values[0]]) == replace_first(c.message, marker(), values[0]));
}

/// Generation makes exactly one arm per case, in case order, and the generated
/// conversion, run on a value of any case, answers with that case's arm and
/// hence with the status code the case declares.
pub proof fn lemma_dispatch_exhaustive(d: SumTypeModel, k: int, values: Seq<Seq<char>>)
    requires
        names_unique(d.cases),
        0 <= k < d.cases.len(),
        values.len() == d.cases[k].slot_types.len(),
    ensures
        impl_model(d).arms.len() == d.cases.len(),
        forall|j: int|
            0 <= j < d.cases.len() ==> (arm_accepts(
                #[trigger] impl_model(d).arms[j],
                d.cases[k].name,
                values.len(),
            ) <==> j == k),
        dispatch(impl_model(d), d.cases[k].name, values) == Some(
            response_of(arm_model(d.cases[k]), values),
        ),
        dispatch(impl_model(d), d.cases[k].name, values).unwrap().status == d.cases[k].status,
{
    let m = impl_model(d);
    let name = d.cases[k].name;
    let n = values.len();
    assert forall|j: int| 0 <= j < d.cases.len() implies (arm_accepts(
        #[trigger] m.arms[j],
        name,
        n,
    ) <==> j == k) by {
        if j != k {
            assert(d.cases[j].name != d.cases[k].name);
        }
    }
    assert(is_first_accepting(m.arms, name, n, k));
    let c = choose|c: int| is_first_accepting(m.arms, name, n, c);
    assert(c == k);
}

/// Generation is a function of the descriptor alone: equal descriptors give
/// equal conversions, with the arms in the order of the cases.
pub proof fn lemma_generation_deterministic(d1: SumTypeModel, d2: SumTypeModel)
    requires
        d1 == d2,
    ensures
        impl_model(d1) == impl_model(d2),
        forall|k: int|
            0 <= k < d1.cases.len() ==> #[trigger] impl_model(d1).arms[k] == arm_model(
                d1.cases[k],
            ),
{
}

} // verus!
