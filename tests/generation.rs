use http_error_derive::{
    bind_slots, binding_name, build_arm, count_placeholders, generate, replace_first_occurrence,
    ArmBody, CaseDescriptor, GenError, SlotBinding, SumTypeDescriptor,
};
use quote::ToTokens;

fn strings(items: &[&str]) -> Vec<String> {
    items.iter().map(|s| s.to_string()).collect()
}

fn case(name: &str, slots: &[&str], status: u16, message: &str) -> CaseDescriptor {
    CaseDescriptor::new(name.to_string(), strings(slots), status, message.to_string())
}

fn sum_type(cases: Vec<CaseDescriptor>) -> SumTypeDescriptor {
    SumTypeDescriptor::new("ApiError".to_string(), syn::Generics::default(), cases)
}

fn body_of(c: &CaseDescriptor, values: &[&str]) -> String {
    let arm = match build_arm(c) {
        Ok(a) => a,
        Err(e) => panic!("unexpected error {:?}", e),
    };
    arm.respond(&strings(values)).body
}

#[test]
fn counts_markers_left_to_right() {
    assert_eq!(count_placeholders(""), 0);
    assert_eq!(count_placeholders("no markers here"), 0);
    assert_eq!(count_placeholders("{}"), 1);
    assert_eq!(count_placeholders("{} of {}"), 2);
    assert_eq!(count_placeholders("{}{}{}"), 3);
    assert_eq!(count_placeholders("{{}}"), 1);
    assert_eq!(count_placeholders("{ }"), 0);
    assert_eq!(count_placeholders("é{}ü{"), 1);
}

#[test]
fn replaces_only_the_first_occurrence() {
    assert_eq!(replace_first_occurrence("not found: {}", "{}", "user42"), "not found: user42");
    assert_eq!(replace_first_occurrence("{} and {}", "{}", "a"), "a and {}");
    assert_eq!(replace_first_occurrence("nothing", "{}", "a"), "nothing");
    assert_eq!(replace_first_occurrence("abc", "", "x"), "xabc");
    assert_eq!(replace_first_occurrence("", "{}", "x"), "");
    assert_eq!(replace_first_occurrence("ü{}é", "{}", "ß"), "üßé");
    assert_eq!(replace_first_occurrence("aab", "ab", "_"), "a_");
}

#[test]
fn binds_no_slot_when_there_are_none() {
    assert_eq!(bind_slots(0, 0), vec![]);
    assert_eq!(bind_slots(0, 3), vec![]);
}

#[test]
fn discards_every_slot_without_placeholders() {
    assert_eq!(bind_slots(2, 0), vec![SlotBinding::Discarded, SlotBinding::Discarded]);
}

#[test]
fn discards_the_slot_at_the_placeholder_count() {
    assert_eq!(bind_slots(1, 1), vec![SlotBinding::Bound(0)]);
    assert_eq!(bind_slots(2, 2), vec![SlotBinding::Bound(0), SlotBinding::Bound(1)]);
    assert_eq!(
        bind_slots(3, 1),
        vec![SlotBinding::Bound(0), SlotBinding::Discarded, SlotBinding::Bound(2)]
    );
    assert_eq!(bind_slots(2, 5), vec![SlotBinding::Bound(0), SlotBinding::Bound(1)]);
}

#[test]
fn names_bound_slots_by_position() {
    assert_eq!(binding_name(0), "f_0");
    assert_eq!(binding_name(7), "f_7");
    assert_eq!(binding_name(12), "f_12");
    assert_eq!(binding_name(305), "f_305");
}

#[test]
fn rejects_status_codes_outside_the_http_range() {
    for status in [0u16, 42, 99, 1000, 65535] {
        match build_arm(&case("Broken", &[], status, "x")) {
            Err(GenError::InvalidStatus { case_name, status: s }) => {
                assert_eq!(case_name, "Broken");
                assert_eq!(s, status);
            }
            Ok(_) => panic!("status {} accepted", status),
        }
    }
}

#[test]
fn accepts_status_codes_at_the_range_edges() {
    for status in [100u16, 404, 999] {
        let arm = build_arm(&case("Fine", &[], status, "x")).unwrap();
        assert_eq!(arm.status, status);
    }
}

#[test]
fn zero_slot_case_keeps_message_verbatim() {
    let c = case("Missing", &[], 404, "missing {} item");
    let arm = build_arm(&c).unwrap();
    assert!(arm.bindings.is_empty());
    assert_eq!(arm.body, ArmBody::Literal("missing {} item".to_string()));
    let r = arm.respond(&vec![]);
    assert_eq!(r.status, 404);
    assert_eq!(r.body, r#"{"error": "missing {} item"}"#);
}

#[test]
fn slots_without_placeholders_keep_message_verbatim() {
    let c = case("Static", &["String", "u32"], 400, "bad request");
    let arm = build_arm(&c).unwrap();
    assert_eq!(arm.bindings, vec![SlotBinding::Discarded, SlotBinding::Discarded]);
    assert_eq!(body_of(&c, &["a", "b"]), r#"{"error": "bad request"}"#);
}

#[test]
fn one_placeholder_takes_the_slot_value() {
    let c = case("NotFound", &["String"], 404, "not found: {}");
    assert_eq!(body_of(&c, &["user42"]), r#"{"error": "not found: user42"}"#);
}

#[test]
fn two_placeholders_follow_slot_order() {
    let c = case("Page", &["u32", "u32"], 416, "{} of {}");
    assert_eq!(body_of(&c, &["3", "10"]), r#"{"error": "3 of 10"}"#);
}

#[test]
fn fewer_placeholders_than_slots_leave_extra_values_out() {
    let c = case("Mixed", &["u8", "u8", "u8"], 400, "a {} b");
    let arm = build_arm(&c).unwrap();
    assert_eq!(
        arm.bindings,
        vec![SlotBinding::Bound(0), SlotBinding::Discarded, SlotBinding::Bound(2)]
    );
    assert_eq!(body_of(&c, &["x", "y", "z"]), r#"{"error": "a x b"}"#);
}

#[test]
fn more_placeholders_than_slots_leave_markers() {
    let c = case("Short", &["u8"], 400, "{} {} {}");
    assert_eq!(body_of(&c, &["v"]), r#"{"error": "v {} {}"}"#);
}

#[test]
fn substitution_works_on_the_current_text() {
    let c = case("Echo", &["String", "String"], 400, "{} {}");
    assert_eq!(body_of(&c, &["{}", "x"]), r#"{"error": "x {}"}"#);
}

#[test]
fn dispatch_answers_every_case_with_its_status() {
    let g = match generate(sum_type(vec![
        case("NotFound", &["String"], 404, "not found: {}"),
        case("Unauthorized", &[], 401, "unauthorized"),
        case("Range", &["u32", "u32"], 416, "{} of {}"),
    ])) {
        Ok(g) => g,
        Err(e) => panic!("unexpected error {:?}", e),
    };
    assert_eq!(g.arms.len(), 3);
    assert_eq!(g.sum_type, "ApiError");
    let r = g.into_response(&"NotFound".to_string(), &strings(&["user42"])).unwrap();
    assert_eq!((r.status, r.body.as_str()), (404, r#"{"error": "not found: user42"}"#));
    let r = g.into_response(&"Unauthorized".to_string(), &vec![]).unwrap();
    assert_eq!((r.status, r.body.as_str()), (401, r#"{"error": "unauthorized"}"#));
    let r = g.into_response(&"Range".to_string(), &strings(&["3", "10"])).unwrap();
    assert_eq!((r.status, r.body.as_str()), (416, r#"{"error": "3 of 10"}"#));
    assert!(g.into_response(&"Other".to_string(), &vec![]).is_none());
    assert!(g.into_response(&"Range".to_string(), &strings(&["3"])).is_none());
}

#[test]
fn generation_is_deterministic() {
    let make = || {
        sum_type(vec![
            case("A", &["u8", "u8"], 400, "{} and {}"),
            case("B", &[], 500, "boom"),
        ])
    };
    let first = match generate(make()) {
        Ok(g) => g,
        Err(e) => panic!("unexpected error {:?}", e),
    };
    let second = match generate(make()) {
        Ok(g) => g,
        Err(e) => panic!("unexpected error {:?}", e),
    };
    assert_eq!(first.arms, second.arms);
    assert_eq!(first.sum_type, second.sum_type);
}

#[test]
fn generation_stops_at_the_first_invalid_status() {
    let r = generate(sum_type(vec![
        case("Good", &[], 200, "ok"),
        case("Bad", &[], 42, "bad"),
        case("Worse", &[], 7, "worse"),
    ]));
    match r {
        Err(e) => assert_eq!(
            e,
            GenError::InvalidStatus { case_name: "Bad".to_string(), status: 42 }
        ),
        Ok(_) => panic!("invalid status accepted"),
    }
}

#[test]
fn generics_pass_through_unchanged() {
    let input: syn::DeriveInput =
        syn::parse_str("enum E<T: Clone> where T: Default { A(T) }").unwrap();
    let before = input.generics.to_token_stream().to_string();
    let desc = SumTypeDescriptor::new(
        "E".to_string(),
        input.generics,
        vec![case("A", &["T"], 400, "{}")],
    );
    let g = match generate(desc) {
        Ok(g) => g,
        Err(e) => panic!("unexpected error {:?}", e),
    };
    assert_eq!(g.generics.to_token_stream().to_string(), before);
}

#[test]
fn empty_sum_type_generates_no_arm() {
    let g = match generate(sum_type(vec![])) {
        Ok(g) => g,
        Err(e) => panic!("unexpected error {:?}", e),
    };
    assert!(g.arms.is_empty());
}
