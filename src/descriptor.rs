use vstd::prelude::*;

verus! {

/// Declares syn::Generics, the sum type's generic parameters, which generation
/// hands on unchanged without looking inside.
#[verifier::external_type_specification]
#[verifier::external_body]
pub struct ExGenerics(syn::Generics);

/// One case of the sum type, as parsed from its definition and annotation.
#[derive(Debug, Clone)]
pub struct CaseDescriptor {
    pub name: String,
    /// The payload slot types, in declaration order, as source text.
    pub slot_types: Vec<String>,
    pub status: u16,
    pub message: String,
}

/// The sum type: its name, generic parameters and cases in declaration order.
pub struct SumTypeDescriptor {
    pub name: String,
    pub generics: syn::Generics,
    pub cases: Vec<CaseDescriptor>,
}

pub ghost struct CaseModel {
    pub name: Seq<char>,
    pub slot_types: Seq<Seq<char>>,
    pub status: u16,
    pub message: Seq<char>,
}

pub ghost struct SumTypeModel {
    pub name: Seq<char>,
    pub generics: syn::Generics,
    pub cases: Seq<CaseModel>,
}

pub open spec fn strings_view(v: Seq<String>) -> Seq<Seq<char>> {
    v.map_values(|s: String| s@)
}

impl View for CaseDescriptor {
    type V = CaseModel;

    open spec fn view(&self) -> CaseModel {
        CaseModel {
            name: self.name@,
            slot_types: strings_view(self.slot_types@),
            status: self.status,
            message: self.message@,
        }
    }
}

impl View for SumTypeDescriptor {
    type V = SumTypeModel;

    open spec fn view(&self) -> SumTypeModel {
        SumTypeModel {
            name: self.name@,
            generics: self.generics,
            cases: self.cases@.map_values(|c: CaseDescriptor| c@),
        }
    }
}

/// Why generation stopped.
#[derive(Debug, Clone, PartialEq, Eq)]
pub enum GenError {
    /// A case declares a status code that is not a valid HTTP status.
    InvalidStatus { case_name: String, status: u16 },
}

impl CaseDescriptor {
    pub fn new(name: String, slot_types: Vec<String>, status: u16, message: String) -> (r: Self)
        ensures
            r.name == name,
            r.slot_types == slot_types,
            r.status == status,
            r.message == message,
    {
        CaseDescriptor { name, slot_types, status, message }
    }
}

impl SumTypeDescriptor {
    pub fn new(name: String, generics: syn::Generics, cases: Vec<CaseDescriptor>) -> (r: Self)
        ensures
            r.name == name,
            r.generics == generics,
            r.cases == cases,
    {
        SumTypeDescriptor { name, generics, cases }
    }
}

} // verus!
