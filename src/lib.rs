//! Generation core of a derive that turns a tagged sum type, whose cases carry a
//! status code and a message template, into a conversion to an HTTP response.

pub mod arm;
pub mod binding;
pub mod descriptor;
pub mod emit;
pub mod laws;
pub mod template;

pub use arm::{build_arm, ArmBody, GeneratedArm, Response};
pub use binding::{bind_slots, binding_name, SlotBinding};
pub use descriptor::{CaseDescriptor, GenError, SumTypeDescriptor};
pub use emit::{generate, GeneratedImpl};
pub use template::{count_placeholders, replace_first_occurrence};
