//! Term analysis, literal code generation and a term zipper for the Welkin
//! structural editor, with their behaviour stated as Verus contracts.
pub mod annotated;
pub mod bindings;
pub mod clipboard;
pub mod complete;
pub mod controls;
pub mod definitions;
pub mod dynamic;
pub mod edit;
pub mod evaluator;
pub mod literal;
pub mod normalize;
pub mod resolve;
pub mod shift;
pub mod stratified;
pub mod substitute;
pub mod term;
pub mod ui_section;
pub mod zipper;
