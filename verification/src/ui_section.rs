//! The edits that the section views of the editor record on their nodes.
pub use crate::edit::{
    ApplicationMutation, DuplicationMutation, FunctionMutation, HoleMutation, LambdaMutation,
    PutMutation, ReferenceMutation, UniverseMutation, WrapMutation,
};
