//! Finds public functions whose bodies may panic while their documentation
//! does not say so.

pub mod text;
pub mod line_index;
pub mod syntax;
pub mod ast_walker;
pub mod dir_walker;
pub mod analysis;
