//! Schema migrations as commands: each can be executed and rolled back, and
//! a schema rolls its migrations back in the reverse of the order in which
//! it executes them. The same idea three times over, by what holds a command.

pub mod using_fn_trait_objects;
pub mod using_function_pointers;
pub mod using_trait_objects;
