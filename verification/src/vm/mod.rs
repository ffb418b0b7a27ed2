pub mod function;
pub mod memory;
pub mod instruction;
pub mod io;
pub mod numeric;
pub mod pre_decoder;
pub mod ops;
pub mod code_manager;
pub mod step;
