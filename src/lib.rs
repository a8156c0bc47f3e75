pub mod line_number;
pub mod stack;
pub mod value;
pub mod chunk;
pub mod vm;
pub mod debug;
pub mod scanner;
