pub mod box_stream;
pub mod box_type;
pub mod flag;
pub mod text;
pub mod bit_stream;
