pub mod cstr;
pub mod cstring;
