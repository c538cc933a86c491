//! The names that most users need, in one place.

pub use crate::parser::Class::{Application, Context, Private, Universal};
pub use crate::parser::Encoding::{Constructed, Primitive};
pub use crate::parser::Parser;
pub use crate::parser::Tag::{
    Bitstring, Bool, Composed, GeneralizedTime, Ia5String, Int, Null, Octetstring, Oid,
    PrintableString, Sequence, SetOf, String, T61String, Time, UtcTime, Utf8String, VisibleString,
};
pub use crate::types;
pub use crate::types::TokenType;
