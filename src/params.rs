//! Typed values exchanged between node functions, and their type tags.
//!
//! Floating-point parameters are held as their IEEE-754 bit patterns:
//! `double` for binary64, `single` for binary32.
use vstd::prelude::*;

verus! {

/// The type tag of a parameter.
#[allow(non_camel_case_types)]
#[derive(Debug, Clone, Copy, PartialEq, Eq, Structural)]
pub enum ParamType {
    i64,
    double,
    single,
    Unknown,
}

/// A parameter value, tagged with its type.
#[allow(non_camel_case_types)]
#[derive(Clone, Copy, Debug, PartialEq, Eq, Structural)]
pub enum Param {
    i64(i64),
    double(u64),
    single(u32),
}

/// The tag of the variant that `p` holds.
pub open spec fn type_of(p: Param) -> ParamType {
    match p {
        Param::i64(_) => ParamType::i64,
        Param::double(_) => ParamType::double,
        Param::single(_) => ParamType::single,
    }
}

impl ParamType {
    pub fn is_unknown(&self) -> (r: bool)
        ensures
            r == (*self == ParamType::Unknown),
    {
        matches!(self, ParamType::Unknown)
    }

    /// The name of the type, as written in a function signature.
    pub fn name(&self) -> (r: &'static str)
        ensures
            *self == ParamType::i64 ==> r@ == "i64"@,
            *self == ParamType::double ==> r@ == "double"@,
            *self == ParamType::single ==> r@ == "single"@,
            *self == ParamType::Unknown ==> r@ == "Unknown"@,
    {
        match self {
            ParamType::i64 => "i64",
            ParamType::double => "double",
            ParamType::single => "single",
            ParamType::Unknown => "Unknown",
        }
    }
}

impl Param {
    pub fn get_type(&self) -> (r: ParamType)
        ensures
            r == type_of(*self),
    {
        match self {
            Param::i64(_) => ParamType::i64,
            Param::double(_) => ParamType::double,
            Param::single(_) => ParamType::single,
        }
    }

    pub fn from_i64(p: i64) -> (r: Param)
        ensures
            r == Param::i64(p),
    {
        Param::i64(p)
    }

    pub fn into_i64(self) -> (r: Option<i64>)
        ensures
            r == (match self {
                Param::i64(p) => Some(p),
                _ => None,
            }),
    {
        match self {
            Param::i64(p) => Some(p),
            _ => None,
        }
    }

    pub fn is_i64(&self) -> (r: bool)
        ensures
            r == (*self is i64),
    {
        matches!(self, Param::i64(_))
    }

    pub fn from_double(p: u64) -> (r: Param)
        ensures
            r == Param::double(p),
    {
        Param::double(p)
    }

    pub fn into_double(self) -> (r: Option<u64>)
        ensures
            r == (match self {
                Param::double(p) => Some(p),
                _ => None,
            }),
    {
        match self {
            Param::double(p) => Some(p),
            _ => None,
        }
    }

    pub fn is_double(&self) -> (r: bool)
        ensures
            r == (*self is double),
    {
        matches!(self, Param::double(_))
    }

    pub fn from_single(p: u32) -> (r: Param)
        ensures
            r == Param::single(p),
    {
        Param::single(p)
    }

    pub fn into_single(self) -> (r: Option<u32>)
        ensures
            r == (match self {
                Param::single(p) => Some(p),
                _ => None,
            }),
    {
        match self {
            Param::single(p) => Some(p),
            _ => None,
        }
    }

    pub fn is_single(&self) -> (r: bool)
        ensures
            r == (*self is single),
    {
        matches!(self, Param::single(_))
    }
}

} // verus!
