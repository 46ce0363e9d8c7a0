//! The shapes of key functions: named transformations applied to key
//! expressions before flows are categorized.
use vstd::prelude::*;

use crate::key::{KeyExpression, KeyFunction};

verus! {

/// A key function whose name is not one of the known functions.
#[derive(Debug, PartialEq)]
pub struct UnknownKeyFunction {
    pub function_name: String,
    pub args: Vec<KeyExpression>,
}

/// `group`: buckets the value of a key expression into named groups.
#[derive(Debug, PartialEq)]
pub struct GroupKeyFunction {
    pub key: Box<KeyExpression>,
    pub group_names: Vec<String>,
}

/// `country`: geolocates its argument, which is kept as raw text.
#[derive(Clone, Debug, PartialEq)]
pub struct CountryKeyFunction {
    pub arg: String,
}

impl From<UnknownKeyFunction> for KeyFunction {
    fn from(value: UnknownKeyFunction) -> (r: Self)
        ensures
            r == KeyFunction::Unknown(value),
    {
        KeyFunction::Unknown(value)
    }
}

impl vstd::std_specs::convert::FromSpecImpl<UnknownKeyFunction> for KeyFunction {
    open spec fn obeys_from_spec() -> bool {
        true
    }

    open spec fn from_spec(v: UnknownKeyFunction) -> Self {
        KeyFunction::Unknown(v)
    }
}

impl From<GroupKeyFunction> for KeyFunction {
    fn from(value: GroupKeyFunction) -> (r: Self)
        ensures
            r == KeyFunction::Group(value),
    {
        KeyFunction::Group(value)
    }
}

impl vstd::std_specs::convert::FromSpecImpl<GroupKeyFunction> for KeyFunction {
    open spec fn obeys_from_spec() -> bool {
        true
    }

    open spec fn from_spec(v: GroupKeyFunction) -> Self {
        KeyFunction::Group(v)
    }
}

impl From<CountryKeyFunction> for KeyFunction {
    fn from(value: CountryKeyFunction) -> (r: Self)
        ensures
            r == KeyFunction::Country(value),
    {
        KeyFunction::Country(value)
    }
}

impl vstd::std_specs::convert::FromSpecImpl<CountryKeyFunction> for KeyFunction {
    open spec fn obeys_from_spec() -> bool {
        true
    }

    open spec fn from_spec(v: CountryKeyFunction) -> Self {
        KeyFunction::Country(v)
    }
}

} // verus!
