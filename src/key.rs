//! Flow key data model: key names, key functions, key expressions and key
//! definitions, together with their mathematical views.
use vstd::prelude::*;

use crate::key_function::{CountryKeyFunction, GroupKeyFunction, UnknownKeyFunction};
use crate::text::str_eq;

verus! {

/// A flow key: one aspect of the network-level information that flows are
/// categorized by.
#[derive(Clone, Debug, Hash, PartialEq, Eq)]
pub enum KeyName {
    IpSource,
    IpDestination,
    /// "ip6_offset": IPv6 header offset from start of packet
    Ip6Offset,
    /// "ip6tos": type of service bits
    Ip6TOS,
    /// "ip6ecn": explicit congestion notification bits
    Ip6ECN,
    /// "ip6dscp": differentiated services code point
    Ip6DSCP,
    /// "ip6dscpname": differentiated services code point name
    Ip6DSCPName,
    /// "ip6flowlabel": flow label
    Ip6FlowLabel,
    /// "ip6ttl": time to live
    Ip6TTL,
    /// "ip6source": source address
    Ip6Source,
    /// "ip6destination": destination address
    Ip6Destination,
    /// "ip6bytes": payload bytes
    Ip6Bytes,
    /// "ip6extensions": list of next header values for extension headers
    Ip6Extensions,
    /// "ip6fragoffset": fragment offset
    Ip6FragmentOffset,
    /// "ip6fragm": fragment m flag
    Ip6FragmentMFlag,
    /// "ip6nexthdr": next header
    Ip6NextHeader,
    /// An unrecognized key name, kept verbatim.
    Unknown(String),
}

/// One column of a flow key definition: a plain key name, or a key function
/// applied to further key expressions.
#[derive(Debug, PartialEq)]
pub enum KeyExpression {
    KeyName(KeyName),
    KeyFunction(KeyFunction),
}

/// A key function: a known one (`group`, `country`) or one with an
/// unrecognized name.
#[derive(Debug, PartialEq)]
pub enum KeyFunction {
    Group(GroupKeyFunction),
    Country(CountryKeyFunction),
    /// An unrecognized key function.
    Unknown(UnknownKeyFunction),
}

/// A flow key definition: a non-empty, ordered sequence of key expressions.
#[derive(Debug, PartialEq)]
pub struct KeyDefinition {
    pub keys: Vec<KeyExpression>,
}

impl From<KeyName> for KeyExpression {
    fn from(value: KeyName) -> (r: Self)
        ensures
            r == KeyExpression::KeyName(value),
    {
        KeyExpression::KeyName(value)
    }
}

impl vstd::std_specs::convert::FromSpecImpl<KeyName> for KeyExpression {
    open spec fn obeys_from_spec() -> bool {
        true
    }

    open spec fn from_spec(v: KeyName) -> Self {
        KeyExpression::KeyName(v)
    }
}

impl From<KeyFunction> for KeyExpression {
    fn from(value: KeyFunction) -> (r: Self)
        ensures
            r == KeyExpression::KeyFunction(value),
    {
        KeyExpression::KeyFunction(value)
    }
}

impl vstd::std_specs::convert::FromSpecImpl<KeyFunction> for KeyExpression {
    open spec fn obeys_from_spec() -> bool {
        true
    }

    open spec fn from_spec(v: KeyFunction) -> Self {
        KeyExpression::KeyFunction(v)
    }
}

/// Mathematical view of a key expression: a tree whose leaves are key names.
pub enum ExprView {
    Name(NameView),
    Function(FunctionView),
}

/// Mathematical view of a key function.
pub enum FunctionView {
    Group { key: Box<ExprView>, group_names: Seq<Seq<char>> },
    Country { arg: Seq<char> },
    Unknown { name: Seq<char>, args: Seq<ExprView> },
}

pub open spec fn expr_view(e: KeyExpression) -> ExprView
    decreases e,
{
    match e {
        KeyExpression::KeyName(k) => ExprView::Name(name_view(k)),
        KeyExpression::KeyFunction(f) => ExprView::Function(function_view(f)),
    }
}

pub open spec fn function_view(f: KeyFunction) -> FunctionView
    decreases f,
{
    match f {
        KeyFunction::Group(g) => FunctionView::Group {
            key: Box::new(expr_view(*g.key)),
            group_names: strings_view(g.group_names@),
        },
        KeyFunction::Country(c) => FunctionView::Country { arg: c.arg@ },
        KeyFunction::Unknown(u) => FunctionView::Unknown {
            name: u.function_name@,
            args: exprs_view(u.args@),
        },
    }
}

pub open spec fn exprs_view(v: Seq<KeyExpression>) -> Seq<ExprView>
    decreases v,
{
    if v.len() == 0 {
        seq![]
    } else {
        exprs_view(v.subrange(0, v.len() - 1)).push(expr_view(v[v.len() - 1]))
    }
}

pub open spec fn strings_view(v: Seq<String>) -> Seq<Seq<char>> {
    v.map_values(|t: String| t@)
}

/// Mathematical view of a key name: a known variant, or the text of an
/// unrecognized one.
pub enum NameView {
    Known(KeyName),
    Unknown(Seq<char>),
}

/// Every known key name, each listed once.
pub open spec fn known_keys() -> Seq<KeyName> {
    seq![
        KeyName::IpSource,
        KeyName::IpDestination,
        KeyName::Ip6Offset,
        KeyName::Ip6TOS,
        KeyName::Ip6ECN,
        KeyName::Ip6DSCP,
        KeyName::Ip6DSCPName,
        KeyName::Ip6FlowLabel,
        KeyName::Ip6TTL,
        KeyName::Ip6Source,
        KeyName::Ip6Destination,
        KeyName::Ip6Bytes,
        KeyName::Ip6Extensions,
        KeyName::Ip6FragmentOffset,
        KeyName::Ip6FragmentMFlag,
        KeyName::Ip6NextHeader,
    ]
}

/// The canonical text of a known key name; none for an unrecognized one.
pub open spec fn canonical_name(k: KeyName) -> Option<Seq<char>> {
    match k {
        KeyName::IpSource => Some("ipsource"@),
        KeyName::IpDestination => Some("ipdestination"@),
        KeyName::Ip6Offset => Some("ip6_offset"@),
        KeyName::Ip6TOS => Some("ip6tos"@),
        KeyName::Ip6ECN => Some("ip6ecn"@),
        KeyName::Ip6DSCP => Some("ip6dscp"@),
        KeyName::Ip6DSCPName => Some("ip6dscpname"@),
        KeyName::Ip6FlowLabel => Some("ip6flowlabel"@),
        KeyName::Ip6TTL => Some("ip6ttl"@),
        KeyName::Ip6Source => Some("ip6source"@),
        KeyName::Ip6Destination => Some("ip6destination"@),
        KeyName::Ip6Bytes => Some("ip6bytes"@),
        KeyName::Ip6Extensions => Some("ip6extensions"@),
        KeyName::Ip6FragmentOffset => Some("ip6fragoffset"@),
        KeyName::Ip6FragmentMFlag => Some("ip6fragm"@),
        KeyName::Ip6NextHeader => Some("ip6nexthdr"@),
        KeyName::Unknown(_) => None,
    }
}

/// The known key name whose canonical text is `s`, if there is one.
pub open spec fn known_key(s: Seq<char>) -> Option<KeyName> {
    if s == "ipsource"@ {
        Some(KeyName::IpSource)
    } else if s == "ipdestination"@ {
        Some(KeyName::IpDestination)
    } else if s == "ip6_offset"@ {
        Some(KeyName::Ip6Offset)
    } else if s == "ip6tos"@ {
        Some(KeyName::Ip6TOS)
    } else if s == "ip6ecn"@ {
        Some(KeyName::Ip6ECN)
    } else if s == "ip6dscp"@ {
        Some(KeyName::Ip6DSCP)
    } else if s == "ip6dscpname"@ {
        Some(KeyName::Ip6DSCPName)
    } else if s == "ip6flowlabel"@ {
        Some(KeyName::Ip6FlowLabel)
    } else if s == "ip6ttl"@ {
        Some(KeyName::Ip6TTL)
    } else if s == "ip6source"@ {
        Some(KeyName::Ip6Source)
    } else if s == "ip6destination"@ {
        Some(KeyName::Ip6Destination)
    } else if s == "ip6bytes"@ {
        Some(KeyName::Ip6Bytes)
    } else if s == "ip6extensions"@ {
        Some(KeyName::Ip6Extensions)
    } else if s == "ip6fragoffset"@ {
        Some(KeyName::Ip6FragmentOffset)
    } else if s == "ip6fragm"@ {
        Some(KeyName::Ip6FragmentMFlag)
    } else if s == "ip6nexthdr"@ {
        Some(KeyName::Ip6NextHeader)
    } else {
        None
    }
}

/// Resolution of a key-name token: the known key it names, or the token kept
/// verbatim.
pub open spec fn resolve(s: Seq<char>) -> NameView {
    match known_key(s) {
        Some(k) => NameView::Known(k),
        None => NameView::Unknown(s),
    }
}

pub open spec fn name_view(k: KeyName) -> NameView {
    match k {
        KeyName::Unknown(s) => NameView::Unknown(s@),
        _ => NameView::Known(k),
    }
}

impl KeyName {
    /// The canonical text of this key name; `None` for an unrecognized one.
    pub fn to_sflowrt_key_name(&self) -> (r: Option<&'static str>)
        ensures
            r is None <==> canonical_name(*self) is None,
            r matches Some(t) ==> canonical_name(*self) == Some(t@),
    {
        match self {
            KeyName::IpSource => Some("ipsource"),
            KeyName::IpDestination => Some("ipdestination"),
            KeyName::Ip6Offset => Some("ip6_offset"),
            KeyName::Ip6TOS => Some("ip6tos"),
            KeyName::Ip6ECN => Some("ip6ecn"),
            KeyName::Ip6DSCP => Some("ip6dscp"),
            KeyName::Ip6DSCPName => Some("ip6dscpname"),
            KeyName::Ip6FlowLabel => Some("ip6flowlabel"),
            KeyName::Ip6TTL => Some("ip6ttl"),
            KeyName::Ip6Source => Some("ip6source"),
            KeyName::Ip6Destination => Some("ip6destination"),
            KeyName::Ip6Bytes => Some("ip6bytes"),
            KeyName::Ip6Extensions => Some("ip6extensions"),
            KeyName::Ip6FragmentOffset => Some("ip6fragoffset"),
            KeyName::Ip6FragmentMFlag => Some("ip6fragm"),
            KeyName::Ip6NextHeader => Some("ip6nexthdr"),
            KeyName::Unknown(_) => None,
        }
    }

    /// Every known key name with its canonical text, in the order of
    /// `known_keys`.
    pub fn known_key_names() -> (r: Vec<(&'static str, KeyName)>)
        ensures
            r@.len() == known_keys().len(),
            forall|i: int|
                0 <= i < r@.len() ==> #[trigger] r@[i].1 == known_keys()[i] && r@[i].0@
                    == known_names()[i],
    {
        let r = vec![
            ("ipsource", KeyName::IpSource),
            ("ipdestination", KeyName::IpDestination),
            ("ip6_offset", KeyName::Ip6Offset),
            ("ip6tos", KeyName::Ip6TOS),
            ("ip6ecn", KeyName::Ip6ECN),
            ("ip6dscp", KeyName::Ip6DSCP),
            ("ip6dscpname", KeyName::Ip6DSCPName),
            ("ip6flowlabel", KeyName::Ip6FlowLabel),
            ("ip6ttl", KeyName::Ip6TTL),
            ("ip6source", KeyName::Ip6Source),
            ("ip6destination", KeyName::Ip6Destination),
            ("ip6bytes", KeyName::Ip6Bytes),
            ("ip6extensions", KeyName::Ip6Extensions),
            ("ip6fragoffset", KeyName::Ip6FragmentOffset),
            ("ip6fragm", KeyName::Ip6FragmentMFlag),
            ("ip6nexthdr", KeyName::Ip6NextHeader),
        ];
        proof {
            assert(r@[0].0@ == known_names()[0]);
            assert(r@[1].0@ == known_names()[1]);
            assert(r@[2].0@ == known_names()[2]);
            assert(r@[3].0@ == known_names()[3]);
            assert(r@[4].0@ == known_names()[4]);
            assert(r@[5].0@ == known_names()[5]);
            assert(r@[6].0@ == known_names()[6]);
            assert(r@[7].0@ == known_names()[7]);
            assert(r@[8].0@ == known_names()[8]);
            assert(r@[9].0@ == known_names()[9]);
            assert(r@[10].0@ == known_names()[10]);
            assert(r@[11].0@ == known_names()[11]);
            assert(r@[12].0@ == known_names()[12]);
            assert(r@[13].0@ == known_names()[13]);
            assert(r@[14].0@ == known_names()[14]);
            assert(r@[15].0@ == known_names()[15]);
        }
        r
    }

    /// Resolves a key-name token: the known key name it is the canonical text
    /// of, or else the catch-all variant holding the token verbatim.
    pub fn resolve(name: &str) -> (r: KeyName)
        ensures
            name_view(r) == resolve(name@),
    {
        match KeyName::from_sflowrt_key_name(name) {
            Some(k) => k,
            None => KeyName::Unknown(name.to_owned()),
        }
    }

    /// The known key name whose canonical text is `key_name`, if there is one.
    pub fn from_sflowrt_key_name(key_name: &str) -> (r: Option<KeyName>)
        ensures
            r == known_key(key_name@),
    {
        if str_eq(key_name, "ipsource") {
            Some(KeyName::IpSource)
        } else if str_eq(key_name, "ipdestination") {
            Some(KeyName::IpDestination)
        } else if str_eq(key_name, "ip6_offset") {
            Some(KeyName::Ip6Offset)
        } else if str_eq(key_name, "ip6tos") {
            Some(KeyName::Ip6TOS)
        } else if str_eq(key_name, "ip6ecn") {
            Some(KeyName::Ip6ECN)
        } else if str_eq(key_name, "ip6dscp") {
            Some(KeyName::Ip6DSCP)
        } else if str_eq(key_name, "ip6dscpname") {
            Some(KeyName::Ip6DSCPName)
        } else if str_eq(key_name, "ip6flowlabel") {
            Some(KeyName::Ip6FlowLabel)
        } else if str_eq(key_name, "ip6ttl") {
            Some(KeyName::Ip6TTL)
        } else if str_eq(key_name, "ip6source") {
            Some(KeyName::Ip6Source)
        } else if str_eq(key_name, "ip6destination") {
            Some(KeyName::Ip6Destination)
        } else if str_eq(key_name, "ip6bytes") {
            Some(KeyName::Ip6Bytes)
        } else if str_eq(key_name, "ip6extensions") {
            Some(KeyName::Ip6Extensions)
        } else if str_eq(key_name, "ip6fragoffset") {
            Some(KeyName::Ip6FragmentOffset)
        } else if str_eq(key_name, "ip6fragm") {
            Some(KeyName::Ip6FragmentMFlag)
        } else if str_eq(key_name, "ip6nexthdr") {
            Some(KeyName::Ip6NextHeader)
        } else {
            None
        }
    }
}

/// The canonical texts of the known key names, in the order of `known_keys`.
pub open spec fn known_names() -> Seq<Seq<char>> {
    known_keys().map_values(|k: KeyName| canonical_name(k).unwrap())
}

/// The position of a known key name in `known_keys`.
spec fn key_index(k: KeyName) -> int {
    match k {
        KeyName::IpSource => 0,
        KeyName::IpDestination => 1,
        KeyName::Ip6Offset => 2,
        KeyName::Ip6TOS => 3,
        KeyName::Ip6ECN => 4,
        KeyName::Ip6DSCP => 5,
        KeyName::Ip6DSCPName => 6,
        KeyName::Ip6FlowLabel => 7,
        KeyName::Ip6TTL => 8,
        KeyName::Ip6Source => 9,
        KeyName::Ip6Destination => 10,
        KeyName::Ip6Bytes => 11,
        KeyName::Ip6Extensions => 12,
        KeyName::Ip6FragmentOffset => 13,
        KeyName::Ip6FragmentMFlag => 14,
        KeyName::Ip6NextHeader => 15,
        KeyName::Unknown(_) => -1,
    }
}

proof fn lemma_key_index(k: KeyName, i: int)
    ensures
        !(k is Unknown) ==> 0 <= key_index(k) < known_keys().len() && known_keys()[key_index(k)] == k,
        0 <= i < known_keys().len() ==> key_index(known_keys()[i]) == i && !(known_keys()[i] is Unknown),
{
    assert(known_keys()[0] == KeyName::IpSource);
    assert(known_keys()[1] == KeyName::IpDestination);
    assert(known_keys()[2] == KeyName::Ip6Offset);
    assert(known_keys()[3] == KeyName::Ip6TOS);
    assert(known_keys()[4] == KeyName::Ip6ECN);
    assert(known_keys()[5] == KeyName::Ip6DSCP);
    assert(known_keys()[6] == KeyName::Ip6DSCPName);
    assert(known_keys()[7] == KeyName::Ip6FlowLabel);
    assert(known_keys()[8] == KeyName::Ip6TTL);
    assert(known_keys()[9] == KeyName::Ip6Source);
    assert(known_keys()[10] == KeyName::Ip6Destination);
    assert(known_keys()[11] == KeyName::Ip6Bytes);
    assert(known_keys()[12] == KeyName::Ip6Extensions);
    assert(known_keys()[13] == KeyName::Ip6FragmentOffset);
    assert(known_keys()[14] == KeyName::Ip6FragmentMFlag);
    assert(known_keys()[15] == KeyName::Ip6NextHeader);
}

/// The two key-name tables are inverse to each other: every known key name
/// has a canonical text, which resolves back to it, and every text that
/// resolves to a known key name is that name's canonical text.
pub proof fn lemma_key_name_round_trip(k: KeyName, s: Seq<char>)
    ensures
        !(k is Unknown) ==> canonical_name(k) is Some && known_key(canonical_name(k).unwrap())
            == Some(k),
        known_key(s) matches Some(j) ==> canonical_name(j) == Some(s),
{
    // each canonical text differs from every other, in length or in one character
    reveal_strlit("ipsource");
    reveal_strlit("ipdestination");
    reveal_strlit("ip6_offset");
    reveal_strlit("ip6tos");
    reveal_strlit("ip6ecn");
    reveal_strlit("ip6dscp");
    reveal_strlit("ip6dscpname");
    reveal_strlit("ip6flowlabel");
    reveal_strlit("ip6ttl");
    reveal_strlit("ip6source");
    reveal_strlit("ip6destination");
    reveal_strlit("ip6bytes");
    reveal_strlit("ip6extensions");
    reveal_strlit("ip6fragoffset");
    reveal_strlit("ip6fragm");
    reveal_strlit("ip6nexthdr");
    assert("ipdestination"@.len() != "ipsource"@.len());
    assert("ip6_offset"@.len() != "ipsource"@.len());
    assert("ip6_offset"@.len() != "ipdestination"@.len());
    assert("ip6tos"@.len() != "ipsource"@.len());
    assert("ip6tos"@.len() != "ipdestination"@.len());
    assert("ip6tos"@.len() != "ip6_offset"@.len());
    assert("ip6ecn"@.len() != "ipsource"@.len());
    assert("ip6ecn"@.len() != "ipdestination"@.len());
    assert("ip6ecn"@.len() != "ip6_offset"@.len());
    assert("ip6ecn"@[3] != "ip6tos"@[3]);
    assert("ip6dscp"@.len() != "ipsource"@.len());
    assert("ip6dscp"@.len() != "ipdestination"@.len());
    assert("ip6dscp"@.len() != "ip6_offset"@.len());
    assert("ip6dscp"@.len() != "ip6tos"@.len());
    assert("ip6dscp"@.len() != "ip6ecn"@.len());
    assert("ip6dscpname"@.len() != "ipsource"@.len());
    assert("ip6dscpname"@.len() != "ipdestination"@.len());
    assert("ip6dscpname"@.len() != "ip6_offset"@.len());
    assert("ip6dscpname"@.len() != "ip6tos"@.len());
    assert("ip6dscpname"@.len() != "ip6ecn"@.len());
    assert("ip6dscpname"@.len() != "ip6dscp"@.len());
    assert("ip6flowlabel"@.len() != "ipsource"@.len());
    assert("ip6flowlabel"@.len() != "ipdestination"@.len());
    assert("ip6flowlabel"@.len() != "ip6_offset"@.len());
    assert("ip6flowlabel"@.len() != "ip6tos"@.len());
    assert("ip6flowlabel"@.len() != "ip6ecn"@.len());
    assert("ip6flowlabel"@.len() != "ip6dscp"@.len());
    assert("ip6flowlabel"@.len() != "ip6dscpname"@.len());
    assert("ip6ttl"@.len() != "ipsource"@.len());
    assert("ip6ttl"@.len() != "ipdestination"@.len());
    assert("ip6ttl"@.len() != "ip6_offset"@.len());
    assert("ip6ttl"@[4] != "ip6tos"@[4]);
    assert("ip6ttl"@[3] != "ip6ecn"@[3]);
    assert("ip6ttl"@.len() != "ip6dscp"@.len());
    assert("ip6ttl"@.len() != "ip6dscpname"@.len());
    assert("ip6ttl"@.len() != "ip6flowlabel"@.len());
    assert("ip6source"@.len() != "ipsource"@.len());
    assert("ip6source"@.len() != "ipdestination"@.len());
    assert("ip6source"@.len() != "ip6_offset"@.len());
    assert("ip6source"@.len() != "ip6tos"@.len());
    assert("ip6source"@.len() != "ip6ecn"@.len());
    assert("ip6source"@.len() != "ip6dscp"@.len());
    assert("ip6source"@.len() != "ip6dscpname"@.len());
    assert("ip6source"@.len() != "ip6flowlabel"@.len());
    assert("ip6source"@.len() != "ip6ttl"@.len());
    assert("ip6destination"@.len() != "ipsource"@.len());
    assert("ip6destination"@.len() != "ipdestination"@.len());
    assert("ip6destination"@.len() != "ip6_offset"@.len());
    assert("ip6destination"@.len() != "ip6tos"@.len());
    assert("ip6destination"@.len() != "ip6ecn"@.len());
    assert("ip6destination"@.len() != "ip6dscp"@.len());
    assert("ip6destination"@.len() != "ip6dscpname"@.len());
    assert("ip6destination"@.len() != "ip6flowlabel"@.len());
    assert("ip6destination"@.len() != "ip6ttl"@.len());
    assert("ip6destination"@.len() != "ip6source"@.len());
    assert("ip6bytes"@[2] != "ipsource"@[2]);
    assert("ip6bytes"@.len() != "ipdestination"@.len());
    assert("ip6bytes"@.len() != "ip6_offset"@.len());
    assert("ip6bytes"@.len() != "ip6tos"@.len());
    assert("ip6bytes"@.len() != "ip6ecn"@.len());
    assert("ip6bytes"@.len() != "ip6dscp"@.len());
    assert("ip6bytes"@.len() != "ip6dscpname"@.len());
    assert("ip6bytes"@.len() != "ip6flowlabel"@.len());
    assert("ip6bytes"@.len() != "ip6ttl"@.len());
    assert("ip6bytes"@.len() != "ip6source"@.len());
    assert("ip6bytes"@.len() != "ip6destination"@.len());
    assert("ip6extensions"@.len() != "ipsource"@.len());
    assert("ip6extensions"@[2] != "ipdestination"@[2]);
    assert("ip6extensions"@.len() != "ip6_offset"@.len());
    assert("ip6extensions"@.len() != "ip6tos"@.len());
    assert("ip6extensions"@.len() != "ip6ecn"@.len());
    assert("ip6extensions"@.len() != "ip6dscp"@.len());
    assert("ip6extensions"@.len() != "ip6dscpname"@.len());
    assert("ip6extensions"@.len() != "ip6flowlabel"@.len());
    assert("ip6extensions"@.len() != "ip6ttl"@.len());
    assert("ip6extensions"@.len() != "ip6source"@.len());
    assert("ip6extensions"@.len() != "ip6destination"@.len());
    assert("ip6extensions"@.len() != "ip6bytes"@.len());
    assert("ip6fragoffset"@.len() != "ipsource"@.len());
    assert("ip6fragoffset"@[2] != "ipdestination"@[2]);
    assert("ip6fragoffset"@.len() != "ip6_offset"@.len());
    assert("ip6fragoffset"@.len() != "ip6tos"@.len());
    assert("ip6fragoffset"@.len() != "ip6ecn"@.len());
    assert("ip6fragoffset"@.len() != "ip6dscp"@.len());
    assert("ip6fragoffset"@.len() != "ip6dscpname"@.len());
    assert("ip6fragoffset"@.len() != "ip6flowlabel"@.len());
    assert("ip6fragoffset"@.len() != "ip6ttl"@.len());
    assert("ip6fragoffset"@.len() != "ip6source"@.len());
    assert("ip6fragoffset"@.len() != "ip6destination"@.len());
    assert("ip6fragoffset"@.len() != "ip6bytes"@.len());
    assert("ip6fragoffset"@[3] != "ip6extensions"@[3]);
    assert("ip6fragm"@[2] != "ipsource"@[2]);
    assert("ip6fragm"@.len() != "ipdestination"@.len());
    assert("ip6fragm"@.len() != "ip6_offset"@.len());
    assert("ip6fragm"@.len() != "ip6tos"@.len());
    assert("ip6fragm"@.len() != "ip6ecn"@.len());
    assert("ip6fragm"@.len() != "ip6dscp"@.len());
    assert("ip6fragm"@.len() != "ip6dscpname"@.len());
    assert("ip6fragm"@.len() != "ip6flowlabel"@.len());
    assert("ip6fragm"@.len() != "ip6ttl"@.len());
    assert("ip6fragm"@.len() != "ip6source"@.len());
    assert("ip6fragm"@.len() != "ip6destination"@.len());
    assert("ip6fragm"@[3] != "ip6bytes"@[3]);
    assert("ip6fragm"@.len() != "ip6extensions"@.len());
    assert("ip6fragm"@.len() != "ip6fragoffset"@.len());
    assert("ip6nexthdr"@.len() != "ipsource"@.len());
    assert("ip6nexthdr"@.len() != "ipdestination"@.len());
    assert("ip6nexthdr"@[3] != "ip6_offset"@[3]);
    assert("ip6nexthdr"@.len() != "ip6tos"@.len());
    assert("ip6nexthdr"@.len() != "ip6ecn"@.len());
    assert("ip6nexthdr"@.len() != "ip6dscp"@.len());
    assert("ip6nexthdr"@.len() != "ip6dscpname"@.len());
    assert("ip6nexthdr"@.len() != "ip6flowlabel"@.len());
    assert("ip6nexthdr"@.len() != "ip6ttl"@.len());
    assert("ip6nexthdr"@.len() != "ip6source"@.len());
    assert("ip6nexthdr"@.len() != "ip6destination"@.len());
    assert("ip6nexthdr"@.len() != "ip6bytes"@.len());
    assert("ip6nexthdr"@.len() != "ip6extensions"@.len());
    assert("ip6nexthdr"@.len() != "ip6fragoffset"@.len());
    assert("ip6nexthdr"@.len() != "ip6fragm"@.len());
}

/// The tables are exhaustive and one-to-one: `known_keys` lists every key name
/// but the catch-all exactly once, its canonical texts are pairwise distinct,
/// and both tables have as many entries as there are known key names.
pub proof fn lemma_key_tables_bijective(k: KeyName)
    ensures
        !(k is Unknown) <==> known_keys().contains(k),
        known_keys().no_duplicates(),
        known_names().no_duplicates(),
        known_keys().to_set().len() == known_keys().len(),
        known_names().to_set().len() == known_keys().len(),
        forall|s: Seq<char>| #[trigger] known_key(s) is Some <==> known_names().contains(s),
{
    let keys = known_keys();
    let names = known_names();
    lemma_key_index(k, 0);
    assert forall|i: int, j: int| 0 <= i < keys.len() && 0 <= j < keys.len() && i != j implies keys[i]
        != keys[j] by {
        lemma_key_index(k, i);
        lemma_key_index(k, j);
    }
    assert forall|i: int| 0 <= i < keys.len() implies known_key(#[trigger] names[i]) == Some(
        keys[i],
    ) by {
        lemma_key_index(k, i);
        lemma_key_name_round_trip(keys[i], names[i]);
    }
    assert forall|i: int, j: int| 0 <= i < names.len() && 0 <= j < names.len() && i != j implies names[i]
        != names[j] by {
        assert(known_key(names[i]) == Some(keys[i]));
        assert(known_key(names[j]) == Some(keys[j]));
        assert(keys[i] != keys[j]);
    }
    keys.unique_seq_to_set();
    names.unique_seq_to_set();
    assert forall|s: Seq<char>| #[trigger] known_key(s) is Some implies names.contains(s) by {
        let j = known_key(s).unwrap();
        lemma_key_name_round_trip(j, s);
        lemma_key_index(j, 0);
        assert(names[key_index(j)] == s);
    }
    assert forall|s: Seq<char>| names.contains(s) implies #[trigger] known_key(s) is Some by {
        let i = choose|i: int| 0 <= i < names.len() && names[i] == s;
        assert(known_key(names[i]) == Some(keys[i]));
    }
}

/// A text outside the known-name table resolves to the catch-all variant that
/// holds it verbatim, and that variant has no canonical text.
pub proof fn lemma_unknown_name(s: Seq<char>, t: String)
    requires
        !known_names().contains(s),
        t@ == s,
    ensures
        resolve(s) == NameView::Unknown(s),
        name_view(KeyName::Unknown(t)) == resolve(s),
        canonical_name(KeyName::Unknown(t)) is None,
{
    lemma_key_tables_bijective(KeyName::IpSource);
}

} // verus!
