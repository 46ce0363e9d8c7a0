use sflowrt_flow::key::{KeyDefinition, KeyExpression, KeyFunction, KeyName};
use sflowrt_flow::key_function::{CountryKeyFunction, GroupKeyFunction, UnknownKeyFunction};
use sflowrt_flow::key_parser::{
    finish_nom_parse, lookup_function_kind, parse_definition, FunctionKind, parse_key_definition, ParseError, ParseErrorKind,
};

fn single(e: KeyExpression) -> KeyDefinition {
    KeyDefinition { keys: vec![e] }
}

fn parse_one(input: &str) -> Result<(&str, KeyExpression), ParseError> {
    let (rest, mut d) = parse_key_definition(input)?;
    assert_eq!(d.keys.len(), 1);
    Ok((rest, d.keys.pop().unwrap()))
}

fn parse_one_function(input: &str) -> Result<(&str, KeyFunction), ParseError> {
    match parse_one(input)? {
        (rest, KeyExpression::KeyFunction(f)) => Ok((rest, f)),
        (_, other) => panic!("expected a key function, got {other:?}"),
    }
}

fn group(key: KeyExpression, names: &[&str]) -> KeyFunction {
    KeyFunction::Group(GroupKeyFunction {
        key: Box::new(key),
        group_names: names.iter().map(|n| n.to_string()).collect(),
    })
}

fn err(kind: ParseErrorKind, remaining: &str) -> ParseError {
    ParseError { kind, remaining: remaining.to_string() }
}

#[test]
fn test_parse_key_function() {
    assert_eq!(
        parse_one_function("country:ipsource"),
        Ok((
            "",
            KeyFunction::from(CountryKeyFunction {
                arg: "ipsource".to_string()
            })
        ))
    );
    assert_eq!(
        parse_one_function("group:ipdestination:gro_up1"),
        Ok((
            "",
            KeyFunction::Group(GroupKeyFunction {
                key: Box::new(KeyExpression::KeyName(KeyName::IpDestination)),
                group_names: vec!["gro_up1".to_string()]
            })
        ))
    );
    assert_eq!(
        parse_one_function("group:ipsource:gro_up1:group2"),
        Ok((
            "",
            KeyFunction::Group(GroupKeyFunction {
                key: Box::new(KeyExpression::KeyName(KeyName::IpSource)),
                group_names: vec!["gro_up1".to_string(), "group2".to_string()]
            })
        ))
    );
    assert_eq!(
        parse_one_function("group:ipsource:gro_up1:group2:_GROUP_THr33_"),
        Ok((
            "",
            KeyFunction::Group(GroupKeyFunction {
                key: Box::new(KeyExpression::KeyName(KeyName::IpSource)),
                group_names: vec![
                    "gro_up1".to_string(),
                    "group2".to_string(),
                    "_GROUP_THr33_".to_string()
                ]
            })
        ))
    );
    assert_eq!(
        parse_one_function("unknownfunc:ipdestination"),
        Ok((
            "",
            KeyFunction::Unknown(UnknownKeyFunction {
                function_name: "unknownfunc".to_string(),
                args: vec![KeyExpression::KeyName(KeyName::IpDestination)],
            })
        ))
    );
    assert_eq!(
        parse_one_function("unknownfunc:[group:ipdestination:gro_up1:group2]"),
        Ok((
            "",
            KeyFunction::Unknown(UnknownKeyFunction {
                function_name: "unknownfunc".to_string(),
                args: vec![KeyExpression::KeyFunction(KeyFunction::Group(
                    GroupKeyFunction {
                        key: Box::new(KeyExpression::KeyName(KeyName::IpDestination)),
                        group_names: vec!["gro_up1".to_string(), "group2".to_string()]
                    }
                ))]
            })
        ))
    );
}

#[test]
fn test_parse_key_expression() {
    assert_eq!(
        parse_one("ipsource"),
        Ok(("", KeyExpression::KeyName(KeyName::IpSource)))
    );
    assert_eq!(
        parse_one("country:ipsource"),
        Ok((
            "",
            KeyExpression::KeyFunction(KeyFunction::Country(CountryKeyFunction {
                arg: "ipsource".to_string()
            }))
        ))
    );
    assert_eq!(
        parse_one("unknownfunc:[group:ipsource:group1:group2]"),
        Ok((
            "",
            KeyExpression::KeyFunction(KeyFunction::Unknown(UnknownKeyFunction {
                function_name: "unknownfunc".to_string(),
                args: vec![KeyExpression::KeyFunction(KeyFunction::Group(
                    GroupKeyFunction {
                        key: Box::new(KeyExpression::KeyName(KeyName::IpSource)),
                        group_names: vec!["group1".to_string(), "group2".to_string()]
                    }
                ))]
            }))
        ))
    );
}

#[test]
fn test_parse_unknown_key_function_with_various_arguments() {
    assert_eq!(
        parse_one_function("unknownfunc:ipdestination"),
        Ok((
            "",
            KeyFunction::Unknown(UnknownKeyFunction {
                function_name: "unknownfunc".to_string(),
                args: vec![KeyExpression::KeyName(KeyName::IpDestination)],
            })
        ))
    );
    assert_eq!(
        parse_one_function("unknownfunc:[group:ipdestination:group1:group2]"),
        Ok((
            "",
            KeyFunction::Unknown(UnknownKeyFunction {
                function_name: "unknownfunc".to_string(),
                args: vec![KeyExpression::KeyFunction(KeyFunction::Group(
                    GroupKeyFunction {
                        key: Box::new(KeyExpression::KeyName(KeyName::IpDestination)),
                        group_names: vec!["group1".to_string(), "group2".to_string()]
                    }
                ))]
            })
        ))
    );
    assert_eq!(
        parse_one_function(
            "unknownfunc:ipdestination:[group:ipdestination:group1:group2]:unknownkey"
        ),
        Ok((
            "",
            KeyFunction::Unknown(UnknownKeyFunction {
                function_name: "unknownfunc".to_string(),
                args: vec![
                    KeyExpression::KeyName(KeyName::IpDestination),
                    KeyExpression::KeyFunction(KeyFunction::Group(GroupKeyFunction {
                        key: Box::new(KeyExpression::KeyName(KeyName::IpDestination)),
                        group_names: vec!["group1".to_string(), "group2".to_string()]
                    })),
                    KeyExpression::KeyName(KeyName::Unknown("unknownkey".to_string())),
                ],
            })
        ))
    );
}

#[test]
fn definition_single_known_name() {
    assert_eq!(
        parse_definition("ipsource"),
        Ok(single(KeyExpression::KeyName(KeyName::IpSource)))
    );
}

#[test]
fn definition_country_argument_is_raw() {
    assert_eq!(
        parse_definition("country:ipsource"),
        Ok(single(KeyExpression::KeyFunction(KeyFunction::Country(
            CountryKeyFunction { arg: "ipsource".to_string() }
        ))))
    );
}

#[test]
fn definition_group_two_names() {
    assert_eq!(
        parse_definition("group:ipdestination:g1:g2"),
        Ok(single(KeyExpression::KeyFunction(group(
            KeyExpression::KeyName(KeyName::IpDestination),
            &["g1", "g2"]
        ))))
    );
}

#[test]
fn definition_unknown_function_over_group() {
    assert_eq!(
        parse_definition("unknownfunc:[group:ipsource:g1]"),
        Ok(single(KeyExpression::KeyFunction(KeyFunction::Unknown(
            UnknownKeyFunction {
                function_name: "unknownfunc".to_string(),
                args: vec![KeyExpression::KeyFunction(group(
                    KeyExpression::KeyName(KeyName::IpSource),
                    &["g1"]
                ))],
            }
        ))))
    );
}

#[test]
fn definition_two_expressions_in_order() {
    assert_eq!(
        parse_definition("ipsource,ipdestination"),
        Ok(KeyDefinition {
            keys: vec![
                KeyExpression::KeyName(KeyName::IpSource),
                KeyExpression::KeyName(KeyName::IpDestination),
            ]
        })
    );
}

#[test]
fn definition_unknown_key_name() {
    assert_eq!(
        parse_definition("ip5source"),
        Ok(single(KeyExpression::KeyName(KeyName::Unknown(
            "ip5source".to_string()
        ))))
    );
}

#[test]
fn definition_three_expressions_in_order() {
    assert_eq!(
        parse_definition("country:ip6source,group:ipsource:a:b:c,ip6ttl"),
        Ok(KeyDefinition {
            keys: vec![
                KeyExpression::KeyFunction(KeyFunction::Country(CountryKeyFunction {
                    arg: "ip6source".to_string()
                })),
                KeyExpression::KeyFunction(group(
                    KeyExpression::KeyName(KeyName::IpSource),
                    &["a", "b", "c"]
                )),
                KeyExpression::KeyName(KeyName::Ip6TTL),
            ]
        })
    );
}

#[test]
fn group_without_names_is_rejected() {
    assert_eq!(
        parse_definition("group:ipsource"),
        Err(err(ParseErrorKind::TrailingInput, ":ipsource"))
    );
    assert_eq!(
        parse_key_definition("group:ipsource"),
        Ok((
            ":ipsource",
            single(KeyExpression::KeyName(KeyName::Unknown("group".to_string())))
        ))
    );
}

#[test]
fn group_with_nested_key_and_unicode_names() {
    assert_eq!(
        parse_definition("group:[f:ipsource]:grüppe:x_1"),
        Ok(single(KeyExpression::KeyFunction(group(
            KeyExpression::KeyFunction(KeyFunction::Unknown(UnknownKeyFunction {
                function_name: "f".to_string(),
                args: vec![KeyExpression::KeyName(KeyName::IpSource)],
            })),
            &["grüppe", "x_1"]
        ))))
    );
}

#[test]
fn country_takes_one_argument() {
    assert_eq!(
        parse_definition("country:ipsource:ipdestination"),
        Err(err(ParseErrorKind::TrailingInput, ":ipdestination"))
    );
    assert_eq!(
        parse_definition("country:ip6_offset"),
        Err(err(ParseErrorKind::TrailingInput, "_offset"))
    );
}

#[test]
fn nesting_two_levels_deep() {
    assert_eq!(
        parse_definition("outer:a:[inner:[group:ipsource:g]:b]:c"),
        Ok(single(KeyExpression::KeyFunction(KeyFunction::Unknown(
            UnknownKeyFunction {
                function_name: "outer".to_string(),
                args: vec![
                    KeyExpression::KeyName(KeyName::Unknown("a".to_string())),
                    KeyExpression::KeyFunction(KeyFunction::Unknown(UnknownKeyFunction {
                        function_name: "inner".to_string(),
                        args: vec![
                            KeyExpression::KeyFunction(group(
                                KeyExpression::KeyName(KeyName::IpSource),
                                &["g"]
                            )),
                            KeyExpression::KeyName(KeyName::Unknown("b".to_string())),
                        ],
                    })),
                    KeyExpression::KeyName(KeyName::Unknown("c".to_string())),
                ],
            }
        ))))
    );
}

#[test]
fn unbalanced_bracket_is_rejected() {
    assert_eq!(
        parse_definition("f:[group:ipsource:g"),
        Err(err(ParseErrorKind::TrailingInput, ":[group:ipsource:g"))
    );
}

#[test]
fn trailing_text_is_rejected() {
    assert_eq!(
        parse_definition("ipsource]"),
        Err(err(ParseErrorKind::TrailingInput, "]"))
    );
    assert_eq!(
        parse_definition("ipsource,"),
        Err(err(ParseErrorKind::TrailingInput, ","))
    );
    assert_eq!(
        parse_key_definition("ipsource,ipdestination extra"),
        Ok((
            " extra",
            KeyDefinition {
                keys: vec![
                    KeyExpression::KeyName(KeyName::IpSource),
                    KeyExpression::KeyName(KeyName::IpDestination),
                ]
            }
        ))
    );
}

#[test]
fn missing_expression_is_rejected() {
    assert_eq!(
        parse_definition(""),
        Err(err(ParseErrorKind::ExpectedKeyExpression, ""))
    );
    assert_eq!(
        parse_key_definition(",ipsource"),
        Err(err(ParseErrorKind::ExpectedKeyExpression, ",ipsource"))
    );
    assert_eq!(
        parse_definition("[f:x]"),
        Err(err(ParseErrorKind::ExpectedKeyExpression, "[f:x]"))
    );
}

#[test]
fn finish_makes_remaining_text_owned() {
    assert_eq!(
        finish_nom_parse(parse_key_definition("ipsource]")),
        Ok((
            "]".to_string(),
            single(KeyExpression::KeyName(KeyName::IpSource))
        ))
    );
    assert_eq!(
        finish_nom_parse(parse_key_definition("")),
        Err(err(ParseErrorKind::ExpectedKeyExpression, ""))
    );
}

#[test]
fn error_causes_are_described() {
    assert_eq!(
        err(ParseErrorKind::ExpectedKeyExpression, "").cause(),
        "expected a key name or key function"
    );
    assert_eq!(
        err(ParseErrorKind::TrailingInput, "x").cause(),
        "unexpected input after the key definition"
    );
}

#[test]
fn conversions_into_expressions() {
    assert_eq!(
        KeyExpression::from(KeyName::IpSource),
        KeyExpression::KeyName(KeyName::IpSource)
    );
    assert_eq!(
        KeyExpression::from(KeyFunction::from(UnknownKeyFunction {
            function_name: "f".to_string(),
            args: vec![KeyExpression::KeyName(KeyName::IpSource)],
        })),
        KeyExpression::KeyFunction(KeyFunction::Unknown(UnknownKeyFunction {
            function_name: "f".to_string(),
            args: vec![KeyExpression::KeyName(KeyName::IpSource)],
        }))
    );
}

#[test]
fn known_function_table() {
    assert_eq!(lookup_function_kind("group"), Some(FunctionKind::Group));
    assert_eq!(lookup_function_kind("country"), Some(FunctionKind::Country));
    assert_eq!(lookup_function_kind("groups"), None);
    assert_eq!(lookup_function_kind("Group"), None);
    assert_eq!(lookup_function_kind(""), None);
}
