use iced_focus_derive::attribute::{focus_attribute_error, FocusAttribute, FocusError};
use iced_focus_derive::codegen::{first_focus_error, focus_input_error, impl_focus};
use iced_focus_derive::field::focus_fields_error;
use iced_focus_derive::decimal::usize_to_decimal;
use iced_focus_derive::field::FocusField;
use iced_focus_derive::focus_derive;
use iced_focus_derive::model::{
    AttrPath, Attribute, Data, DeriveInput, Field, Fields, Lit, Meta, NestedMeta, Variant,
};

fn path(segments: &[&str]) -> AttrPath {
    AttrPath { leading_colon: false, segments: segments.iter().map(|s| s.to_string()).collect() }
}

fn focus_enable() -> Attribute {
    Attribute {
        path: vec!["focus".to_string()],
        meta: Meta::List(vec![NestedMeta::Path(path(&["enable"]))]),
    }
}

fn focus_enable_with(p: &str) -> Attribute {
    Attribute {
        path: vec!["focus".to_string()],
        meta: Meta::List(vec![NestedMeta::NameValue(path(&["enable"]), Lit::Str(p.to_string()))]),
    }
}

fn other_list() -> Attribute {
    Attribute {
        path: vec!["serde".to_string()],
        meta: Meta::List(vec![NestedMeta::Path(path(&["skip"]))]),
    }
}

fn doc_comment() -> Attribute {
    Attribute { path: vec!["doc".to_string()], meta: Meta::NotList }
}

fn named(name: &str, attrs: Vec<Attribute>) -> Field {
    Field { ident: Some(name.to_string()), attrs }
}

fn unnamed(attrs: Vec<Attribute>) -> Field {
    Field { ident: None, attrs }
}

fn focus_body(capacity: usize, rest: &str) -> String {
    format!(
        "let mut fields: std::vec::Vec<&mut dyn iced_focus::Focus> = std::vec::Vec::with_capacity({c}usize); \
         let mut fields: std::vec::Vec<Box<&mut dyn iced_focus::Focus>> = std::vec::Vec::with_capacity({c}usize); \
         {rest}fields.focus(direction)",
        c = capacity,
        rest = rest
    )
}

fn impl_of(ident: &str, focus: &str, has_focus: &str) -> String {
    format!(
        "impl iced_focus::Focus for {} {{ fn focus(&mut self, direction: iced_focus::Direction) -> iced_focus::State {{ {} }} fn has_focus(&self) -> bool {{ {} }} }}",
        ident, focus, has_focus
    )
}

fn extract(attrs: Vec<Attribute>) -> Result<Option<FocusAttribute>, FocusError> {
    assert_eq!(focus_attribute_error(&attrs), None);
    FocusAttribute::extract_focus_attribute(&attrs)
}

fn rejection(attrs: Vec<Attribute>) -> FocusError {
    focus_attribute_error(&attrs).unwrap()
}

/// The text of the tokens that `source` reads as, as proc_macro2 prints them here.
fn tokens(source: &str) -> String {
    source.parse::<proc_macro2::TokenStream>().unwrap().to_string()
}

fn derive(input: &DeriveInput) -> Result<String, FocusError> {
    assert_eq!(focus_input_error(input), None);
    focus_derive(input)
}

#[test]
fn struct_with_named_fields() {
    let input = DeriveInput {
        ident: "Form".to_string(),
        data: Data::Struct(Fields::Named(vec![
            named("name", vec![focus_enable()]),
            named("age", vec![]),
            named("extra", vec![focus_enable_with("Self::show_extra")]),
        ])),
    };
    let out = derive(&input).unwrap();
    let expected = impl_of(
        "Form",
        &focus_body(
            2,
            &format!(
                "let b_2 = {p}(); fields.push(Box::new(&mut self.name)); \
                 if b_2 {{ fields.push(Box::new(&mut self.extra)); }} ",
                p = tokens("Self::show_extra")
            ),
        ),
        &format!(
            "self.name.has_focus() || {}() && self.extra.has_focus() || false",
            tokens("Self::show_extra")
        ),
    );
    assert_eq!(out, expected);
    assert!(syn::parse_str::<syn::ItemImpl>(&out).is_ok());
}

#[test]
fn struct_with_tuple_fields() {
    let input = DeriveInput {
        ident: "Pair".to_string(),
        data: Data::Struct(Fields::Unnamed(vec![
            unnamed(vec![]),
            unnamed(vec![other_list(), focus_enable()]),
        ])),
    };
    let out = derive(&input).unwrap();
    let expected = impl_of(
        "Pair",
        &focus_body(1, "fields.push(Box::new(&mut self.1)); "),
        "self.1.has_focus() || false",
    );
    assert_eq!(out, expected);
    assert!(syn::parse_str::<syn::ItemImpl>(&out).is_ok());
}

#[test]
fn struct_without_annotated_fields() {
    let input = DeriveInput {
        ident: "Plain".to_string(),
        data: Data::Struct(Fields::Named(vec![named("a", vec![]), named("b", vec![other_list()])])),
    };
    let out = derive(&input).unwrap();
    assert_eq!(out, impl_of("Plain", &focus_body(0, ""), "false"));
}

#[test]
fn enum_with_all_kinds_of_variants() {
    let input = DeriveInput {
        ident: "Screen".to_string(),
        data: Data::Enum(vec![
            Variant {
                ident: "Main".to_string(),
                fields: Fields::Named(vec![named("input", vec![focus_enable()]), named("other", vec![])]),
            },
            Variant {
                ident: "Pair".to_string(),
                fields: Fields::Unnamed(vec![
                    unnamed(vec![focus_enable_with("Self::ok")]),
                    unnamed(vec![]),
                    unnamed(vec![focus_enable()]),
                ]),
            },
            Variant { ident: "Empty".to_string(), fields: Fields::Unit },
        ]),
    };
    let out = derive(&input).unwrap();
    let focus_arms = format!(
        "Self::Main {{ input, .. }} => {{ {} }} Self::Pair (t_0, t_1, t_2, ) => {{ {} }} Self::Empty => {{ {} }} ",
        focus_body(1, "fields.push(Box::new(input)); "),
        focus_body(2, "if b_1_0 { fields.push(Box::new(t_0)); } fields.push(Box::new(t_2)); "),
        focus_body(0, ""),
    );
    let has_focus_arms = format!(
        "Self::Main {{ input, .. }} => {{ input.has_focus() || false }} \
         Self::Pair (t_0, t_1, t_2, ) => {{ {}() && t_0.has_focus() || t_2.has_focus() || false }} \
         Self::Empty => {{ false }} ",
        tokens("Self::ok")
    );
    let expected = impl_of(
        "Screen",
        &format!("let b_1_0 = {}(); match self {{ {}}}", tokens("Self::ok"), focus_arms),
        &format!("match self {{ {}}}", has_focus_arms),
    );
    assert_eq!(out, expected);
    assert!(syn::parse_str::<syn::ItemImpl>(&out).is_ok());
}

#[test]
fn union_is_rejected() {
    let input = DeriveInput { ident: "U".to_string(), data: Data::Union };
    let err = focus_input_error(&input).unwrap();
    assert_eq!(err, FocusError::UnionUnsupported);
    assert_eq!(err.message(), "not implemented: Unions are currently not supported.");
}

#[test]
fn unit_struct_is_rejected() {
    let input = DeriveInput { ident: "S".to_string(), data: Data::Struct(Fields::Unit) };
    let err = focus_input_error(&input).unwrap();
    assert_eq!(err, FocusError::UnitStructUnsupported);
    assert_eq!(err.message(), "not implemented: Unit structs are currently not supported.");
}

#[test]
fn other_attributes_are_skipped_whatever_their_form() {
    assert!(matches!(extract(vec![doc_comment()]), Ok(None)));
    assert!(matches!(
        extract(vec![doc_comment(), other_list(), focus_enable()]),
        Ok(Some(FocusAttribute::Enable))
    ));
    let input = DeriveInput {
        ident: "S".to_string(),
        data: Data::Struct(Fields::Named(vec![
            named("a", vec![doc_comment()]),
            named("b", vec![doc_comment(), focus_enable()]),
        ])),
    };
    let out = derive(&input).unwrap();
    assert_eq!(
        out,
        impl_of("S", &focus_body(1, "fields.push(Box::new(&mut self.b)); "), "self.b.has_focus() || false")
    );
}

#[test]
fn focus_attribute_that_is_not_a_list_is_rejected() {
    let bare = Attribute { path: vec!["focus".to_string()], meta: Meta::NotList };
    let err = rejection(vec![doc_comment(), bare]);
    assert_eq!(err, FocusError::ExpectedMetaList);
    assert_eq!(
        err.message(),
        "Expected a meta list like `focus(enable ...)` for the focus attribute."
    );
}

#[test]
fn attributes_after_the_focus_attribute_are_not_read() {
    let bare = Attribute { path: vec!["focus".to_string()], meta: Meta::NotList };
    let attribute = extract(vec![other_list(), focus_enable(), bare]).unwrap();
    assert!(matches!(attribute, Some(FocusAttribute::Enable)));
    assert!(matches!(extract(vec![other_list()]), Ok(None)));
    assert!(matches!(extract(vec![]), Ok(None)));
}

#[test]
fn focus_segment_anywhere_in_the_path_counts() {
    let attr = Attribute {
        path: vec!["iced".to_string(), "focus".to_string()],
        meta: Meta::List(vec![NestedMeta::Path(path(&["enable"]))]),
    };
    assert!(matches!(extract(vec![attr]), Ok(Some(FocusAttribute::Enable))));
}

#[test]
fn focus_attribute_needs_exactly_one_item() {
    let empty = Attribute { path: vec!["focus".to_string()], meta: Meta::List(vec![]) };
    let err = rejection(vec![empty]);
    assert_eq!(err, FocusError::EmptyFocusAttribute);
    assert_eq!(err.message(), "Expected the focus attribute to be not empty.");
    let two = Attribute {
        path: vec!["focus".to_string()],
        meta: Meta::List(vec![
            NestedMeta::Path(path(&["enable"])),
            NestedMeta::Path(path(&["enable"])),
        ]),
    };
    assert_eq!(rejection(vec![two]), FocusError::EmptyFocusAttribute);
}

#[test]
fn focus_item_must_be_named_enable() {
    let wrong = Attribute {
        path: vec!["focus".to_string()],
        meta: Meta::List(vec![NestedMeta::Path(path(&["disable"]))]),
    };
    let err = rejection(vec![wrong]);
    assert_eq!(err, FocusError::ExpectedEnable);
    assert_eq!(err.message(), "Expected the ident `enable` inside the focus attribute.");
    let leading = Attribute {
        path: vec!["focus".to_string()],
        meta: Meta::List(vec![NestedMeta::Path(AttrPath {
            leading_colon: true,
            segments: vec!["enable".to_string()],
        })]),
    };
    assert_eq!(rejection(vec![leading]), FocusError::ExpectedEnable);
    let wrong_value = Attribute {
        path: vec!["focus".to_string()],
        meta: Meta::List(vec![NestedMeta::NameValue(
            path(&["a", "enable"]),
            Lit::Str("x".to_string()),
        )]),
    };
    assert_eq!(rejection(vec![wrong_value]), FocusError::ExpectedEnable);
}

#[test]
fn focus_value_must_be_a_string() {
    let attr = Attribute {
        path: vec!["focus".to_string()],
        meta: Meta::List(vec![NestedMeta::NameValue(path(&["enable"]), Lit::Other)]),
    };
    let err = rejection(vec![attr]);
    assert_eq!(err, FocusError::ExpectedStrLiteral);
    assert_eq!(
        err.message(),
        "Expected the path of `focus(enable = PATH) to be a `str` literal."
    );
}

#[test]
fn focus_path_must_lex() {
    let err = extract(vec![focus_enable_with("a(")]).unwrap_err();
    assert_eq!(err, FocusError::PathNotTokens);
    assert_eq!(
        err.message(),
        "called `Result::unwrap()` on an `Err` value: Error(\"lex error\")"
    );
    let input = DeriveInput {
        ident: "S".to_string(),
        data: Data::Struct(Fields::Named(vec![named("a", vec![focus_enable_with("a(")])])),
    };
    assert_eq!(derive(&input).unwrap_err(), FocusError::PathNotTokens);
}

#[test]
fn focus_path_is_read_as_tokens() {
    let source = "  crate::is_on  /* comment */";
    match extract(vec![focus_enable_with(source)]).unwrap() {
        Some(FocusAttribute::EnableWith(text)) => {
            assert_eq!(text, tokens(source));
            assert_ne!(text, source);
        }
        _ => panic!("expected a guarded annotation"),
    }
}

#[test]
fn nested_list_or_literal_is_rejected() {
    let attr = Attribute { path: vec!["focus".to_string()], meta: Meta::List(vec![NestedMeta::Other]) };
    let err = rejection(vec![attr]);
    assert_eq!(err, FocusError::InvalidNestedMeta);
    assert_eq!(
        err.message(),
        "The nested meta of the focus attribute must be `enable` or `enable = PATH`."
    );
}

#[test]
fn first_rejected_field_decides_the_error() {
    let bare = Attribute { path: vec!["focus".to_string()], meta: Meta::NotList };
    let empty = Attribute { path: vec!["focus".to_string()], meta: Meta::List(vec![]) };
    let fields = vec![named("w", vec![focus_enable()]), named("x", vec![empty]), named("y", vec![bare])];
    assert_eq!(focus_fields_error(&fields), Some(FocusError::EmptyFocusAttribute));
    let input = DeriveInput {
        ident: "E".to_string(),
        data: Data::Enum(vec![
            Variant { ident: "A".to_string(), fields: Fields::Unit },
            Variant { ident: "B".to_string(), fields: Fields::Named(fields) },
        ]),
    };
    assert_eq!(focus_input_error(&input), Some(FocusError::EmptyFocusAttribute));
    assert!(impl_focus_accepts_unit_variant_only());
}

fn impl_focus_accepts_unit_variant_only() -> bool {
    let input = DeriveInput {
        ident: "E".to_string(),
        data: Data::Enum(vec![Variant { ident: "A".to_string(), fields: Fields::Unit }]),
    };
    focus_input_error(&input).is_none() && impl_focus(&input).is_ok()
}

#[test]
fn collected_fields_keep_declaration_order() {
    let fields = vec![
        named("a", vec![focus_enable()]),
        named("b", vec![]),
        named("c", vec![focus_enable_with("f")]),
    ];
    let collected = FocusField::collect_fields_named(&fields).unwrap();
    let indices: Vec<usize> = collected.iter().map(|f| f.index).collect();
    assert_eq!(indices, vec![0, 2]);
    assert_eq!(collected[1].ident, "c");
    assert!(!collected[1].unnamed);
    let tuple = vec![unnamed(vec![]), unnamed(vec![focus_enable()])];
    let collected = FocusField::collect_fields_unnamed(&tuple).unwrap();
    assert_eq!(collected[0].ident, "1");
    assert!(collected[0].unnamed);
    assert_eq!(collected[0].ident(false), "t_1");
    assert_eq!(collected[0].ident(true), "1");
}

#[test]
fn guard_names_are_distinct_and_decimal() {
    assert_eq!(usize_to_decimal(0), "0");
    assert_eq!(usize_to_decimal(7), "7");
    assert_eq!(usize_to_decimal(10), "10");
    assert_eq!(usize_to_decimal(1234567), "1234567");
    assert_eq!(usize_to_decimal(usize::MAX), usize::MAX.to_string());
    let with = FocusAttribute::EnableWith("p".to_string());
    assert_eq!(with.to_boolean_expression(11, None), "let b_11 = p(); ");
    assert_eq!(with.to_boolean_expression(1, Some(11)), "let b_11_1 = p(); ");
    assert_eq!(with.to_boolean_expression(11, Some(1)), "let b_1_11 = p(); ");
    assert_eq!(FocusAttribute::Enable.to_boolean_expression(3, None), "");
}

#[test]
fn errors_are_reported_in_field_order() {
    let empty = Attribute { path: vec!["focus".to_string()], meta: Meta::List(vec![]) };
    let unlexed_first = DeriveInput {
        ident: "S".to_string(),
        data: Data::Struct(Fields::Named(vec![
            named("a", vec![focus_enable_with("a(")]),
            named("b", vec![empty]),
        ])),
    };
    assert_eq!(first_focus_error(&unlexed_first), Some(FocusError::PathNotTokens));
    assert_eq!(focus_input_error(&unlexed_first), Some(FocusError::EmptyFocusAttribute));
    let empty = Attribute { path: vec!["focus".to_string()], meta: Meta::List(vec![]) };
    let rejected_first = DeriveInput {
        ident: "E".to_string(),
        data: Data::Enum(vec![Variant {
            ident: "V".to_string(),
            fields: Fields::Unnamed(vec![unnamed(vec![empty]), unnamed(vec![focus_enable_with("a(")])]),
        }]),
    };
    assert_eq!(first_focus_error(&rejected_first), Some(FocusError::EmptyFocusAttribute));
    let accepted = DeriveInput {
        ident: "S".to_string(),
        data: Data::Struct(Fields::Named(vec![named("a", vec![focus_enable_with("is_active")])])),
    };
    assert_eq!(first_focus_error(&accepted), None);
    let union = DeriveInput { ident: "U".to_string(), data: Data::Union };
    assert_eq!(first_focus_error(&union), Some(FocusError::UnionUnsupported));
}

#[test]
fn guard_calls_the_path_as_written() {
    let input = DeriveInput {
        ident: "S".to_string(),
        data: Data::Struct(Fields::Named(vec![named("a", vec![other_list(), focus_enable_with("is_active")])])),
    };
    let out = derive(&input).unwrap();
    assert!(out.contains("let b_0 = is_active(); "));
    assert!(out.contains("is_active() && self.a.has_focus() || false"));
}

#[test]
fn unbalanced_delimiters_never_lex() {
    for source in ["(", "a)", "f(]", "{ x", "[[]"] {
        assert_eq!(extract(vec![focus_enable_with(source)]).unwrap_err(), FocusError::PathNotTokens);
    }
    match extract(vec![focus_enable_with("f(\"(\")")]).unwrap() {
        Some(FocusAttribute::EnableWith(text)) => assert_eq!(text, tokens("f(\"(\")")),
        _ => panic!("a delimiter inside a string literal is no delimiter"),
    }
    let empty = Attribute { path: vec!["focus".to_string()], meta: Meta::List(vec![]) };
    let input = DeriveInput {
        ident: "E".to_string(),
        data: Data::Enum(vec![
            Variant { ident: "A".to_string(), fields: Fields::Unit },
            Variant {
                ident: "B".to_string(),
                fields: Fields::Named(vec![named("x", vec![focus_enable_with("(")]), named("y", vec![empty])]),
            },
        ]),
    };
    assert_eq!(first_focus_error(&input), Some(FocusError::PathNotTokens));
    assert_eq!(focus_input_error(&input), Some(FocusError::EmptyFocusAttribute));
}

#[test]
fn derive_result_is_determined_by_the_input() {
    let input = DeriveInput {
        ident: "E".to_string(),
        data: Data::Enum(vec![
            Variant {
                ident: "A".to_string(),
                fields: Fields::Named(vec![named("x", vec![focus_enable_with("Self::on")])]),
            },
            Variant { ident: "B".to_string(), fields: Fields::Unnamed(vec![unnamed(vec![focus_enable()])]) },
        ]),
    };
    let first = derive(&input).unwrap();
    assert_eq!(impl_focus(&input).unwrap(), first);
    assert_eq!(focus_derive(&input).unwrap(), first);
    let unlexed = DeriveInput {
        ident: "S".to_string(),
        data: Data::Struct(Fields::Named(vec![named("x", vec![focus_enable_with("f(")])])),
    };
    assert_eq!(impl_focus(&unlexed).unwrap_err(), FocusError::PathNotTokens);
    assert_eq!(focus_derive(&unlexed).unwrap_err(), FocusError::PathNotTokens);
}

#[test]
fn field_attribute_is_the_extracted_attribute() {
    let field = named("x", vec![other_list(), focus_enable_with("Self::on")]);
    let extracted = extract(vec![other_list(), focus_enable_with("Self::on")]);
    let built = FocusField::from_field_if_annotated(&field, 4).unwrap().unwrap();
    match (extracted, &built.attribute) {
        (Ok(Some(FocusAttribute::EnableWith(a))), FocusAttribute::EnableWith(b)) => assert_eq!(&a, b),
        _ => panic!("expected guarded annotations"),
    }
    assert_eq!(built.index, 4);
    assert_eq!(built.ident, "x");
    assert!(!built.unnamed);
}
