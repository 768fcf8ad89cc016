//! The `focus(enable)` and `focus(enable = "PATH")` attribute of a field.

use vstd::prelude::*;
use crate::decimal::{decimal_text, usize_to_decimal};
use crate::model::{
    path_is_enable, path_mentions_focus, is_enable, mentions_focus, Attribute, Lit, Meta,
    NestedMeta,
};
use crate::tokens::{lex_tokens, reads_as};

verus! {

/// Why the derive rejects its input. Each variant stands for one of the
/// compile errors that the derive reports, see [`FocusError::message`].
#[derive(Clone, Copy, Debug, PartialEq, Eq, Structural)]
pub enum FocusError {
    /// The derive was applied to a union.
    UnionUnsupported,
    /// The derive was applied to a struct without fields (`struct S;`).
    UnitStructUnsupported,
    /// The first `focus` attribute of a field is not a list such as `focus(...)`.
    ExpectedMetaList,
    /// The `focus` attribute does not hold exactly one item.
    EmptyFocusAttribute,
    /// The item inside `focus(...)` is a path or a name with a value,
    /// but its name is not `enable`.
    ExpectedEnable,
    /// In `focus(enable = VALUE)`, the value is not a string literal.
    ExpectedStrLiteral,
    /// In `focus(enable = "PATH")`, the string does not read as Rust tokens.
    PathNotTokens,
    /// The item inside `focus(...)` is a nested list or a bare literal.
    InvalidNestedMeta,
}

/// The text of the compile error that the derive reports for `e`.
pub open spec fn error_message(e: FocusError) -> Seq<char> {
    match e {
        FocusError::UnionUnsupported => "not implemented: Unions are currently not supported."@,
        FocusError::UnitStructUnsupported =>
            "not implemented: Unit structs are currently not supported."@,
        FocusError::ExpectedMetaList =>
            "Expected a meta list like `focus(enable ...)` for the focus attribute."@,
        FocusError::EmptyFocusAttribute => "Expected the focus attribute to be not empty."@,
        FocusError::ExpectedEnable => "Expected the ident `enable` inside the focus attribute."@,
        FocusError::ExpectedStrLiteral =>
            "Expected the path of `focus(enable = PATH) to be a `str` literal."@,
        FocusError::PathNotTokens =>
            "called `Result::unwrap()` on an `Err` value: Error(\"lex error\")"@,
        FocusError::InvalidNestedMeta =>
            "The nested meta of the focus attribute must be `enable` or `enable = PATH`."@,
    }
}

impl FocusError {
    /// The text of the compile error that the derive reports for this error.
    pub fn message(&self) -> (m: String)
        ensures
            m@ == error_message(*self),
    {
        match self {
            FocusError::UnionUnsupported => String::from_str(
                "not implemented: Unions are currently not supported.",
            ),
            FocusError::UnitStructUnsupported => String::from_str(
                "not implemented: Unit structs are currently not supported.",
            ),
            FocusError::ExpectedMetaList => String::from_str(
                "Expected a meta list like `focus(enable ...)` for the focus attribute.",
            ),
            FocusError::EmptyFocusAttribute => String::from_str(
                "Expected the focus attribute to be not empty.",
            ),
            FocusError::ExpectedEnable => String::from_str(
                "Expected the ident `enable` inside the focus attribute.",
            ),
            FocusError::ExpectedStrLiteral => String::from_str(
                "Expected the path of `focus(enable = PATH) to be a `str` literal.",
            ),
            FocusError::PathNotTokens => String::from_str(
                "called `Result::unwrap()` on an `Err` value: Error(\"lex error\")",
            ),
            FocusError::InvalidNestedMeta => String::from_str(
                "The nested meta of the focus attribute must be `enable` or `enable = PATH`.",
            ),
        }
    }
}

/// The annotation of a field as written: `focus(enable)`, or `focus(enable = "PATH")`
/// with the source text of the string literal.
pub enum FocusAnnotation {
    Enable,
    EnableWith(Seq<char>),
}

/// The annotation of a field that takes part in the focus chain.
#[derive(Debug)]
pub enum FocusAttribute {
    /// `focus(enable)`: the field always takes part.
    Enable,
    /// `focus(enable = "PATH")`: the field takes part when `PATH()` is true;
    /// the string holds the text of the path's tokens.
    EnableWith(String),
}

/// The mathematical value of a [`FocusAttribute`].
pub enum SpecFocusAttribute {
    Enable,
    EnableWith(Seq<char>),
}

impl View for FocusAttribute {
    type V = SpecFocusAttribute;

    open spec fn view(&self) -> SpecFocusAttribute {
        match self {
            FocusAttribute::Enable => SpecFocusAttribute::Enable,
            FocusAttribute::EnableWith(path) => SpecFocusAttribute::EnableWith(path@),
        }
    }
}

/// Whether `attr` is what reading the annotation `a` may give: `focus(enable)` stays as it
/// is, and the path of `focus(enable = "PATH")` becomes the text of the tokens that `PATH`
/// reads as.
pub open spec fn attribute_lexed_from(attr: SpecFocusAttribute, a: FocusAnnotation) -> bool {
    match (attr, a) {
        (SpecFocusAttribute::Enable, FocusAnnotation::Enable) => true,
        (SpecFocusAttribute::EnableWith(text), FocusAnnotation::EnableWith(source)) => reads_as(
            source,
            Some(text),
        ),
        _ => false,
    }
}

/// Whether `a` is `focus(enable = "PATH")` with a `PATH` that, read as tokens, may fail.
pub open spec fn annotation_unlexed(a: FocusAnnotation) -> bool {
    match a {
        FocusAnnotation::EnableWith(source) => reads_as(source, None),
        FocusAnnotation::Enable => false,
    }
}

/// What the single item of a `focus(...)` attribute means, or why it is rejected.
pub open spec fn spec_interpret_focus_meta(nested: Seq<NestedMeta>) -> Result<
    FocusAnnotation,
    FocusError,
> {
    if nested.len() != 1 {
        Err(FocusError::EmptyFocusAttribute)
    } else {
        match nested[0] {
            NestedMeta::NameValue(path, lit) => {
                if !path_is_enable(path) {
                    Err(FocusError::ExpectedEnable)
                } else {
                    match lit {
                        Lit::Str(s) => Ok(FocusAnnotation::EnableWith(s@)),
                        Lit::Other => Err(FocusError::ExpectedStrLiteral),
                    }
                }
            },
            NestedMeta::Path(path) => {
                if path_is_enable(path) {
                    Ok(FocusAnnotation::Enable)
                } else {
                    Err(FocusError::ExpectedEnable)
                }
            },
            NestedMeta::Other => Err(FocusError::InvalidNestedMeta),
        }
    }
}

/// The focus annotation of a field with attributes `attrs`, if present.
///
/// The first attribute whose path mentions `focus` decides: it must be a list whose
/// single item is `enable` or `enable = "PATH"`. Other attributes are skipped, whatever
/// their form.
pub open spec fn spec_extract_focus_attribute(attrs: Seq<Attribute>) -> Result<
    Option<FocusAnnotation>,
    FocusError,
>
    decreases attrs.len(),
{
    if attrs.len() == 0 {
        Ok(None)
    } else if path_mentions_focus(attrs[0].path@) {
        match attrs[0].meta {
            Meta::NotList => Err(FocusError::ExpectedMetaList),
            Meta::List(nested) => match spec_interpret_focus_meta(nested@) {
                Ok(a) => Ok(Some(a)),
                Err(e) => Err(e),
            },
        }
    } else {
        spec_extract_focus_attribute(attrs.drop_first())
    }
}

/// The error of a spec result, if any.
pub open spec fn error_of<T>(r: Result<T, FocusError>) -> Option<FocusError> {
    match r {
        Ok(_) => None,
        Err(e) => Some(e),
    }
}

/// The mathematical value of an extraction result.
pub open spec fn extraction_view(r: Result<Option<FocusAttribute>, FocusError>) -> Result<
    Option<SpecFocusAttribute>,
    FocusError,
> {
    match r {
        Ok(Some(a)) => Ok(Some(a@)),
        Ok(None) => Ok(None),
        Err(e) => Err(e),
    }
}

/// Whether `r` is what reading the annotation `a` (if any) may give: none stays none,
/// `focus(enable)` is read as it is, and `focus(enable = "PATH")` gives the text of its
/// tokens, or fails with [`FocusError::PathNotTokens`] when the path does not lex.
pub open spec fn extraction_lexed_from(
    r: Result<Option<SpecFocusAttribute>, FocusError>,
    a: Option<FocusAnnotation>,
) -> bool {
    match a {
        None => r == Ok::<Option<SpecFocusAttribute>, FocusError>(None),
        Some(FocusAnnotation::Enable) => r == Ok::<Option<SpecFocusAttribute>, FocusError>(
            Some(SpecFocusAttribute::Enable),
        ),
        Some(FocusAnnotation::EnableWith(source)) => match r {
            Ok(Some(attr)) => attribute_lexed_from(attr, FocusAnnotation::EnableWith(source)),
            Ok(None) => false,
            Err(e) => e == FocusError::PathNotTokens && reads_as(source, None),
        },
    }
}

/// The name of the boolean that guards the field with index `field_index`:
/// `b_F` in a struct, `b_V_F` in the variant with index `V` of an enum.
pub open spec fn guard_name(field_index: usize, variant_index: Option<usize>) -> Seq<char> {
    match variant_index {
        Some(v) => "b_"@ + decimal_text(v as nat) + "_"@ + decimal_text(field_index as nat),
        None => "b_"@ + decimal_text(field_index as nat),
    }
}

/// The statement that binds the guard of a field annotated with `attr`:
/// nothing for `focus(enable)`, `let b_.. = PATH();` for `focus(enable = "PATH")`.
pub open spec fn spec_boolean_expression(
    attr: SpecFocusAttribute,
    field_index: usize,
    variant_index: Option<usize>,
) -> Seq<char> {
    match attr {
        SpecFocusAttribute::Enable => Seq::<char>::empty(),
        SpecFocusAttribute::EnableWith(path) => "let "@ + guard_name(field_index, variant_index)
            + " = "@ + path + "(); "@,
    }
}

/// Builds the name of the boolean that guards a field, see [`guard_name`].
pub fn build_guard_name(field_index: usize, variant_index: Option<usize>) -> (name: String)
    ensures
        name@ == guard_name(field_index, variant_index),
{
    let mut name = String::from_str("b_");
    match variant_index {
        Some(v) => {
            let v_text = usize_to_decimal(v);
            name.append(v_text.as_str());
            name.append("_");
        },
        None => {},
    }
    let f_text = usize_to_decimal(field_index);
    name.append(f_text.as_str());
    name
}

/// Tells why the single item of a `focus(...)` attribute is rejected, if it is.
fn focus_meta_error(nested: &Vec<NestedMeta>) -> (r: Option<FocusError>)
    ensures
        r == error_of(spec_interpret_focus_meta(nested@)),
{
    if nested.len() != 1 {
        return Some(FocusError::EmptyFocusAttribute);
    }
    match &nested[0] {
        NestedMeta::NameValue(path, lit) => {
            if !is_enable(path) {
                Some(FocusError::ExpectedEnable)
            } else {
                match lit {
                    Lit::Str(_) => None,
                    Lit::Other => Some(FocusError::ExpectedStrLiteral),
                }
            }
        },
        NestedMeta::Path(path) => {
            if is_enable(path) {
                None
            } else {
                Some(FocusError::ExpectedEnable)
            }
        },
        NestedMeta::Other => Some(FocusError::InvalidNestedMeta),
    }
}

/// Tells why the derive rejects the attributes `attrs` of a field, if it does,
/// see [`spec_extract_focus_attribute`].
pub fn focus_attribute_error(attrs: &Vec<Attribute>) -> (r: Option<FocusError>)
    ensures
        r == error_of(spec_extract_focus_attribute(attrs@)),
{
    let mut i: usize = 0;
    assert(attrs@.skip(0) =~= attrs@);
    while i < attrs.len()
        invariant
            0 <= i <= attrs@.len(),
            spec_extract_focus_attribute(attrs@) == spec_extract_focus_attribute(
                attrs@.skip(i as int),
            ),
        decreases attrs@.len() - i,
    {
        assert(attrs@.skip(i as int)[0] == attrs@[i as int]);
        assert(attrs@.skip(i as int).drop_first() =~= attrs@.skip(i + 1));
        if mentions_focus(&attrs[i].path) {
            return match &attrs[i].meta {
                Meta::NotList => Some(FocusError::ExpectedMetaList),
                Meta::List(nested) => focus_meta_error(nested),
            };
        }
        i += 1;
    }
    None
}

/// The annotation `focus(enable = "PATH")` once `PATH` is read as tokens: the guarded
/// annotation with their text, or [`FocusError::PathNotTokens`] when it did not lex.
pub fn attribute_from_tokens(tokens: Option<String>) -> (r: Result<FocusAttribute, FocusError>)
    ensures
        match (r, tokens) {
            (Ok(a), Some(t)) => a@ == SpecFocusAttribute::EnableWith(t@),
            (Err(e), None) => e == FocusError::PathNotTokens,
            _ => false,
        },
{
    match tokens {
        Some(text) => Ok(FocusAttribute::EnableWith(text)),
        None => Err(FocusError::PathNotTokens),
    }
}

impl FocusAttribute {
    /// Reads the single item of a `focus(...)` attribute that the derive accepts.
    /// A path given as a string is read as tokens; when it does not lex, the result is
    /// [`FocusError::PathNotTokens`].
    pub fn interpret_focus_meta(nested: &Vec<NestedMeta>) -> (r: Result<FocusAttribute, FocusError>)
        requires
            spec_interpret_focus_meta(nested@) is Ok,
        ensures
            extraction_lexed_from(
                extraction_view(
                    match r {
                        Ok(a) => Ok(Some(a)),
                        Err(e) => Err(e),
                    },
                ),
                Some(spec_interpret_focus_meta(nested@)->Ok_0),
            ),
    {
        match &nested[0] {
            NestedMeta::NameValue(_, Lit::Str(s)) => attribute_from_tokens(lex_tokens(s.as_str())),
            _ => Ok(FocusAttribute::Enable),
        }
    }

    /// Extracts the focus annotation from the attributes of a field, if present,
    /// see [`spec_extract_focus_attribute`]; the derive must accept the attributes.
    pub fn extract_focus_attribute(attrs: &Vec<Attribute>) -> (r: Result<
        Option<FocusAttribute>,
        FocusError,
    >)
        requires
            spec_extract_focus_attribute(attrs@) is Ok,
        ensures
            extraction_lexed_from(
                extraction_view(r),
                spec_extract_focus_attribute(attrs@)->Ok_0,
            ),
    {
        let mut i: usize = 0;
        assert(attrs@.skip(0) =~= attrs@);
        while i < attrs.len()
            invariant
                0 <= i <= attrs@.len(),
                spec_extract_focus_attribute(attrs@) is Ok,
                spec_extract_focus_attribute(attrs@) == spec_extract_focus_attribute(
                    attrs@.skip(i as int),
                ),
            decreases attrs@.len() - i,
        {
            assert(attrs@.skip(i as int)[0] == attrs@[i as int]);
            assert(attrs@.skip(i as int).drop_first() =~= attrs@.skip(i + 1));
            if mentions_focus(&attrs[i].path) {
                match &attrs[i].meta {
                    Meta::List(nested) => {
                        return match FocusAttribute::interpret_focus_meta(nested) {
                            Ok(a) => Ok(Some(a)),
                            Err(e) => Err(e),
                        };
                    },
                    Meta::NotList => {
                        return Err(FocusError::ExpectedMetaList);
                    },
                }
            }
            i += 1;
        }
        assert(attrs@.skip(i as int) =~= Seq::<Attribute>::empty());
        Ok(None)
    }

    /// The statement that binds the guard of a field with this annotation,
    /// see [`spec_boolean_expression`].
    pub fn to_boolean_expression(&self, field_index: usize, variant_index: Option<usize>) -> (s:
        String)
        ensures
            s@ == spec_boolean_expression(self@, field_index, variant_index),
    {
        match self {
            FocusAttribute::Enable => String::new(),
            FocusAttribute::EnableWith(path) => {
                let mut s = String::from_str("let ");
                let name = build_guard_name(field_index, variant_index);
                s.append(name.as_str());
                s.append(" = ");
                s.append(path.as_str());
                s.append("(); ");
                s
            },
        }
    }
}

} // verus!
