//! The source text of the `iced_focus::Focus` implementation.

use vstd::prelude::*;
use crate::attribute::{
    annotation_unlexed, error_of, focus_attribute_error, spec_boolean_expression,
    spec_extract_focus_attribute, FocusAnnotation, FocusAttribute, FocusError, SpecFocusAttribute,
};
use crate::decimal::{decimal_text, usize_to_decimal};
use crate::field::{
    collection_lexed_from, collection_view, fields_lexed_from, fields_view, focus_fields_error,
    has_guarded_path, has_unlexed_path, lemma_collect_error_persists, spec_collect_fields,
    spec_enum_push, spec_field_ident, spec_struct_push,
    AnnotatedField, FocusField, SpecFocusField,
};
use crate::model::{Attribute, Data, DeriveInput, Field, Fields, Variant};
use crate::tokens::reads_as;

verus! {

/// The statements that bind the guards of the fields `fs`, in order.
pub open spec fn booleans_text(fs: Seq<SpecFocusField>, variant_index: Option<usize>) -> Seq<char>
    decreases fs.len(),
{
    if fs.len() == 0 {
        Seq::<char>::empty()
    } else {
        booleans_text(fs.drop_last(), variant_index) + spec_boolean_expression(
            fs.last().attribute,
            fs.last().index,
            variant_index,
        )
    }
}

/// The statements that add the struct fields `fs` to the focus chain, in order.
pub open spec fn struct_pushes_text(fs: Seq<SpecFocusField>, vector_name: Seq<char>) -> Seq<char>
    decreases fs.len(),
{
    if fs.len() == 0 {
        Seq::<char>::empty()
    } else {
        struct_pushes_text(fs.drop_last(), vector_name) + spec_struct_push(fs.last(), vector_name)
    }
}

/// The statements that add the fields `fs` of a variant to the focus chain, in order.
pub open spec fn enum_pushes_text(
    fs: Seq<SpecFocusField>,
    variant_index: usize,
    vector_name: Seq<char>,
) -> Seq<char>
    decreases fs.len(),
{
    if fs.len() == 0 {
        Seq::<char>::empty()
    } else {
        enum_pushes_text(fs.drop_last(), variant_index, vector_name) + spec_enum_push(
            fs.last(),
            variant_index,
            vector_name,
        )
    }
}

/// The `focus` method's body: the focus chain `vector_name`, made with room for every
/// field, the guards (struct only), the statements that fill the chain, and the call
/// that moves the focus along it.
pub open spec fn spec_focus_method_body(
    index: usize,
    vector_name: Seq<char>,
    fs: Seq<SpecFocusField>,
    with_self: bool,
) -> Seq<char> {
    "let mut "@ + vector_name
        + ": std::vec::Vec<&mut dyn iced_focus::Focus> = std::vec::Vec::with_capacity("@
        + decimal_text(fs.len()) + "usize); "@ + "let mut "@ + vector_name
        + ": std::vec::Vec<Box<&mut dyn iced_focus::Focus>> = std::vec::Vec::with_capacity("@
        + decimal_text(fs.len()) + "usize); "@ + (if with_self {
        booleans_text(fs, None)
    } else {
        Seq::<char>::empty()
    }) + (if with_self {
        struct_pushes_text(fs, vector_name)
    } else {
        enum_pushes_text(fs, index, vector_name)
    }) + vector_name + ".focus(direction)"@
}

/// One disjunct of the `has_focus` method: `[PATH() && ][self.]FIELD.has_focus() || `.
pub open spec fn spec_has_focus_disjunct(f: SpecFocusField, with_self: bool) -> Seq<char> {
    (match f.attribute {
        SpecFocusAttribute::Enable => Seq::<char>::empty(),
        SpecFocusAttribute::EnableWith(path) => path + "() && "@,
    }) + (if with_self {
        "self."@
    } else {
        Seq::<char>::empty()
    }) + spec_field_ident(f, with_self) + ".has_focus() || "@
}

/// The disjuncts of the `has_focus` method for the fields `fs`, in order.
pub open spec fn has_focus_disjuncts_text(fs: Seq<SpecFocusField>, with_self: bool) -> Seq<char>
    decreases fs.len(),
{
    if fs.len() == 0 {
        Seq::<char>::empty()
    } else {
        has_focus_disjuncts_text(fs.drop_last(), with_self) + spec_has_focus_disjunct(
            fs.last(),
            with_self,
        )
    }
}

/// The `has_focus` method's body: true when some field in the chain has the focus.
pub open spec fn spec_has_focus_method_body(fs: Seq<SpecFocusField>, with_self: bool) -> Seq<char> {
    has_focus_disjuncts_text(fs, with_self) + "false"@
}

/// The text of `impl iced_focus::Focus for IDENT { .. }` with the two method bodies.
pub open spec fn impl_text(ident: Seq<char>, focus_body: Seq<char>, has_focus_body: Seq<char>) -> Seq<
    char,
> {
    "impl iced_focus::Focus for "@ + ident
        + " { fn focus(&mut self, direction: iced_focus::Direction) -> iced_focus::State { "@
        + focus_body + " } fn has_focus(&self) -> bool { "@ + has_focus_body + " } }"@
}

/// The implementation for a struct named `ident` whose annotated fields are `fs`.
pub open spec fn spec_focus_trait_for_struct(ident: Seq<char>, fs: Seq<SpecFocusField>) -> Seq<char> {
    impl_text(
        ident,
        spec_focus_method_body(0, "fields"@, fs, true),
        spec_has_focus_method_body(fs, true),
    )
}

/// The annotated fields of a struct with `fields`, or why the struct is rejected.
pub open spec fn spec_struct_fields(fields: Fields) -> Result<Seq<AnnotatedField>, FocusError> {
    match fields {
        Fields::Named(named) => spec_collect_fields(named@),
        Fields::Unnamed(unnamed) => spec_collect_fields(unnamed@),
        Fields::Unit => Err(FocusError::UnitStructUnsupported),
    }
}

/// The annotated fields of a variant (none for a unit variant), or why they are rejected.
pub open spec fn spec_variant_focus_fields(fields: Fields) -> Result<
    Seq<AnnotatedField>,
    FocusError,
> {
    match fields {
        Fields::Named(named) => spec_collect_fields(named@),
        Fields::Unnamed(unnamed) => spec_collect_fields(unnamed@),
        Fields::Unit => Ok(Seq::<AnnotatedField>::empty()),
    }
}

/// The bindings `F, ` of the annotated named fields `fs`, in order.
pub open spec fn named_bindings_text(fs: Seq<SpecFocusField>) -> Seq<char>
    decreases fs.len(),
{
    if fs.len() == 0 {
        Seq::<char>::empty()
    } else {
        named_bindings_text(fs.drop_last()) + spec_field_ident(fs.last(), false) + ", "@
    }
}

/// The bindings `t_0, t_1, .., t_{n-1}, ` of all `n` tuple fields of a variant.
pub open spec fn tuple_bindings_text(n: nat) -> Seq<char>
    decreases n,
{
    if n == 0 {
        Seq::<char>::empty()
    } else {
        tuple_bindings_text((n - 1) as nat) + "t_"@ + decimal_text((n - 1) as nat) + ", "@
    }
}

/// The pattern that follows `Self::VARIANT` in a match arm of a variant with `fields`,
/// whose annotated fields are `fs`.
pub open spec fn spec_variant_pattern(fields: Fields, fs: Seq<SpecFocusField>) -> Seq<char> {
    match fields {
        Fields::Named(_) => " { "@ + named_bindings_text(fs) + ".. }"@,
        Fields::Unnamed(unnamed) => " ("@ + tuple_bindings_text(unnamed@.len()) + ")"@,
        Fields::Unit => Seq::<char>::empty(),
    }
}

/// `Self::VARIANT PATTERN => { BODY } `
pub open spec fn arm_text(ident: Seq<char>, pattern: Seq<char>, body: Seq<char>) -> Seq<char> {
    "Self::"@ + ident + pattern + " => { "@ + body + " } "@
}

/// The match arm of the `focus` method for the variant `v` with index `index`.
pub open spec fn spec_focus_arm(index: usize, v: Variant, fs: Seq<SpecFocusField>) -> Seq<char> {
    arm_text(
        v.ident@,
        spec_variant_pattern(v.fields, fs),
        spec_focus_method_body(index, "fields"@, fs, false),
    )
}

/// The match arm of the `has_focus` method for the variant `v`.
pub open spec fn spec_has_focus_arm(v: Variant, fs: Seq<SpecFocusField>) -> Seq<char> {
    arm_text(v.ident@, spec_variant_pattern(v.fields, fs), spec_has_focus_method_body(fs, false))
}

/// For the variants `vs`, whose focus fields are `lexed` (one list per variant), in order:
/// the guards of all variants, the arms of the `focus` method and the arms of the
/// `has_focus` method.
pub open spec fn spec_enum_parts(vs: Seq<Variant>, lexed: Seq<Seq<SpecFocusField>>) -> (
    Seq<char>,
    Seq<char>,
    Seq<char>,
)
    decreases vs.len(),
{
    if vs.len() == 0 || lexed.len() == 0 {
        (Seq::<char>::empty(), Seq::<char>::empty(), Seq::<char>::empty())
    } else {
        let (booleans, focus_arms, has_focus_arms) = spec_enum_parts(
            vs.drop_last(),
            lexed.drop_last(),
        );
        let index = (vs.len() - 1) as usize;
        let fs = lexed.last();
        (
            booleans + booleans_text(fs, Some(index)),
            focus_arms + spec_focus_arm(index, vs.last(), fs),
            has_focus_arms + spec_has_focus_arm(vs.last(), fs),
        )
    }
}

/// The implementation for an enum named `ident` with variants `vs`, whose focus fields
/// are `lexed`.
pub open spec fn spec_impl_focus_enum(
    ident: Seq<char>,
    vs: Seq<Variant>,
    lexed: Seq<Seq<SpecFocusField>>,
) -> Seq<char> {
    let (booleans, focus_arms, has_focus_arms) = spec_enum_parts(vs, lexed);
    impl_text(
        ident,
        booleans + "match self { "@ + focus_arms + "}"@,
        "match self { "@ + has_focus_arms + "}"@,
    )
}

/// The error of the first rejected variant among `vs`, if any.
pub open spec fn spec_enum_error(vs: Seq<Variant>) -> Option<FocusError>
    decreases vs.len(),
{
    if vs.len() == 0 {
        None
    } else {
        match spec_enum_error(vs.drop_last()) {
            Some(e) => Some(e),
            None => error_of(spec_variant_focus_fields(vs.last().fields)),
        }
    }
}

/// Why the derive rejects `input`, if it does: a union, a struct without fields, or the
/// first field whose attributes are rejected.
pub open spec fn spec_input_error(input: DeriveInput) -> Option<FocusError> {
    match input.data {
        Data::Struct(fields) => error_of(spec_struct_fields(fields)),
        Data::Enum(variants) => spec_enum_error(variants@),
        Data::Union => Some(FocusError::UnionUnsupported),
    }
}

/// Whether the lists `lexed` are what reading the annotated fields of the variants `vs`
/// may give, one list per variant.
pub open spec fn variants_lexed_from(vs: Seq<Variant>, lexed: Seq<Seq<SpecFocusField>>) -> bool {
    &&& lexed.len() == vs.len()
    &&& forall|i: int|
        0 <= i < vs.len() ==> {
            &&& spec_variant_focus_fields((#[trigger] vs[i]).fields) is Ok
            &&& fields_lexed_from(lexed[i], spec_variant_focus_fields(vs[i].fields)->Ok_0)
        }
}

/// Whether some field of `input` is guarded by a path that, read as tokens, may fail.
pub open spec fn input_has_unlexed_path(input: DeriveInput) -> bool {
    match input.data {
        Data::Struct(fields) => has_unlexed_path(spec_struct_fields(fields)->Ok_0),
        Data::Enum(variants) => exists|i: int|
            0 <= i < variants@.len() && has_unlexed_path(
                spec_variant_focus_fields((#[trigger] variants@[i]).fields)->Ok_0,
            ),
        Data::Union => false,
    }
}

/// Whether some field of `input` is guarded by a path, whose text must be lexed.
pub open spec fn input_has_guarded_path(input: DeriveInput) -> bool {
    match input.data {
        Data::Struct(fields) => has_guarded_path(spec_struct_fields(fields)->Ok_0),
        Data::Enum(variants) => exists|i: int|
            0 <= i < variants@.len() && has_guarded_path(
                spec_variant_focus_fields((#[trigger] variants@[i]).fields)->Ok_0,
            ),
        Data::Union => false,
    }
}

/// Whether `text` is an implementation of `iced_focus::Focus` that the derive generates for
/// `input`, with the paths of its fields (if any) read as tokens.
pub open spec fn generated_from(input: DeriveInput, text: Seq<char>) -> bool {
    match input.data {
        Data::Struct(fields) => exists|fs: Seq<SpecFocusField>|
            #[trigger] fields_lexed_from(fs, spec_struct_fields(fields)->Ok_0) && text
                == spec_focus_trait_for_struct(input.ident@, fs),
        Data::Enum(variants) => exists|lexed: Seq<Seq<SpecFocusField>>|
            #[trigger] variants_lexed_from(variants@, lexed) && text == spec_impl_focus_enum(
                input.ident@,
                variants@,
                lexed,
            ),
        Data::Union => false,
    }
}

/// The mathematical value of a result that holds generated text.
pub open spec fn result_text(r: Result<String, FocusError>) -> Result<Seq<char>, FocusError> {
    match r {
        Ok(text) => Ok(text@),
        Err(e) => Err(e),
    }
}

/// Whether `r` is what the derive may give for `input`, which it accepts: an
/// implementation generated from it, or [`FocusError::PathNotTokens`] when the path of
/// one of its fields did not lex.
pub open spec fn derived_from(input: DeriveInput, r: Result<Seq<char>, FocusError>) -> bool {
    match r {
        Ok(text) => generated_from(input, text),
        Err(e) => e == FocusError::PathNotTokens && input_has_unlexed_path(input),
    }
}

/// The step that the loops below take: the text of a prefix grows by the text of one field.
proof fn lemma_prefix_step(fields: Seq<FocusField>, i: int)
    requires
        0 <= i < fields.len(),
    ensures
        fields_view(fields).take(i + 1).drop_last() =~= fields_view(fields).take(i),
        fields_view(fields).take(i + 1).last() == fields[i]@,
        fields_view(fields).take(i + 1).len() == i + 1,
{
}

fn guards(fields: &Vec<FocusField>, variant_index: Option<usize>) -> (s: String)
    ensures
        s@ == booleans_text(fields_view(fields@), variant_index),
{
    let mut s = String::new();
    let mut i: usize = 0;
    while i < fields.len()
        invariant
            0 <= i <= fields@.len(),
            s@ == booleans_text(fields_view(fields@).take(i as int), variant_index),
        decreases fields@.len() - i,
    {
        proof {
            lemma_prefix_step(fields@, i as int);
        }
        let b = fields[i].attribute.to_boolean_expression(fields[i].index, variant_index);
        s.append(b.as_str());
        i += 1;
    }
    assert(fields_view(fields@).take(i as int) =~= fields_view(fields@));
    s
}

fn struct_pushes(fields: &Vec<FocusField>, vector_name: &str) -> (s: String)
    ensures
        s@ == struct_pushes_text(fields_view(fields@), vector_name@),
{
    let mut s = String::new();
    let mut i: usize = 0;
    while i < fields.len()
        invariant
            0 <= i <= fields@.len(),
            s@ == struct_pushes_text(fields_view(fields@).take(i as int), vector_name@),
        decreases fields@.len() - i,
    {
        proof {
            lemma_prefix_step(fields@, i as int);
        }
        let p = fields[i].add_struct_field_to_vec(vector_name);
        s.append(p.as_str());
        i += 1;
    }
    assert(fields_view(fields@).take(i as int) =~= fields_view(fields@));
    s
}

fn enum_pushes(fields: &Vec<FocusField>, index: usize, vector_name: &str) -> (s: String)
    ensures
        s@ == enum_pushes_text(fields_view(fields@), index, vector_name@),
{
    let mut s = String::new();
    let mut i: usize = 0;
    while i < fields.len()
        invariant
            0 <= i <= fields@.len(),
            s@ == enum_pushes_text(fields_view(fields@).take(i as int), index, vector_name@),
        decreases fields@.len() - i,
    {
        proof {
            lemma_prefix_step(fields@, i as int);
        }
        let p = fields[i].add_enum_field_to_vec(index, vector_name);
        s.append(p.as_str());
        i += 1;
    }
    assert(fields_view(fields@).take(i as int) =~= fields_view(fields@));
    s
}

fn has_focus_disjunct(field: &FocusField, with_self: bool) -> (s: String)
    ensures
        s@ == spec_has_focus_disjunct(field@, with_self),
{
    let mut s = String::new();
    match &field.attribute {
        FocusAttribute::Enable => {},
        FocusAttribute::EnableWith(path) => {
            s.append(path.as_str());
            s.append("() && ");
        },
    }
    if with_self {
        s.append("self.");
    }
    let ident = field.ident(with_self);
    s.append(ident.as_str());
    s.append(".has_focus() || ");
    s
}

fn has_focus_disjuncts(fields: &Vec<FocusField>, with_self: bool) -> (s: String)
    ensures
        s@ == has_focus_disjuncts_text(fields_view(fields@), with_self),
{
    let mut s = String::new();
    let mut i: usize = 0;
    while i < fields.len()
        invariant
            0 <= i <= fields@.len(),
            s@ == has_focus_disjuncts_text(fields_view(fields@).take(i as int), with_self),
        decreases fields@.len() - i,
    {
        proof {
            lemma_prefix_step(fields@, i as int);
        }
        let d = has_focus_disjunct(&fields[i], with_self);
        s.append(d.as_str());
        i += 1;
    }
    assert(fields_view(fields@).take(i as int) =~= fields_view(fields@));
    s
}

/// Builds the body of the `focus` method, see [`spec_focus_method_body`].
pub fn build_focus_method_body(
    index: usize,
    vector_name: &str,
    fields: &Vec<FocusField>,
    with_self: bool,
) -> (s: String)
    ensures
        s@ == spec_focus_method_body(index, vector_name@, fields_view(fields@), with_self),
{
    let capacity = usize_to_decimal(fields.len());
    let mut s = String::from_str("let mut ");
    s.append(vector_name);
    s.append(": std::vec::Vec<&mut dyn iced_focus::Focus> = std::vec::Vec::with_capacity(");
    s.append(capacity.as_str());
    s.append("usize); ");
    s.append("let mut ");
    s.append(vector_name);
    s.append(": std::vec::Vec<Box<&mut dyn iced_focus::Focus>> = std::vec::Vec::with_capacity(");
    s.append(capacity.as_str());
    s.append("usize); ");
    if with_self {
        let booleans = guards(fields, None);
        s.append(booleans.as_str());
    }
    let field_to_vector = if with_self {
        struct_pushes(fields, vector_name)
    } else {
        enum_pushes(fields, index, vector_name)
    };
    s.append(field_to_vector.as_str());
    s.append(vector_name);
    s.append(".focus(direction)");
    s
}

/// Builds the body of the `has_focus` method, see [`spec_has_focus_method_body`].
pub fn build_has_focus_method_body(fields: &Vec<FocusField>, with_self: bool) -> (s: String)
    ensures
        s@ == spec_has_focus_method_body(fields_view(fields@), with_self),
{
    let mut s = has_focus_disjuncts(fields, with_self);
    s.append("false");
    s
}

fn build_impl(ident: &str, focus_body: &str, has_focus_body: &str) -> (s: String)
    ensures
        s@ == impl_text(ident@, focus_body@, has_focus_body@),
{
    let mut s = String::from_str("impl iced_focus::Focus for ");
    s.append(ident);
    s.append(" { fn focus(&mut self, direction: iced_focus::Direction) -> iced_focus::State { ");
    s.append(focus_body);
    s.append(" } fn has_focus(&self) -> bool { ");
    s.append(has_focus_body);
    s.append(" } }");
    s
}

/// Builds the implementation for a struct named `ident` whose annotated fields are `fields`.
pub fn build_focus_trait_for_struct(ident: &str, fields: &Vec<FocusField>) -> (s: String)
    ensures
        s@ == spec_focus_trait_for_struct(ident@, fields_view(fields@)),
{
    let vector_name = "fields";
    let focus_method_body = build_focus_method_body(0, vector_name, fields, true);
    let has_focus_method_body = build_has_focus_method_body(fields, true);
    build_impl(ident, focus_method_body.as_str(), has_focus_method_body.as_str())
}

/// Builds the implementation for a struct, see [`spec_focus_trait_for_struct`]; the derive
/// must accept the struct. When a path does not lex, the result is
/// [`FocusError::PathNotTokens`].
pub fn impl_focus_struct(ident: &String, s: &Fields) -> (r: Result<String, FocusError>)
    requires
        spec_struct_fields(*s) is Ok,
    ensures
        match r {
            Ok(text) => exists|fs: Seq<SpecFocusField>|
                #[trigger] fields_lexed_from(fs, spec_struct_fields(*s)->Ok_0) && text@
                    == spec_focus_trait_for_struct(ident@, fs),
            Err(e) => e == FocusError::PathNotTokens && has_unlexed_path(
                spec_struct_fields(*s)->Ok_0,
            ),
        },
{
    let fields = match s {
        Fields::Named(named) => FocusField::collect_fields_named(named),
        Fields::Unnamed(unnamed) => FocusField::collect_fields_unnamed(unnamed),
        Fields::Unit => {
            return Err(FocusError::UnitStructUnsupported);
        },
    };
    match fields {
        Ok(fields) => {
            let text = build_focus_trait_for_struct(ident.as_str(), &fields);
            assert(fields_lexed_from(fields_view(fields@), spec_struct_fields(*s)->Ok_0));
            Ok(text)
        },
        Err(e) => Err(e),
    }
}

fn named_bindings(fields: &Vec<FocusField>) -> (s: String)
    ensures
        s@ == named_bindings_text(fields_view(fields@)),
{
    let mut s = String::new();
    let mut i: usize = 0;
    while i < fields.len()
        invariant
            0 <= i <= fields@.len(),
            s@ == named_bindings_text(fields_view(fields@).take(i as int)),
        decreases fields@.len() - i,
    {
        proof {
            lemma_prefix_step(fields@, i as int);
        }
        let ident = fields[i].ident(false);
        s.append(ident.as_str());
        s.append(", ");
        i += 1;
    }
    assert(fields_view(fields@).take(i as int) =~= fields_view(fields@));
    s
}

fn tuple_bindings(n: usize) -> (s: String)
    ensures
        s@ == tuple_bindings_text(n as nat),
{
    let mut s = String::new();
    let mut i: usize = 0;
    while i < n
        invariant
            0 <= i <= n,
            s@ == tuple_bindings_text(i as nat),
        decreases n - i,
    {
        let index = usize_to_decimal(i);
        s.append("t_");
        s.append(index.as_str());
        s.append(", ");
        i += 1;
    }
    s
}

/// Builds the pattern that follows `Self::VARIANT`, see [`spec_variant_pattern`].
pub fn build_variant_pattern(fields: &Fields, focus_fields: &Vec<FocusField>) -> (s: String)
    ensures
        s@ == spec_variant_pattern(*fields, fields_view(focus_fields@)),
{
    match fields {
        Fields::Named(_) => {
            let mut s = String::from_str(" { ");
            let bindings = named_bindings(focus_fields);
            s.append(bindings.as_str());
            s.append(".. }");
            s
        },
        Fields::Unnamed(unnamed) => {
            let mut s = String::from_str(" (");
            let bindings = tuple_bindings(unnamed.len());
            s.append(bindings.as_str());
            s.append(")");
            s
        },
        Fields::Unit => String::new(),
    }
}

fn build_arm(ident: &str, pattern: &str, body: &str) -> (s: String)
    ensures
        s@ == arm_text(ident@, pattern@, body@),
{
    let mut s = String::from_str("Self::");
    s.append(ident);
    s.append(pattern);
    s.append(" => { ");
    s.append(body);
    s.append(" } ");
    s
}

/// Collects the annotated fields of a variant, see [`spec_variant_focus_fields`]; the derive
/// must accept them.
pub fn variant_focus_fields(fields: &Fields) -> (r: Result<Vec<FocusField>, FocusError>)
    requires
        spec_variant_focus_fields(*fields) is Ok,
    ensures
        collection_lexed_from(collection_view(r), spec_variant_focus_fields(*fields)->Ok_0),
{
    match fields {
        Fields::Named(named) => FocusField::collect_fields_named(named),
        Fields::Unnamed(unnamed) => FocusField::collect_fields_unnamed(unnamed),
        Fields::Unit => {
            let none: Vec<FocusField> = Vec::new();
            assert(fields_view(none@) =~= Seq::<SpecFocusField>::empty());
            Ok(none)
        },
    }
}

/// The focus fields of the variant and its two match arms, built from those same fields.
fn variant_parts(index: usize, variant: &Variant) -> (r: Result<
    (Vec<FocusField>, String, String),
    FocusError,
>)
    requires
        spec_variant_focus_fields(variant.fields) is Ok,
    ensures
        match r {
            Ok((fields, focus, has_focus)) => {
                &&& fields_lexed_from(
                    fields_view(fields@),
                    spec_variant_focus_fields(variant.fields)->Ok_0,
                )
                &&& focus@ == spec_focus_arm(index, *variant, fields_view(fields@))
                &&& has_focus@ == spec_has_focus_arm(*variant, fields_view(fields@))
            },
            Err(e) => e == FocusError::PathNotTokens && has_unlexed_path(
                spec_variant_focus_fields(variant.fields)->Ok_0,
            ),
        },
{
    let fields = match variant_focus_fields(&variant.fields) {
        Ok(fields) => fields,
        Err(e) => {
            return Err(e);
        },
    };
    let vector_name = "fields";
    let focus_method_body = build_focus_method_body(index, vector_name, &fields, false);
    let has_focus_method_body = build_has_focus_method_body(&fields, false);
    let variant_fields = build_variant_pattern(&variant.fields, &fields);
    let focus = build_arm(
        variant.ident.as_str(),
        variant_fields.as_str(),
        focus_method_body.as_str(),
    );
    let has_focus = build_arm(
        variant.ident.as_str(),
        variant_fields.as_str(),
        has_focus_method_body.as_str(),
    );
    Ok((fields, focus, has_focus))
}

/// Builds the match arms of the `focus` and `has_focus` methods for the variant with index
/// `index`, see [`spec_focus_arm`] and [`spec_has_focus_arm`]; the derive must accept the
/// variant. When a path does not lex, the result is [`FocusError::PathNotTokens`].
pub fn impl_focus_enum_variant(index: usize, variant: &Variant) -> (r: Result<
    (String, String),
    FocusError,
>)
    requires
        spec_variant_focus_fields(variant.fields) is Ok,
    ensures
        match r {
            Ok((focus, has_focus)) => exists|fs: Seq<SpecFocusField>|
                #[trigger] fields_lexed_from(fs, spec_variant_focus_fields(variant.fields)->Ok_0)
                    && focus@ == spec_focus_arm(index, *variant, fs) && has_focus@
                    == spec_has_focus_arm(*variant, fs),
            Err(e) => e == FocusError::PathNotTokens && has_unlexed_path(
                spec_variant_focus_fields(variant.fields)->Ok_0,
            ),
        },
{
    match variant_parts(index, variant) {
        Ok((fields, focus, has_focus)) => {
            assert(fields_lexed_from(
                fields_view(fields@),
                spec_variant_focus_fields(variant.fields)->Ok_0,
            ));
            Ok((focus, has_focus))
        },
        Err(e) => Err(e),
    }
}

/// Tells why the derive rejects the variant, if it does, see [`spec_variant_focus_fields`].
pub fn variant_error(variant: &Variant) -> (r: Option<FocusError>)
    ensures
        r == error_of(spec_variant_focus_fields(variant.fields)),
{
    match &variant.fields {
        Fields::Named(named) => focus_fields_error(named),
        Fields::Unnamed(unnamed) => focus_fields_error(unnamed),
        Fields::Unit => None,
    }
}

/// Once a prefix of the variants is rejected, all variants are rejected with the same error.
pub proof fn lemma_enum_error_persists(vs: Seq<Variant>, n: int)
    requires
        0 <= n <= vs.len(),
        spec_enum_error(vs.take(n)) is Some,
    ensures
        spec_enum_error(vs) == spec_enum_error(vs.take(n)),
    decreases vs.len() - n,
{
    if n == vs.len() {
        assert(vs.take(n) =~= vs);
    } else {
        assert(vs.drop_last().take(n) =~= vs.take(n));
        lemma_enum_error_persists(vs.drop_last(), n);
    }
}

/// Tells why the derive rejects `input`, if it does, see [`spec_input_error`].
pub fn focus_input_error(input: &DeriveInput) -> (r: Option<FocusError>)
    ensures
        r == spec_input_error(*input),
{
    match &input.data {
        Data::Struct(Fields::Named(named)) => focus_fields_error(named),
        Data::Struct(Fields::Unnamed(unnamed)) => focus_fields_error(unnamed),
        Data::Struct(Fields::Unit) => Some(FocusError::UnitStructUnsupported),
        Data::Enum(variants) => {
            let mut i: usize = 0;
            assert(variants@.take(0) =~= Seq::<Variant>::empty());
            while i < variants.len()
                invariant
                    0 <= i <= variants@.len(),
                    spec_input_error(*input) == spec_enum_error(variants@),
                    spec_enum_error(variants@.take(i as int)) is None,
                decreases variants@.len() - i,
            {
                let ghost prefix = variants@.take(i + 1);
                assert(prefix.drop_last() =~= variants@.take(i as int));
                assert(prefix.last() == variants@[i as int]);
                match variant_error(&variants[i]) {
                    Some(e) => {
                        proof {
                            assert(spec_enum_error(prefix) == Some(e));
                            lemma_enum_error_persists(variants@, i + 1);
                        }
                        return Some(e);
                    },
                    None => {},
                }
                i += 1;
            }
            assert(variants@.take(i as int) =~= variants@);
            None
        },
        Data::Union => Some(FocusError::UnionUnsupported),
    }
}

/// Builds the implementation for an enum, see [`spec_impl_focus_enum`]; the derive must
/// accept the enum. When a path does not lex, the result is [`FocusError::PathNotTokens`].
pub fn impl_focus_enum(ident: &String, variants: &Vec<Variant>) -> (r: Result<String, FocusError>)
    requires
        spec_enum_error(variants@) is None,
    ensures
        match r {
            Ok(text) => exists|lexed: Seq<Seq<SpecFocusField>>|
                #[trigger] variants_lexed_from(variants@, lexed) && text@ == spec_impl_focus_enum(
                    ident@,
                    variants@,
                    lexed,
                ),
            Err(e) => e == FocusError::PathNotTokens && exists|i: int|
                0 <= i < variants@.len() && has_unlexed_path(
                    spec_variant_focus_fields((#[trigger] variants@[i]).fields)->Ok_0,
                ),
        },
{
    let mut booleans = String::new();
    let mut focus_bodies = String::new();
    let mut has_focus_bodies = String::new();
    let ghost mut lexed: Seq<Seq<SpecFocusField>> = Seq::empty();
    let mut i: usize = 0;
    assert(variants@.take(0) =~= Seq::<Variant>::empty());
    while i < variants.len()
        invariant
            0 <= i <= variants@.len(),
            spec_enum_error(variants@) is None,
            variants_lexed_from(variants@.take(i as int), lexed),
            spec_enum_parts(variants@.take(i as int), lexed) == (
                booleans@,
                focus_bodies@,
                has_focus_bodies@,
            ),
        decreases variants@.len() - i,
    {
        let ghost prefix = variants@.take(i + 1);
        assert(prefix.drop_last() =~= variants@.take(i as int));
        assert(prefix.last() == variants@[i as int]);
        proof {
            if spec_enum_error(prefix) is Some {
                lemma_enum_error_persists(variants@, i + 1);
            }
        }
        match variant_parts(i, &variants[i]) {
            Ok((fields, focus, has_focus)) => {
                let variant_booleans = guards(&fields, Some(i));
                booleans.append(variant_booleans.as_str());
                focus_bodies.append(focus.as_str());
                has_focus_bodies.append(has_focus.as_str());
                proof {
                    let old_lexed = lexed;
                    lexed = lexed.push(fields_view(fields@));
                    assert(lexed.drop_last() =~= old_lexed);
                    assert forall|j: int| 0 <= j < prefix.len() implies {
                        &&& spec_variant_focus_fields((#[trigger] prefix[j]).fields) is Ok
                        &&& fields_lexed_from(
                            lexed[j],
                            spec_variant_focus_fields(prefix[j].fields)->Ok_0,
                        )
                    } by {
                        if j < i {
                            assert(prefix[j] == variants@.take(i as int)[j]);
                        }
                    }
                }
            },
            Err(e) => {
                return Err(e);
            },
        }
        i += 1;
    }
    assert(variants@.take(i as int) =~= variants@);
    let mut focus_body = booleans;
    focus_body.append("match self { ");
    focus_body.append(focus_bodies.as_str());
    focus_body.append("}");
    let mut has_focus_body = String::from_str("match self { ");
    has_focus_body.append(has_focus_bodies.as_str());
    has_focus_body.append("}");
    Ok(build_impl(ident.as_str(), focus_body.as_str(), has_focus_body.as_str()))
}

/// Builds the implementation of `iced_focus::Focus` for `ast`; the derive must accept `ast`
/// (see [`focus_input_error`]). When the path of a field does not lex, the result is
/// [`FocusError::PathNotTokens`].
pub fn impl_focus(ast: &DeriveInput) -> (r: Result<String, FocusError>)
    requires
        spec_input_error(*ast) is None,
    ensures
        derived_from(*ast, result_text(r)),
        !input_has_guarded_path(*ast) ==> r is Ok,
{
    match &ast.data {
        Data::Struct(s) => impl_focus_struct(&ast.ident, s),
        Data::Enum(e) => impl_focus_enum(&ast.ident, e),
        Data::Union => Err(FocusError::UnionUnsupported),
    }
}

/// The derive's entry point: the source text of the `iced_focus::Focus` implementation
/// for an `input` that the derive accepts (see [`focus_input_error`]).
/// When the path of a field does not lex, the result is [`FocusError::PathNotTokens`].
pub fn focus_derive(input: &DeriveInput) -> (r: Result<String, FocusError>)
    requires
        spec_input_error(*input) is None,
    ensures
        derived_from(*input, result_text(r)),
        !input_has_guarded_path(*input) ==> r is Ok,
{
    impl_focus(input)
}

/// The static reading of attributes never fails for a path that does not lex: that
/// failure comes only from reading the path as tokens.
proof fn lemma_extract_not_path_error(attrs: Seq<Attribute>)
    ensures
        spec_extract_focus_attribute(attrs) != Err::<Option<FocusAnnotation>, FocusError>(
            FocusError::PathNotTokens,
        ),
    decreases attrs.len(),
{
    if attrs.len() > 0 {
        lemma_extract_not_path_error(attrs.drop_first());
    }
}

/// Whether `field` is annotated with a path that, read as tokens, may fail.
pub open spec fn field_unlexed(field: Field) -> bool {
    match spec_extract_focus_attribute(field.attrs@) {
        Ok(Some(a)) => annotation_unlexed(a),
        _ => false,
    }
}

/// Whether some field among `fields` is annotated with a path that, read as tokens, may fail.
pub open spec fn fields_any_unlexed(fields: Seq<Field>) -> bool {
    exists|j: int| 0 <= j < fields.len() && field_unlexed(#[trigger] fields[j])
}

/// Whether some field of a struct or variant with `fields` is annotated with a path that,
/// read as tokens, may fail.
pub open spec fn kind_any_unlexed(fields: Fields) -> bool {
    match fields {
        Fields::Named(named) => fields_any_unlexed(named@),
        Fields::Unnamed(unnamed) => fields_any_unlexed(unnamed@),
        Fields::Unit => false,
    }
}

/// Whether some field of `input` is annotated with a path that, read as tokens, may fail.
pub open spec fn input_any_unlexed(input: DeriveInput) -> bool {
    match input.data {
        Data::Struct(fields) => kind_any_unlexed(fields),
        Data::Enum(variants) => exists|i: int|
            0 <= i < variants@.len() && kind_any_unlexed((#[trigger] variants@[i]).fields),
        Data::Union => false,
    }
}

/// Whether `r` is what checking, in field order, may report when the static check gives
/// `expected`: the same, unless a path that does not lex comes first.
pub open spec fn reported_in_order(
    r: Option<FocusError>,
    expected: Option<FocusError>,
    unlexed: bool,
) -> bool {
    &&& r is None ==> expected is None
    &&& (r matches Some(e) && e != FocusError::PathNotTokens) ==> expected == r
    &&& r == Some(FocusError::PathNotTokens) ==> unlexed
    &&& expected is Some ==> (r == expected || r == Some(FocusError::PathNotTokens))
}

/// The source of the path that guards `field`: the string of its `focus(enable = "PATH")`
/// annotation, when the derive accepts its attributes.
pub open spec fn field_path(field: Field) -> Option<Seq<char>> {
    match spec_extract_focus_attribute(field.attrs@) {
        Ok(Some(FocusAnnotation::EnableWith(source))) => Some(source),
        _ => None,
    }
}

/// Whether reading the path of `field` as tokens, if it has one, may give `outcome`.
pub open spec fn path_reads_as(field: Field, outcome: Option<Seq<char>>) -> bool {
    match field_path(field) {
        Some(source) => reads_as(source, outcome),
        None => true,
    }
}

/// The error that `field` raises when reading its path as tokens gives `outcome`: the
/// rejection of its attributes, or [`FocusError::PathNotTokens`] when its path did not lex.
pub open spec fn field_order_error(field: Field, outcome: Option<Seq<char>>) -> Option<FocusError> {
    match spec_extract_focus_attribute(field.attrs@) {
        Err(e) => Some(e),
        Ok(Some(FocusAnnotation::EnableWith(_))) => if outcome is None {
            Some(FocusError::PathNotTokens)
        } else {
            None
        },
        Ok(_) => None,
    }
}

/// The error of the first field among `fields` that raises one, when reading the path of
/// the field at position `j` gives `outcomes[j]`.
pub open spec fn fields_order_error(fields: Seq<Field>, outcomes: Seq<Option<Seq<char>>>) -> Option<
    FocusError,
>
    decreases fields.len(),
{
    if fields.len() == 0 {
        None
    } else {
        match fields_order_error(fields.drop_last(), outcomes) {
            Some(e) => Some(e),
            None => field_order_error(fields.last(), outcomes[fields.len() - 1]),
        }
    }
}

/// Whether reading the paths of `fields` in field order may give `outcomes`, one per field:
/// the path of each field that comes before the first error reads as its outcome.
pub open spec fn fields_outcomes_valid(fields: Seq<Field>, outcomes: Seq<Option<Seq<char>>>) -> bool {
    &&& outcomes.len() == fields.len()
    &&& forall|j: int|
        0 <= j < fields.len() && fields_order_error(fields.take(j), outcomes) is None
            ==> #[trigger] path_reads_as(fields[j], outcomes[j])
}

/// The first error among the fields of a struct or variant with `fields`, given the
/// outcomes of reading their paths, see [`fields_order_error`].
pub open spec fn kind_order_error(fields: Fields, outcomes: Seq<Option<Seq<char>>>) -> Option<
    FocusError,
> {
    match fields {
        Fields::Named(named) => fields_order_error(named@, outcomes),
        Fields::Unnamed(unnamed) => fields_order_error(unnamed@, outcomes),
        Fields::Unit => None,
    }
}

/// Whether reading the paths of the fields `fields` in order may give `outcomes`,
/// see [`fields_outcomes_valid`].
pub open spec fn kind_outcomes_valid(fields: Fields, outcomes: Seq<Option<Seq<char>>>) -> bool {
    match fields {
        Fields::Named(named) => fields_outcomes_valid(named@, outcomes),
        Fields::Unnamed(unnamed) => fields_outcomes_valid(unnamed@, outcomes),
        Fields::Unit => outcomes.len() == 0,
    }
}

/// The first error among the fields of the variants `vs`, in order, when reading the paths
/// of the variant at position `i` gives `outcomes[i]`.
pub open spec fn enum_order_error(vs: Seq<Variant>, outcomes: Seq<Seq<Option<Seq<char>>>>) -> Option<
    FocusError,
>
    decreases vs.len(),
{
    if vs.len() == 0 {
        None
    } else {
        match enum_order_error(vs.drop_last(), outcomes) {
            Some(e) => Some(e),
            None => kind_order_error(vs.last().fields, outcomes[vs.len() - 1]),
        }
    }
}

/// Whether reading the paths of the variants `vs` in order may give `outcomes`, one list
/// per variant: each variant that comes before the first error reads as its list.
pub open spec fn enum_outcomes_valid(vs: Seq<Variant>, outcomes: Seq<Seq<Option<Seq<char>>>>) -> bool {
    &&& outcomes.len() == vs.len()
    &&& forall|i: int|
        0 <= i < vs.len() && enum_order_error(vs.take(i), outcomes) is None
            ==> #[trigger] kind_outcomes_valid(vs[i].fields, outcomes[i])
}

/// The error that the derive reports first for `input` when reading the paths of its
/// fields, in order, gives `outcomes` (one list for a struct, one per variant of an enum).
pub open spec fn input_order_error(input: DeriveInput, outcomes: Seq<Seq<Option<Seq<char>>>>) -> Option<
    FocusError,
> {
    match input.data {
        Data::Struct(Fields::Unit) => Some(FocusError::UnitStructUnsupported),
        Data::Struct(fields) => kind_order_error(fields, outcomes[0]),
        Data::Enum(variants) => enum_order_error(variants@, outcomes),
        Data::Union => Some(FocusError::UnionUnsupported),
    }
}

/// Whether reading the paths of the fields of `input` in order may give `outcomes`.
pub open spec fn input_outcomes_valid(input: DeriveInput, outcomes: Seq<Seq<Option<Seq<char>>>>) -> bool {
    match input.data {
        Data::Struct(fields) => outcomes.len() == 1 && kind_outcomes_valid(fields, outcomes[0]),
        Data::Enum(variants) => enum_outcomes_valid(variants@, outcomes),
        Data::Union => outcomes.len() == 0,
    }
}

/// The first error among `fields` depends only on the outcomes of their own paths.
proof fn lemma_fields_order_outcomes(
    fields: Seq<Field>,
    a: Seq<Option<Seq<char>>>,
    b: Seq<Option<Seq<char>>>,
)
    requires
        forall|j: int| 0 <= j < fields.len() ==> a[j] == b[j],
    ensures
        fields_order_error(fields, a) == fields_order_error(fields, b),
    decreases fields.len(),
{
    if fields.len() > 0 {
        lemma_fields_order_outcomes(fields.drop_last(), a, b);
    }
}

/// Once a prefix of the fields raises an error, that error is the first of all fields.
proof fn lemma_fields_order_persists(fields: Seq<Field>, outcomes: Seq<Option<Seq<char>>>, n: int)
    requires
        0 <= n <= fields.len(),
        fields_order_error(fields.take(n), outcomes) is Some,
    ensures
        fields_order_error(fields, outcomes) == fields_order_error(fields.take(n), outcomes),
    decreases fields.len() - n,
{
    if n == fields.len() {
        assert(fields.take(n) =~= fields);
    } else {
        assert(fields.drop_last().take(n) =~= fields.take(n));
        lemma_fields_order_persists(fields.drop_last(), outcomes, n);
    }
}

/// The first error among the variants depends only on the outcomes of their own paths.
proof fn lemma_enum_order_outcomes(
    vs: Seq<Variant>,
    a: Seq<Seq<Option<Seq<char>>>>,
    b: Seq<Seq<Option<Seq<char>>>>,
)
    requires
        forall|i: int| 0 <= i < vs.len() ==> a[i] == b[i],
    ensures
        enum_order_error(vs, a) == enum_order_error(vs, b),
    decreases vs.len(),
{
    if vs.len() > 0 {
        lemma_enum_order_outcomes(vs.drop_last(), a, b);
    }
}

/// Once a prefix of the variants raises an error, that error is the first of all variants.
proof fn lemma_enum_order_persists(vs: Seq<Variant>, outcomes: Seq<Seq<Option<Seq<char>>>>, n: int)
    requires
        0 <= n <= vs.len(),
        enum_order_error(vs.take(n), outcomes) is Some,
    ensures
        enum_order_error(vs, outcomes) == enum_order_error(vs.take(n), outcomes),
    decreases vs.len() - n,
{
    if n == vs.len() {
        assert(vs.take(n) =~= vs);
    } else {
        assert(vs.drop_last().take(n) =~= vs.take(n));
        lemma_enum_order_persists(vs.drop_last(), outcomes, n);
    }
}

fn field_error_in_order(field: &Field) -> (res: (Option<FocusError>, Ghost<Option<Seq<char>>>))
    ensures
        reported_in_order(
            res.0,
            error_of(spec_extract_focus_attribute(field.attrs@)),
            field_unlexed(*field),
        ),
        path_reads_as(*field, res.1@),
        res.0 == field_order_error(*field, res.1@),
{
    proof {
        lemma_extract_not_path_error(field.attrs@);
    }
    match focus_attribute_error(&field.attrs) {
        Some(e) => (Some(e), Ghost(None)),
        None => {
            match FocusAttribute::extract_focus_attribute(&field.attrs) {
                Err(e) => (Some(e), Ghost(None)),
                Ok(attribute) => {
                    let ghost outcome: Option<Seq<char>> = match attribute {
                        Some(a) => match a@ {
                            SpecFocusAttribute::EnableWith(text) => Some(text),
                            SpecFocusAttribute::Enable => None,
                        },
                        None => None,
                    };
                    (None, Ghost(outcome))
                },
            }
        },
    }
}

fn fields_error_in_order(fields: &Vec<Field>) -> (res: (
    Option<FocusError>,
    Ghost<Seq<Option<Seq<char>>>>,
))
    ensures
        reported_in_order(
            res.0,
            error_of(spec_collect_fields(fields@)),
            fields_any_unlexed(fields@),
        ),
        fields_outcomes_valid(fields@, res.1@),
        res.0 == fields_order_error(fields@, res.1@),
{
    let ghost mut outcomes: Seq<Option<Seq<char>>> = Seq::empty();
    let mut i: usize = 0;
    assert(fields@.take(0) =~= Seq::<Field>::empty());
    while i < fields.len()
        invariant
            0 <= i <= fields@.len(),
            spec_collect_fields(fields@.take(i as int)) is Ok,
            outcomes.len() == i,
            fields_order_error(fields@.take(i as int), outcomes) is None,
            forall|j: int| 0 <= j < i ==> #[trigger] path_reads_as(fields@[j], outcomes[j]),
        decreases fields@.len() - i,
    {
        let ghost prefix = fields@.take(i + 1);
        assert(prefix.drop_last() =~= fields@.take(i as int));
        assert(prefix.last() == fields@[i as int]);
        let (found, Ghost(outcome)) = field_error_in_order(&fields[i]);
        let ghost next = outcomes.push(outcome);
        proof {
            lemma_fields_order_outcomes(fields@.take(i as int), outcomes, next);
        }
        match found {
            Some(e) => {
                let ghost all = next + Seq::new(
                    (fields@.len() - i - 1) as nat,
                    |k: int| None::<Seq<char>>,
                );
                proof {
                    if spec_collect_fields(prefix) is Err {
                        lemma_collect_error_persists(fields@, i + 1);
                    }
                    if e == FocusError::PathNotTokens {
                        assert(field_unlexed(fields@[i as int]));
                    }
                    lemma_fields_order_outcomes(prefix, next, all);
                    assert(fields_order_error(prefix, all) == Some(e));
                    lemma_fields_order_persists(fields@, all, i + 1);
                    assert forall|j: int|
                        0 <= j < fields@.len() && fields_order_error(fields@.take(j), all)
                            is None implies #[trigger] path_reads_as(fields@[j], all[j]) by {
                        if j > i {
                            assert(fields@.take(j).take(i + 1) =~= prefix);
                            lemma_fields_order_persists(fields@.take(j), all, i + 1);
                        } else {
                            assert(all[j] == next[j]);
                        }
                    }
                }
                return (Some(e), Ghost(all));
            },
            None => {},
        }
        proof {
            outcomes = next;
        }
        i += 1;
    }
    assert(fields@.take(i as int) =~= fields@);
    (None, Ghost(outcomes))
}

fn kind_error_in_order(fields: &Fields) -> (res: (Option<FocusError>, Ghost<Seq<Option<Seq<char>>>>))
    ensures
        reported_in_order(
            res.0,
            error_of(spec_variant_focus_fields(*fields)),
            kind_any_unlexed(*fields),
        ),
        kind_outcomes_valid(*fields, res.1@),
        res.0 == kind_order_error(*fields, res.1@),
{
    match fields {
        Fields::Named(named) => fields_error_in_order(named),
        Fields::Unnamed(unnamed) => fields_error_in_order(unnamed),
        Fields::Unit => (None, Ghost(Seq::empty())),
    }
}

/// Tells why the derive rejects `input`, if it does, reading the paths of the fields as
/// tokens in field order as it goes: the first field that is rejected, or whose path does
/// not lex, decides. This is the error that the derive reports first.
///
/// The result is the first error in field order given what reading each path reached
/// gave; apart from a path that does not lex, it is that of [`focus_input_error`]. In
/// particular, when no result is reported the derive accepts `input`.
pub fn first_focus_error(input: &DeriveInput) -> (r: Option<FocusError>)
    ensures
        exists|outcomes: Seq<Seq<Option<Seq<char>>>>|
            #[trigger] input_outcomes_valid(*input, outcomes) && r == input_order_error(
                *input,
                outcomes,
            ),
        reported_in_order(r, spec_input_error(*input), input_any_unlexed(*input)),
{
    match &input.data {
        Data::Struct(Fields::Unit) => {
            assert(input_outcomes_valid(*input, seq![Seq::<Option<Seq<char>>>::empty()]));
            Some(FocusError::UnitStructUnsupported)
        },
        Data::Struct(fields) => {
            let (found, Ghost(outcomes)) = kind_error_in_order(fields);
            assert(input_outcomes_valid(*input, seq![outcomes]));
            found
        },
        Data::Enum(variants) => {
            let ghost mut outcomes: Seq<Seq<Option<Seq<char>>>> = Seq::empty();
            let mut i: usize = 0;
            assert(variants@.take(0) =~= Seq::<Variant>::empty());
            while i < variants.len()
                invariant
                    0 <= i <= variants@.len(),
                    input.data == Data::Enum(*variants),
                    spec_input_error(*input) == spec_enum_error(variants@),
                    input_any_unlexed(*input) == (exists|k: int|
                        0 <= k < variants@.len() && kind_any_unlexed(
                            (#[trigger] variants@[k]).fields,
                        )),
                    spec_enum_error(variants@.take(i as int)) is None,
                    outcomes.len() == i,
                    enum_order_error(variants@.take(i as int), outcomes) is None,
                    forall|k: int|
                        0 <= k < i ==> #[trigger] kind_outcomes_valid(
                            variants@[k].fields,
                            outcomes[k],
                        ),
                decreases variants@.len() - i,
            {
                let ghost prefix = variants@.take(i + 1);
                assert(prefix.drop_last() =~= variants@.take(i as int));
                assert(prefix.last() == variants@[i as int]);
                let (found, Ghost(variant_outcomes)) = kind_error_in_order(&variants[i].fields);
                let ghost next = outcomes.push(variant_outcomes);
                proof {
                    lemma_enum_order_outcomes(variants@.take(i as int), outcomes, next);
                }
                match found {
                    Some(e) => {
                        let ghost all = next + Seq::new(
                            (variants@.len() - i - 1) as nat,
                            |k: int| Seq::<Option<Seq<char>>>::empty(),
                        );
                        proof {
                            if spec_enum_error(prefix) is Some {
                                lemma_enum_error_persists(variants@, i + 1);
                            }
                            if e == FocusError::PathNotTokens {
                                assert(kind_any_unlexed(variants@[i as int].fields));
                            }
                            lemma_enum_order_outcomes(prefix, next, all);
                            assert(enum_order_error(prefix, all) == Some(e));
                            lemma_enum_order_persists(variants@, all, i + 1);
                            assert forall|k: int|
                                0 <= k < variants@.len() && enum_order_error(
                                    variants@.take(k),
                                    all,
                                ) is None implies #[trigger] kind_outcomes_valid(
                                variants@[k].fields,
                                all[k],
                            ) by {
                                if k > i {
                                    assert(variants@.take(k).take(i + 1) =~= prefix);
                                    lemma_enum_order_persists(variants@.take(k), all, i + 1);
                                } else {
                                    assert(all[k] == next[k]);
                                }
                            }
                            assert(input_outcomes_valid(*input, all));
                        }
                        return Some(e);
                    },
                    None => {},
                }
                proof {
                    outcomes = next;
                }
                i += 1;
            }
            assert(variants@.take(i as int) =~= variants@);
            assert(input_outcomes_valid(*input, outcomes));
            None
        },
        Data::Union => {
            assert(input_outcomes_valid(*input, Seq::empty()));
            Some(FocusError::UnionUnsupported)
        },
    }
}

} // verus!
