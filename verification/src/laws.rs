//! Properties of the derive that hold for every input.

use vstd::prelude::*;
use crate::attribute::{
    annotation_unlexed, attribute_lexed_from, extraction_lexed_from, guard_name, spec_boolean_expression, spec_extract_focus_attribute, FocusAnnotation,
    FocusError, SpecFocusAttribute,
};
use crate::decimal::{decimal_text, is_digit, lemma_decimal_text_denotes, lemma_decimal_text_injective};
use crate::field::{
    field_lexed_from, fields_lexed_from, has_guarded_path, has_unlexed_path, push_statement,
    spec_collect_fields,
    spec_enum_push, spec_field_ident, spec_from_field_if_annotated, spec_struct_push,
    AnnotatedField, SpecFocusField,
};
use crate::codegen::{
    derived_from, generated_from, input_has_guarded_path, input_has_unlexed_path, spec_enum_error, spec_focus_trait_for_struct,
    spec_impl_focus_enum, spec_input_error, spec_struct_fields, spec_variant_focus_fields,
    variants_lexed_from,
};
use crate::model::{path_mentions_focus, Attribute, Data, DeriveInput, Field, Fields, Variant};
use crate::tokens::reads_as;

verus! {

/// The attributes of a field are read as a stream: the first attribute whose path mentions
/// `focus` decides, and the attributes after it are never read.
pub proof fn lemma_extract_reads_in_order(a: Seq<Attribute>, b: Seq<Attribute>)
    ensures
        spec_extract_focus_attribute(a + b) == (match spec_extract_focus_attribute(a) {
            Ok(None) => spec_extract_focus_attribute(b),
            decided => decided,
        }),
    decreases a.len(),
{
    if a.len() == 0 {
        assert(a + b =~= b);
    } else {
        assert((a + b)[0] == a[0]);
        assert((a + b).drop_first() =~= a.drop_first() + b);
        lemma_extract_reads_in_order(a.drop_first(), b);
    }
}

/// A field has no focus annotation, and is accepted, exactly when no path of its
/// attributes mentions `focus`; attributes of any other form are skipped.
pub proof fn lemma_extract_none_iff(attrs: Seq<Attribute>)
    ensures
        spec_extract_focus_attribute(attrs) == Ok::<Option<FocusAnnotation>, FocusError>(None)
            <==> forall|i: int|
            0 <= i < attrs.len() ==> !path_mentions_focus((#[trigger] attrs[i]).path@),
    decreases attrs.len(),
{
    if attrs.len() > 0 {
        lemma_extract_none_iff(attrs.drop_first());
        if spec_extract_focus_attribute(attrs) == Ok::<Option<FocusAnnotation>, FocusError>(None) {
            assert forall|i: int| 0 <= i < attrs.len() implies !path_mentions_focus(
                (#[trigger] attrs[i]).path@,
            ) by {
                if i > 0 {
                    assert(attrs[i] == attrs.drop_first()[i - 1]);
                }
            }
        } else {
            if forall|i: int| 0 <= i < attrs.len() ==> !path_mentions_focus((#[trigger] attrs[i]).path@) {
                assert(!path_mentions_focus(attrs[0].path@));
                assert forall|i: int| 0 <= i < attrs.drop_first().len() implies !path_mentions_focus(
                    (#[trigger] attrs.drop_first()[i]).path@,
                ) by {
                    assert(attrs.drop_first()[i] == attrs[i + 1]);
                }
            }
        }
    }
}

proof fn lemma_underscore_not_in_decimal(n: nat, i: int)
    requires
        0 <= i < decimal_text(n).len(),
    ensures
        decimal_text(n)[i] != '_',
{
    lemma_decimal_text_denotes(n);
    assert(is_digit(decimal_text(n)[i]));
}

/// Distinct fields get distinct guard names: `b_F` in a struct and `b_V_F` in an enum
/// never name two fields alike, so no guard shadows another.
pub proof fn lemma_guard_names_distinct(
    f1: usize,
    v1: Option<usize>,
    f2: usize,
    v2: Option<usize>,
)
    requires
        f1 != f2 || v1 != v2,
    ensures
        guard_name(f1, v1) != guard_name(f2, v2),
{
    reveal_strlit("b_");
    reveal_strlit("_");
    let n1 = guard_name(f1, v1);
    let n2 = guard_name(f2, v2);
    lemma_decimal_text_denotes(f1 as nat);
    lemma_decimal_text_denotes(f2 as nat);
    if n1 == n2 {
        let a1 = n1.skip(2);
        let a2 = n2.skip(2);
        match (v1, v2) {
            (None, None) => {
                assert(a1 =~= decimal_text(f1 as nat));
                assert(a2 =~= decimal_text(f2 as nat));
                lemma_decimal_text_injective(f1 as nat, f2 as nat);
            },
            (Some(x1), Some(x2)) => {
                let d1 = decimal_text(x1 as nat);
                let d2 = decimal_text(x2 as nat);
                assert(a1 =~= d1 + "_"@ + decimal_text(f1 as nat));
                assert(a2 =~= d2 + "_"@ + decimal_text(f2 as nat));
                if d1.len() < d2.len() {
                    assert(a1[d1.len() as int] == '_');
                    lemma_underscore_not_in_decimal(x2 as nat, d1.len() as int);
                    assert(a2[d1.len() as int] == d2[d1.len() as int]);
                } else if d2.len() < d1.len() {
                    assert(a2[d2.len() as int] == '_');
                    lemma_underscore_not_in_decimal(x1 as nat, d2.len() as int);
                    assert(a1[d2.len() as int] == d1[d2.len() as int]);
                } else {
                    assert(a1.take(d1.len() as int) =~= d1);
                    assert(a2.take(d2.len() as int) =~= d2);
                    lemma_decimal_text_injective(x1 as nat, x2 as nat);
                    assert(a1.skip(d1.len() as int + 1) =~= decimal_text(f1 as nat));
                    assert(a2.skip(d2.len() as int + 1) =~= decimal_text(f2 as nat));
                    lemma_decimal_text_injective(f1 as nat, f2 as nat);
                }
            },
            (None, Some(x2)) => {
                let d2 = decimal_text(x2 as nat);
                assert(a1 =~= decimal_text(f1 as nat));
                assert(a2 =~= d2 + "_"@ + decimal_text(f2 as nat));
                assert(a2[d2.len() as int] == '_');
                lemma_underscore_not_in_decimal(f1 as nat, d2.len() as int);
            },
            (Some(x1), None) => {
                let d1 = decimal_text(x1 as nat);
                assert(a2 =~= decimal_text(f2 as nat));
                assert(a1 =~= d1 + "_"@ + decimal_text(f1 as nat));
                assert(a1[d1.len() as int] == '_');
                lemma_underscore_not_in_decimal(f2 as nat, d1.len() as int);
            },
        }
    }
}

/// Whether the attributes of the field at position `j` are rejected.
pub open spec fn field_rejected(fields: Seq<Field>, j: int) -> bool {
    spec_extract_focus_attribute(fields[j].attrs@) is Err
}

/// The fields are rejected exactly when the attributes of one of them are,
/// and then with the error of the first such field.
pub proof fn lemma_collect_rejects_iff(fields: Seq<Field>)
    ensures
        spec_collect_fields(fields) is Err <==> exists|j: int|
            0 <= j < fields.len() && #[trigger] field_rejected(fields, j),
        forall|j: int|
            0 <= j < fields.len() && #[trigger] field_rejected(fields, j) && (forall|k: int|
                0 <= k < j ==> !field_rejected(fields, k)) ==> spec_collect_fields(fields)
                == Err::<Seq<AnnotatedField>, FocusError>(
                spec_extract_focus_attribute(fields[j].attrs@)->Err_0,
            ),
    decreases fields.len(),
{
    if fields.len() > 0 {
        let init = fields.drop_last();
        let last = (fields.len() - 1) as int;
        lemma_collect_rejects_iff(init);
        assert forall|j: int| 0 <= j < init.len() implies field_rejected(init, j) == field_rejected(
            fields,
            j,
        ) by {
            assert(init[j] == fields[j]);
        }
        assert(fields.last() == fields[last]);
        if spec_collect_fields(init) is Err {
            let j = choose|j: int| 0 <= j < init.len() && #[trigger] field_rejected(init, j);
            assert(field_rejected(fields, j));
        } else if field_rejected(fields, last) {
        } else {
            assert forall|j: int| 0 <= j < fields.len() implies !#[trigger] field_rejected(
                fields,
                j,
            ) by {
                if j < last {
                    assert(!field_rejected(init, j));
                }
            }
        }
        assert forall|j: int|
            0 <= j < fields.len() && #[trigger] field_rejected(fields, j) && (forall|k: int|
                0 <= k < j ==> !field_rejected(fields, k)) implies spec_collect_fields(fields)
            == Err::<Seq<AnnotatedField>, FocusError>(
            spec_extract_focus_attribute(fields[j].attrs@)->Err_0,
        ) by {
            if j < last {
                assert(field_rejected(init, j));
                assert forall|k: int| 0 <= k < j implies !field_rejected(init, k) by {
                    assert(!field_rejected(fields, k));
                }
            } else {
                assert forall|k: int| 0 <= k < init.len() implies !#[trigger] field_rejected(
                    init,
                    k,
                ) by {
                    assert(!field_rejected(fields, k));
                }
            }
        }
    }
}

/// Whether the field at position `j` is annotated for the focus chain.
pub open spec fn field_annotated(fields: Seq<Field>, j: int) -> bool {
    spec_extract_focus_attribute(fields[j].attrs@) matches Ok(Some(_))
}

/// The focus chain of accepted fields holds each annotated field exactly once, in the
/// order of declaration, and no other field.
pub proof fn lemma_collect_is_annotated_fields(fields: Seq<Field>, chain: Seq<AnnotatedField>)
    requires
        fields.len() <= usize::MAX,
        spec_collect_fields(fields) == Ok::<Seq<AnnotatedField>, FocusError>(chain),
    ensures
        forall|k: int|
            0 <= k < chain.len() ==> 0 <= #[trigger] chain[k].index < fields.len()
                && spec_from_field_if_annotated(fields[chain[k].index as int], chain[k].index)
                == Ok::<Option<AnnotatedField>, FocusError>(Some(chain[k])),
        forall|k1: int, k2: int|
            0 <= k1 < k2 < chain.len() ==> #[trigger] chain[k1].index < #[trigger] chain[k2].index,
        forall|j: int|
            0 <= j < fields.len() && #[trigger] field_annotated(fields, j) ==> exists|k: int|
                0 <= k < chain.len() && #[trigger] chain[k].index == j,
    decreases fields.len(),
{
    if fields.len() > 0 {
        let init = fields.drop_last();
        let last = (fields.len() - 1) as int;
        assert(fields.last() == fields[last]);
        let prev = spec_collect_fields(init)->Ok_0;
        lemma_collect_is_annotated_fields(init, prev);
        assert forall|j: int| 0 <= j < init.len() implies init[j] == fields[j] by {}
        let entry = spec_from_field_if_annotated(fields.last(), last as usize);
        assert(last as usize == last);
        if let Ok(Some(f)) = entry {
            assert(chain == prev.push(f));
            assert(f.index == last);
        } else {
            assert(chain == prev);
        }
        assert forall|k: int| 0 <= k < chain.len() implies 0 <= #[trigger] chain[k].index
            < fields.len() && spec_from_field_if_annotated(
            fields[chain[k].index as int],
            chain[k].index,
        ) == Ok::<Option<AnnotatedField>, FocusError>(Some(chain[k])) by {
            if k < prev.len() {
                assert(chain[k] == prev[k]);
                assert(init[prev[k].index as int] == fields[prev[k].index as int]);
            }
        }
        assert forall|k1: int, k2: int| 0 <= k1 < k2 < chain.len() implies #[trigger] chain[k1].index
            < #[trigger] chain[k2].index by {
            assert(chain[k1] == prev[k1]);
            if k2 < prev.len() {
                assert(chain[k2] == prev[k2]);
            }
        }
        assert forall|j: int| 0 <= j < fields.len() && #[trigger] field_annotated(fields, j) implies exists|k: int|
            0 <= k < chain.len() && #[trigger] chain[k].index == j by {
            if j < last {
                assert(init[j] == fields[j]);
                assert(field_annotated(init, j));
                let k = choose|k: int| 0 <= k < prev.len() && #[trigger] prev[k].index == j;
                assert(chain[k] == prev[k]);
            } else {
                assert(chain[prev.len() as int].index == j);
            }
        }
    }
}

/// Whether the attributes of some field among `fields` are rejected.
pub open spec fn fields_rejected(fields: Seq<Field>) -> bool {
    exists|j: int| 0 <= j < fields.len() && #[trigger] field_rejected(fields, j)
}

/// Whether the attributes of some field of the variant `v` are rejected.
pub open spec fn variant_rejected(v: Variant) -> bool {
    match v.fields {
        Fields::Named(named) => fields_rejected(named@),
        Fields::Unnamed(unnamed) => fields_rejected(unnamed@),
        Fields::Unit => false,
    }
}

/// Whether the derive rejects `input`: a union, a struct without fields, or an item
/// with a field whose attributes are rejected.
pub open spec fn input_rejected(input: DeriveInput) -> bool {
    match input.data {
        Data::Union => true,
        Data::Struct(Fields::Unit) => true,
        Data::Struct(Fields::Named(named)) => fields_rejected(named@),
        Data::Struct(Fields::Unnamed(unnamed)) => fields_rejected(unnamed@),
        Data::Enum(variants) => exists|i: int|
            0 <= i < variants@.len() && #[trigger] variant_rejected(variants@[i]),
    }
}

proof fn lemma_variant_rejected_iff(v: Variant)
    ensures
        spec_variant_focus_fields(v.fields) is Err <==> variant_rejected(v),
{
    match v.fields {
        Fields::Named(named) => lemma_collect_rejects_iff(named@),
        Fields::Unnamed(unnamed) => lemma_collect_rejects_iff(unnamed@),
        Fields::Unit => {},
    }
}

proof fn lemma_enum_error_iff(vs: Seq<Variant>)
    ensures
        spec_enum_error(vs) is Some <==> exists|i: int|
            0 <= i < vs.len() && #[trigger] variant_rejected(vs[i]),
    decreases vs.len(),
{
    if vs.len() > 0 {
        let init = vs.drop_last();
        let last = vs.len() - 1;
        lemma_enum_error_iff(init);
        lemma_variant_rejected_iff(vs.last());
        assert(vs.last() == vs[last]);
        if spec_enum_error(init) is Some {
            let i = choose|i: int| 0 <= i < init.len() && #[trigger] variant_rejected(init[i]);
            assert(init[i] == vs[i]);
        } else if variant_rejected(vs[last]) {
        } else {
            assert forall|i: int| 0 <= i < vs.len() implies !#[trigger] variant_rejected(vs[i]) by {
                if i < last {
                    assert(init[i] == vs[i]);
                }
            }
        }
    }
}

/// The derive rejects its input exactly when it is a union, a struct without fields,
/// or an item with a field whose attributes are rejected.
pub proof fn lemma_derive_rejects_iff(input: DeriveInput)
    ensures
        spec_input_error(input) is Some <==> input_rejected(input),
{
    match input.data {
        Data::Struct(Fields::Named(named)) => lemma_collect_rejects_iff(named@),
        Data::Struct(Fields::Unnamed(unnamed)) => lemma_collect_rejects_iff(unnamed@),
        Data::Enum(variants) => lemma_enum_error_iff(variants@),
        _ => {},
    }
}

/// A field annotated with `enable = "PATH"` gets a guard bound to `PATH()`, and its push
/// statement runs under exactly that guard; a field annotated with `enable` gets no guard
/// and is pushed unconditionally. This holds in structs and in each variant of an enum.
pub proof fn lemma_guard_bound_where_tested(
    f: SpecFocusField,
    variant_index: usize,
    vector_name: Seq<char>,
)
    ensures
        match f.attribute {
            SpecFocusAttribute::EnableWith(path) => {
                &&& spec_boolean_expression(f.attribute, f.index, None) == "let "@ + guard_name(
                    f.index,
                    None,
                ) + " = "@ + path + "(); "@
                &&& spec_struct_push(f, vector_name) == "if "@ + guard_name(f.index, None) + " { "@
                    + push_statement(vector_name, "&mut self."@ + spec_field_ident(f, true))
                    + "} "@
                &&& spec_boolean_expression(f.attribute, f.index, Some(variant_index)) == "let "@
                    + guard_name(f.index, Some(variant_index)) + " = "@ + path + "(); "@
                &&& spec_enum_push(f, variant_index, vector_name) == "if "@ + guard_name(
                    f.index,
                    Some(variant_index),
                ) + " { "@ + push_statement(vector_name, spec_field_ident(f, false)) + "} "@
            },
            SpecFocusAttribute::Enable => {
                &&& spec_boolean_expression(f.attribute, f.index, None) == Seq::<char>::empty()
                &&& spec_boolean_expression(f.attribute, f.index, Some(variant_index))
                    == Seq::<char>::empty()
                &&& spec_struct_push(f, vector_name) == push_statement(
                    vector_name,
                    "&mut self."@ + spec_field_ident(f, true),
                )
                &&& spec_enum_push(f, variant_index, vector_name) == push_statement(
                    vector_name,
                    spec_field_ident(f, false),
                )
            },
        },
{
}

/// Whether reading a source as tokens has at most one outcome.
pub open spec fn reading_single_valued() -> bool {
    forall|source: Seq<char>, o1: Option<Seq<char>>, o2: Option<Seq<char>>|
        #[trigger] reads_as(source, o1) && #[trigger] reads_as(source, o2) ==> o1 == o2
}

/// When reading a source as tokens has one outcome, reading one annotation gives one
/// attribute: the attribute of the focus field that
/// [`crate::field::FocusField::from_field_if_annotated`] builds for a field (see
/// [`field_lexed_from`]) is the one that
/// [`crate::attribute::FocusAttribute::extract_focus_attribute`] reads from its attributes.
pub proof fn lemma_attribute_determined(
    x1: SpecFocusAttribute,
    x2: SpecFocusAttribute,
    annotation: FocusAnnotation,
)
    requires
        reading_single_valued(),
        attribute_lexed_from(x1, annotation),
        attribute_lexed_from(x2, annotation),
    ensures
        x1 == x2,
{
    match (x1, x2, annotation) {
        (
            SpecFocusAttribute::EnableWith(t1),
            SpecFocusAttribute::EnableWith(t2),
            FocusAnnotation::EnableWith(source),
        ) => {
            assert(reads_as(source, Some(t1)) && reads_as(source, Some(t2)));
        },
        _ => {},
    }
}

/// When reading a source as tokens has one outcome, extracting the focus attribute of one
/// field twice gives the same result, the same attribute or the same error.
pub proof fn lemma_extraction_determined(
    r1: Result<Option<SpecFocusAttribute>, FocusError>,
    r2: Result<Option<SpecFocusAttribute>, FocusError>,
    annotation: Option<FocusAnnotation>,
)
    requires
        reading_single_valued(),
        extraction_lexed_from(r1, annotation),
        extraction_lexed_from(r2, annotation),
    ensures
        r1 == r2,
{
    match annotation {
        Some(FocusAnnotation::EnableWith(source)) => match (r1, r2) {
            (Ok(Some(x1)), Ok(Some(x2))) => {
                lemma_attribute_determined(x1, x2, FocusAnnotation::EnableWith(source));
            },
            (Ok(Some(x)), Err(_)) | (Err(_), Ok(Some(x))) => {
                assert(attribute_lexed_from(x, FocusAnnotation::EnableWith(source)));
                match x {
                    SpecFocusAttribute::EnableWith(t) => {
                        assert(reads_as(source, Some(t)) && reads_as(source, None));
                    },
                    SpecFocusAttribute::Enable => {},
                }
            },
            _ => {},
        },
        _ => {},
    }
}

/// Reading the annotated fields gives exactly one list of focus fields when none of them is
/// guarded by a path, or when reading a source as tokens has one outcome.
pub proof fn lemma_lexed_fields_determined(
    annotated: Seq<AnnotatedField>,
    fs1: Seq<SpecFocusField>,
    fs2: Seq<SpecFocusField>,
)
    requires
        !has_guarded_path(annotated) || reading_single_valued(),
        fields_lexed_from(fs1, annotated),
        fields_lexed_from(fs2, annotated),
    ensures
        fs1 == fs2,
{
    assert forall|k: int| 0 <= k < fs1.len() implies fs1[k] == fs2[k] by {
        assert(field_lexed_from(fs1[k], annotated[k]));
        assert(field_lexed_from(fs2[k], annotated[k]));
        if !reading_single_valued() {
            assert(!(annotated[k].annotation is EnableWith));
        } else {
            match (fs1[k].attribute, fs2[k].attribute, annotated[k].annotation) {
                (
                    SpecFocusAttribute::EnableWith(t1),
                    SpecFocusAttribute::EnableWith(t2),
                    FocusAnnotation::EnableWith(source),
                ) => {
                    assert(reads_as(source, Some(t1)) && reads_as(source, Some(t2)));
                },
                _ => {},
            }
        }
    }
    assert(fs1 =~= fs2);
}

/// Focus fields read from annotated fields leave no path unread: when reading a source has
/// one outcome, a path that reads as tokens never also fails to.
proof fn lemma_lexed_fields_leave_no_unlexed(
    annotated: Seq<AnnotatedField>,
    fs: Seq<SpecFocusField>,
)
    requires
        reading_single_valued(),
        fields_lexed_from(fs, annotated),
    ensures
        !has_unlexed_path(annotated),
{
    if has_unlexed_path(annotated) {
        let k = choose|k: int|
            0 <= k < annotated.len() && annotation_unlexed(
                (#[trigger] annotated[k]).annotation,
            );
        assert(field_lexed_from(fs[k], annotated[k]));
        match (fs[k].attribute, annotated[k].annotation) {
            (SpecFocusAttribute::EnableWith(t), FocusAnnotation::EnableWith(source)) => {
                assert(reads_as(source, Some(t)) && reads_as(source, None));
            },
            _ => {},
        }
    }
}

/// The number of fields of a struct or variant.
pub open spec fn field_count(fields: Fields) -> nat {
    match fields {
        Fields::Named(named) => named@.len(),
        Fields::Unnamed(unnamed) => unnamed@.len(),
        Fields::Unit => 0,
    }
}

/// Whether the focus field at position `k` of variant `i` is guarded by a path.
pub open spec fn guarded_at(lexed: Seq<Seq<SpecFocusField>>, i: int, k: int) -> bool {
    &&& 0 <= i < lexed.len()
    &&& 0 <= k < lexed[i].len()
    &&& lexed[i][k].attribute is EnableWith
}

/// In the generated enum implementation, each guarded field of each variant gets its own
/// guard: the statements before the `match` bind one guard per guarded field (see
/// [`crate::codegen::spec_enum_parts`] and [`lemma_guard_bound_where_tested`]), and no two
/// guarded fields, in the same or in different variants, share a guard name. So every guard
/// that an arm tests is bound exactly once.
pub proof fn lemma_enum_guards_bound_once(vs: Seq<Variant>, lexed: Seq<Seq<SpecFocusField>>)
    requires
        variants_lexed_from(vs, lexed),
        vs.len() <= usize::MAX,
        forall|i: int| 0 <= i < vs.len() ==> field_count((#[trigger] vs[i]).fields) <= usize::MAX,
    ensures
        forall|i1: int, k1: int, i2: int, k2: int|
            #[trigger] guarded_at(lexed, i1, k1) && #[trigger] guarded_at(lexed, i2, k2) && (i1
                != i2 || k1 != k2) ==> guard_name(lexed[i1][k1].index, Some(i1 as usize))
                != guard_name(lexed[i2][k2].index, Some(i2 as usize)),
{
    assert forall|i1: int, k1: int, i2: int, k2: int|
        #[trigger] guarded_at(lexed, i1, k1) && #[trigger] guarded_at(lexed, i2, k2) && (i1 != i2
            || k1 != k2) implies guard_name(lexed[i1][k1].index, Some(i1 as usize)) != guard_name(
        lexed[i2][k2].index,
        Some(i2 as usize),
    ) by {
        if i1 != i2 {
            assert(i1 as usize != i2 as usize);
        } else {
            let v = vs[i1];
            assert(spec_variant_focus_fields(v.fields) is Ok);
            let chain = spec_variant_focus_fields(v.fields)->Ok_0;
            assert(fields_lexed_from(lexed[i1], chain));
            match v.fields {
                Fields::Named(named) => lemma_collect_is_annotated_fields(named@, chain),
                Fields::Unnamed(unnamed) => lemma_collect_is_annotated_fields(unnamed@, chain),
                Fields::Unit => {},
            }
            assert(field_lexed_from(lexed[i1][k1], chain[k1]));
            assert(field_lexed_from(lexed[i1][k2], chain[k2]));
            if k1 < k2 {
                assert(chain[k1].index < chain[k2].index);
            } else {
                assert(chain[k2].index < chain[k1].index);
            }
        }
        lemma_guard_names_distinct(
            lexed[i1][k1].index,
            Some(i1 as usize),
            lexed[i2][k2].index,
            Some(i2 as usize),
        );
    }
}

/// Two texts generated for `input` agree when no field of it is guarded by a path, or when
/// reading a source as tokens has one outcome.
proof fn lemma_generated_unique(input: DeriveInput, t1: Seq<char>, t2: Seq<char>)
    requires
        !input_has_guarded_path(input) || reading_single_valued(),
        generated_from(input, t1),
        generated_from(input, t2),
    ensures
        t1 == t2,
{
    match input.data {
        Data::Struct(fields) => {
            let annotated = spec_struct_fields(fields)->Ok_0;
            let fs1 = choose|fs: Seq<SpecFocusField>|
                #[trigger] fields_lexed_from(fs, annotated) && t1 == spec_focus_trait_for_struct(
                    input.ident@,
                    fs,
                );
            let fs2 = choose|fs: Seq<SpecFocusField>|
                #[trigger] fields_lexed_from(fs, annotated) && t2 == spec_focus_trait_for_struct(
                    input.ident@,
                    fs,
                );
            lemma_lexed_fields_determined(annotated, fs1, fs2);
        },
        Data::Enum(variants) => {
            let vs = variants@;
            let l1 = choose|lexed: Seq<Seq<SpecFocusField>>|
                #[trigger] variants_lexed_from(vs, lexed) && t1 == spec_impl_focus_enum(
                    input.ident@,
                    vs,
                    lexed,
                );
            let l2 = choose|lexed: Seq<Seq<SpecFocusField>>|
                #[trigger] variants_lexed_from(vs, lexed) && t2 == spec_impl_focus_enum(
                    input.ident@,
                    vs,
                    lexed,
                );
            assert forall|i: int| 0 <= i < vs.len() implies l1[i] == l2[i] by {
                let annotated = spec_variant_focus_fields(vs[i].fields)->Ok_0;
                if !reading_single_valued() {
                    assert(!has_guarded_path(annotated));
                }
                lemma_lexed_fields_determined(annotated, l1[i], l2[i]);
            }
            assert(l1 =~= l2);
        },
        Data::Union => {},
    }
}

/// On an input where no field is guarded by a path, the derive's output is determined by
/// the input: any two texts it may generate agree, so the output is exactly the
/// implementation built from the annotated fields that collecting them gives.
pub proof fn lemma_derive_determined_without_paths(input: DeriveInput, t1: Seq<char>, t2: Seq<char>)
    requires
        !input_has_guarded_path(input),
        generated_from(input, t1),
        generated_from(input, t2),
    ensures
        t1 == t2,
{
    lemma_generated_unique(input, t1, t2);
}

/// When reading a source as tokens has one outcome, the result of the derive is determined
/// by its input: any two results that it may give for `input` (see
/// [`crate::codegen::derived_from`], the contract of [`crate::codegen::focus_derive`] and of
/// [`crate::codegen::impl_focus`]) are the same text, or the same error.
pub proof fn lemma_derive_determined(
    input: DeriveInput,
    r1: Result<Seq<char>, FocusError>,
    r2: Result<Seq<char>, FocusError>,
)
    requires
        reading_single_valued(),
        derived_from(input, r1),
        derived_from(input, r2),
    ensures
        r1 == r2,
{
    match (r1, r2) {
        (Ok(t1), Ok(t2)) => {
            lemma_generated_unique(input, t1, t2);
        },
        (Ok(t), Err(_)) => {
            lemma_generated_leaves_no_unlexed(input, t);
        },
        (Err(_), Ok(t)) => {
            lemma_generated_leaves_no_unlexed(input, t);
        },
        (Err(_), Err(_)) => {},
    }
}

/// When reading a source as tokens has one outcome, an input for which some text is
/// generated has no path that fails to lex.
proof fn lemma_generated_leaves_no_unlexed(input: DeriveInput, t: Seq<char>)
    requires
        reading_single_valued(),
        generated_from(input, t),
    ensures
        !input_has_unlexed_path(input),
{
    match input.data {
        Data::Struct(fields) => {
            let annotated = spec_struct_fields(fields)->Ok_0;
            let fs = choose|fs: Seq<SpecFocusField>|
                #[trigger] fields_lexed_from(fs, annotated) && t == spec_focus_trait_for_struct(
                    input.ident@,
                    fs,
                );
            lemma_lexed_fields_leave_no_unlexed(annotated, fs);
        },
        Data::Enum(variants) => {
            let vs = variants@;
            let lexed = choose|lexed: Seq<Seq<SpecFocusField>>|
                #[trigger] variants_lexed_from(vs, lexed) && t == spec_impl_focus_enum(
                    input.ident@,
                    vs,
                    lexed,
                );
            assert forall|i: int| 0 <= i < vs.len() implies !has_unlexed_path(
                spec_variant_focus_fields((#[trigger] vs[i]).fields)->Ok_0,
            ) by {
                lemma_lexed_fields_leave_no_unlexed(
                    spec_variant_focus_fields(vs[i].fields)->Ok_0,
                    lexed[i],
                );
            }
        },
        Data::Union => {},
    }
}

} // verus!
