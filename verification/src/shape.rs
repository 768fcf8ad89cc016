//! What the generated text holds, for every input: the bindings of a variant's pattern,
//! the guards bound before they are tested, a push for every annotated field, the guard in
//! front of each `has_focus` call of a guarded field, and an arm for every variant.

use vstd::prelude::*;
use crate::attribute::{guard_name, spec_boolean_expression, SpecFocusAttribute};
use crate::codegen::{
    booleans_text, enum_pushes_text, has_focus_disjuncts_text, named_bindings_text,
    spec_enum_parts, spec_focus_arm, spec_focus_method_body, spec_focus_trait_for_struct,
    spec_has_focus_arm, spec_has_focus_disjunct, spec_has_focus_method_body,
    spec_impl_focus_enum, spec_variant_focus_fields, spec_variant_pattern, struct_pushes_text,
    tuple_bindings_text,
};
use crate::decimal::decimal_text;
use crate::field::{
    field_lexed_from, fields_lexed_from, spec_enum_push, spec_field_ident, spec_struct_push,
    SpecFocusField,
};
use crate::model::{Fields, Variant};
use crate::laws::lemma_collect_is_annotated_fields;

verus! {

/// Whether `part` occurs in `text`.
pub open spec fn contains_text(text: Seq<char>, part: Seq<char>) -> bool {
    exists|at: int|
        0 <= at && at + part.len() <= text.len() && #[trigger] text.subrange(at, at + part.len())
            == part
}

/// A text holds what stands between its beginning and its end.
proof fn lemma_contains_middle(before: Seq<char>, part: Seq<char>, after: Seq<char>)
    ensures
        contains_text(before + part + after, part),
{
    let text = before + part + after;
    let at = before.len() as int;
    assert(text.subrange(at, at + part.len()) =~= part);
}

/// The concatenation of a list of texts holds each of them, between the ones before it and
/// the ones after it.
proof fn lemma_flatten_split(texts: Seq<Seq<char>>, k: int)
    requires
        0 <= k < texts.len(),
    ensures
        texts.flatten() == texts.take(k).flatten() + texts[k] + texts.skip(k + 1).flatten(),
        contains_text(texts.flatten(), texts[k]),
{
    assert(texts =~= texts.take(k) + (seq![texts[k]] + texts.skip(k + 1)));
    vstd::seq_lib::lemma_flatten_concat(texts.take(k), seq![texts[k]] + texts.skip(k + 1));
    vstd::seq_lib::lemma_flatten_concat(seq![texts[k]], texts.skip(k + 1));
    seq![texts[k]].lemma_flatten_one_element();
    assert(texts.flatten() =~= texts.take(k).flatten() + texts[k] + texts.skip(k + 1).flatten());
    lemma_contains_middle(texts.take(k).flatten(), texts[k], texts.skip(k + 1).flatten());
}

/// The bindings `NAME, ` of the annotated fields `fs` of a variant with named fields, one
/// after the other in declaration order.
pub open spec fn listed_bindings(fs: Seq<SpecFocusField>) -> Seq<char> {
    fs.map_values(|f: SpecFocusField| spec_field_ident(f, false) + ", "@).flatten()
}

/// The pattern of a variant with named fields binds every annotated field: its bindings are
/// `NAME, ` for each annotated field, in declaration order, and for each of them.
pub proof fn lemma_bindings_list_every_field(fs: Seq<SpecFocusField>)
    ensures
        named_bindings_text(fs) == listed_bindings(fs),
        forall|k: int|
            0 <= k < fs.len() ==> contains_text(
                named_bindings_text(fs),
                spec_field_ident(#[trigger] fs[k], false) + ", "@,
            ),
    decreases fs.len(),
{
    let g = |f: SpecFocusField| spec_field_ident(f, false) + ", "@;
    if fs.len() > 0 {
        lemma_bindings_list_every_field(fs.drop_last());
        assert(fs.map_values(g) =~= fs.drop_last().map_values(g).push(g(fs.last())));
        fs.drop_last().map_values(g).lemma_flatten_push(g(fs.last()));
    } else {
        assert(fs.map_values(g) =~= Seq::<Seq<char>>::empty());
    }
    assert(named_bindings_text(fs) == fs.map_values(g).flatten());
    assert forall|k: int| 0 <= k < fs.len() implies contains_text(
        named_bindings_text(fs),
        spec_field_ident(#[trigger] fs[k], false) + ", "@,
    ) by {
        lemma_flatten_split(fs.map_values(g), k);
        assert(fs.map_values(g)[k] == spec_field_ident(fs[k], false) + ", "@);
    }
}

/// Both match arms of a variant with named fields open with the same pattern, which binds
/// every annotated field: `Self::V { NAME, NAME, .. } => { `.
pub proof fn lemma_named_arms_bind_every_field(index: usize, v: Variant, fs: Seq<SpecFocusField>)
    requires
        v.fields is Named,
    ensures
        ("Self::"@ + v.ident@ + " { "@ + listed_bindings(fs) + ".. }"@ + " => { "@).is_prefix_of(
            spec_focus_arm(index, v, fs),
        ),
        ("Self::"@ + v.ident@ + " { "@ + listed_bindings(fs) + ".. }"@ + " => { "@).is_prefix_of(
            spec_has_focus_arm(v, fs),
        ),
{
    lemma_bindings_list_every_field(fs);
    let p = "Self::"@ + v.ident@ + " { "@ + listed_bindings(fs) + ".. }"@ + " => { "@;
    let pattern = spec_variant_pattern(v.fields, fs);
    assert(pattern == " { "@ + listed_bindings(fs) + ".. }"@);
    let head = "Self::"@ + v.ident@ + pattern + " => { "@;
    assert(head =~= p);
    let focus = spec_focus_arm(index, v, fs);
    let has_focus = spec_has_focus_arm(v, fs);
    assert(focus =~= head + (spec_focus_method_body(index, "fields"@, fs, false) + " } "@));
    assert(has_focus =~= head + (spec_has_focus_method_body(fs, false) + " } "@));
    assert(focus.subrange(0, p.len() as int) =~= p);
    assert(has_focus.subrange(0, p.len() as int) =~= p);
}

/// A text that holds `middle`, which holds `part`, holds `part`.
proof fn lemma_contains_trans(text: Seq<char>, middle: Seq<char>, part: Seq<char>)
    requires
        contains_text(text, middle),
        contains_text(middle, part),
    ensures
        contains_text(text, part),
{
    let x = choose|at: int|
        0 <= at && at + middle.len() <= text.len() && #[trigger] text.subrange(
            at,
            at + middle.len(),
        ) == middle;
    let y = choose|at: int|
        0 <= at && at + part.len() <= middle.len() && #[trigger] middle.subrange(
            at,
            at + part.len(),
        ) == part;
    assert(text.subrange(x + y, x + y + part.len()) =~= part);
}

/// The statement `let b_.. = PATH(); ` that binds the guard of the field with index
/// `field_index` (in the variant with index `variant_index`, for an enum), guarded by `path`.
pub open spec fn guard_binding(
    field_index: usize,
    variant_index: Option<usize>,
    path: Seq<char>,
) -> Seq<char> {
    "let "@ + guard_name(field_index, variant_index) + " = "@ + path + "(); "@
}

/// The statements that bind the guards of the focus fields `fs`: the statement of each
/// field, one after the other in order.
pub open spec fn listed_guards(fs: Seq<SpecFocusField>, variant_index: Option<usize>) -> Seq<char> {
    fs.map_values(
        |f: SpecFocusField| spec_boolean_expression(f.attribute, f.index, variant_index),
    ).flatten()
}

/// The guard statements of a list of focus fields are those of each field in order, and
/// they bind the guard of every field guarded by a path, with that path.
pub proof fn lemma_guards_bind_every_guarded_field(
    fs: Seq<SpecFocusField>,
    variant_index: Option<usize>,
)
    ensures
        booleans_text(fs, variant_index) == listed_guards(fs, variant_index),
        forall|k: int|
            0 <= k < fs.len() && (#[trigger] fs[k]).attribute is EnableWith ==> contains_text(
                booleans_text(fs, variant_index),
                guard_binding(fs[k].index, variant_index, fs[k].attribute->EnableWith_0),
            ),
    decreases fs.len(),
{
    let g = |f: SpecFocusField| spec_boolean_expression(f.attribute, f.index, variant_index);
    if fs.len() > 0 {
        lemma_guards_bind_every_guarded_field(fs.drop_last(), variant_index);
        assert(fs.map_values(g) =~= fs.drop_last().map_values(g).push(g(fs.last())));
        fs.drop_last().map_values(g).lemma_flatten_push(g(fs.last()));
    } else {
        assert(fs.map_values(g) =~= Seq::<Seq<char>>::empty());
    }
    assert(booleans_text(fs, variant_index) == fs.map_values(g).flatten());
    assert forall|k: int|
        0 <= k < fs.len() && (#[trigger] fs[k]).attribute is EnableWith implies contains_text(
        booleans_text(fs, variant_index),
        guard_binding(fs[k].index, variant_index, fs[k].attribute->EnableWith_0),
    ) by {
        lemma_flatten_split(fs.map_values(g), k);
        assert(fs.map_values(g)[k] == guard_binding(
            fs[k].index,
            variant_index,
            fs[k].attribute->EnableWith_0,
        ));
    }
}

/// The opening of the implementation for a struct named `ident` with `n` annotated fields:
/// the `impl` line and the two lines that make the focus chain.
pub open spec fn struct_opening(ident: Seq<char>, n: nat) -> Seq<char> {
    "impl iced_focus::Focus for "@ + ident
        + " { fn focus(&mut self, direction: iced_focus::Direction) -> iced_focus::State { "@
        + ("let mut "@ + "fields"@
        + ": std::vec::Vec<&mut dyn iced_focus::Focus> = std::vec::Vec::with_capacity("@
        + decimal_text(n) + "usize); "@ + "let mut "@ + "fields"@
        + ": std::vec::Vec<Box<&mut dyn iced_focus::Focus>> = std::vec::Vec::with_capacity("@
        + decimal_text(n) + "usize); "@)
}

/// In the implementation for a struct, the guards of all guarded fields are bound right
/// after the focus chain is made, before any field is pushed onto it.
pub proof fn lemma_struct_guards_bound_first(ident: Seq<char>, fs: Seq<SpecFocusField>)
    ensures
        (struct_opening(ident, fs.len()) + listed_guards(fs, None)).is_prefix_of(
            spec_focus_trait_for_struct(ident, fs),
        ),
{
    lemma_guards_bind_every_guarded_field(fs, None);
    let p = struct_opening(ident, fs.len()) + listed_guards(fs, None);
    let text = spec_focus_trait_for_struct(ident, fs);
    let body = spec_focus_method_body(0, "fields"@, fs, true);
    let rest = struct_pushes_text(fs, "fields"@) + "fields"@ + ".focus(direction)"@;
    let make = "let mut "@ + "fields"@
        + ": std::vec::Vec<&mut dyn iced_focus::Focus> = std::vec::Vec::with_capacity("@
        + decimal_text(fs.len()) + "usize); "@ + "let mut "@ + "fields"@
        + ": std::vec::Vec<Box<&mut dyn iced_focus::Focus>> = std::vec::Vec::with_capacity("@
        + decimal_text(fs.len()) + "usize); "@;
    assert(body =~= make + booleans_text(fs, None) + rest);
    assert(text =~= p + (rest
        + " } fn has_focus(&self) -> bool { "@ + spec_has_focus_method_body(fs, true) + " } }"@));
    assert(text.subrange(0, p.len() as int) =~= p);
}

/// What names a field in the `has_focus` body: `self.NAME` for a struct, the binding of the
/// variant's pattern otherwise.
pub open spec fn has_focus_target(f: SpecFocusField, with_self: bool) -> Seq<char> {
    (if with_self {
        "self."@
    } else {
        Seq::<char>::empty()
    }) + spec_field_ident(f, with_self)
}

/// The `has_focus` disjunct of a field asks the field whether it has the focus; for a field
/// guarded by `PATH` it begins with `PATH() && `, whatever the kind of the field, so a
/// field whose guard is false never counts.
pub proof fn lemma_disjunct_tests_guard(f: SpecFocusField, with_self: bool)
    ensures
        match f.attribute {
            SpecFocusAttribute::EnableWith(path) => spec_has_focus_disjunct(f, with_self) == path
                + "() && "@ + has_focus_target(f, with_self) + ".has_focus() || "@,
            SpecFocusAttribute::Enable => spec_has_focus_disjunct(f, with_self) == has_focus_target(
                f,
                with_self,
            ) + ".has_focus() || "@,
        },
{
    match f.attribute {
        SpecFocusAttribute::EnableWith(path) => {
            assert(spec_has_focus_disjunct(f, with_self) =~= path + "() && "@ + has_focus_target(
                f,
                with_self,
            ) + ".has_focus() || "@);
        },
        SpecFocusAttribute::Enable => {
            assert(spec_has_focus_disjunct(f, with_self) =~= has_focus_target(f, with_self)
                + ".has_focus() || "@);
        },
    }
}

/// The `has_focus` body is the disjunct of each annotated field in order, then `false`:
/// it asks every field, and asks a field guarded by `PATH` only under `PATH() && `.
pub proof fn lemma_has_focus_asks_every_field(fs: Seq<SpecFocusField>, with_self: bool)
    ensures
        spec_has_focus_method_body(fs, with_self) == fs.map_values(
            |f: SpecFocusField| spec_has_focus_disjunct(f, with_self),
        ).flatten() + "false"@,
        forall|k: int|
            0 <= k < fs.len() ==> contains_text(
                spec_has_focus_method_body(fs, with_self),
                match (#[trigger] fs[k]).attribute {
                    SpecFocusAttribute::EnableWith(path) => path + "() && "@ + has_focus_target(
                        fs[k],
                        with_self,
                    ) + ".has_focus() || "@,
                    SpecFocusAttribute::Enable => has_focus_target(fs[k], with_self)
                        + ".has_focus() || "@,
                },
            ),
{
    let g = |f: SpecFocusField| spec_has_focus_disjunct(f, with_self);
    lemma_disjuncts_listed(fs, with_self);
    assert forall|k: int| 0 <= k < fs.len() implies contains_text(
        spec_has_focus_method_body(fs, with_self),
        match (#[trigger] fs[k]).attribute {
            SpecFocusAttribute::EnableWith(path) => path + "() && "@ + has_focus_target(
                fs[k],
                with_self,
            ) + ".has_focus() || "@,
            SpecFocusAttribute::Enable => has_focus_target(fs[k], with_self)
                + ".has_focus() || "@,
        },
    ) by {
        lemma_flatten_split(fs.map_values(g), k);
        lemma_disjunct_tests_guard(fs[k], with_self);
        assert(fs.map_values(g)[k] == spec_has_focus_disjunct(fs[k], with_self));
        let body = spec_has_focus_method_body(fs, with_self);
        let flat = fs.map_values(g).flatten();
        let at = choose|at: int|
            0 <= at && at + fs.map_values(g)[k].len() <= flat.len() && #[trigger] flat.subrange(
                at,
                at + fs.map_values(g)[k].len(),
            ) == fs.map_values(g)[k];
        assert(body.subrange(at, at + fs.map_values(g)[k].len()) =~= flat.subrange(
            at,
            at + fs.map_values(g)[k].len(),
        ));
    }
}

/// The disjuncts of the fields `fs` are those of each field in order.
proof fn lemma_disjuncts_listed(fs: Seq<SpecFocusField>, with_self: bool)
    ensures
        has_focus_disjuncts_text(fs, with_self) == fs.map_values(
            |f: SpecFocusField| spec_has_focus_disjunct(f, with_self),
        ).flatten(),
    decreases fs.len(),
{
    let g = |f: SpecFocusField| spec_has_focus_disjunct(f, with_self);
    if fs.len() > 0 {
        lemma_disjuncts_listed(fs.drop_last(), with_self);
        assert(fs.map_values(g) =~= fs.drop_last().map_values(g).push(g(fs.last())));
        fs.drop_last().map_values(g).lemma_flatten_push(g(fs.last()));
    } else {
        assert(fs.map_values(g) =~= Seq::<Seq<char>>::empty());
    }
}

/// The guard statements of each variant, one list per variant, for the variants whose
/// focus fields are `lexed`.
pub open spec fn variant_guard_lists(lexed: Seq<Seq<SpecFocusField>>) -> Seq<Seq<char>> {
    Seq::new(lexed.len(), |i: int| listed_guards(lexed[i], Some(i as usize)))
}

/// The guard statements of all variants, one variant after the other in order.
pub open spec fn enum_guards(lexed: Seq<Seq<SpecFocusField>>) -> Seq<char> {
    variant_guard_lists(lexed).flatten()
}

/// The opening of the implementation for an enum named `ident`, up to the `focus` body.
pub open spec fn enum_opening(ident: Seq<char>) -> Seq<char> {
    "impl iced_focus::Focus for "@ + ident
        + " { fn focus(&mut self, direction: iced_focus::Direction) -> iced_focus::State { "@
}

/// The guards of an enum's implementation are those of every variant, in variant order.
proof fn lemma_enum_guards_listed(vs: Seq<Variant>, lexed: Seq<Seq<SpecFocusField>>)
    requires
        lexed.len() == vs.len(),
    ensures
        spec_enum_parts(vs, lexed).0 == enum_guards(lexed),
    decreases vs.len(),
{
    if vs.len() > 0 {
        let n = lexed.len() as int;
        lemma_enum_guards_listed(vs.drop_last(), lexed.drop_last());
        lemma_guards_bind_every_guarded_field(lexed.last(), Some((n - 1) as usize));
        assert(variant_guard_lists(lexed) =~= variant_guard_lists(lexed.drop_last()).push(
            listed_guards(lexed.last(), Some((n - 1) as usize)),
        ));
        variant_guard_lists(lexed.drop_last()).lemma_flatten_push(
            listed_guards(lexed.last(), Some((n - 1) as usize)),
        );
    } else {
        assert(variant_guard_lists(lexed) =~= Seq::<Seq<char>>::empty());
    }
}

/// In the implementation for an enum, the `focus` method first binds the guards of every
/// variant, in variant order, and only then matches `self`: every guard `b_V_F` that an
/// arm tests is bound, with its variant's path, before the match.
pub proof fn lemma_enum_guards_bound_before_match(
    ident: Seq<char>,
    vs: Seq<Variant>,
    lexed: Seq<Seq<SpecFocusField>>,
)
    requires
        lexed.len() == vs.len(),
    ensures
        (enum_opening(ident) + enum_guards(lexed) + "match self { "@).is_prefix_of(
            spec_impl_focus_enum(ident, vs, lexed),
        ),
        forall|i: int, k: int|
            0 <= i < lexed.len() && 0 <= k < lexed[i].len() && (#[trigger] lexed[i][k]).attribute
                is EnableWith ==> contains_text(
                enum_guards(lexed),
                guard_binding(
                    lexed[i][k].index,
                    Some(i as usize),
                    lexed[i][k].attribute->EnableWith_0,
                ),
            ),
{
    lemma_enum_guards_listed(vs, lexed);
    let (booleans, focus_arms, has_focus_arms) = spec_enum_parts(vs, lexed);
    let p = enum_opening(ident) + enum_guards(lexed) + "match self { "@;
    let text = spec_impl_focus_enum(ident, vs, lexed);
    assert(text =~= p + (focus_arms + "}"@ + " } fn has_focus(&self) -> bool { "@ + (
    "match self { "@ + has_focus_arms + "}"@) + " } }"@));
    assert(text.subrange(0, p.len() as int) =~= p);
    assert forall|i: int, k: int|
        0 <= i < lexed.len() && 0 <= k < lexed[i].len() && (#[trigger] lexed[i][k]).attribute
            is EnableWith implies contains_text(
        enum_guards(lexed),
        guard_binding(lexed[i][k].index, Some(i as usize), lexed[i][k].attribute->EnableWith_0),
    ) by {
        lemma_flatten_split(variant_guard_lists(lexed), i);
        lemma_guards_bind_every_guarded_field(lexed[i], Some(i as usize));
        lemma_contains_trans(
            enum_guards(lexed),
            listed_guards(lexed[i], Some(i as usize)),
            guard_binding(lexed[i][k].index, Some(i as usize), lexed[i][k].attribute->EnableWith_0),
        );
    }
}

/// The statement that pushes a field onto the focus chain `vector_name` is
/// `VEC.push(Box::new(FIELD)); `, with `&mut self.NAME` for a struct field and the
/// pattern's binding for a variant's field; for a field guarded by a path it stands under
/// that field's guard, `if b_.. { .. } `.
pub proof fn lemma_push_statement_forms(f: SpecFocusField, variant_index: usize, vector_name: Seq<char>)
    ensures
        spec_struct_push(f, vector_name) == match f.attribute {
            SpecFocusAttribute::Enable => vector_name + ".push(Box::new("@ + ("&mut self."@
                + spec_field_ident(f, true)) + ")); "@,
            SpecFocusAttribute::EnableWith(_) => "if "@ + guard_name(f.index, None) + " { "@ + (
            vector_name + ".push(Box::new("@ + ("&mut self."@ + spec_field_ident(f, true))
                + ")); "@) + "} "@,
        },
        spec_enum_push(f, variant_index, vector_name) == match f.attribute {
            SpecFocusAttribute::Enable => vector_name + ".push(Box::new("@ + spec_field_ident(
                f,
                false,
            ) + ")); "@,
            SpecFocusAttribute::EnableWith(_) => "if "@ + guard_name(f.index, Some(variant_index))
                + " { "@ + (vector_name + ".push(Box::new("@ + spec_field_ident(f, false)
                + ")); "@) + "} "@,
        },
{
}

/// The push statements of a list of focus fields are those of each field, in order: every
/// annotated field is pushed onto the focus chain, in declaration order.
pub proof fn lemma_pushes_add_every_field(
    fs: Seq<SpecFocusField>,
    variant_index: usize,
    vector_name: Seq<char>,
)
    ensures
        struct_pushes_text(fs, vector_name) == fs.map_values(
            |f: SpecFocusField| spec_struct_push(f, vector_name),
        ).flatten(),
        enum_pushes_text(fs, variant_index, vector_name) == fs.map_values(
            |f: SpecFocusField| spec_enum_push(f, variant_index, vector_name),
        ).flatten(),
    decreases fs.len(),
{
    let g = |f: SpecFocusField| spec_struct_push(f, vector_name);
    let h = |f: SpecFocusField| spec_enum_push(f, variant_index, vector_name);
    if fs.len() > 0 {
        lemma_pushes_add_every_field(fs.drop_last(), variant_index, vector_name);
        assert(fs.map_values(g) =~= fs.drop_last().map_values(g).push(g(fs.last())));
        fs.drop_last().map_values(g).lemma_flatten_push(g(fs.last()));
        assert(fs.map_values(h) =~= fs.drop_last().map_values(h).push(h(fs.last())));
        fs.drop_last().map_values(h).lemma_flatten_push(h(fs.last()));
    } else {
        assert(fs.map_values(g) =~= Seq::<Seq<char>>::empty());
        assert(fs.map_values(h) =~= Seq::<Seq<char>>::empty());
    }
}

/// The bindings `t_0, t_1, .. t_{n-1}, ` of a variant with `n` tuple fields.
pub open spec fn tuple_binding_list(n: nat) -> Seq<Seq<char>> {
    Seq::new(n, |i: int| "t_"@ + decimal_text(i as nat) + ", "@)
}

/// The pattern of a variant with tuple fields binds every field by its position:
/// `t_0, t_1, .., t_{n-1}, `, in order.
pub proof fn lemma_tuple_pattern_binds_every_field(n: nat)
    ensures
        tuple_bindings_text(n) == tuple_binding_list(n).flatten(),
    decreases n,
{
    if n > 0 {
        lemma_tuple_pattern_binds_every_field((n - 1) as nat);
        assert(tuple_binding_list(n) =~= tuple_binding_list((n - 1) as nat).push(
            "t_"@ + decimal_text((n - 1) as nat) + ", "@,
        ));
        tuple_binding_list((n - 1) as nat).lemma_flatten_push(
            "t_"@ + decimal_text((n - 1) as nat) + ", "@,
        );
    } else {
        assert(tuple_binding_list(n) =~= Seq::<Seq<char>>::empty());
    }
}

/// The arms of the `focus` method of an enum: the arm of each variant, in variant order.
pub open spec fn focus_arm_list(vs: Seq<Variant>, lexed: Seq<Seq<SpecFocusField>>) -> Seq<Seq<char>> {
    Seq::new(vs.len(), |i: int| spec_focus_arm(i as usize, vs[i], lexed[i]))
}

/// The arms of the `has_focus` method of an enum: the arm of each variant, in variant order.
pub open spec fn has_focus_arm_list(vs: Seq<Variant>, lexed: Seq<Seq<SpecFocusField>>) -> Seq<
    Seq<char>,
> {
    Seq::new(vs.len(), |i: int| spec_has_focus_arm(vs[i], lexed[i]))
}

proof fn lemma_enum_arms_listed(vs: Seq<Variant>, lexed: Seq<Seq<SpecFocusField>>)
    requires
        lexed.len() == vs.len(),
    ensures
        spec_enum_parts(vs, lexed).1 == focus_arm_list(vs, lexed).flatten(),
        spec_enum_parts(vs, lexed).2 == has_focus_arm_list(vs, lexed).flatten(),
    decreases vs.len(),
{
    if vs.len() > 0 {
        let n = vs.len() as int;
        lemma_enum_arms_listed(vs.drop_last(), lexed.drop_last());
        let fa = spec_focus_arm((n - 1) as usize, vs.last(), lexed.last());
        let ha = spec_has_focus_arm(vs.last(), lexed.last());
        assert(focus_arm_list(vs, lexed) =~= focus_arm_list(vs.drop_last(), lexed.drop_last()).push(
            fa,
        ));
        assert(has_focus_arm_list(vs, lexed) =~= has_focus_arm_list(
            vs.drop_last(),
            lexed.drop_last(),
        ).push(ha));
        focus_arm_list(vs.drop_last(), lexed.drop_last()).lemma_flatten_push(fa);
        has_focus_arm_list(vs.drop_last(), lexed.drop_last()).lemma_flatten_push(ha);
    } else {
        assert(focus_arm_list(vs, lexed) =~= Seq::<Seq<char>>::empty());
        assert(has_focus_arm_list(vs, lexed) =~= Seq::<Seq<char>>::empty());
    }
}

/// The implementation for an enum, whole: the guards of every variant, then a `match self`
/// with the `focus` arm of every variant in order, and a `has_focus` method that matches
/// `self` with the `has_focus` arm of every variant in order.
pub proof fn lemma_enum_text_has_an_arm_per_variant(
    ident: Seq<char>,
    vs: Seq<Variant>,
    lexed: Seq<Seq<SpecFocusField>>,
)
    requires
        lexed.len() == vs.len(),
    ensures
        spec_impl_focus_enum(ident, vs, lexed) == enum_opening(ident) + enum_guards(lexed)
            + "match self { "@ + focus_arm_list(vs, lexed).flatten() + "}"@
            + " } fn has_focus(&self) -> bool { "@ + ("match self { "@ + has_focus_arm_list(
            vs,
            lexed,
        ).flatten() + "}"@) + " } }"@,
{
    lemma_enum_guards_listed(vs, lexed);
    lemma_enum_arms_listed(vs, lexed);
    assert(spec_impl_focus_enum(ident, vs, lexed) =~= enum_opening(ident) + enum_guards(lexed)
        + "match self { "@ + focus_arm_list(vs, lexed).flatten() + "}"@
        + " } fn has_focus(&self) -> bool { "@ + ("match self { "@ + has_focus_arm_list(
        vs,
        lexed,
    ).flatten() + "}"@) + " } }"@);
}

/// The two lines that make the focus chain `fields` with room for `n` fields.
pub open spec fn chain_lines(n: nat) -> Seq<char> {
    "let mut "@ + "fields"@
        + ": std::vec::Vec<&mut dyn iced_focus::Focus> = std::vec::Vec::with_capacity("@
        + decimal_text(n) + "usize); "@ + "let mut "@ + "fields"@
        + ": std::vec::Vec<Box<&mut dyn iced_focus::Focus>> = std::vec::Vec::with_capacity("@
        + decimal_text(n) + "usize); "@
}

/// The implementation for a struct, whole: the focus chain with room for every annotated
/// field, the guards of the guarded fields, a push for every annotated field in order,
/// the move along the chain, and a `has_focus` that asks every annotated field in order.
pub proof fn lemma_struct_text_whole(ident: Seq<char>, fs: Seq<SpecFocusField>)
    ensures
        spec_focus_trait_for_struct(ident, fs) == "impl iced_focus::Focus for "@ + ident
            + " { fn focus(&mut self, direction: iced_focus::Direction) -> iced_focus::State { "@
            + (chain_lines(fs.len()) + listed_guards(fs, None) + fs.map_values(
            |f: SpecFocusField| spec_struct_push(f, "fields"@),
        ).flatten() + "fields"@ + ".focus(direction)"@) + " } fn has_focus(&self) -> bool { "@
            + (fs.map_values(|f: SpecFocusField| spec_has_focus_disjunct(f, true)).flatten()
            + "false"@) + " } }"@,
{
    lemma_guards_bind_every_guarded_field(fs, None);
    lemma_pushes_add_every_field(fs, 0, "fields"@);
    lemma_has_focus_asks_every_field(fs, true);
    assert(struct_opening(ident, fs.len()) =~= "impl iced_focus::Focus for "@ + ident
        + " { fn focus(&mut self, direction: iced_focus::Direction) -> iced_focus::State { "@
        + chain_lines(fs.len()));
}

/// The `focus` arm of a variant, whole: the variant's pattern, then the focus chain with room
/// for every annotated field, a push for every annotated field in order (each under its
/// guard, bound before the match), and the move along the chain.
pub proof fn lemma_variant_focus_arm_whole(index: usize, v: Variant, fs: Seq<SpecFocusField>)
    ensures
        spec_focus_arm(index, v, fs) == "Self::"@ + v.ident@ + match v.fields {
            Fields::Named(_) => " { "@ + listed_bindings(fs) + ".. }"@,
            Fields::Unnamed(unnamed) => " ("@ + tuple_binding_list(unnamed@.len()).flatten()
                + ")"@,
            Fields::Unit => Seq::<char>::empty(),
        } + " => { "@ + (chain_lines(fs.len()) + fs.map_values(
            |f: SpecFocusField| spec_enum_push(f, index, "fields"@),
        ).flatten() + "fields"@ + ".focus(direction)"@) + " } "@,
        spec_has_focus_arm(v, fs) == "Self::"@ + v.ident@ + match v.fields {
            Fields::Named(_) => " { "@ + listed_bindings(fs) + ".. }"@,
            Fields::Unnamed(unnamed) => " ("@ + tuple_binding_list(unnamed@.len()).flatten()
                + ")"@,
            Fields::Unit => Seq::<char>::empty(),
        } + " => { "@ + (fs.map_values(|f: SpecFocusField| spec_has_focus_disjunct(f, false)).flatten()
            + "false"@) + " } "@,
{
    lemma_bindings_list_every_field(fs);
    lemma_pushes_add_every_field(fs, index, "fields"@);
    lemma_has_focus_asks_every_field(fs, false);
    match v.fields {
        Fields::Unnamed(unnamed) => lemma_tuple_pattern_binds_every_field(unnamed@.len()),
        _ => {},
    }
    assert(spec_focus_method_body(index, "fields"@, fs, false) =~= chain_lines(fs.len())
        + enum_pushes_text(fs, index, "fields"@) + "fields"@ + ".focus(direction)"@);
}

/// In a variant with tuple fields, the pattern binds every field by its position, and each
/// annotated field is named in the arm's body by one of those bindings, `t_N` for the
/// field at position `N`.
pub proof fn lemma_tuple_arm_binds_its_fields(v: Variant, fs: Seq<SpecFocusField>)
    requires
        v.fields is Unnamed,
        v.fields->Unnamed_0@.len() <= usize::MAX,
        forall|j: int|
            0 <= j < v.fields->Unnamed_0@.len() ==> (#[trigger] v.fields->Unnamed_0@[j]).ident
                is None,
        spec_variant_focus_fields(v.fields) is Ok,
        fields_lexed_from(fs, spec_variant_focus_fields(v.fields)->Ok_0),
    ensures
        forall|k: int|
            0 <= k < fs.len() ==> contains_text(
                tuple_binding_list(v.fields->Unnamed_0@.len()).flatten(),
                spec_field_ident(#[trigger] fs[k], false) + ", "@,
            ),
{
    let unnamed = v.fields->Unnamed_0@;
    let chain = spec_variant_focus_fields(v.fields)->Ok_0;
    lemma_collect_is_annotated_fields(unnamed, chain);
    assert forall|k: int| 0 <= k < fs.len() implies contains_text(
        tuple_binding_list(unnamed.len()).flatten(),
        spec_field_ident(#[trigger] fs[k], false) + ", "@,
    ) by {
        let a = chain[k];
        assert(field_lexed_from(fs[k], a));
        let j = a.index as int;
        assert(unnamed[j].ident is None);
        assert(fs[k].ident == decimal_text(a.index as nat));
        assert(fs[k].unnamed);
        lemma_flatten_split(tuple_binding_list(unnamed.len()), j);
        assert(tuple_binding_list(unnamed.len())[j] == spec_field_ident(fs[k], false) + ", "@);
    }
}

} // verus!
