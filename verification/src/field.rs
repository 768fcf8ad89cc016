//! The fields that take part in the focus chain, and the statements that add them to it.

use vstd::prelude::*;
use crate::attribute::{
    annotation_unlexed, attribute_lexed_from, build_guard_name, error_of, focus_attribute_error,
    guard_name, spec_extract_focus_attribute, FocusAnnotation, FocusAttribute, FocusError, SpecFocusAttribute,
};
use crate::decimal::{decimal_text, usize_to_decimal};
use crate::model::Field;

verus! {

/// A field annotated with `focus(enable ...)`.
#[derive(Debug)]
pub struct FocusField {
    /// The text that names the field after `self.`: its name, or its index for a tuple field.
    pub ident: String,
    /// The position of the field among all fields of its struct or variant.
    pub index: usize,
    /// Whether the field is a tuple field.
    pub unnamed: bool,
    /// The annotation of the field.
    pub attribute: FocusAttribute,
}

/// The mathematical value of a [`FocusField`].
pub struct SpecFocusField {
    pub ident: Seq<char>,
    pub index: usize,
    pub unnamed: bool,
    pub attribute: SpecFocusAttribute,
}

impl View for FocusField {
    type V = SpecFocusField;

    open spec fn view(&self) -> SpecFocusField {
        SpecFocusField {
            ident: self.ident@,
            index: self.index,
            unnamed: self.unnamed,
            attribute: self.attribute@,
        }
    }
}

/// The mathematical values of a sequence of focus fields.
pub open spec fn fields_view(fields: Seq<FocusField>) -> Seq<SpecFocusField> {
    fields.map_values(|f: FocusField| f@)
}

/// An annotated field as written: its name in generated code (its identifier, or its
/// index for a tuple field), its position, whether it is a tuple field, and its annotation.
pub struct AnnotatedField {
    pub ident: Seq<char>,
    pub index: usize,
    pub unnamed: bool,
    pub annotation: FocusAnnotation,
}

/// The annotated field that `field`, at position `index`, is: none when the field has no
/// focus attribute, or the error that its attributes raise.
pub open spec fn spec_from_field_if_annotated(field: Field, index: usize) -> Result<
    Option<AnnotatedField>,
    FocusError,
> {
    match spec_extract_focus_attribute(field.attrs@) {
        Ok(Some(annotation)) => Ok(
            Some(
                AnnotatedField {
                    ident: match field.ident {
                        Some(name) => name@,
                        None => decimal_text(index as nat),
                    },
                    index,
                    unnamed: field.ident is None,
                    annotation,
                },
            ),
        ),
        Ok(None) => Ok(None),
        Err(e) => Err(e),
    }
}

/// The annotated fields among `fields`, in order, or the error of the first field
/// whose attributes are rejected.
pub open spec fn spec_collect_fields(fields: Seq<Field>) -> Result<Seq<AnnotatedField>, FocusError>
    decreases fields.len(),
{
    if fields.len() == 0 {
        Ok(Seq::<AnnotatedField>::empty())
    } else {
        match spec_collect_fields(fields.drop_last()) {
            Err(e) => Err(e),
            Ok(prev) => match spec_from_field_if_annotated(
                fields.last(),
                (fields.len() - 1) as usize,
            ) {
                Err(e) => Err(e),
                Ok(None) => Ok(prev),
                Ok(Some(f)) => Ok(prev.push(f)),
            },
        }
    }
}

/// Whether the focus field `f` is what reading the annotated field `a` may give:
/// the same field, with its path (if any) read as tokens.
pub open spec fn field_lexed_from(f: SpecFocusField, a: AnnotatedField) -> bool {
    &&& f.ident == a.ident
    &&& f.index == a.index
    &&& f.unnamed == a.unnamed
    &&& attribute_lexed_from(f.attribute, a.annotation)
}

/// Whether the focus fields `fs` are what reading the annotated fields `annotated` may give,
/// one for one and in order.
pub open spec fn fields_lexed_from(fs: Seq<SpecFocusField>, annotated: Seq<AnnotatedField>) -> bool {
    &&& fs.len() == annotated.len()
    &&& forall|k: int| 0 <= k < fs.len() ==> field_lexed_from(#[trigger] fs[k], annotated[k])
}

/// Whether some field among `annotated` is guarded by a path, whose text must be lexed.
pub open spec fn has_guarded_path(annotated: Seq<AnnotatedField>) -> bool {
    exists|k: int| 0 <= k < annotated.len() && (#[trigger] annotated[k]).annotation is EnableWith
}

/// Whether some field among `annotated` is guarded by a path that, read as tokens, may fail.
pub open spec fn has_unlexed_path(annotated: Seq<AnnotatedField>) -> bool {
    exists|k: int| 0 <= k < annotated.len() && annotation_unlexed((#[trigger] annotated[k]).annotation)
}

/// Whether `r` is what collecting the annotated fields `annotated` may give: focus fields
/// read from them one for one, or [`FocusError::PathNotTokens`] when a path among them
/// did not lex.
pub open spec fn collection_lexed_from(
    r: Result<Seq<SpecFocusField>, FocusError>,
    annotated: Seq<AnnotatedField>,
) -> bool {
    match r {
        Ok(fs) => fields_lexed_from(fs, annotated),
        Err(e) => e == FocusError::PathNotTokens && has_unlexed_path(annotated),
    }
}

/// Once a prefix of the fields is rejected, the whole list is rejected with the same error.
pub proof fn lemma_collect_error_persists(fields: Seq<Field>, n: int)
    requires
        0 <= n <= fields.len(),
        spec_collect_fields(fields.take(n)) is Err,
    ensures
        spec_collect_fields(fields) == spec_collect_fields(fields.take(n)),
    decreases fields.len() - n,
{
    if n == fields.len() {
        assert(fields.take(n) =~= fields);
    } else {
        assert(fields.drop_last().take(n) =~= fields.take(n));
        lemma_collect_error_persists(fields.drop_last(), n);
    }
}

/// When the fields are accepted, the annotated fields of a prefix are a prefix of theirs.
pub proof fn lemma_collect_prefix(fields: Seq<Field>, n: int)
    requires
        0 <= n <= fields.len(),
        spec_collect_fields(fields) is Ok,
    ensures
        spec_collect_fields(fields.take(n)) is Ok,
        spec_collect_fields(fields.take(n))->Ok_0.len() <= spec_collect_fields(fields)->Ok_0.len(),
        spec_collect_fields(fields.take(n))->Ok_0 =~= spec_collect_fields(fields)->Ok_0.take(
            spec_collect_fields(fields.take(n))->Ok_0.len() as int,
        ),
    decreases fields.len() - n,
{
    if n == fields.len() {
        assert(fields.take(n) =~= fields);
    } else {
        assert(fields.drop_last().take(n) =~= fields.take(n));
        lemma_collect_prefix(fields.drop_last(), n);
        let prev = spec_collect_fields(fields.drop_last())->Ok_0;
        let whole = spec_collect_fields(fields)->Ok_0;
        let p = spec_collect_fields(fields.take(n))->Ok_0;
        assert(prev.len() <= whole.len());
        assert(prev =~= whole.take(prev.len() as int));
        assert(p =~= whole.take(p.len() as int));
    }
}

/// The mathematical value of a collection result.
pub open spec fn collection_view(r: Result<Vec<FocusField>, FocusError>) -> Result<
    Seq<SpecFocusField>,
    FocusError,
> {
    match r {
        Ok(fields) => Ok(fields_view(fields@)),
        Err(e) => Err(e),
    }
}

/// How a generated statement names the field `f`: after `self.` when `with_self`,
/// else as the binding of an enum pattern (`t_N` for the tuple field `N`).
pub open spec fn spec_field_ident(f: SpecFocusField, with_self: bool) -> Seq<char> {
    if !with_self && f.unnamed {
        "t_"@ + f.ident
    } else {
        f.ident
    }
}

/// `VEC.push(Box::new(ARG)); `
pub open spec fn push_statement(vector_name: Seq<char>, arg: Seq<char>) -> Seq<char> {
    vector_name + ".push(Box::new("@ + arg + ")); "@
}

/// The statement that adds the struct field `f` to the focus chain `vector_name`,
/// under its guard when it has one.
pub open spec fn spec_struct_push(f: SpecFocusField, vector_name: Seq<char>) -> Seq<char> {
    let push = push_statement(vector_name, "&mut self."@ + spec_field_ident(f, true));
    match f.attribute {
        SpecFocusAttribute::Enable => push,
        SpecFocusAttribute::EnableWith(_) => "if "@ + guard_name(f.index, None) + " { "@ + push
            + "} "@,
    }
}

/// The statement that adds the field `f` of the variant with index `variant_index`
/// to the focus chain `vector_name`, under its guard when it has one.
pub open spec fn spec_enum_push(f: SpecFocusField, variant_index: usize, vector_name: Seq<char>) -> Seq<
    char,
> {
    let push = push_statement(vector_name, spec_field_ident(f, false));
    match f.attribute {
        SpecFocusAttribute::Enable => push,
        SpecFocusAttribute::EnableWith(_) => "if "@ + guard_name(f.index, Some(variant_index))
            + " { "@ + push + "} "@,
    }
}

fn build_push_statement(vector_name: &str, arg: &str) -> (s: String)
    ensures
        s@ == push_statement(vector_name@, arg@),
{
    let mut s = String::from_str(vector_name);
    s.append(".push(Box::new(");
    s.append(arg);
    s.append(")); ");
    s
}

fn guarded(guard: &str, statement: &str) -> (s: String)
    ensures
        s@ == "if "@ + guard@ + " { "@ + statement@ + "} "@,
{
    let mut s = String::from_str("if ");
    s.append(guard);
    s.append(" { ");
    s.append(statement);
    s.append("} ");
    s
}

/// Tells why the derive rejects the attributes of some field among `fields`: the error of
/// the first such field, see [`spec_collect_fields`].
pub fn focus_fields_error(fields: &Vec<Field>) -> (r: Option<FocusError>)
    ensures
        r == error_of(spec_collect_fields(fields@)),
{
    let mut i: usize = 0;
    assert(fields@.take(0) =~= Seq::<Field>::empty());
    while i < fields.len()
        invariant
            0 <= i <= fields@.len(),
            spec_collect_fields(fields@.take(i as int)) is Ok,
        decreases fields@.len() - i,
    {
        let ghost prefix = fields@.take(i + 1);
        assert(prefix.drop_last() =~= fields@.take(i as int));
        assert(prefix.last() == fields@[i as int]);
        match focus_attribute_error(&fields[i].attrs) {
            Some(e) => {
                proof {
                    lemma_collect_error_persists(fields@, i + 1);
                }
                return Some(e);
            },
            None => {},
        }
        i += 1;
    }
    assert(fields@.take(i as int) =~= fields@);
    None
}

impl FocusField {
    /// The focus field of `field` at position `index`, if it is annotated; the derive
    /// must accept the field's attributes. A path given as a string is read as tokens;
    /// when it does not lex, the result is [`FocusError::PathNotTokens`].
    pub fn from_field_if_annotated(field: &Field, index: usize) -> (r: Result<
        Option<FocusField>,
        FocusError,
    >)
        requires
            spec_from_field_if_annotated(*field, index) is Ok,
        ensures
            match (r, spec_from_field_if_annotated(*field, index)->Ok_0) {
                (Ok(None), None) => true,
                (Ok(Some(f)), Some(a)) => field_lexed_from(f@, a),
                (Err(e), Some(a)) => e == FocusError::PathNotTokens && annotation_unlexed(a.annotation),
                _ => false,
            },
    {
        let attribute = FocusAttribute::extract_focus_attribute(&field.attrs);
        match attribute {
            Ok(Some(attribute)) => {
                let ident = match &field.ident {
                    Some(name) => name.clone(),
                    None => usize_to_decimal(index),
                };
                Ok(
                    Some(
                        FocusField { ident, index, unnamed: field.ident.is_none(), attribute },
                    ),
                )
            },
            Ok(None) => Ok(None),
            Err(e) => Err(e),
        }
    }

    fn collect_annotated(fields: &Vec<Field>) -> (r: Result<Vec<FocusField>, FocusError>)
        requires
            spec_collect_fields(fields@) is Ok,
        ensures
            collection_lexed_from(collection_view(r), spec_collect_fields(fields@)->Ok_0),
    {
        let ghost all = spec_collect_fields(fields@)->Ok_0;
        let mut collected: Vec<FocusField> = Vec::new();
        let mut i: usize = 0;
        assert(fields@.take(0) =~= Seq::<Field>::empty());
        assert(fields_view(collected@) =~= Seq::<SpecFocusField>::empty());
        while i < fields.len()
            invariant
                0 <= i <= fields@.len(),
                all == spec_collect_fields(fields@)->Ok_0,
                spec_collect_fields(fields@) is Ok,
                spec_collect_fields(fields@.take(i as int)) is Ok,
                fields_lexed_from(
                    fields_view(collected@),
                    spec_collect_fields(fields@.take(i as int))->Ok_0,
                ),
            decreases fields@.len() - i,
        {
            let ghost prefix = fields@.take(i + 1);
            assert(prefix.drop_last() =~= fields@.take(i as int));
            assert(prefix.last() == fields@[i as int]);
            proof {
                lemma_collect_prefix(fields@, i + 1);
            }
            let ghost before = spec_collect_fields(fields@.take(i as int))->Ok_0;
            let ghost after = spec_collect_fields(prefix)->Ok_0;
            let ghost entry = spec_from_field_if_annotated(fields@[i as int], i);
            assert((prefix.len() - 1) as usize == i);
            assert(entry is Ok);
            match FocusField::from_field_if_annotated(&fields[i], i) {
                Ok(Some(f)) => {
                    let ghost old_view = fields_view(collected@);
                    collected.push(f);
                    assert(fields_view(collected@) =~= old_view.push(f@));
                    assert(after == before.push(after.last()));
                    assert forall|k: int| 0 <= k < fields_view(collected@).len() implies field_lexed_from(
                        #[trigger] fields_view(collected@)[k],
                        after[k],
                    ) by {
                        if k < old_view.len() {
                            assert(fields_view(collected@)[k] == old_view[k]);
                        }
                    }
                },
                Ok(None) => {
                    assert(after == before);
                },
                Err(e) => {
                    proof {
                        let a = entry->Ok_0->Some_0;
                        assert(after == before.push(a));
                        let k = before.len() as int;
                        assert(after =~= all.take(after.len() as int));
                        assert(all[k] == after[k]);
                        assert(annotation_unlexed(all[k].annotation));
                    }
                    return Err(e);
                },
            }
            i += 1;
        }
        assert(fields@.take(i as int) =~= fields@);
        Ok(collected)
    }

    /// Collects the annotated fields of a struct or variant with named fields,
    /// see [`spec_collect_fields`]; the derive must accept them.
    pub fn collect_fields_named(fields: &Vec<Field>) -> (r: Result<Vec<FocusField>, FocusError>)
        requires
            spec_collect_fields(fields@) is Ok,
        ensures
            collection_lexed_from(collection_view(r), spec_collect_fields(fields@)->Ok_0),
    {
        FocusField::collect_annotated(fields)
    }

    /// Collects the annotated fields of a struct or variant with tuple fields,
    /// see [`spec_collect_fields`]; the derive must accept them.
    pub fn collect_fields_unnamed(fields: &Vec<Field>) -> (r: Result<Vec<FocusField>, FocusError>)
        requires
            spec_collect_fields(fields@) is Ok,
        ensures
            collection_lexed_from(collection_view(r), spec_collect_fields(fields@)->Ok_0),
    {
        FocusField::collect_annotated(fields)
    }

    /// How generated code names this field, see [`spec_field_ident`].
    pub fn ident(&self, with_self: bool) -> (s: String)
        ensures
            s@ == spec_field_ident(self@, with_self),
    {
        if !with_self && self.unnamed {
            let mut s = String::from_str("t_");
            s.append(self.ident.as_str());
            s
        } else {
            self.ident.clone()
        }
    }

    /// The statement that adds this struct field to the focus chain, see [`spec_struct_push`].
    pub fn add_struct_field_to_vec(&self, vector_name: &str) -> (s: String)
        ensures
            s@ == spec_struct_push(self@, vector_name@),
    {
        let ident = self.ident(true);
        let mut arg = String::from_str("&mut self.");
        arg.append(ident.as_str());
        let push = build_push_statement(vector_name, arg.as_str());
        match &self.attribute {
            FocusAttribute::Enable => push,
            FocusAttribute::EnableWith(_) => {
                let guard = build_guard_name(self.index, None);
                guarded(guard.as_str(), push.as_str())
            },
        }
    }

    /// The statement that adds this field of the variant with index `index` to the focus
    /// chain, see [`spec_enum_push`].
    pub fn add_enum_field_to_vec(&self, index: usize, vector_name: &str) -> (s: String)
        ensures
            s@ == spec_enum_push(self@, index, vector_name@),
    {
        let ident = self.ident(false);
        let push = build_push_statement(vector_name, ident.as_str());
        match &self.attribute {
            FocusAttribute::Enable => push,
            FocusAttribute::EnableWith(_) => {
                let guard = build_guard_name(self.index, Some(index));
                guarded(guard.as_str(), push.as_str())
            },
        }
    }
}

} // verus!
