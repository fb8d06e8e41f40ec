use vstd::prelude::*;
use crate::schema::{
    is_bounds_text, params_of, parses_as_bounds, scan, scan_annotations, ConfigError,
    FieldDescriptor, Rule, TypeDescriptor,
};
use crate::type_expr::{
    assoc_refs, bare_ident, collect_assoc_refs, dedup, dedup_types, derefs, idents, is_param,
    is_param_name, marker_name, match_wrapper, mentions, mentions_param, option_name,
    vec_name, wrapped_arg, as_bare_ident, TypeExpr,
};

verus! {

/// How a field takes part in the generated code.
#[derive(Clone, Copy, Debug, PartialEq, Eq, Structural)]
pub enum FieldClass {
    /// A value that must be given.
    Required,
    /// `Option<T>`: a value that may be left out.
    Optional,
    /// `Vec<T>`: a sequence, empty unless given.
    Repeated,
    /// `PhantomData<P>` for a type parameter `P`: holds no value.
    Marker,
}

/// `t` is `PhantomData<P>` with `P` one of `params`.
pub open spec fn marks_param(t: TypeExpr, params: Seq<Seq<char>>) -> bool {
    match wrapped_arg(t, marker_name()) {
        Some(a) => match bare_ident(a) {
            Some(x) => is_param(x, params),
            None => false,
        },
        None => false,
    }
}

/// The class of a field of type `t`: a marker first, then an option, then a
/// vector; anything else is required.
pub open spec fn class_of(t: TypeExpr, params: Seq<Seq<char>>) -> FieldClass {
    if marks_param(t, params) {
        FieldClass::Marker
    } else if wrapped_arg(t, option_name()) is Some {
        FieldClass::Optional
    } else if wrapped_arg(t, vec_name()) is Some {
        FieldClass::Repeated
    } else {
        FieldClass::Required
    }
}

/// Classifies a field of type `t` of a type with parameters `params`.
pub fn classify(t: &TypeExpr, params: &Vec<String>) -> (r: FieldClass)
    ensures
        r == class_of(*t, idents(params@)),
{
    if let Some(a) = match_wrapper(t, "PhantomData") {
        if let Some(x) = as_bare_ident(a) {
            if is_param_name(x.as_str(), params) {
                return FieldClass::Marker;
            }
        }
    }
    if match_wrapper(t, "Option").is_some() {
        FieldClass::Optional
    } else if match_wrapper(t, "Vec").is_some() {
        FieldClass::Repeated
    } else {
        FieldClass::Required
    }
}

/// The type of the values a field of type `t` is given: the argument of
/// `Option<T>` or `Vec<T>`, and `t` itself otherwise.
pub open spec fn value_type_of(t: TypeExpr, class: FieldClass) -> TypeExpr {
    match class {
        FieldClass::Optional => wrapped_arg(t, option_name()).unwrap(),
        FieldClass::Repeated => wrapped_arg(t, vec_name()).unwrap(),
        _ => t,
    }
}

/// The type of the values a field of type `t` and class `class` is given.
pub fn value_type<'a>(t: &'a TypeExpr, class: FieldClass, params: &Vec<String>) -> (r: &'a TypeExpr)
    requires
        class == class_of(*t, idents(params@)),
    ensures
        *r == value_type_of(*t, class),
{
    match class {
        FieldClass::Optional => match match_wrapper(t, "Option") {
            Some(a) => a,
            None => t,
        },
        FieldClass::Repeated => match match_wrapper(t, "Vec") {
            Some(a) => a,
            None => t,
        },
        _ => t,
    }
}

/// Some field of `fields` uses the parameter `p` directly.
pub open spec fn used_by_fields(fields: Seq<FieldDescriptor>, p: Seq<char>) -> bool {
    exists|i: int| 0 <= i < fields.len() && mentions(#[trigger] fields[i].ty, p)
}

/// The indices, among the first `n` type parameters of `d`, of those that
/// some field uses directly.
pub open spec fn needed_params(d: TypeDescriptor, n: nat) -> Seq<usize>
    decreases n,
{
    if n == 0 {
        Seq::empty()
    } else {
        needed_params(d, (n - 1) as nat) + if used_by_fields(d.fields@, d.generics@[n - 1]@) {
            seq![(n - 1) as usize]
        } else {
            Seq::empty()
        }
    }
}

/// The associated-type references in the first `n` fields, in field order.
pub open spec fn field_refs(fields: Seq<FieldDescriptor>, n: nat, params: Seq<Seq<char>>) -> Seq<
    TypeExpr,
>
    decreases n,
{
    if n == 0 {
        Seq::empty()
    } else {
        field_refs(fields, (n - 1) as nat, params) + assoc_refs(fields[n - 1].ty, params)
    }
}

/// The formatting obligations a generated impl needs.
pub struct InferredBounds<'a> {
    /// Indices of the type parameters that must be formattable, in
    /// declaration order.
    pub params: Vec<usize>,
    /// The associated types that must be formattable, each once, in
    /// discovery order.
    pub assoc: Vec<&'a TypeExpr>,
}

/// Indices of the type parameters of `d` that some field uses directly, in
/// declaration order.
pub open spec fn bound_params(d: TypeDescriptor) -> Seq<usize> {
    needed_params(d, d.generics@.len())
}

/// The associated types of `d`'s fields, each once, in discovery order.
pub open spec fn bound_assoc(d: TypeDescriptor) -> Seq<TypeExpr> {
    dedup(field_refs(d.fields@, d.fields@.len(), params_of(d)))
}

fn used_by_any(fields: &Vec<FieldDescriptor>, p: &str) -> (r: bool)
    ensures
        r == used_by_fields(fields@, p@),
{
    let mut i: usize = 0;
    while i < fields.len()
        invariant
            i <= fields.len(),
            forall|j: int| 0 <= j < i ==> !mentions(#[trigger] fields@[j].ty, p@),
        decreases fields.len() - i,
    {
        if mentions_param(&fields[i].ty, p) {
            return true;
        }
        i += 1;
    }
    false
}

/// Infers the formatting obligations of `d` from the shapes of its fields.
pub fn infer_bounds<'a>(d: &'a TypeDescriptor) -> (r: InferredBounds<'a>)
    ensures
        r.params@ == bound_params(*d),
        derefs(r.assoc@) == bound_assoc(*d),
{
    let mut params: Vec<usize> = Vec::new();
    let mut k: usize = 0;
    while k < d.generics.len()
        invariant
            k <= d.generics.len(),
            params@ == needed_params(*d, k as nat),
        decreases d.generics.len() - k,
    {
        if used_by_any(&d.fields, d.generics[k].as_str()) {
            params.push(k);
        }
        k += 1;
    }
    let mut refs: Vec<&'a TypeExpr> = Vec::new();
    let mut i: usize = 0;
    while i < d.fields.len()
        invariant
            i <= d.fields.len(),
            derefs(refs@) == field_refs(d.fields@, i as nat, params_of(*d)),
        decreases d.fields.len() - i,
    {
        collect_assoc_refs(&d.fields[i].ty, &d.generics, &mut refs);
        i += 1;
    }
    let assoc = dedup_types(&refs);
    InferredBounds { params, assoc }
}

/// The constraints attached to a generated formatting impl.
pub enum Bounds<'a> {
    /// The where-predicates written by the type's author, verbatim: the
    /// value of the type annotation with this index.
    Override { annotation: usize },
    /// The obligations inferred from the fields.
    Inferred { bounds: InferredBounds<'a> },
}

/// The type-level configuration of the debug derive: the index of the
/// `bound` annotation, if there is one, or the error in it.
pub open spec fn bound_override(d: TypeDescriptor) -> Result<Option<usize>, ConfigError> {
    match scan(d.attributes@, d.attributes@.len(), "bound"@, None) {
        Err(e) => Err(e),
        Ok(None) => Ok(None),
        Ok(Some(k)) => if is_bounds_text(d.attributes@[k as int].value@) {
            Ok(Some(k))
        } else {
            Err(ConfigError { field: None, annotation: k, rule: Rule::MalformedBound })
        },
    }
}

/// The bounds of the formatting impl of `d`: the author's override when the
/// type carries one, inference from the fields otherwise.
pub fn resolve_bounds<'a>(d: &'a TypeDescriptor) -> (r: Result<Bounds<'a>, ConfigError>)
    ensures
        match bound_override(*d) {
            Err(e) => r == Err::<Bounds, ConfigError>(e),
            Ok(Some(k)) => r matches Ok(Bounds::Override { annotation }) && annotation == k,
            Ok(None) => r matches Ok(Bounds::Inferred { bounds }) && bounds.params@ == bound_params(*d)
                && derefs(bounds.assoc@) == bound_assoc(*d),
        },
{
    match scan_annotations(&d.attributes, "bound", None) {
        Err(e) => Err(e),
        Ok(Some(k)) => {
            if parses_as_bounds(d.attributes[k].value.as_str()) {
                Ok(Bounds::Override { annotation: k })
            } else {
                Err(ConfigError { field: None, annotation: k, rule: Rule::MalformedBound })
            }
        },
        Ok(None) => Ok(Bounds::Inferred { bounds: infer_bounds(d) }),
    }
}

} // verus!
