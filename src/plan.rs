use vstd::prelude::*;
use crate::analysis::{
    bound_assoc, bound_override, bound_params, class_of, classify, resolve_bounds, Bounds,
    FieldClass,
};
use crate::schema::{
    has_plain_ident_chars, is_ident_text, params_of, plain_ident_chars, parses_as_ident, scan, scan_annotations, ConfigError, Rule,
    TypeDescriptor,
};
use crate::type_expr::{derefs, str_eq};

verus! {

/// What the builder holds and offers for one field.
///
/// A `Required` field is stored as an absent-or-present value and checked
/// when the value is built; an `Optional` one is stored the same way and
/// never checked; a `Repeated` one is stored as a sequence that starts
/// empty, with a setter that replaces it; a `Marker` holds nothing.
#[derive(Clone, Copy, Debug, PartialEq, Eq, Structural)]
pub struct BuilderField {
    pub class: FieldClass,
    /// The field annotation naming a setter that appends one element, when
    /// that name differs from the field's own.
    pub appender: Option<usize>,
}

/// The plan of a builder: one entry per field, in declaration order.
pub struct BuilderPlan {
    pub fields: Vec<BuilderField>,
}

/// The builder entry of field `i` of `d`, or the error in its configuration.
///
/// An appender is allowed only on a `Vec<T>` field; on any other field it is
/// an error. On a `Vec<T>` field, an appender named like the field itself is
/// a no-op marker: only the bulk setter is planned. Any other appender name
/// must parse as an identifier and be written with ASCII letters, digits and
/// `_` alone: the name is emitted verbatim as a method name, and the parse
/// skips surrounding whitespace and comments, which that name cannot hold.
pub open spec fn builder_field(d: TypeDescriptor, i: int) -> Result<BuilderField, ConfigError> {
    let f = d.fields@[i];
    let class = class_of(f.ty, params_of(d));
    match scan(f.attributes@, f.attributes@.len(), "each"@, Some(i as usize)) {
        Err(e) => Err(e),
        Ok(None) => Ok(BuilderField { class, appender: None }),
        Ok(Some(k)) => {
            let alias = f.attributes@[k as int].value@;
            if class != FieldClass::Repeated {
                Err(
                    ConfigError {
                        field: Some(i as usize),
                        annotation: k,
                        rule: Rule::AliasOnNonRepeated,
                    },
                )
            } else if alias == f.name@ {
                Ok(BuilderField { class, appender: None })
            } else if !is_ident_text(alias) || !plain_ident_chars(alias) {
                Err(ConfigError { field: Some(i as usize), annotation: k, rule: Rule::InvalidAlias })
            } else {
                Ok(BuilderField { class, appender: Some(k) })
            }
        },
    }
}

/// The builder entries of the first `n` fields of `d`, or the first error.
pub open spec fn builder_fields(d: TypeDescriptor, n: nat) -> Result<Seq<BuilderField>, ConfigError>
    decreases n,
{
    if n == 0 {
        Ok(Seq::empty())
    } else {
        match builder_fields(d, (n - 1) as nat) {
            Err(e) => Err(e),
            Ok(s) => match builder_field(d, n - 1) {
                Err(e) => Err(e),
                Ok(f) => Ok(s.push(f)),
            },
        }
    }
}

/// The builder plan of `d`, or the first configuration error: a type-level
/// annotation, then the fields in order.
pub open spec fn builder_outcome(d: TypeDescriptor) -> Result<Seq<BuilderField>, ConfigError> {
    if d.attributes@.len() > 0 {
        Err(ConfigError { field: None, annotation: 0, rule: Rule::UnknownKey })
    } else {
        builder_fields(d, d.fields@.len())
    }
}

proof fn lemma_builder_error_stays(d: TypeDescriptor, n: nat, m: nat)
    requires
        n <= m,
        builder_fields(d, n) is Err,
    ensures
        builder_fields(d, m) == builder_fields(d, n),
    decreases m - n,
{
    if n < m {
        lemma_builder_error_stays(d, n, (m - 1) as nat);
    }
}

fn plan_builder_field(d: &TypeDescriptor, i: usize) -> (r: Result<BuilderField, ConfigError>)
    requires
        i < d.fields@.len(),
    ensures
        r == builder_field(*d, i as int),
{
    let f = &d.fields[i];
    let class = classify(&f.ty, &d.generics);
    match scan_annotations(&f.attributes, "each", Some(i)) {
        Err(e) => Err(e),
        Ok(None) => Ok(BuilderField { class, appender: None }),
        Ok(Some(k)) => {
            let alias = f.attributes[k].value.as_str();
            if class != FieldClass::Repeated {
                Err(ConfigError { field: Some(i), annotation: k, rule: Rule::AliasOnNonRepeated })
            } else if str_eq(alias, f.name.as_str()) {
                Ok(BuilderField { class, appender: None })
            } else if !parses_as_ident(alias) || !has_plain_ident_chars(alias) {
                Err(ConfigError { field: Some(i), annotation: k, rule: Rule::InvalidAlias })
            } else {
                Ok(BuilderField { class, appender: Some(k) })
            }
        },
    }
}

/// Plans the builder of `d`: a storage slot and setters for each field, and
/// the check of the required fields when the value is built.
pub fn plan_builder(d: &TypeDescriptor) -> (r: Result<BuilderPlan, ConfigError>)
    ensures
        match builder_outcome(*d) {
            Ok(s) => r matches Ok(p) && p.fields@ == s,
            Err(e) => r matches Err(x) && x == e,
        },
{
    if d.attributes.len() > 0 {
        return Err(ConfigError { field: None, annotation: 0, rule: Rule::UnknownKey });
    }
    let mut fields: Vec<BuilderField> = Vec::new();
    let mut i: usize = 0;
    while i < d.fields.len()
        invariant
            i <= d.fields.len(),
            d.attributes@.len() == 0,
            builder_fields(*d, i as nat) == Ok::<Seq<BuilderField>, ConfigError>(fields@),
        decreases d.fields.len() - i,
    {
        match plan_builder_field(d, i) {
            Err(e) => {
                assert(builder_fields(*d, (i + 1) as nat) == Err::<Seq<BuilderField>, ConfigError>(e));
                proof {
                    lemma_builder_error_stays(*d, (i + 1) as nat, d.fields@.len());
                }
                return Err(e);
            },
            Ok(f) => {
                fields.push(f);
            },
        }
        i += 1;
    }
    Ok(BuilderPlan { fields })
}

/// The plan of a formatting impl: for each field in declaration order, the
/// field annotation holding its format template, if it has one; and the
/// constraints attached to the impl.
pub struct DebugPlan<'a> {
    pub templates: Vec<Option<usize>>,
    pub bounds: Bounds<'a>,
}

/// The format templates of the first `n` fields of `d`, or the first error.
pub open spec fn debug_templates(d: TypeDescriptor, n: nat) -> Result<Seq<Option<usize>>, ConfigError>
    decreases n,
{
    if n == 0 {
        Ok(Seq::empty())
    } else {
        match debug_templates(d, (n - 1) as nat) {
            Err(e) => Err(e),
            Ok(s) => {
                let f = d.fields@[n - 1];
                match scan(f.attributes@, f.attributes@.len(), "format"@, Some((n - 1) as usize)) {
                    Err(e) => Err(e),
                    Ok(t) => Ok(s.push(t)),
                }
            },
        }
    }
}

proof fn lemma_templates_error_stays(d: TypeDescriptor, n: nat, m: nat)
    requires
        n <= m,
        debug_templates(d, n) is Err,
    ensures
        debug_templates(d, m) == debug_templates(d, n),
    decreases m - n,
{
    if n < m {
        lemma_templates_error_stays(d, n, (m - 1) as nat);
    }
}

/// Plans the formatting impl of `d`. The type-level configuration is read
/// first, then the fields in order; the first error ends the planning.
pub fn plan_debug<'a>(d: &'a TypeDescriptor) -> (r: Result<DebugPlan<'a>, ConfigError>)
    ensures
        match bound_override(*d) {
            Err(e) => r matches Err(x) && x == e,
            Ok(o) => match debug_templates(*d, d.fields@.len()) {
                Err(e) => r matches Err(x) && x == e,
                Ok(ts) => r matches Ok(p) && p.templates@ == ts && match o {
                    Some(k) => p.bounds matches Bounds::Override { annotation } && annotation == k,
                    None => p.bounds matches Bounds::Inferred { bounds } && bounds.params@
                        == bound_params(*d) && derefs(bounds.assoc@) == bound_assoc(*d),
                },
            },
        },
{
    let bounds = match resolve_bounds(d) {
        Err(e) => {
            return Err(e);
        },
        Ok(b) => b,
    };
    let mut templates: Vec<Option<usize>> = Vec::new();
    let mut i: usize = 0;
    while i < d.fields.len()
        invariant
            i <= d.fields.len(),
            match bound_override(*d) {
                Err(_) => false,
                Ok(Some(k)) => bounds matches Bounds::Override { annotation } && annotation == k,
                Ok(None) => bounds matches Bounds::Inferred { bounds } && bounds.params@
                    == bound_params(*d) && derefs(bounds.assoc@) == bound_assoc(*d),
            },
            debug_templates(*d, i as nat) == Ok::<Seq<Option<usize>>, ConfigError>(templates@),
        decreases d.fields.len() - i,
    {
        match scan_annotations(&d.fields[i].attributes, "format", Some(i)) {
            Err(e) => {
                assert(debug_templates(*d, (i + 1) as nat) == Err::<Seq<Option<usize>>, ConfigError>(e));
                proof {
                    lemma_templates_error_stays(*d, (i + 1) as nat, d.fields@.len());
                }
                return Err(e);
            },
            Ok(t) => {
                templates.push(t);
            },
        }
        i += 1;
    }
    Ok(DebugPlan { templates, bounds })
}

} // verus!
