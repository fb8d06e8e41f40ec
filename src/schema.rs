use vstd::prelude::*;
use vstd::string::StrSliceExecFns;
use crate::type_expr::{idents, str_eq, TypeExpr};

verus! {

/// One `key = "value"` entry of an attribute in the derive's namespace.
pub struct Annotation {
    pub key: String,
    pub value: String,
}

/// A named field of the analysed type.
pub struct FieldDescriptor {
    pub name: String,
    pub ty: TypeExpr,
    pub attributes: Vec<Annotation>,
}

/// The analysed type: its name, the identifiers of its type parameters in
/// declaration order, its fields in declaration order, and the annotations
/// on the type itself.
pub struct TypeDescriptor {
    pub name: String,
    pub generics: Vec<String>,
    pub fields: Vec<FieldDescriptor>,
    pub attributes: Vec<Annotation>,
}

/// The rule that a configuration breaks.
#[derive(Clone, Copy, Debug, PartialEq, Eq, Structural)]
pub enum Rule {
    /// A key that the derive does not know.
    UnknownKey,
    /// A second annotation with a key that may appear once.
    DuplicateKey,
    /// An appender name on a field that is not a `Vec<T>`.
    AliasOnNonRepeated,
    /// An appender name that is not an identifier.
    InvalidAlias,
    /// A bound override that is not a list of where-predicates.
    MalformedBound,
}

/// A configuration error: the offending annotation, on the field with that
/// index or, for `None`, on the type itself.
#[derive(Clone, Copy, Debug, PartialEq, Eq, Structural)]
pub struct ConfigError {
    pub field: Option<usize>,
    pub annotation: usize,
    pub rule: Rule,
}

/// Whether a text parses as one identifier that is not a keyword.
pub uninterp spec fn is_ident_text(s: Seq<char>) -> bool;

/// Whether a text parses as a comma-separated list of where-predicates.
pub uninterp spec fn is_bounds_text(s: Seq<char>) -> bool;

/// Relies on `syn::parse_str::<syn::Ident>`: whether the whole text is one
/// identifier; keywords are refused.
#[verifier::external_body]
pub(crate) fn parses_as_ident(s: &str) -> (r: bool)
    ensures
        r == is_ident_text(s@),
{
    syn::parse_str::<syn::Ident>(s).is_ok()
}

/// Relies on `syn::parse::Parser::parse_str` with
/// `Punctuated::<WherePredicate, Comma>::parse_terminated`: whether the whole
/// text is a comma-separated list of where-predicates.
#[verifier::external_body]
pub(crate) fn parses_as_bounds(s: &str) -> (r: bool)
    ensures
        r == is_bounds_text(s@),
{
    syn::parse::Parser::parse_str(
        syn::punctuated::Punctuated::<syn::WherePredicate, syn::token::Comma>::parse_terminated,
        s,
    ).is_ok()
}

/// An ASCII letter, digit or `_`.
pub open spec fn plain_ident_char(c: char) -> bool {
    ('a' <= c && c <= 'z') || ('A' <= c && c <= 'Z') || ('0' <= c && c <= '9') || c == '_'
}

/// Every character of `s` is an ASCII letter, digit or `_`.
pub open spec fn plain_ident_chars(s: Seq<char>) -> bool {
    forall|i: int| 0 <= i < s.len() ==> plain_ident_char(#[trigger] s[i])
}

/// Whether every character of `s` is an ASCII letter, digit or `_`.
pub fn has_plain_ident_chars(s: &str) -> (r: bool)
    ensures
        r == plain_ident_chars(s@),
{
    let n = s.unicode_len();
    let mut i: usize = 0;
    while i < n
        invariant
            n == s@.len(),
            i <= n,
            forall|j: int| 0 <= j < i ==> plain_ident_char(#[trigger] s@[j]),
        decreases n - i,
    {
        let c = s.get_char(i);
        if !(('a' <= c && c <= 'z') || ('A' <= c && c <= 'Z') || ('0' <= c && c <= '9') || c == '_') {
            return false;
        }
        i += 1;
    }
    true
}

/// The outcome of reading the first `n` annotations of `anns`, where `key`
/// is the only key allowed and may appear once: the index of the annotation
/// that carries it, or the error at the first one that breaks a rule.
pub open spec fn scan(anns: Seq<Annotation>, n: nat, key: Seq<char>, field: Option<usize>) -> Result<
    Option<usize>,
    ConfigError,
>
    decreases n,
{
    if n == 0 {
        Ok(None)
    } else {
        match scan(anns, (n - 1) as nat, key, field) {
            Err(e) => Err(e),
            Ok(found) => if anns[n - 1].key@ != key {
                Err(ConfigError { field, annotation: (n - 1) as usize, rule: Rule::UnknownKey })
            } else if found.is_some() {
                Err(ConfigError { field, annotation: (n - 1) as usize, rule: Rule::DuplicateKey })
            } else {
                Ok(Some((n - 1) as usize))
            },
        }
    }
}

proof fn lemma_scan_error_stays(anns: Seq<Annotation>, n: nat, m: nat, key: Seq<char>, field: Option<usize>)
    requires
        n <= m,
        scan(anns, n, key, field) is Err,
    ensures
        scan(anns, m, key, field) == scan(anns, n, key, field),
    decreases m - n,
{
    if n < m {
        lemma_scan_error_stays(anns, n, (m - 1) as nat, key, field);
    }
}

/// Reads `anns`, where `key` is the only key allowed and may appear once.
pub fn scan_annotations(anns: &Vec<Annotation>, key: &str, field: Option<usize>) -> (r: Result<
    Option<usize>,
    ConfigError,
>)
    ensures
        r == scan(anns@, anns@.len(), key@, field),
{
    let mut found: Option<usize> = None;
    let mut i: usize = 0;
    while i < anns.len()
        invariant
            i <= anns.len(),
            scan(anns@, i as nat, key@, field) == Ok::<Option<usize>, ConfigError>(found),
        decreases anns.len() - i,
    {
        if !str_eq(anns[i].key.as_str(), key) {
            proof {
                lemma_scan_error_stays(anns@, (i + 1) as nat, anns@.len(), key@, field);
            }
            return Err(ConfigError { field, annotation: i, rule: Rule::UnknownKey });
        }
        if found.is_some() {
            proof {
                lemma_scan_error_stays(anns@, (i + 1) as nat, anns@.len(), key@, field);
            }
            return Err(ConfigError { field, annotation: i, rule: Rule::DuplicateKey });
        }
        found = Some(i);
        i += 1;
    }
    Ok(found)
}

/// The identifiers of the type parameters of `d`.
pub open spec fn params_of(d: TypeDescriptor) -> Seq<Seq<char>> {
    idents(d.generics@)
}

} // verus!
