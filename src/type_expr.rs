use vstd::prelude::*;
use vstd::string::StrSliceExecFns;

verus! {

/// A type expression, as far as the analysis looks into it.
pub enum TypeExpr {
    /// A named path such as `std::vec::Vec<T>` or `T::Output`, with the
    /// angle-bracketed arguments of its last segment.
    Path { segments: Vec<String>, args: Vec<TypeExpr> },
    /// A type built from component types: a reference, pointer, slice,
    /// array, tuple or parenthesized type.
    Compound { parts: Vec<TypeExpr> },
    /// A type not looked into: a function pointer, a trait object, an
    /// inferred type. Its source text tells two of them apart.
    Opaque { text: String },
    /// A generic argument that is not a type: a lifetime, a const, an
    /// associated-type binding or constraint, with its source text.
    NonType { text: String },
}

/// The types directly inside `t`: the arguments of a path, or the
/// components of a compound type.
pub open spec fn children(t: TypeExpr) -> Seq<TypeExpr> {
    match t {
        TypeExpr::Path { args, .. } => args@,
        TypeExpr::Compound { parts } => parts@,
        TypeExpr::Opaque { .. } => Seq::empty(),
        TypeExpr::NonType { .. } => Seq::empty(),
    }
}

/// The segment names of a path; empty for the other kinds.
pub open spec fn path_of(t: TypeExpr) -> Seq<Seq<char>> {
    match t {
        TypeExpr::Path { segments, .. } => idents(segments@),
        _ => Seq::empty(),
    }
}

/// The kind of a type expression, as a number.
pub open spec fn kind_of(t: TypeExpr) -> int {
    match t {
        TypeExpr::Path { .. } => 0,
        TypeExpr::Compound { .. } => 1,
        TypeExpr::Opaque { .. } => 2,
        TypeExpr::NonType { .. } => 3,
    }
}

/// The source text of an opaque type or a non-type argument; empty for the
/// other kinds.
pub open spec fn text_of(t: TypeExpr) -> Seq<char> {
    match t {
        TypeExpr::Opaque { text } => text@,
        TypeExpr::NonType { text } => text@,
        _ => Seq::empty(),
    }
}

/// Each child of a type expression is smaller than the expression.
pub proof fn lemma_children_decrease(t: TypeExpr, i: int)
    requires
        0 <= i < children(t).len(),
    ensures
        decreases_to!(t => children(t)[i]),
{
    match t {
        TypeExpr::Path { args, .. } => {
            assert(decreases_to!(args => args@));
            assert(decreases_to!(args@ => args@[i]));
        },
        TypeExpr::Compound { parts } => {
            assert(decreases_to!(parts => parts@));
            assert(decreases_to!(parts@ => parts@[i]));
        },
        _ => {},
    }
}

/// The identifiers of a sequence of names.
pub open spec fn idents(v: Seq<String>) -> Seq<Seq<char>> {
    v.map_values(|s: String| s@)
}

/// `s` is one of `params`.
pub open spec fn is_param(s: Seq<char>, params: Seq<Seq<char>>) -> bool {
    exists|k: int| 0 <= k < params.len() && params[k] == s
}

/// The wrapper of an optional value.
pub open spec fn option_name() -> Seq<char> {
    "Option"@
}

/// The wrapper of a repeated value.
pub open spec fn vec_name() -> Seq<char> {
    "Vec"@
}

/// The wrapper of a marker that holds no value.
pub open spec fn marker_name() -> Seq<char> {
    "PhantomData"@
}

/// The single argument of `t` when `t` is the wrapper `name<A>`: a path
/// whose last segment is `name`, with exactly one argument, and that
/// argument a type (not a lifetime or a const).
pub open spec fn wrapped_arg(t: TypeExpr, name: Seq<char>) -> Option<TypeExpr> {
    match t {
        TypeExpr::Path { segments, args } => if segments@.len() > 0 && segments@.last()@ == name
            && args@.len() == 1 && !(args@[0] is NonType) {
            Some(args@[0])
        } else {
            None
        },
        _ => None,
    }
}

/// The identifier of `t` when `t` is a bare name: one segment, no arguments.
pub open spec fn bare_ident(t: TypeExpr) -> Option<Seq<char>> {
    match t {
        TypeExpr::Path { segments, args } => if segments@.len() == 1 && args@.len() == 0 {
            Some(segments@[0]@)
        } else {
            None
        },
        _ => None,
    }
}

/// `PhantomData<X>` where `X` is a bare name.
pub open spec fn is_bare_marker(t: TypeExpr) -> bool {
    match wrapped_arg(t, marker_name()) {
        Some(a) => bare_ident(a).is_some(),
        None => false,
    }
}

/// A one-segment path named `p`.
pub open spec fn names_param(t: TypeExpr, p: Seq<char>) -> bool {
    path_of(t).len() == 1 && path_of(t)[0] == p
}

/// One of the first `n` children of `t` uses `p` directly.
pub open spec fn mentioned_below(t: TypeExpr, n: nat, p: Seq<char>) -> bool
    decreases t, n,
{
    if n == 0 || n > children(t).len() {
        false
    } else {
        let c = children(t)[n - 1];
        mentioned_below(t, (n - 1) as nat, p) || (!is_bare_marker(c) && (names_param(c, p)
            || mentioned_below(c, children(c).len(), p)))
    }
}

/// `t` uses the parameter `p` directly, anywhere but inside a marker that
/// holds a bare name. `p::Assoc` is not a direct use of `p`.
pub open spec fn mentions(t: TypeExpr, p: Seq<char>) -> bool {
    !is_bare_marker(t) && (names_param(t, p) || mentioned_below(t, children(t).len(), p))
}

/// `t` is an associated-type reference: a path of two or more segments whose
/// first segment is a generic parameter.
pub open spec fn is_assoc_ref(t: TypeExpr, params: Seq<Seq<char>>) -> bool {
    kind_of(t) == 0 && path_of(t).len() > 1 && is_param(path_of(t)[0], params)
}

/// The associated-type references inside the first `n` children of `t`, in
/// the order of a walk that visits a type's parts before the type. The walk
/// goes into the components of references, tuples and arrays as well as into
/// path arguments: a field such as `&'a T::Output` formats `T::Output`, so
/// the formatting impl needs the obligation on it to compile.
pub open spec fn refs_below(t: TypeExpr, n: nat, params: Seq<Seq<char>>) -> Seq<TypeExpr>
    decreases t, n,
{
    if n == 0 || n > children(t).len() {
        Seq::empty()
    } else {
        let c = children(t)[n - 1];
        refs_below(t, (n - 1) as nat, params) + refs_below(c, children(c).len(), params) + if is_assoc_ref(c, params) {
            seq![c]
        } else {
            Seq::empty()
        }
    }
}

/// Every associated-type reference in `t`, `t` itself included, in discovery order.
pub open spec fn assoc_refs(t: TypeExpr, params: Seq<Seq<char>>) -> Seq<TypeExpr> {
    refs_below(t, children(t).len(), params) + if is_assoc_ref(t, params) {
        seq![t]
    } else {
        Seq::empty()
    }
}

/// The first `n` children of `a` and of `b` are pairwise the same type.
pub open spec fn same_below(a: TypeExpr, b: TypeExpr, n: nat) -> bool
    decreases a, n,
{
    if n == 0 {
        true
    } else if n > children(a).len() || n > children(b).len() {
        false
    } else {
        let c = children(a)[n - 1];
        let d = children(b)[n - 1];
        same_below(a, b, (n - 1) as nat) && kind_of(c) == kind_of(d) && path_of(c) == path_of(d)
            && text_of(c) == text_of(d) && children(c).len() == children(d).len() && same_below(c, d, children(c).len())
    }
}

/// Structural equality of two type expressions; opaque types and non-type
/// arguments are compared by their text.
pub open spec fn same_type(a: TypeExpr, b: TypeExpr) -> bool {
    kind_of(a) == kind_of(b) && path_of(a) == path_of(b) && text_of(a) == text_of(b)
        && children(a).len() == children(b).len()
        && same_below(a, b, children(a).len())
}

proof fn lemma_mentioned_grows(t: TypeExpr, n: nat, m: nat, p: Seq<char>)
    requires
        n <= m <= children(t).len(),
        mentioned_below(t, n, p),
    ensures
        mentioned_below(t, m, p),
    decreases m - n,
{
    if n < m {
        lemma_mentioned_grows(t, n, (m - 1) as nat, p);
    }
}

proof fn lemma_same_below_shrinks(a: TypeExpr, b: TypeExpr, n: nat, m: nat)
    requires
        n <= m,
        same_below(a, b, m),
    ensures
        same_below(a, b, n),
    decreases m - n,
{
    if n < m {
        lemma_same_below_shrinks(a, b, n, (m - 1) as nat);
    }
}

/// The types held by a sequence of references.
pub open spec fn derefs(s: Seq<&TypeExpr>) -> Seq<TypeExpr> {
    s.map_values(|r: &TypeExpr| *r)
}

/// `s` holds a type that is the same as `t`.
pub open spec fn holds_same(s: Seq<TypeExpr>, t: TypeExpr) -> bool {
    exists|j: int| 0 <= j < s.len() && same_type(s[j], t)
}

/// `s` with every type dropped that is the same as an earlier one.
pub open spec fn dedup(s: Seq<TypeExpr>) -> Seq<TypeExpr>
    decreases s.len(),
{
    if s.len() == 0 {
        s
    } else {
        let d = dedup(s.drop_last());
        if holds_same(d, s.last()) {
            d
        } else {
            d.push(s.last())
        }
    }
}

/// Whether two strings hold the same characters.
pub fn str_eq(a: &str, b: &str) -> (r: bool)
    ensures
        r == (a@ == b@),
{
    let n = a.unicode_len();
    if n != b.unicode_len() {
        return false;
    }
    let mut i: usize = 0;
    while i < n
        invariant
            n == a@.len(),
            n == b@.len(),
            i <= n,
            forall|j: int| 0 <= j < i ==> a@[j] == b@[j],
        decreases n - i,
    {
        if a.get_char(i) != b.get_char(i) {
            return false;
        }
        i += 1;
    }
    assert(a@ =~= b@);
    true
}

/// Whether two lists of names are equal, name by name.
pub fn names_eq(a: &Vec<String>, b: &Vec<String>) -> (r: bool)
    ensures
        r == (idents(a@) == idents(b@)),
{
    if a.len() != b.len() {
        assert(idents(a@).len() != idents(b@).len());
        return false;
    }
    let mut i: usize = 0;
    while i < a.len()
        invariant
            a.len() == b.len(),
            i <= a.len(),
            forall|j: int| 0 <= j < i ==> a@[j]@ == b@[j]@,
        decreases a.len() - i,
    {
        if !str_eq(a[i].as_str(), b[i].as_str()) {
            assert(idents(a@)[i as int] != idents(b@)[i as int]);
            return false;
        }
        i += 1;
    }
    assert(idents(a@) =~= idents(b@));
    true
}

/// The types directly inside `t`.
fn child_list(t: &TypeExpr) -> (r: Option<&Vec<TypeExpr>>)
    ensures
        match r {
            Some(v) => v@ == children(*t),
            None => children(*t).len() == 0,
        },
{
    match t {
        TypeExpr::Path { args, .. } => Some(args),
        TypeExpr::Compound { parts } => Some(parts),
        _ => None,
    }
}

/// The argument of `t` when `t` is `name<A>`, with exactly one argument.
pub fn match_wrapper<'a>(t: &'a TypeExpr, name: &str) -> (r: Option<&'a TypeExpr>)
    ensures
        r.is_some() == wrapped_arg(*t, name@).is_some(),
        r.is_some() ==> *r.unwrap() == wrapped_arg(*t, name@).unwrap(),
{
    match t {
        TypeExpr::Path { segments, args } => {
            if segments.len() > 0 && str_eq(segments[segments.len() - 1].as_str(), name)
                && args.len() == 1 && !matches!(args[0], TypeExpr::NonType { .. }) {
                Some(&args[0])
            } else {
                None
            }
        },
        _ => None,
    }
}

/// The identifier of `t` when it is a bare name.
pub fn as_bare_ident(t: &TypeExpr) -> (r: Option<&String>)
    ensures
        r.is_some() == bare_ident(*t).is_some(),
        r.is_some() ==> r.unwrap()@ == bare_ident(*t).unwrap(),
{
    match t {
        TypeExpr::Path { segments, args } => if segments.len() == 1 && args.len() == 0 {
            Some(&segments[0])
        } else {
            None
        },
        _ => None,
    }
}

fn bare_marker(t: &TypeExpr) -> (r: bool)
    ensures
        r == is_bare_marker(*t),
{
    match match_wrapper(t, "PhantomData") {
        Some(a) => as_bare_ident(a).is_some(),
        None => false,
    }
}

fn single_name(t: &TypeExpr, p: &str) -> (r: bool)
    ensures
        r == names_param(*t, p@),
{
    match t {
        TypeExpr::Path { segments, .. } => segments.len() == 1 && str_eq(segments[0].as_str(), p),
        _ => false,
    }
}

/// Whether `t` uses the generic parameter `p` directly.
pub fn mentions_param(t: &TypeExpr, p: &str) -> (r: bool)
    ensures
        r == mentions(*t, p@),
    decreases *t,
{
    if bare_marker(t) {
        return false;
    }
    if single_name(t, p) {
        return true;
    }
    match child_list(t) {
        None => false,
        Some(v) => {
            let mut i: usize = 0;
            while i < v.len()
                invariant
                    v@ == children(*t),
                    i <= v.len(),
                    !is_bare_marker(*t),
                    !mentioned_below(*t, i as nat, p@),
                decreases v.len() - i,
            {
                proof {
                    lemma_children_decrease(*t, i as int);
                }
                if mentions_param(&v[i], p) {
                    assert(mentioned_below(*t, (i + 1) as nat, p@));
                    proof {
                        lemma_mentioned_grows(*t, (i + 1) as nat, children(*t).len(), p@);
                    }
                    return true;
                }
                i += 1;
            }
            false
        },
    }
}

/// Whether `a` and `b` are the same type expression, structurally.
pub fn type_eq(a: &TypeExpr, b: &TypeExpr) -> (r: bool)
    ensures
        r == same_type(*a, *b),
    decreases *a,
{
    let (va, vb) = match (a, b) {
        (TypeExpr::Path { segments: sa, args: aa }, TypeExpr::Path { segments: sb, args: ab }) => {
            if !names_eq(sa, sb) {
                return false;
            }
            (aa, ab)
        },
        (TypeExpr::Compound { parts: pa }, TypeExpr::Compound { parts: pb }) => (pa, pb),
        (TypeExpr::Opaque { text: ta }, TypeExpr::Opaque { text: tb }) => {
            return str_eq(ta.as_str(), tb.as_str());
        },
        (TypeExpr::NonType { text: ta }, TypeExpr::NonType { text: tb }) => {
            return str_eq(ta.as_str(), tb.as_str());
        },
        _ => {
            return false;
        },
    };
    if va.len() != vb.len() {
        return false;
    }
    let mut i: usize = 0;
    while i < va.len()
        invariant
            va@ == children(*a),
            vb@ == children(*b),
            va.len() == vb.len(),
            i <= va.len(),
            kind_of(*a) == kind_of(*b),
            path_of(*a) == path_of(*b),
            same_below(*a, *b, i as nat),
        decreases va.len() - i,
    {
        proof {
            lemma_children_decrease(*a, i as int);
        }
        if !type_eq(&va[i], &vb[i]) {
            proof {
                assert(!same_below(*a, *b, (i + 1) as nat));
                if same_below(*a, *b, children(*a).len()) {
                    lemma_same_below_shrinks(*a, *b, (i + 1) as nat, children(*a).len());
                }
            }
            return false;
        }
        i += 1;
    }
    true
}

/// Appends to `out` every associated-type reference in `t`, in discovery order.
pub fn collect_assoc_refs<'a>(t: &'a TypeExpr, params: &Vec<String>, out: &mut Vec<&'a TypeExpr>)
    ensures
        derefs(final(out)@) == derefs(old(out)@) + assoc_refs(*t, idents(params@)),
    decreases *t,
{
    match child_list(t) {
        None => {},
        Some(v) => {
            let mut i: usize = 0;
            while i < v.len()
                invariant
                    v@ == children(*t),
                    i <= v.len(),
                    derefs(out@) == derefs(old(out)@) + refs_below(*t, i as nat, idents(params@)),
                decreases v.len() - i,
            {
                proof {
                    lemma_children_decrease(*t, i as int);
                }
                collect_assoc_refs(&v[i], params, out);
                proof {
                    let ps = idents(params@);
                    let c = children(*t)[i as int];
                    assert(refs_below(*t, (i + 1) as nat, ps) =~= refs_below(*t, i as nat, ps) + assoc_refs(c, ps));
                    assert(derefs(out@) =~= derefs(old(out)@) + refs_below(*t, (i + 1) as nat, ps));
                }
                i += 1;
            }
        },
    }
    let ghost before = derefs(out@);
    if is_assoc(t, params) {
        out.push(t);
        assert(derefs(out@) =~= before.push(*t));
    }
    assert(derefs(out@) =~= derefs(old(out)@) + assoc_refs(*t, idents(params@)));
}

/// Whether `t` is an associated-type reference for one of `params`.
pub fn is_assoc(t: &TypeExpr, params: &Vec<String>) -> (r: bool)
    ensures
        r == is_assoc_ref(*t, idents(params@)),
{
    match t {
        TypeExpr::Path { segments, .. } => {
            if segments.len() < 2 {
                return false;
            }
            assert(idents(segments@)[0] == segments@[0]@);
            is_param_name(segments[0].as_str(), params)
        },
        _ => false,
    }
}

/// Whether `x` is one of the names in `params`.
pub fn is_param_name(x: &str, params: &Vec<String>) -> (r: bool)
    ensures
        r == is_param(x@, idents(params@)),
{
    let mut k: usize = 0;
    while k < params.len()
        invariant
            k <= params.len(),
            forall|j: int| 0 <= j < k ==> params@[j]@ != x@,
        decreases params.len() - k,
    {
        if str_eq(params[k].as_str(), x) {
            assert(idents(params@)[k as int] == params@[k as int]@);
            return true;
        }
        k += 1;
    }
    assert(forall|j: int| 0 <= j < params.len() ==> idents(params@)[j] == params@[j]@);
    false
}

/// `refs` with every type dropped that is the same as an earlier one.
pub fn dedup_types<'a>(refs: &Vec<&'a TypeExpr>) -> (r: Vec<&'a TypeExpr>)
    ensures
        derefs(r@) == dedup(derefs(refs@)),
{
    let mut out: Vec<&'a TypeExpr> = Vec::new();
    let mut i: usize = 0;
    while i < refs.len()
        invariant
            i <= refs.len(),
            derefs(out@) == dedup(derefs(refs@).take(i as int)),
        decreases refs.len() - i,
    {
        let t = refs[i];
        let mut seen = false;
        let mut j: usize = 0;
        while j < out.len()
            invariant
                j <= out.len(),
                !seen ==> forall|k: int| 0 <= k < j ==> !same_type(derefs(out@)[k], *t),
                seen ==> holds_same(derefs(out@), *t),
            decreases out.len() - j,
        {
            if type_eq(out[j], t) {
                assert(derefs(out@)[j as int] == *out@[j as int]);
                seen = true;
            }
            j += 1;
        }
        proof {
            let s = derefs(refs@).take(i + 1);
            assert(s.drop_last() =~= derefs(refs@).take(i as int));
            assert(s.last() == *t);
        }
        if !seen {
            let ghost before = derefs(out@);
            out.push(t);
            assert(derefs(out@) =~= before.push(*t));
        }
        i += 1;
    }
    assert(derefs(refs@).take(refs.len() as int) =~= derefs(refs@));
    out
}

} // verus!
