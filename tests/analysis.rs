use derive_plan::analysis::{classify, infer_bounds, resolve_bounds, value_type, Bounds, FieldClass};
use derive_plan::plan::{plan_builder, plan_debug, BuilderField};
use derive_plan::builder::BuilderState;
use derive_plan::schema::{Annotation, ConfigError, FieldDescriptor, Rule, TypeDescriptor};
use derive_plan::type_expr::{
    as_bare_ident, collect_assoc_refs, match_wrapper, mentions_param, str_eq, type_eq, TypeExpr,
};

fn path(segments: &[&str], args: Vec<TypeExpr>) -> TypeExpr {
    TypeExpr::Path { segments: segments.iter().map(|s| s.to_string()).collect(), args }
}

fn name(s: &str) -> TypeExpr {
    path(&[s], vec![])
}

fn wrap(w: &str, inner: TypeExpr) -> TypeExpr {
    path(&[w], vec![inner])
}

fn opaque(text: &str) -> TypeExpr {
    TypeExpr::Opaque { text: text.to_string() }
}

fn non_type(text: &str) -> TypeExpr {
    TypeExpr::NonType { text: text.to_string() }
}

fn ann(key: &str, value: &str) -> Annotation {
    Annotation { key: key.to_string(), value: value.to_string() }
}

fn field(n: &str, ty: TypeExpr, attributes: Vec<Annotation>) -> FieldDescriptor {
    FieldDescriptor { name: n.to_string(), ty, attributes }
}

fn desc(generics: &[&str], fields: Vec<FieldDescriptor>, attributes: Vec<Annotation>) -> TypeDescriptor {
    TypeDescriptor {
        name: "Wrapper".to_string(),
        generics: generics.iter().map(|s| s.to_string()).collect(),
        fields,
        attributes,
    }
}

fn params(ps: &[&str]) -> Vec<String> {
    ps.iter().map(|s| s.to_string()).collect()
}

fn command() -> TypeDescriptor {
    desc(
        &[],
        vec![
            field("executable", name("String"), vec![]),
            field("args", wrap("Vec", name("String")), vec![ann("each", "arg")]),
            field("env", wrap("Option", name("String")), vec![]),
        ],
        vec![],
    )
}

#[test]
fn strings_compare_by_characters() {
    assert!(str_eq("Vec", "Vec"));
    assert!(!str_eq("Vec", "Vex"));
    assert!(!str_eq("Vec", "Ve"));
    assert!(str_eq("", ""));
}

#[test]
fn wrapper_matches_last_segment_with_one_argument() {
    let t = path(&["std", "option", "Option"], vec![name("i32")]);
    let inner = match_wrapper(&t, "Option").unwrap();
    assert!(type_eq(inner, &name("i32")));
    assert!(match_wrapper(&t, "Vec").is_none());
    let two = path(&["Option"], vec![name("A"), name("B")]);
    assert!(match_wrapper(&two, "Option").is_none());
    assert!(match_wrapper(&name("Option"), "Option").is_none());
    assert!(match_wrapper(&opaque("fn()"), "Option").is_none());
}

#[test]
fn wrapper_with_lifetime_or_const_argument_does_not_match() {
    let lifetime = path(&["Foo"], vec![non_type("'a")]);
    assert!(match_wrapper(&lifetime, "Foo").is_none());
    let ps = params(&[]);
    let opt = path(&["Option"], vec![non_type("3")]);
    assert_eq!(classify(&opt, &ps), FieldClass::Required);
    let opaque = path(&["Foo"], vec![opaque("fn()")]);
    assert!(match_wrapper(&opaque, "Foo").is_some());
}

#[test]
fn bare_ident_is_one_segment_without_arguments() {
    assert_eq!(as_bare_ident(&name("T")).unwrap(), "T");
    assert!(as_bare_ident(&path(&["T", "Output"], vec![])).is_none());
    assert!(as_bare_ident(&wrap("Vec", name("T"))).is_none());
}

#[test]
fn classification_follows_wrapper_order() {
    let ps = params(&["T"]);
    assert_eq!(classify(&name("String"), &ps), FieldClass::Required);
    assert_eq!(classify(&wrap("Option", name("String")), &ps), FieldClass::Optional);
    assert_eq!(classify(&wrap("Vec", name("String")), &ps), FieldClass::Repeated);
    assert_eq!(classify(&wrap("PhantomData", name("T")), &ps), FieldClass::Marker);
    assert_eq!(classify(&wrap("PhantomData", name("U")), &ps), FieldClass::Required);
    assert_eq!(
        classify(&wrap("PhantomData", wrap("Vec", name("T"))), &ps),
        FieldClass::Required
    );
    assert_eq!(classify(&opaque("dyn X"), &ps), FieldClass::Required);
}

#[test]
fn value_type_unwraps_option_and_vec() {
    let ps = params(&[]);
    let t = wrap("Option", name("u8"));
    assert!(type_eq(value_type(&t, classify(&t, &ps), &ps), &name("u8")));
    let v = wrap("Vec", name("u16"));
    assert!(type_eq(value_type(&v, classify(&v, &ps), &ps), &name("u16")));
    let s = name("String");
    assert!(type_eq(value_type(&s, classify(&s, &ps), &ps), &s));
}

#[test]
fn mentions_skip_markers_and_associated_paths() {
    assert!(mentions_param(&name("T"), "T"));
    assert!(mentions_param(&wrap("Box", name("T")), "T"));
    assert!(mentions_param(&TypeExpr::Compound { parts: vec![name("T")] }, "T"));
    assert!(!mentions_param(&wrap("PhantomData", name("T")), "T"));
    assert!(!mentions_param(&path(&["T", "Output"], vec![]), "T"));
    assert!(!mentions_param(&name("U"), "T"));
    assert!(mentions_param(&wrap("PhantomData", wrap("Vec", name("T"))), "T"));
}

#[test]
fn associated_refs_are_found_inside_arguments() {
    let ps = params(&["T"]);
    let t = wrap("Vec", path(&["T", "Value"], vec![]));
    let mut out: Vec<&TypeExpr> = Vec::new();
    collect_assoc_refs(&t, &ps, &mut out);
    assert_eq!(out.len(), 1);
    assert!(type_eq(out[0], &path(&["T", "Value"], vec![])));
    let plain = path(&["std", "string", "String"], vec![]);
    let mut none: Vec<&TypeExpr> = Vec::new();
    collect_assoc_refs(&plain, &ps, &mut none);
    assert!(none.is_empty());
}

#[test]
fn associated_refs_are_found_inside_compound_types() {
    let ps = params(&["T"]);
    let r = TypeExpr::Compound { parts: vec![path(&["T", "X"], vec![])] };
    let mut out: Vec<&TypeExpr> = Vec::new();
    collect_assoc_refs(&r, &ps, &mut out);
    assert_eq!(out.len(), 1);
    assert!(type_eq(out[0], &path(&["T", "X"], vec![])));
    let d = desc(
        &["T"],
        vec![field("pair", TypeExpr::Compound { parts: vec![path(&["T", "Output"], vec![]), name("u8")] }, vec![])],
        vec![],
    );
    let b = infer_bounds(&d);
    assert!(b.params.is_empty());
    assert_eq!(b.assoc.len(), 1);
}

#[test]
fn associated_refs_differing_in_opaque_parts_stay_apart() {
    let d = desc(
        &["T"],
        vec![
            field("a", path(&["T", "A"], vec![non_type("'a")]), vec![]),
            field("b", path(&["T", "A"], vec![non_type("'b")]), vec![]),
            field("c", path(&["T", "F"], vec![opaque("fn()")]), vec![]),
            field("d", path(&["T", "F"], vec![opaque("dyn X")]), vec![]),
            field("e", path(&["T", "F"], vec![opaque("dyn X")]), vec![]),
        ],
        vec![],
    );
    let b = infer_bounds(&d);
    assert_eq!(b.assoc.len(), 4);
    assert!(!type_eq(&non_type("'a"), &non_type("'b")));
    assert!(type_eq(&opaque("dyn X"), &opaque("dyn X")));
    assert!(!type_eq(&opaque("dyn X"), &non_type("dyn X")));
}

#[test]
fn marker_alone_infers_no_bound() {
    let d = desc(&["T"], vec![field("marker", wrap("PhantomData", name("T")), vec![])], vec![]);
    let b = infer_bounds(&d);
    assert!(b.params.is_empty());
    assert!(b.assoc.is_empty());
}

#[test]
fn marker_and_direct_use_infer_bound() {
    let d = desc(
        &["T"],
        vec![
            field("marker", wrap("PhantomData", name("T")), vec![]),
            field("value", name("T"), vec![]),
        ],
        vec![],
    );
    let b = infer_bounds(&d);
    assert_eq!(b.params, vec![0]);
    assert!(b.assoc.is_empty());
}

#[test]
fn associated_type_field_bounds_the_associated_type_only() {
    let d = desc(&["T"], vec![field("out", path(&["T", "Output"], vec![]), vec![])], vec![]);
    let b = infer_bounds(&d);
    assert!(b.params.is_empty());
    assert_eq!(b.assoc.len(), 1);
    assert!(type_eq(b.assoc[0], &path(&["T", "Output"], vec![])));
}

#[test]
fn associated_types_are_deduplicated_in_discovery_order() {
    let d = desc(
        &["T", "U"],
        vec![
            field("a", path(&["U", "Item"], vec![]), vec![]),
            field("b", wrap("Vec", path(&["T", "Output"], vec![])), vec![]),
            field("c", path(&["U", "Item"], vec![]), vec![]),
            field("d", name("U"), vec![]),
        ],
        vec![],
    );
    let b = infer_bounds(&d);
    assert_eq!(b.params, vec![1]);
    assert_eq!(b.assoc.len(), 2);
    assert!(type_eq(b.assoc[0], &path(&["U", "Item"], vec![])));
    assert!(type_eq(b.assoc[1], &path(&["T", "Output"], vec![])));
}

#[test]
fn bound_override_skips_inference() {
    let d = desc(&["T"], vec![field("value", name("T"), vec![])], vec![ann("bound", "T::Value: Debug")]);
    match resolve_bounds(&d) {
        Ok(Bounds::Override { annotation }) => {
            assert_eq!(annotation, 0);
            assert_eq!(d.attributes[annotation].value, "T::Value: Debug");
        }
        _ => panic!("expected the override"),
    }
}

#[test]
fn malformed_bound_override_is_an_error() {
    let d = desc(&["T"], vec![], vec![ann("bound", "T: :")]);
    assert!(matches!(
        resolve_bounds(&d),
        Err(ConfigError { field: None, annotation: 0, rule: Rule::MalformedBound })
    ));
}

#[test]
fn duplicate_and_unknown_type_keys_are_errors() {
    let d = desc(&["T"], vec![], vec![ann("bound", "T: Debug"), ann("bound", "T: Clone")]);
    assert!(matches!(
        resolve_bounds(&d),
        Err(ConfigError { field: None, annotation: 1, rule: Rule::DuplicateKey })
    ));
    let u = desc(&["T"], vec![], vec![ann("bond", "T: Debug")]);
    assert!(matches!(
        resolve_bounds(&u),
        Err(ConfigError { field: None, annotation: 0, rule: Rule::UnknownKey })
    ));
}

#[test]
fn builder_plan_of_command() {
    let d = command();
    let p = plan_builder(&d).unwrap();
    assert_eq!(
        p.fields,
        vec![
            BuilderField { class: FieldClass::Required, appender: None },
            BuilderField { class: FieldClass::Repeated, appender: Some(0) },
            BuilderField { class: FieldClass::Optional, appender: None },
        ]
    );
}

#[test]
fn builder_appends_in_call_order_and_leaves_optional_absent() {
    let d = command();
    let p = plan_builder(&d).unwrap();
    let mut b: BuilderState<String> = BuilderState::new(&p);
    b.set(0, "cargo".to_string());
    b.append(1, "build".to_string());
    b.append(1, "--release".to_string());
    let v = b.build().unwrap();
    assert_eq!(v[0], vec!["cargo".to_string()]);
    assert_eq!(v[1], vec!["build".to_string(), "--release".to_string()]);
    assert!(v[2].is_empty());
}

#[test]
fn builder_without_required_field_names_it() {
    let d = command();
    let p = plan_builder(&d).unwrap();
    let mut b: BuilderState<String> = BuilderState::new(&p);
    b.append(1, "build".to_string());
    assert_eq!(b.build().unwrap_err(), vec![0]);
}

#[test]
fn builder_set_all_replaces_and_set_replaces() {
    let d = command();
    let p = plan_builder(&d).unwrap();
    let mut b: BuilderState<String> = BuilderState::new(&p);
    b.append(1, "x".to_string());
    b.set_all(1, vec!["a".to_string()]);
    b.set(0, "one".to_string());
    b.set(0, "two".to_string());
    b.set(2, "PATH".to_string());
    let v = b.build().unwrap();
    assert_eq!(v[0], vec!["two".to_string()]);
    assert_eq!(v[1], vec!["a".to_string()]);
    assert_eq!(v[2], vec!["PATH".to_string()]);
}

#[test]
fn self_named_alias_gives_no_appender_only_on_vec() {
    let d = desc(&[], vec![field("args", wrap("Vec", name("String")), vec![ann("each", "args")])], vec![]);
    let p = plan_builder(&d).unwrap();
    assert_eq!(p.fields, vec![BuilderField { class: FieldClass::Repeated, appender: None }]);
    let on_string = desc(&[], vec![field("name", name("String"), vec![ann("each", "name")])], vec![]);
    assert_eq!(
        plan_builder(&on_string).err(),
        Some(ConfigError { field: Some(0), annotation: 0, rule: Rule::AliasOnNonRepeated })
    );
}

#[test]
fn alias_errors() {
    let on_string = desc(&[], vec![field("name", name("String"), vec![ann("each", "n")])], vec![]);
    assert_eq!(
        plan_builder(&on_string).err(),
        Some(ConfigError { field: Some(0), annotation: 0, rule: Rule::AliasOnNonRepeated })
    );
    let keyword = desc(&[], vec![field("args", wrap("Vec", name("String")), vec![ann("each", "fn")])], vec![]);
    assert_eq!(
        plan_builder(&keyword).err(),
        Some(ConfigError { field: Some(0), annotation: 0, rule: Rule::InvalidAlias })
    );
    let digits = desc(&[], vec![field("args", wrap("Vec", name("String")), vec![ann("each", "1arg")])], vec![]);
    assert_eq!(
        plan_builder(&digits).err(),
        Some(ConfigError { field: Some(0), annotation: 0, rule: Rule::InvalidAlias })
    );
    let spaced = desc(&[], vec![field("args", wrap("Vec", name("String")), vec![ann("each", " arg ")])], vec![]);
    assert_eq!(
        plan_builder(&spaced).err(),
        Some(ConfigError { field: Some(0), annotation: 0, rule: Rule::InvalidAlias })
    );
    let commented = desc(&[], vec![field("args", wrap("Vec", name("String")), vec![ann("each", "arg /* x */")])], vec![]);
    assert_eq!(
        plan_builder(&commented).err(),
        Some(ConfigError { field: Some(0), annotation: 0, rule: Rule::InvalidAlias })
    );
    let twice = desc(
        &[],
        vec![field("x", name("u8"), vec![]), field("args", wrap("Vec", name("String")), vec![ann("each", "a"), ann("each", "b")])],
        vec![],
    );
    assert_eq!(
        plan_builder(&twice).err(),
        Some(ConfigError { field: Some(1), annotation: 1, rule: Rule::DuplicateKey })
    );
    let unknown = desc(&[], vec![field("args", wrap("Vec", name("String")), vec![ann("every", "a")])], vec![]);
    assert_eq!(
        plan_builder(&unknown).err(),
        Some(ConfigError { field: Some(0), annotation: 0, rule: Rule::UnknownKey })
    );
    let on_type = desc(&[], vec![], vec![ann("each", "a")]);
    assert_eq!(
        plan_builder(&on_type).err(),
        Some(ConfigError { field: None, annotation: 0, rule: Rule::UnknownKey })
    );
}

#[test]
fn debug_plan_keeps_format_template() {
    let d = desc(&[], vec![field("value", name("i32"), vec![ann("format", "0x{:X}")])], vec![]);
    let p = plan_debug(&d).unwrap();
    assert_eq!(p.templates, vec![Some(0)]);
    assert_eq!(d.fields[0].attributes[0].value, "0x{:X}");
    assert_eq!(format!("0x{:X}", 255), "0xFF");
    match p.bounds {
        Bounds::Inferred { bounds } => assert!(bounds.params.is_empty()),
        _ => panic!("expected inferred bounds"),
    }
}

#[test]
fn debug_plan_reports_duplicate_template() {
    let d = desc(
        &[],
        vec![field("value", name("i32"), vec![ann("format", "{}"), ann("format", "{:?}")])],
        vec![],
    );
    assert!(matches!(
        plan_debug(&d),
        Err(ConfigError { field: Some(0), annotation: 1, rule: Rule::DuplicateKey })
    ));
}

#[test]
fn plans_are_repeatable() {
    let d = command();
    assert_eq!(plan_builder(&d).unwrap().fields, plan_builder(&d).unwrap().fields);
    let g = desc(&["T"], vec![field("value", name("T"), vec![])], vec![]);
    let a = infer_bounds(&g);
    let b = infer_bounds(&g);
    assert_eq!(a.params, b.params);
    assert_eq!(a.assoc.len(), b.assoc.len());
}
