use synstructure::{
    each_field, match_substructs, BindOpts, BindStyle, BindingInfo, Body, Field, FieldShape,
    Tokens, TypeDescriptor, Variant,
};

fn strs(xs: &[&str]) -> Vec<String> {
    xs.iter().map(|s| s.to_string()).collect()
}

fn named_field(name: &str) -> Field {
    Field { ident: Some(name.to_string()), ty: "i32".to_string(), attrs: Vec::new() }
}

fn unnamed_field() -> Field {
    Field { ident: None, ty: "i32".to_string(), attrs: Vec::new() }
}

fn marker_body(_bindings: Vec<BindingInfo>) -> Tokens {
    let mut t = Tokens::new();
    t.append("body");
    t
}

#[test]
fn struct_gives_single_arm_with_bare_name() {
    let input = TypeDescriptor {
        ident: "A".to_string(),
        body: Body::Struct(FieldShape::Named(vec![named_field("a"), named_field("b")])),
    };
    let opts = BindOpts::new(BindStyle::Ref);
    let t = match_substructs(&input, &opts, marker_body);
    assert_eq!(
        t.toks,
        strs(&[
            "A", "{", "a", ":", "ref", "__binding_0", ",", "b", ":", "ref", "__binding_1", ",",
            "}", "=>", "{", "body", "}",
        ])
    );
}

#[test]
fn enum_gives_one_arm_per_variant_in_order() {
    let input = TypeDescriptor {
        ident: "E".to_string(),
        body: Body::Enum(vec![
            Variant { ident: "U".to_string(), shape: FieldShape::Unit },
            Variant {
                ident: "T".to_string(),
                shape: FieldShape::Tuple(vec![unnamed_field(), unnamed_field()]),
            },
        ]),
    };
    let opts = BindOpts::new(BindStyle::Ref);
    let t = match_substructs(&input, &opts, marker_body);
    assert_eq!(
        t.toks,
        strs(&[
            "E", "::", "U", "=>", "{", "body", "}", "E", "::", "T", "(", "ref", "__binding_0",
            ",", "ref", "__binding_1", ",", ")", "=>", "{", "body", "}",
        ])
    );
}

#[test]
fn callback_runs_once_per_variant_with_its_bindings() {
    let input = TypeDescriptor {
        ident: "E".to_string(),
        body: Body::Enum(vec![
            Variant { ident: "U".to_string(), shape: FieldShape::Unit },
            Variant { ident: "P".to_string(), shape: FieldShape::Tuple(vec![unnamed_field()]) },
            Variant {
                ident: "Q".to_string(),
                shape: FieldShape::Named(vec![named_field("x"), named_field("y")]),
            },
        ]),
    };
    let opts = BindOpts::new(BindStyle::Move);
    let t = match_substructs(&input, &opts, |bindings: Vec<BindingInfo>| {
        let mut t = Tokens::new();
        t.append(&format!("n{}", bindings.len()));
        for b in &bindings {
            t.append(&b.ident);
        }
        t
    });
    assert_eq!(
        t.toks,
        strs(&[
            "E", "::", "U", "=>", "{", "n0", "}",
            "E", "::", "P", "(", "__binding_0", ",", ")", "=>", "{", "n1", "__binding_0", "}",
            "E", "::", "Q", "{", "x", ":", "__binding_0", ",", "y", ":", "__binding_1", ",", "}",
            "=>", "{", "n2", "__binding_0", "__binding_1", "}",
        ])
    );
}

#[test]
fn enum_with_no_variants_gives_no_arms() {
    let input = TypeDescriptor { ident: "E".to_string(), body: Body::Enum(Vec::new()) };
    let opts = BindOpts::new(BindStyle::Ref);
    let t = match_substructs(&input, &opts, marker_body);
    assert_eq!(t.toks, strs(&[]));
}

#[test]
fn each_field_scopes_each_fragment_and_ends_with_unit() {
    let input = TypeDescriptor {
        ident: "A".to_string(),
        body: Body::Struct(FieldShape::Named(vec![named_field("a"), named_field("b")])),
    };
    let opts = BindOpts::new(BindStyle::Ref);
    let t = each_field(&input, &opts, |bi: BindingInfo| {
        let mut t = Tokens::new();
        t.append("saw");
        t.append(&bi.ident);
        t
    });
    assert_eq!(
        t.toks,
        strs(&[
            "A", "{", "a", ":", "ref", "__binding_0", ",", "b", ":", "ref", "__binding_1", ",",
            "}", "=>", "{",
            "{", "saw", "__binding_0", "}",
            "{", "saw", "__binding_1", "}",
            "(", ")",
            "}",
        ])
    );
}

#[test]
fn each_field_on_fieldless_variant_gives_only_unit_terminator() {
    let input = TypeDescriptor {
        ident: "E".to_string(),
        body: Body::Enum(vec![Variant { ident: "U".to_string(), shape: FieldShape::Unit }]),
    };
    let opts = BindOpts::new(BindStyle::Ref);
    let t = each_field(&input, &opts, |bi: BindingInfo| {
        let mut t = Tokens::new();
        t.append(&bi.ident);
        t
    });
    assert_eq!(t.toks, strs(&["E", "::", "U", "=>", "{", "(", ")", "}"]));
}

#[test]
fn each_field_walks_fields_in_declaration_order() {
    let input = TypeDescriptor {
        ident: "T".to_string(),
        body: Body::Struct(FieldShape::Tuple(vec![
            unnamed_field(),
            unnamed_field(),
            unnamed_field(),
        ])),
    };
    let opts = BindOpts::with_prefix(BindStyle::RefMut, "f".to_string());
    let t = each_field(&input, &opts, |bi: BindingInfo| {
        let mut t = Tokens::new();
        t.append(&format!("at{}", bi.field_index));
        t
    });
    assert_eq!(
        t.toks,
        strs(&[
            "T", "(", "ref", "mut", "f_0", ",", "ref", "mut", "f_1", ",", "ref", "mut", "f_2",
            ",", ")", "=>", "{",
            "{", "at0", "}", "{", "at1", "}", "{", "at2", "}",
            "(", ")",
            "}",
        ])
    );
}

#[test]
fn binding_info_to_tokens_emits_its_identifier() {
    let bi = BindingInfo { ident: "__binding_3".to_string(), field_index: 3 };
    let mut t = Tokens::new();
    bi.to_tokens(&mut t);
    assert_eq!(t.toks, strs(&["__binding_3"]));
}
