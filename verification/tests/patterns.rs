use synstructure::{binding_ident, BindOpts, BindStyle, Field, FieldShape, Tokens};

fn strs(xs: &[&str]) -> Vec<String> {
    xs.iter().map(|s| s.to_string()).collect()
}

fn named_field(name: &str) -> Field {
    Field { ident: Some(name.to_string()), ty: "i32".to_string(), attrs: Vec::new() }
}

fn unnamed_field() -> Field {
    Field { ident: None, ty: "i32".to_string(), attrs: Vec::new() }
}

fn name_tokens(name: &str) -> Tokens {
    let mut t = Tokens::new();
    t.append(name);
    t
}

#[test]
fn unit_shape_gives_bare_name_and_no_bindings() {
    let opts = BindOpts::new(BindStyle::Ref);
    let shape = FieldShape::Unit;
    let (pat, bindings) = synstructure::match_pattern(&name_tokens("A"), &shape, &opts);
    assert_eq!(pat.toks, strs(&["A"]));
    assert_eq!(bindings.len(), 0);
}

#[test]
fn named_struct_ref_default_prefix() {
    let opts = BindOpts::new(BindStyle::Ref);
    let shape = FieldShape::Named(vec![named_field("a"), named_field("b")]);
    let (pat, bindings) = synstructure::match_pattern(&name_tokens("A"), &shape, &opts);
    assert_eq!(
        pat.toks,
        strs(&["A", "{", "a", ":", "ref", "__binding_0", ",", "b", ":", "ref", "__binding_1", ",", "}"])
    );
    assert_eq!(bindings.len(), 2);
    assert_eq!(bindings[0].ident, "__binding_0");
    assert_eq!(bindings[0].field_index, 0);
    assert_eq!(bindings[1].ident, "__binding_1");
    assert_eq!(bindings[1].field_index, 1);
}

#[test]
fn tuple_shape_slots_in_declaration_order() {
    let opts = BindOpts::new(BindStyle::Ref);
    let shape = FieldShape::Tuple(vec![unnamed_field(), unnamed_field(), unnamed_field()]);
    let (pat, bindings) = synstructure::match_pattern(&name_tokens("T"), &shape, &opts);
    assert_eq!(
        pat.toks,
        strs(&["T", "(", "ref", "__binding_0", ",", "ref", "__binding_1", ",", "ref", "__binding_2", ",", ")"])
    );
    assert_eq!(bindings.len(), 3);
    for (i, b) in bindings.iter().enumerate() {
        assert_eq!(b.ident, format!("__binding_{}", i));
        assert_eq!(b.field_index, i);
    }
}

#[test]
fn move_style_adds_no_marker() {
    let opts = BindOpts::new(BindStyle::Move);
    let shape = FieldShape::Tuple(vec![unnamed_field()]);
    let (pat, _) = synstructure::match_pattern(&name_tokens("T"), &shape, &opts);
    assert_eq!(pat.toks, strs(&["T", "(", "__binding_0", ",", ")"]));
}

#[test]
fn move_mut_style_adds_mut_marker() {
    let opts = BindOpts::new(BindStyle::MoveMut);
    let shape = FieldShape::Tuple(vec![unnamed_field()]);
    let (pat, _) = synstructure::match_pattern(&name_tokens("T"), &shape, &opts);
    assert_eq!(pat.toks, strs(&["T", "(", "mut", "__binding_0", ",", ")"]));
}

#[test]
fn ref_mut_style_adds_both_markers() {
    let opts = BindOpts::new(BindStyle::RefMut);
    let shape = FieldShape::Tuple(vec![unnamed_field()]);
    let (pat, _) = synstructure::match_pattern(&name_tokens("T"), &shape, &opts);
    assert_eq!(pat.toks, strs(&["T", "(", "ref", "mut", "__binding_0", ",", ")"]));
}

#[test]
fn custom_prefix_names_bindings() {
    let opts = BindOpts::with_prefix(BindStyle::Ref, "other".to_string());
    let shape = FieldShape::Named(vec![named_field("x")]);
    let (pat, bindings) = synstructure::match_pattern(&name_tokens("S"), &shape, &opts);
    assert_eq!(pat.toks, strs(&["S", "{", "x", ":", "ref", "other_0", ",", "}"]));
    assert_eq!(bindings[0].ident, "other_0");
}

#[test]
fn style_promotes_to_options_with_default_prefix() {
    let opts: BindOpts = BindStyle::Ref.into();
    let shape = FieldShape::Tuple(vec![unnamed_field()]);
    let (pat, _) = synstructure::match_pattern(&name_tokens("T"), &shape, &opts);
    assert_eq!(pat.toks, strs(&["T", "(", "ref", "__binding_0", ",", ")"]));
}

#[test]
fn naming_is_deterministic_across_runs() {
    let opts = BindOpts::new(BindStyle::Ref);
    let shape = FieldShape::Tuple(vec![unnamed_field(), unnamed_field()]);
    let (_, first) = synstructure::match_pattern(&name_tokens("T"), &shape, &opts);
    let (_, second) = synstructure::match_pattern(&name_tokens("T"), &shape, &opts);
    assert_eq!(first.len(), second.len());
    for (a, b) in first.iter().zip(second.iter()) {
        assert_eq!(a.ident, b.ident);
        assert_eq!(a.field_index, b.field_index);
    }
}

#[test]
fn binding_ident_renders_decimal_positions() {
    assert_eq!(binding_ident("__binding", 0), "__binding_0");
    assert_eq!(binding_ident("__binding", 9), "__binding_9");
    assert_eq!(binding_ident("p", 10), "p_10");
    assert_eq!(binding_ident("p", 105), "p_105");
    assert_eq!(binding_ident("", 7), "_7");
}

#[test]
fn bind_style_to_tokens_renders_markers() {
    let mut t = Tokens::new();
    BindStyle::Move.to_tokens(&mut t);
    assert_eq!(t.toks, strs(&[]));
    BindStyle::MoveMut.to_tokens(&mut t);
    assert_eq!(t.toks, strs(&["mut"]));
    BindStyle::Ref.to_tokens(&mut t);
    assert_eq!(t.toks, strs(&["mut", "ref"]));
    BindStyle::RefMut.to_tokens(&mut t);
    assert_eq!(t.toks, strs(&["mut", "ref", "ref", "mut"]));
}

#[test]
fn tokens_append_tokens_concatenates_in_order() {
    let mut a = Tokens::new();
    a.append("x");
    a.append("y");
    let mut b = Tokens::new();
    b.append("z");
    b.append_tokens(&a);
    assert_eq!(b.toks, strs(&["z", "x", "y"]));
    assert_eq!(b.len(), 3);
}
