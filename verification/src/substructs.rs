//! Traversal of every variant of a type, assembling the match arms.

use vstd::prelude::*;
use crate::binding::BindingInfo;
use crate::binding::bindings_match;
use crate::descriptor::Body;
use crate::descriptor::TypeDescriptor;
use crate::descriptor::descriptor_wf;
use crate::descriptor::num_fields;
use crate::descriptor::num_variants;
use crate::descriptor::shape_wf;
use crate::descriptor::variant_ident;
use crate::descriptor::variant_path;
use crate::descriptor::variant_shape;
use crate::options::BindOpts;
use crate::options::BindStyle;
use crate::pattern::match_pattern;
use crate::pattern::pattern_seq;
use crate::tokens::Tokens;

verus! {

/// The pattern of variant `v` of the descriptor, under the given style
/// and prefix.
pub open spec fn variant_pattern(
    input: TypeDescriptor,
    v: int,
    style: BindStyle,
    prefix: Seq<char>,
) -> Seq<Seq<char>> {
    pattern_seq(variant_path(input, v), variant_shape(input, v), style, prefix)
}

/// The tokens of one match arm: the pattern, an arrow, and the body in
/// braces.
pub open spec fn arm_seq(pat: Seq<Seq<char>>, body: Seq<Seq<char>>) -> Seq<Seq<char>> {
    pat + seq!["=>"@, "{"@] + body + seq!["}"@]
}

/// The first `n` match arms, in variant declaration order, with
/// `bodies[v]` as the body of arm `v`.
pub open spec fn arms_concat(
    input: TypeDescriptor,
    style: BindStyle,
    prefix: Seq<char>,
    bodies: Seq<Seq<Seq<char>>>,
    n: int,
) -> Seq<Seq<char>>
    decreases n,
{
    if n <= 0 {
        Seq::empty()
    } else {
        arms_concat(input, style, prefix, bodies, n - 1) + arm_seq(
            variant_pattern(input, n - 1, style, prefix),
            bodies[n - 1],
        )
    }
}

/// A binding list that some variant of the descriptor can hand to the
/// per-variant callback.
pub open spec fn valid_bindings(
    input: TypeDescriptor,
    prefix: Seq<char>,
    bs: Seq<BindingInfo>,
) -> bool {
    exists|v: int|
        0 <= v < num_variants(input) && bindings_match(
            prefix,
            num_fields(#[trigger] variant_shape(input, v)),
            bs,
        )
}

/// `body` is a possible output of the per-variant callback on variant
/// `v`'s binding list.
pub open spec fn variant_body_ok<F: Fn(Vec<BindingInfo>) -> Tokens>(
    func: F,
    input: TypeDescriptor,
    prefix: Seq<char>,
    v: int,
    body: Seq<Seq<char>>,
) -> bool {
    exists|bs: Vec<BindingInfo>, t: Tokens|
        {
            &&& #[trigger] call_ensures(func, (bs,), t)
            &&& bindings_match(prefix, num_fields(variant_shape(input, v)), bs@)
            &&& t@ == body
        }
}

/// One possible body per variant, each produced by the callback from that
/// variant's binding list.
pub open spec fn bodies_ok<F: Fn(Vec<BindingInfo>) -> Tokens>(
    func: F,
    input: TypeDescriptor,
    prefix: Seq<char>,
    bodies: Seq<Seq<Seq<char>>>,
) -> bool {
    &&& bodies.len() == num_variants(input)
    &&& forall|v: int|
        0 <= v < num_variants(input) ==> variant_body_ok(
            func,
            input,
            prefix,
            v,
            #[trigger] bodies[v],
        )
}

/// The first `n` arms depend only on the first `n` bodies.
proof fn lemma_arms_concat_agree(
    input: TypeDescriptor,
    style: BindStyle,
    prefix: Seq<char>,
    b1: Seq<Seq<Seq<char>>>,
    b2: Seq<Seq<Seq<char>>>,
    n: int,
)
    requires
        forall|k: int| 0 <= k < n ==> b1[k] == b2[k],
    ensures
        arms_concat(input, style, prefix, b1, n) == arms_concat(input, style, prefix, b2, n),
    decreases n,
{
    if n > 0 {
        lemma_arms_concat_agree(input, style, prefix, b1, b2, n - 1);
    }
}

/// Generate one match branch for each substructure (variant) of the given
/// descriptor: a single branch matched by the bare type name for a
/// struct, one branch per case matched by `Type :: Variant` for an enum.
///
/// For each variant, in declaration order, the pattern is synthesized by
/// [`match_pattern`], `func` is invoked exactly once with that variant's
/// binding list, and its return value becomes the branch's braced body.
/// The result is the concatenation of all branches: the body of a
/// complete match expression over the described type.
pub fn match_substructs<F: Fn(Vec<BindingInfo>) -> Tokens>(
    input: &TypeDescriptor,
    options: &BindOpts,
    func: F,
) -> (r: Tokens)
    requires
        descriptor_wf(*input),
        forall|bs: Vec<BindingInfo>|
            valid_bindings(*input, options.spec_prefix(), bs@) ==> #[trigger] call_requires(
                func,
                (bs,),
            ),
    ensures
        exists|bodies: Seq<Seq<Seq<char>>>|
            {
                &&& #[trigger] bodies_ok(func, *input, options.spec_prefix(), bodies)
                &&& r@ == arms_concat(
                    *input,
                    options.spec_style(),
                    options.spec_prefix(),
                    bodies,
                    num_variants(*input) as int,
                )
            },
{
    let ghost style = options.spec_style();
    let ghost prefix = options.spec_prefix();
    let mut t = Tokens::new();
    let ghost mut bodies: Seq<Seq<Seq<char>>> = Seq::empty();

    match &input.body {
        Body::Struct(shape) => {
            let mut name = Tokens::new();
            name.append(input.ident.as_str());
            proof {
                assert(name@ =~= variant_path(*input, 0));
                assert(variant_shape(*input, 0) == *shape);
            }
            let (pat, bindings) = match_pattern(&name, shape, options);
            let ghost bs_val = bindings;
            proof {
                assert(valid_bindings(*input, prefix, bindings@)) by {
                    assert(bindings_match(
                        prefix,
                        num_fields(variant_shape(*input, 0)),
                        bindings@,
                    ));
                }
                assert(call_requires(func, (bindings,)));
            }
            let body = func(bindings);
            let ghost body_val = body;
            t.append_tokens(&pat);
            t.append("=>");
            t.append("{");
            t.append_tokens(&body);
            t.append("}");
            proof {
                bodies = bodies.push(body@);
                assert(variant_body_ok(func, *input, prefix, 0, bodies[0])) by {
                    assert(call_ensures(func, (bs_val,), body_val));
                }
                assert(t@ =~= arm_seq(variant_pattern(*input, 0, style, prefix), bodies[0]));
                assert(arms_concat(*input, style, prefix, bodies, 1) == arms_concat(
                    *input,
                    style,
                    prefix,
                    bodies,
                    0,
                ) + arm_seq(variant_pattern(*input, 0, style, prefix), bodies[0]));
                assert(t@ =~= arms_concat(*input, style, prefix, bodies, 1));
                assert(bodies_ok(func, *input, prefix, bodies));
            }
        },
        Body::Enum(variants) => {
            let n = variants.len();
            let mut v: usize = 0;
            while v < n
                invariant
                    n == variants@.len(),
                    v <= n,
                    input.body == Body::Enum(*variants),
                    num_variants(*input) == n as nat,
                    descriptor_wf(*input),
                    options.spec_style() == style,
                    options.spec_prefix() == prefix,
                    forall|bs: Vec<BindingInfo>|
                        valid_bindings(*input, prefix, bs@) ==> #[trigger] call_requires(
                            func,
                            (bs,),
                        ),
                    bodies.len() == v,
                    forall|k: int|
                        0 <= k < v ==> variant_body_ok(
                            func,
                            *input,
                            prefix,
                            k,
                            #[trigger] bodies[k],
                        ),
                    t@ == arms_concat(*input, style, prefix, bodies, v as int),
                decreases n - v,
            {
                let ghost bodies_pre = bodies;
                let variant = &variants[v];
                let mut name = Tokens::new();
                name.append(input.ident.as_str());
                name.append("::");
                name.append(variant.ident.as_str());
                proof {
                    assert(variant_path(*input, v as int) == seq![
                        input.ident@,
                        "::"@,
                        variants@[v as int].ident@,
                    ]);
                    assert(name@ =~= variant_path(*input, v as int));
                    assert(variant_shape(*input, v as int) == variants@[v as int].shape);
                    assert(shape_wf(variant_shape(*input, v as int)));
                }
                let (pat, bindings) = match_pattern(&name, &variant.shape, options);
                let ghost bs_val = bindings;
                proof {
                    assert(valid_bindings(*input, prefix, bindings@)) by {
                        assert(bindings_match(
                            prefix,
                            num_fields(variant_shape(*input, v as int)),
                            bindings@,
                        ));
                    }
                    assert(call_requires(func, (bindings,)));
                }
                let body = func(bindings);
                let ghost body_val = body;
                t.append_tokens(&pat);
                t.append("=>");
                t.append("{");
                t.append_tokens(&body);
                t.append("}");
                proof {
                    bodies = bodies.push(body@);
                    assert(variant_body_ok(func, *input, prefix, v as int, bodies[v as int]))
                        by {
                        assert(call_ensures(func, (bs_val,), body_val));
                    }
                    lemma_arms_concat_agree(*input, style, prefix, bodies_pre, bodies, v as int);
                    assert(arms_concat(*input, style, prefix, bodies, v as int + 1)
                        == arms_concat(*input, style, prefix, bodies, v as int) + arm_seq(
                        variant_pattern(*input, v as int, style, prefix),
                        bodies[v as int],
                    ));
                    assert(t@ =~= arms_concat(*input, style, prefix, bodies, v as int + 1));
                    assert forall|k: int| 0 <= k < v + 1 implies variant_body_ok(
                        func,
                        *input,
                        prefix,
                        k,
                        #[trigger] bodies[k],
                    ) by {
                        if k < v {
                            assert(bodies[k] == bodies_pre[k]);
                        }
                    }
                }
                v = v + 1;
            }
            proof {
                assert(bodies_ok(func, *input, prefix, bodies));
            }
        },
    }
    t
}

/// The unit-valued expression closing every arm body the field iterator
/// builds, so that all arms agree on the unit result type.
pub open spec fn unit_terminator() -> Seq<Seq<char>> {
    seq!["("@, ")"@]
}

/// One per-field fragment wrapped in its own braced scope, so that
/// declarations local to one field's fragment cannot leak into the next.
pub open spec fn scoped(frag: Seq<Seq<char>>) -> Seq<Seq<char>> {
    seq!["{"@] + frag + seq!["}"@]
}

/// The first `n` per-field fragments, each in its own scope, in field
/// declaration order.
pub open spec fn scoped_concat(frags: Seq<Seq<Seq<char>>>, n: int) -> Seq<Seq<char>>
    decreases n,
{
    if n <= 0 {
        Seq::empty()
    } else {
        scoped_concat(frags, n - 1) + scoped(frags[n - 1])
    }
}

/// The arm body the field iterator builds for one variant: every field's
/// fragment in its own scope, then the unit terminator.  A variant with
/// no fields gets exactly the unit terminator.
pub open spec fn fields_body(frags: Seq<Seq<Seq<char>>>) -> Seq<Seq<char>> {
    scoped_concat(frags, frags.len() as int) + unit_terminator()
}

/// A binding that some field of some variant of the descriptor can hand
/// to the per-field callback.
pub open spec fn valid_binding(input: TypeDescriptor, prefix: Seq<char>, bi: BindingInfo) -> bool {
    exists|v: int|
        0 <= v < num_variants(input) && bi.field_index < num_fields(
            #[trigger] variant_shape(input, v),
        ) && bi.ident@ == crate::idents::ident_seq(prefix, bi.field_index as nat)
}

/// `frag` is a possible output of the per-field callback on the binding
/// of field `i`.
pub open spec fn field_frag_ok<F: Fn(BindingInfo) -> Tokens>(
    func: F,
    prefix: Seq<char>,
    i: int,
    frag: Seq<Seq<char>>,
) -> bool {
    exists|bi: BindingInfo, t: Tokens|
        {
            &&& #[trigger] call_ensures(func, (bi,), t)
            &&& bi.ident@ == crate::idents::ident_seq(prefix, i as nat)
            &&& bi.field_index == i
            &&& t@ == frag
        }
}

/// One possible fragment per field of variant `v`, each produced by the
/// per-field callback, in field declaration order.
pub open spec fn variant_frags_ok<F: Fn(BindingInfo) -> Tokens>(
    func: F,
    input: TypeDescriptor,
    prefix: Seq<char>,
    v: int,
    frags: Seq<Seq<Seq<char>>>,
) -> bool {
    &&& frags.len() == num_fields(variant_shape(input, v))
    &&& forall|i: int| 0 <= i < frags.len() ==> field_frag_ok(func, prefix, i, #[trigger] frags[i])
}

/// One fragment list per variant, each as [`variant_frags_ok`] demands.
pub open spec fn all_frags_ok<F: Fn(BindingInfo) -> Tokens>(
    func: F,
    input: TypeDescriptor,
    prefix: Seq<char>,
    allfrags: Seq<Seq<Seq<Seq<char>>>>,
) -> bool {
    &&& allfrags.len() == num_variants(input)
    &&& forall|v: int|
        0 <= v < num_variants(input) ==> variant_frags_ok(
            func,
            input,
            prefix,
            v,
            #[trigger] allfrags[v],
        )
}

/// The first `n` scoped fragments depend only on the first `n` entries.
proof fn lemma_scoped_concat_agree(f1: Seq<Seq<Seq<char>>>, f2: Seq<Seq<Seq<char>>>, n: int)
    requires
        forall|k: int| 0 <= k < n ==> f1[k] == f2[k],
    ensures
        scoped_concat(f1, n) == scoped_concat(f2, n),
    decreases n,
{
    if n > 0 {
        lemma_scoped_concat_agree(f1, f2, n - 1);
    }
}

/// Builds the arm body for one variant: calls `func` once per binding, in
/// field order, wraps each returned fragment in its own scope, and closes
/// with the unit terminator.  `v` names the variant the bindings belong
/// to, so that the callback's precondition can be discharged.
fn build_arm_body<F: Fn(BindingInfo) -> Tokens>(
    input: &TypeDescriptor,
    options: &BindOpts,
    func: &F,
    bindings: Vec<BindingInfo>,
    Ghost(v): Ghost<int>,
) -> (body: Tokens)
    requires
        0 <= v < num_variants(*input),
        bindings_match(
            options.spec_prefix(),
            num_fields(variant_shape(*input, v)),
            bindings@,
        ),
        forall|bi: BindingInfo|
            valid_binding(*input, options.spec_prefix(), bi) ==> #[trigger] call_requires(
                *func,
                (bi,),
            ),
    ensures
        exists|frags: Seq<Seq<Seq<char>>>|
            {
                &&& #[trigger] variant_frags_ok(*func, *input, options.spec_prefix(), v, frags)
                &&& body@ == fields_body(frags)
            },
{
    let ghost prefix = options.spec_prefix();
    let ghost orig = bindings@;
    let ghost mut frags: Seq<Seq<Seq<char>>> = Seq::empty();
    let mut bindings = bindings;
    let mut body = Tokens::new();
    let m = bindings.len();
    let mut j: usize = 0;
    while j < m
        invariant
            m == orig.len(),
            j <= m,
            bindings@ == orig.subrange(j as int, m as int),
            0 <= v < num_variants(*input),
            num_fields(variant_shape(*input, v)) == m as nat,
            options.spec_prefix() == prefix,
            bindings_match(prefix, m as nat, orig),
            forall|bi: BindingInfo|
                valid_binding(*input, prefix, bi) ==> #[trigger] call_requires(*func, (bi,)),
            frags.len() == j,
            forall|k: int| 0 <= k < j ==> field_frag_ok(*func, prefix, k, #[trigger] frags[k]),
            body@ == scoped_concat(frags, j as int),
        decreases m - j,
    {
        let ghost frags_pre = frags;
        let bi = bindings.remove(0);
        proof {
            assert(bindings@ =~= orig.subrange(j as int + 1, m as int));
            assert(bi == orig[j as int]);
            assert(valid_binding(*input, prefix, bi)) by {
                assert(bi.field_index < num_fields(variant_shape(*input, v)));
            }
            assert(call_requires(*func, (bi,)));
        }
        let ghost bi_val = bi;
        body.append("{");
        let frag = func(bi);
        let ghost frag_val = frag;
        body.append_tokens(&frag);
        body.append("}");
        proof {
            frags = frags.push(frag_val@);
            assert(field_frag_ok(*func, prefix, j as int, frags[j as int])) by {
                assert(call_ensures(*func, (bi_val,), frag_val));
            }
            lemma_scoped_concat_agree(frags_pre, frags, j as int);
            assert(scoped_concat(frags, j as int + 1) == scoped_concat(frags, j as int)
                + scoped(frags[j as int]));
            assert(body@ =~= scoped_concat(frags, j as int + 1));
            assert forall|k: int| 0 <= k < j + 1 implies field_frag_ok(
                *func,
                prefix,
                k,
                #[trigger] frags[k],
            ) by {
                if k < j {
                    assert(frags[k] == frags_pre[k]);
                }
            }
        }
        j = j + 1;
    }
    body.append("(");
    body.append(")");
    proof {
        assert(body@ =~= fields_body(frags));
        assert(variant_frags_ok(*func, *input, prefix, v, frags));
    }
    body
}

/// Generate the body of a match expression that runs `func` once per
/// field of the matched value.
///
/// For every variant of the descriptor, in declaration order, this
/// produces one match branch: the destructuring pattern on the left and,
/// on the right, each field's callback output in its own braced scope —
/// in field declaration order — followed by a unit-valued terminator, so
/// that every arm (a unit variant's included) evaluates to the unit
/// value.  The fragments are meant to act by side effect, for instance by
/// accumulating into a variable surrounding the match.
pub fn each_field<F: Fn(BindingInfo) -> Tokens>(
    input: &TypeDescriptor,
    options: &BindOpts,
    func: F,
) -> (r: Tokens)
    requires
        descriptor_wf(*input),
        forall|bi: BindingInfo|
            valid_binding(*input, options.spec_prefix(), bi) ==> #[trigger] call_requires(
                func,
                (bi,),
            ),
    ensures
        exists|allfrags: Seq<Seq<Seq<Seq<char>>>>|
            {
                &&& #[trigger] all_frags_ok(func, *input, options.spec_prefix(), allfrags)
                &&& r@ == arms_concat(
                    *input,
                    options.spec_style(),
                    options.spec_prefix(),
                    Seq::new(allfrags.len(), |v: int| fields_body(allfrags[v])),
                    num_variants(*input) as int,
                )
            },
{
    let ghost style = options.spec_style();
    let ghost prefix = options.spec_prefix();
    let mut t = Tokens::new();
    let ghost mut allfrags: Seq<Seq<Seq<Seq<char>>>> = Seq::empty();

    match &input.body {
        Body::Struct(shape) => {
            let mut name = Tokens::new();
            name.append(input.ident.as_str());
            proof {
                assert(name@ =~= variant_path(*input, 0));
                assert(variant_shape(*input, 0) == *shape);
            }
            let (pat, bindings) = match_pattern(&name, shape, options);
            let body = build_arm_body(input, options, &func, bindings, Ghost(0));
            t.append_tokens(&pat);
            t.append("=>");
            t.append("{");
            t.append_tokens(&body);
            t.append("}");
            proof {
                let frags0 = choose|frags: Seq<Seq<Seq<char>>>|
                    {
                        &&& #[trigger] variant_frags_ok(func, *input, prefix, 0, frags)
                        &&& body@ == fields_body(frags)
                    };
                allfrags = allfrags.push(frags0);
                let bodies = Seq::new(allfrags.len(), |v: int| fields_body(allfrags[v]));
                assert(t@ =~= arm_seq(variant_pattern(*input, 0, style, prefix), bodies[0]));
                assert(arms_concat(*input, style, prefix, bodies, 1) == arms_concat(
                    *input,
                    style,
                    prefix,
                    bodies,
                    0,
                ) + arm_seq(variant_pattern(*input, 0, style, prefix), bodies[0]));
                assert(t@ =~= arms_concat(*input, style, prefix, bodies, 1));
                assert(all_frags_ok(func, *input, prefix, allfrags));
            }
        },
        Body::Enum(variants) => {
            let n = variants.len();
            let mut v: usize = 0;
            while v < n
                invariant
                    n == variants@.len(),
                    v <= n,
                    input.body == Body::Enum(*variants),
                    num_variants(*input) == n as nat,
                    descriptor_wf(*input),
                    options.spec_style() == style,
                    options.spec_prefix() == prefix,
                    forall|bi: BindingInfo|
                        valid_binding(*input, prefix, bi) ==> #[trigger] call_requires(
                            func,
                            (bi,),
                        ),
                    allfrags.len() == v,
                    forall|k: int|
                        0 <= k < v ==> variant_frags_ok(
                            func,
                            *input,
                            prefix,
                            k,
                            #[trigger] allfrags[k],
                        ),
                    t@ == arms_concat(
                        *input,
                        style,
                        prefix,
                        Seq::new(allfrags.len(), |k: int| fields_body(allfrags[k])),
                        v as int,
                    ),
                decreases n - v,
            {
                let ghost allfrags_pre = allfrags;
                let variant = &variants[v];
                let mut name = Tokens::new();
                name.append(input.ident.as_str());
                name.append("::");
                name.append(variant.ident.as_str());
                proof {
                    assert(variant_path(*input, v as int) == seq![
                        input.ident@,
                        "::"@,
                        variants@[v as int].ident@,
                    ]);
                    assert(name@ =~= variant_path(*input, v as int));
                    assert(variant_shape(*input, v as int) == variants@[v as int].shape);
                    assert(shape_wf(variant_shape(*input, v as int)));
                }
                let (pat, bindings) = match_pattern(&name, &variant.shape, options);
                let body = build_arm_body(input, options, &func, bindings, Ghost(v as int));
                t.append_tokens(&pat);
                t.append("=>");
                t.append("{");
                t.append_tokens(&body);
                t.append("}");
                proof {
                    let fragsv = choose|frags: Seq<Seq<Seq<char>>>|
                        {
                            &&& #[trigger] variant_frags_ok(
                                func,
                                *input,
                                prefix,
                                v as int,
                                frags,
                            )
                            &&& body@ == fields_body(frags)
                        };
                    allfrags = allfrags.push(fragsv);
                    let bodies_pre = Seq::new(
                        allfrags_pre.len(),
                        |k: int| fields_body(allfrags_pre[k]),
                    );
                    let bodies = Seq::new(allfrags.len(), |k: int| fields_body(allfrags[k]));
                    lemma_arms_concat_agree(*input, style, prefix, bodies_pre, bodies, v as int);
                    assert(arms_concat(*input, style, prefix, bodies, v as int + 1)
                        == arms_concat(*input, style, prefix, bodies, v as int) + arm_seq(
                        variant_pattern(*input, v as int, style, prefix),
                        bodies[v as int],
                    ));
                    assert(t@ =~= arms_concat(*input, style, prefix, bodies, v as int + 1));
                    assert forall|k: int| 0 <= k < v + 1 implies variant_frags_ok(
                        func,
                        *input,
                        prefix,
                        k,
                        #[trigger] allfrags[k],
                    ) by {
                        if k < v {
                            assert(allfrags[k] == allfrags_pre[k]);
                        }
                    }
                }
                v = v + 1;
            }
            proof {
                assert(all_frags_ok(func, *input, prefix, allfrags));
            }
        },
    }
    t
}

/// For an enum, every arm's pattern opens with the `Type :: Variant`
/// path of its variant; together with the matcher's own guarantee — one
/// arm per variant, concatenated in declaration order — this pins the K
/// arms of a K-variant enum.
pub proof fn lemma_enum_arm_paths(
    input: TypeDescriptor,
    v: int,
    style: BindStyle,
    prefix: Seq<char>,
)
    requires
        input.body is Enum,
        0 <= v < num_variants(input),
    ensures
        variant_pattern(input, v, style, prefix).len() >= 3,
        variant_pattern(input, v, style, prefix)[0] == input.ident@,
        variant_pattern(input, v, style, prefix)[1] == "::"@,
        variant_pattern(input, v, style, prefix)[2] == variant_ident(input, v),
{
    let path = variant_path(input, v);
    assert(path.len() == 3);
}

/// The arm body the field iterator builds for a variant with no fields
/// is exactly the unit terminator, with no field-scoped fragments.
pub proof fn lemma_empty_variant_body<F: Fn(BindingInfo) -> Tokens>(
    func: F,
    input: TypeDescriptor,
    prefix: Seq<char>,
    v: int,
    frags: Seq<Seq<Seq<char>>>,
)
    requires
        variant_frags_ok(func, input, prefix, v, frags),
        num_fields(variant_shape(input, v)) == 0,
    ensures
        fields_body(frags) == unit_terminator(),
{
    assert(fields_body(frags) =~= unit_terminator());
}

} // verus!
