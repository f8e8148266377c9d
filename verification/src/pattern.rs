//! Synthesis of one variant's destructuring pattern.

use vstd::prelude::*;
use crate::binding::BindingInfo;
use crate::binding::bindings_match;
use crate::descriptor::Field;
use crate::descriptor::FieldShape;
use crate::descriptor::field_name;
use crate::descriptor::num_fields;
use crate::descriptor::shape_fields;
use crate::descriptor::shape_wf;
use crate::idents::binding_ident;
use crate::idents::ident_seq;
use crate::options::BindOpts;
use crate::options::BindStyle;
use crate::tokens::Tokens;

verus! {

/// The tokens of one slot of a tuple pattern: the binding-mode markers,
/// the generated identifier for position `i`, and a trailing comma.
pub open spec fn tuple_slot(style: BindStyle, prefix: Seq<char>, i: nat) -> Seq<Seq<char>> {
    style.spec_tokens() + seq![ident_seq(prefix, i), ","@]
}

/// The tokens of the first `n` slots of a tuple pattern, in order.
pub open spec fn tuple_slots(style: BindStyle, prefix: Seq<char>, n: int) -> Seq<Seq<char>>
    decreases n,
{
    if n <= 0 {
        Seq::empty()
    } else {
        tuple_slots(style, prefix, n - 1) + tuple_slot(style, prefix, (n - 1) as nat)
    }
}

/// The tokens of one slot of a named pattern: the declared field name, a
/// colon, the binding-mode markers, the generated identifier for position
/// `i`, and a trailing comma.
pub open spec fn named_slot(style: BindStyle, prefix: Seq<char>, name: Seq<char>, i: nat) -> Seq<
    Seq<char>,
> {
    seq![name, ":"@] + style.spec_tokens() + seq![ident_seq(prefix, i), ","@]
}

/// The tokens of the first `n` slots of a named pattern, in order.
pub open spec fn named_slots(
    style: BindStyle,
    prefix: Seq<char>,
    fields: Seq<Field>,
    n: int,
) -> Seq<Seq<char>>
    decreases n,
{
    if n <= 0 {
        Seq::empty()
    } else {
        named_slots(style, prefix, fields, n - 1) + named_slot(
            style,
            prefix,
            field_name(fields[n - 1]),
            (n - 1) as nat,
        )
    }
}

/// The full pattern for one variant: the path tokens naming it, followed
/// by the destructuring suffix its shape calls for — nothing for `Unit`,
/// parenthesized slots for `Tuple`, braced name-to-binding slots for
/// `Named`.
pub open spec fn pattern_seq(
    path: Seq<Seq<char>>,
    shape: FieldShape,
    style: BindStyle,
    prefix: Seq<char>,
) -> Seq<Seq<char>> {
    match shape {
        FieldShape::Unit => path,
        FieldShape::Tuple(fields) => path + seq!["("@] + tuple_slots(
            style,
            prefix,
            fields@.len() as int,
        ) + seq![")"@],
        FieldShape::Named(fields) => path + seq!["{"@] + named_slots(
            style,
            prefix,
            fields@,
            fields@.len() as int,
        ) + seq!["}"@],
    }
}

/// Generate a match pattern binding every field of the given shape.
///
/// Returns the tokens that make up the pattern — `name` followed by the
/// shape's destructuring suffix — and one [`BindingInfo`] per field, in
/// declaration order, each pairing the generated identifier with the
/// position of the field it binds.  The identifiers are strictly
/// positional (`prefix_0`, `prefix_1`, ...), so they are pairwise distinct
/// within one variant whatever the declared field names are.
pub fn match_pattern(name: &Tokens, shape: &FieldShape, options: &BindOpts) -> (r: (
    Tokens,
    Vec<BindingInfo>,
))
    requires
        shape_wf(*shape),
    ensures
        r.0@ == pattern_seq(name@, *shape, options.spec_style(), options.spec_prefix()),
        bindings_match(options.spec_prefix(), num_fields(*shape), r.1@),
{
    let ghost style = options.spec_style();
    let ghost prefix = options.spec_prefix();
    let mut t = Tokens::new();
    let mut bindings: Vec<BindingInfo> = Vec::new();

    let binding = options.style();
    t.append_tokens(name);
    proof {
        assert(t@ =~= name@);
    }
    match shape {
        FieldShape::Unit => {},
        FieldShape::Tuple(fields) => {
            t.append("(");
            let n = fields.len();
            let mut i: usize = 0;
            while i < n
                invariant
                    n == fields@.len(),
                    i <= n,
                    binding == style,
                    options.spec_style() == style,
                    options.spec_prefix() == prefix,
                    t@ == name@ + seq!["("@] + tuple_slots(style, prefix, i as int),
                    bindings_match(prefix, i as nat, bindings@),
                decreases n - i,
            {
                let ghost bs_pre = bindings@;
                let ident = binding_ident(options.prefix(), i);
                binding.to_tokens(&mut t);
                t.append_string(ident.clone());
                t.append(",");
                bindings.push(BindingInfo { ident, field_index: i });
                proof {
                    assert(tuple_slots(style, prefix, i as int + 1) == tuple_slots(
                        style,
                        prefix,
                        i as int,
                    ) + tuple_slot(style, prefix, i as nat));
                    assert(t@ =~= name@ + seq!["("@] + tuple_slots(style, prefix, i as int + 1));
                    assert forall|j: int| 0 <= j < i + 1 implies {
                        &&& (#[trigger] bindings@[j]).ident@ == ident_seq(prefix, j as nat)
                        &&& bindings@[j].field_index == j
                    } by {
                        if j < i {
                            assert(bindings@[j] == bs_pre[j]);
                        }
                    }
                }
                i = i + 1;
            }
            t.append(")");
            proof {
                assert(t@ =~= pattern_seq(name@, *shape, style, prefix));
            }
        },
        FieldShape::Named(fields) => {
            t.append("{");
            let n = fields.len();
            let mut i: usize = 0;
            while i < n
                invariant
                    n == fields@.len(),
                    i <= n,
                    binding == style,
                    options.spec_style() == style,
                    options.spec_prefix() == prefix,
                    shape_wf(FieldShape::Named(*fields)),
                    t@ == name@ + seq!["{"@] + named_slots(style, prefix, fields@, i as int),
                    bindings_match(prefix, i as nat, bindings@),
                decreases n - i,
            {
                let ghost bs_pre = bindings@;
                let ident = binding_ident(options.prefix(), i);
                let f: &Field = &fields[i];
                match &f.ident {
                    Option::Some(declared) => {
                        t.append(declared.as_str());
                    },
                    Option::None => {
                        proof {
                            assert(fields@[i as int].ident is Some);
                            assert(false);
                        }
                    },
                }
                t.append(":");
                binding.to_tokens(&mut t);
                t.append_string(ident.clone());
                t.append(",");
                bindings.push(BindingInfo { ident, field_index: i });
                proof {
                    assert(named_slots(style, prefix, fields@, i as int + 1) == named_slots(
                        style,
                        prefix,
                        fields@,
                        i as int,
                    ) + named_slot(style, prefix, field_name(fields@[i as int]), i as nat));
                    assert(t@ =~= name@ + seq!["{"@] + named_slots(
                        style,
                        prefix,
                        fields@,
                        i as int + 1,
                    ));
                    assert forall|j: int| 0 <= j < i + 1 implies {
                        &&& (#[trigger] bindings@[j]).ident@ == ident_seq(prefix, j as nat)
                        &&& bindings@[j].field_index == j
                    } by {
                        if j < i {
                            assert(bindings@[j] == bs_pre[j]);
                        }
                    }
                }
                i = i + 1;
            }
            t.append("}");
            proof {
                assert(t@ =~= pattern_seq(name@, *shape, style, prefix));
            }
        },
    }
    (t, bindings)
}

/// For a unit shape, the generated pattern is exactly the bare name
/// token sequence, and the binding list is empty.
pub proof fn lemma_unit_pattern(
    path: Seq<Seq<char>>,
    style: BindStyle,
    prefix: Seq<char>,
    bs: Seq<BindingInfo>,
)
    requires
        bindings_match(prefix, num_fields(FieldShape::Unit), bs),
    ensures
        pattern_seq(path, FieldShape::Unit, style, prefix) == path,
        bs == Seq::<BindingInfo>::empty(),
{
    assert(bs =~= Seq::<BindingInfo>::empty());
}

/// The first `n` tuple slots occupy `n` stretches of equal width: the
/// style's binding-mode tokens, the generated identifier, a comma.
proof fn lemma_tuple_slots_len(style: BindStyle, prefix: Seq<char>, n: int)
    requires
        0 <= n,
    ensures
        tuple_slots(style, prefix, n).len() == n * (style.spec_tokens().len() + 2),
    decreases n,
{
    let w = style.spec_tokens().len() as int;
    if n > 0 {
        lemma_tuple_slots_len(style, prefix, n - 1);
        assert(tuple_slot(style, prefix, (n - 1) as nat).len() == w + 2);
        assert(n * (w + 2) == (n - 1) * (w + 2) + (w + 2)) by (nonlinear_arith);
        assert(tuple_slots(style, prefix, n).len() == n * (w + 2));
    } else {
        assert(n * (w + 2) == 0) by (nonlinear_arith)
            requires
                n == 0,
        ;
    }
}

/// Within the first `n` tuple slots, slot `i` carries the generated
/// identifier for position `i`, directly after the style's binding-mode
/// tokens.
proof fn lemma_tuple_slot_ident(style: BindStyle, prefix: Seq<char>, n: int, i: int)
    requires
        0 <= i < n,
    ensures
        tuple_slots(style, prefix, n)[i * (style.spec_tokens().len() + 2)
            + style.spec_tokens().len()] == ident_seq(prefix, i as nat),
    decreases n,
{
    let w = style.spec_tokens().len() as int + 2;
    lemma_tuple_slots_len(style, prefix, n - 1);
    if i == n - 1 {
        assert(tuple_slot(style, prefix, i as nat)[style.spec_tokens().len() as int]
            == ident_seq(prefix, i as nat));
    } else {
        lemma_tuple_slot_ident(style, prefix, n - 1, i);
        assert(i * w + style.spec_tokens().len() < (n - 1) * w) by (nonlinear_arith)
            requires
                0 <= i < n - 1,
                w == style.spec_tokens().len() + 2,
        ;
    }
}

/// For a tuple shape with `N` fields, the pattern is the name, an
/// opening parenthesis, `N` style-qualified slots in positional order,
/// and a closing parenthesis; the identifier standing in slot `i` is the
/// generated `prefix_i` — the identifier of the `i`-th binding record,
/// which points back at field slot `i`.
pub proof fn lemma_tuple_pattern(
    path: Seq<Seq<char>>,
    shape: FieldShape,
    style: BindStyle,
    prefix: Seq<char>,
    bs: Seq<BindingInfo>,
    i: int,
)
    requires
        shape is Tuple,
        bindings_match(prefix, num_fields(shape), bs),
        0 <= i < bs.len(),
    ensures
        bs.len() == num_fields(shape),
        bs[i].ident@ == ident_seq(prefix, i as nat),
        bs[i].field_index == i,
        pattern_seq(path, shape, style, prefix).len() == path.len() + 2 + num_fields(shape) * (
        style.spec_tokens().len() + 2),
        pattern_seq(path, shape, style, prefix)[path.len() + 1 + i * (style.spec_tokens().len()
            + 2) + style.spec_tokens().len()] == bs[i].ident@,
{
    let n = num_fields(shape) as int;
    lemma_tuple_slots_len(style, prefix, n);
    lemma_tuple_slot_ident(style, prefix, n, i);
    let w = style.spec_tokens().len() as int;
    let slots = tuple_slots(style, prefix, n);
    assert(0 <= i * (w + 2) && i * (w + 2) + w < n * (w + 2)) by (nonlinear_arith)
        requires
            0 <= i < n,
            0 <= w,
    ;
    match shape {
        FieldShape::Tuple(_) => {
            assert(pattern_seq(path, shape, style, prefix) == path + seq!["("@] + slots + seq![
                ")"@,
            ]);
        },
        _ => {},
    }
    let whole = pattern_seq(path, shape, style, prefix);
    assert(whole[path.len() + 1 + i * (w + 2) + w] == slots[i * (w + 2) + w]);
}

/// The first `n` named slots occupy `n` stretches of equal width: the
/// declared name, a colon, the style's tokens, the identifier, a comma.
proof fn lemma_named_slots_len(style: BindStyle, prefix: Seq<char>, fields: Seq<Field>, n: int)
    requires
        0 <= n,
    ensures
        named_slots(style, prefix, fields, n).len() == n * (style.spec_tokens().len() + 4),
    decreases n,
{
    let w = style.spec_tokens().len() as int;
    if n > 0 {
        lemma_named_slots_len(style, prefix, fields, n - 1);
        assert(named_slot(style, prefix, field_name(fields[n - 1]), (n - 1) as nat).len() == w
            + 4);
        assert(n * (w + 4) == (n - 1) * (w + 4) + (w + 4)) by (nonlinear_arith);
        assert(named_slots(style, prefix, fields, n).len() == n * (w + 4));
    } else {
        assert(n * (w + 4) == 0) by (nonlinear_arith)
            requires
                n == 0,
        ;
    }
}

/// Within the first `n` named slots, slot `i` opens with the declared
/// name of field `i` and carries the generated identifier for position
/// `i` after the colon and the style's tokens.
proof fn lemma_named_slot_content(
    style: BindStyle,
    prefix: Seq<char>,
    fields: Seq<Field>,
    n: int,
    i: int,
)
    requires
        0 <= i < n,
    ensures
        named_slots(style, prefix, fields, n)[i * (style.spec_tokens().len() + 4)] == field_name(
            fields[i],
        ),
        named_slots(style, prefix, fields, n)[i * (style.spec_tokens().len() + 4) + 2
            + style.spec_tokens().len()] == ident_seq(prefix, i as nat),
    decreases n,
{
    let w = style.spec_tokens().len() as int + 4;
    lemma_named_slots_len(style, prefix, fields, n - 1);
    if i == n - 1 {
        assert(named_slot(style, prefix, field_name(fields[i]), i as nat)[0] == field_name(
            fields[i],
        ));
        assert(named_slot(style, prefix, field_name(fields[i]), i as nat)[2
            + style.spec_tokens().len() as int] == ident_seq(prefix, i as nat));
    } else {
        lemma_named_slot_content(style, prefix, fields, n - 1, i);
        assert(i * w + 2 + style.spec_tokens().len() < (n - 1) * w) by (nonlinear_arith)
            requires
                0 <= i < n - 1,
                w == style.spec_tokens().len() + 4,
        ;
    }
}

/// For a named shape, the binding record at position `i` points back at
/// field slot `i` — the field whose declared name opens slot `i` of the
/// rendered pattern — and binds it to the generated `prefix_i`, which
/// stands later in the same slot.
pub proof fn lemma_named_pattern(
    path: Seq<Seq<char>>,
    shape: FieldShape,
    style: BindStyle,
    prefix: Seq<char>,
    bs: Seq<BindingInfo>,
    i: int,
)
    requires
        shape is Named,
        bindings_match(prefix, num_fields(shape), bs),
        0 <= i < bs.len(),
    ensures
        bs.len() == num_fields(shape),
        bs[i].field_index == i,
        pattern_seq(path, shape, style, prefix)[path.len() + 1 + i * (style.spec_tokens().len()
            + 4)] == field_name(shape_fields(shape)[i]),
        pattern_seq(path, shape, style, prefix)[path.len() + 1 + i * (style.spec_tokens().len()
            + 4) + 2 + style.spec_tokens().len()] == bs[i].ident@,
{
    let n = num_fields(shape) as int;
    let fields = shape_fields(shape);
    lemma_named_slots_len(style, prefix, fields, n);
    lemma_named_slot_content(style, prefix, fields, n, i);
    let w = style.spec_tokens().len() as int;
    let slots = named_slots(style, prefix, fields, n);
    assert(0 <= i * (w + 4) && i * (w + 4) + 2 + w < n * (w + 4)) by (nonlinear_arith)
        requires
            0 <= i < n,
            0 <= w,
    ;
    match shape {
        FieldShape::Named(_) => {
            assert(pattern_seq(path, shape, style, prefix) == path + seq!["{"@] + slots + seq![
                "}"@,
            ]);
        },
        _ => {},
    }
    let whole = pattern_seq(path, shape, style, prefix);
    assert(whole[path.len() + 1 + i * (w + 4)] == slots[i * (w + 4)]);
    assert(whole[path.len() + 1 + i * (w + 4) + 2 + w] == slots[i * (w + 4) + 2 + w]);
}

/// Naming is deterministic: two binding lists generated with the same
/// prefix for the same field count carry the same identifier sequence,
/// whatever shapes they came from and however often the builder ran.
pub proof fn lemma_naming_deterministic(
    prefix: Seq<char>,
    n: nat,
    bs1: Seq<BindingInfo>,
    bs2: Seq<BindingInfo>,
)
    requires
        bindings_match(prefix, n, bs1),
        bindings_match(prefix, n, bs2),
    ensures
        bs1.len() == bs2.len(),
        forall|i: int|
            0 <= i < n ==> (#[trigger] bs1[i]).ident@ == bs2[i].ident@ && bs1[i].field_index
                == bs2[i].field_index,
{
}

} // verus!
