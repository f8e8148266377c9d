//! Positional naming of the generated bindings.

use vstd::prelude::*;
use vstd::string::StringExecFns;

verus! {

/// The decimal digit character for `d`.
pub open spec fn digit_char(d: int) -> char {
    if d == 0 {
        '0'
    } else if d == 1 {
        '1'
    } else if d == 2 {
        '2'
    } else if d == 3 {
        '3'
    } else if d == 4 {
        '4'
    } else if d == 5 {
        '5'
    } else if d == 6 {
        '6'
    } else if d == 7 {
        '7'
    } else if d == 8 {
        '8'
    } else {
        '9'
    }
}

/// The decimal rendering of `n`, most significant digit first, with no
/// leading zeros (a single `'0'` for zero).
pub open spec fn dec_seq(n: nat) -> Seq<char>
    decreases n,
{
    if n < 10 {
        seq![digit_char(n as int)]
    } else {
        dec_seq(n / 10) + seq![digit_char((n % 10) as int)]
    }
}

/// The generated identifier for the field at zero-based position `i`:
/// the prefix, an underscore, and the position in decimal.
pub open spec fn ident_seq(prefix: Seq<char>, i: nat) -> Seq<char> {
    prefix + "_"@ + dec_seq(i)
}

/// A decimal rendering is never empty.
proof fn lemma_dec_seq_len_pos(n: nat)
    ensures
        dec_seq(n).len() >= 1,
    decreases n,
{
    if n >= 10 {
        lemma_dec_seq_len_pos(n / 10)
    }
}

/// Distinct numbers render to distinct decimal sequences.
proof fn lemma_dec_seq_injective(a: nat, b: nat)
    requires
        dec_seq(a) == dec_seq(b),
    ensures
        a == b,
    decreases a + b,
{
    if a < 10 && b < 10 {
        assert(dec_seq(a)[0] == digit_char(a as int));
        assert(dec_seq(b)[0] == digit_char(b as int));
    } else if a < 10 {
        lemma_dec_seq_len_pos(b / 10);
        assert(dec_seq(b) == dec_seq(b / 10) + seq![digit_char((b % 10) as int)]);
        assert(dec_seq(b).len() >= 2);
        assert(false);
    } else if b < 10 {
        lemma_dec_seq_len_pos(a / 10);
        assert(dec_seq(a) == dec_seq(a / 10) + seq![digit_char((a % 10) as int)]);
        assert(dec_seq(a).len() >= 2);
        assert(false);
    } else {
        let la = dec_seq(a).len() as int;
        assert(dec_seq(a)[la - 1] == digit_char((a % 10) as int));
        assert(dec_seq(b)[la - 1] == digit_char((b % 10) as int));
        assert(a % 10 == b % 10);
        assert(dec_seq(a / 10) =~= dec_seq(a).subrange(0, la - 1));
        assert(dec_seq(b / 10) =~= dec_seq(b).subrange(0, la - 1));
        lemma_dec_seq_injective(a / 10, b / 10);
    }
}

/// The naming scheme is collision free: distinct positions get distinct
/// identifiers under any one prefix.
pub proof fn lemma_ident_seq_injective(prefix: Seq<char>, i: nat, j: nat)
    requires
        i != j,
    ensures
        ident_seq(prefix, i) != ident_seq(prefix, j),
{
    if ident_seq(prefix, i) == ident_seq(prefix, j) {
        let head = (prefix + "_"@).len() as int;
        assert(dec_seq(i) =~= ident_seq(prefix, i).subrange(
            head,
            ident_seq(prefix, i).len() as int,
        ));
        assert(dec_seq(j) =~= ident_seq(prefix, j).subrange(
            head,
            ident_seq(prefix, j).len() as int,
        ));
        lemma_dec_seq_injective(i, j);
    }
}

/// The single-character string for the decimal digit `d`.
fn digit_str(d: usize) -> (s: &'static str)
    requires
        d < 10,
    ensures
        s@ == seq![digit_char(d as int)],
{
    proof {
        reveal_strlit("0");
        reveal_strlit("1");
        reveal_strlit("2");
        reveal_strlit("3");
        reveal_strlit("4");
        reveal_strlit("5");
        reveal_strlit("6");
        reveal_strlit("7");
        reveal_strlit("8");
        reveal_strlit("9");
    }
    let s = if d == 0 {
        "0"
    } else if d == 1 {
        "1"
    } else if d == 2 {
        "2"
    } else if d == 3 {
        "3"
    } else if d == 4 {
        "4"
    } else if d == 5 {
        "5"
    } else if d == 6 {
        "6"
    } else if d == 7 {
        "7"
    } else {
        "8"
    };
    let s = if d == 9 {
        "9"
    } else {
        s
    };
    proof {
        assert(s@ =~= seq![digit_char(d as int)]);
    }
    s
}

/// Appends the decimal rendering of `n` to `out`.
fn push_dec(n: usize, out: &mut String)
    ensures
        final(out)@ == old(out)@ + dec_seq(n as nat),
    decreases n,
{
    if n >= 10 {
        push_dec(n / 10, out);
        proof {
            assert((n / 10) as nat == (n as nat) / 10);
        }
    }
    let d = digit_str(n % 10);
    out.append(d);
    proof {
        assert((n % 10) as nat == (n as nat) % 10);
        assert(out@ =~= old(out)@ + dec_seq(n as nat));
    }
}

/// The identifier binding the field at position `i`, named from `prefix`:
/// `prefix`, `'_'`, then `i` in decimal.
pub fn binding_ident(prefix: &str, i: usize) -> (r: String)
    ensures
        r@ == ident_seq(prefix@, i as nat),
{
    let mut s = prefix.to_owned();
    s.append("_");
    push_dec(i, &mut s);
    proof {
        assert(s@ =~= ident_seq(prefix@, i as nat));
    }
    s
}

} // verus!
