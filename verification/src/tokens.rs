//! A flat buffer of output tokens.

use vstd::prelude::*;

verus! {

/// An ordered buffer of output tokens, the unit in which generated patterns
/// and match arms are assembled.  Each element is one token of the target
/// surface syntax: an identifier, a punctuation mark, or a delimiter.
/// Rendering the buffer into final text is the job of the emission layer
/// that consumes it; this library only guarantees which tokens appear, and
/// in which order.
pub struct Tokens {
    /// The tokens, in emission order.
    pub toks: Vec<String>,
}

impl View for Tokens {
    type V = Seq<Seq<char>>;

    open spec fn view(&self) -> Seq<Seq<char>> {
        Seq::new(self.toks@.len(), |i: int| self.toks@[i]@)
    }
}

impl Tokens {
    /// An empty token buffer.
    pub fn new() -> (r: Tokens)
        ensures
            r@ == Seq::<Seq<char>>::empty(),
    {
        let r = Tokens { toks: Vec::new() };
        proof {
            assert(r@ =~= Seq::<Seq<char>>::empty());
        }
        r
    }

    /// Number of tokens in the buffer.
    pub fn len(&self) -> (n: usize)
        ensures
            n == self@.len(),
    {
        self.toks.len()
    }

    /// Append one token, given as a string slice.
    pub fn append(&mut self, tok: &str)
        ensures
            final(self)@ == old(self)@.push(tok@),
    {
        self.toks.push(tok.to_owned());
        proof {
            assert(self@ =~= old(self)@.push(tok@));
        }
    }

    /// Append one token, given as an owned string.
    pub fn append_string(&mut self, tok: String)
        ensures
            final(self)@ == old(self)@.push(tok@),
    {
        self.toks.push(tok);
        proof {
            assert(self@ =~= old(self)@.push(tok@));
        }
    }

    /// Append every token of `other`, in order.
    pub fn append_tokens(&mut self, other: &Tokens)
        ensures
            final(self)@ == old(self)@ + other@,
    {
        let n = other.toks.len();
        let mut i: usize = 0;
        while i < n
            invariant
                n == other@.len(),
                i <= n,
                self@ == old(self)@ + other@.subrange(0, i as int),
            decreases n - i,
        {
            let ghost pre = self@;
            let ghost pre_toks = self.toks@;
            let s: &String = &other.toks[i];
            self.toks.push(s.clone());
            proof {
                assert(self.toks@ == pre_toks.push(other.toks@[i as int]));
                assert forall|j: int| 0 <= j < pre.len() implies self@[j] == pre[j] by {
                    assert(self@[j] == self.toks@[j]@);
                    assert(pre[j] == pre_toks[j]@);
                }
                assert(self@[pre.len() as int] == other@[i as int]);
                let ghost rhs = old(self)@ + other@.subrange(0, i as int + 1);
                assert forall|j: int| 0 <= j < pre.len() + 1 implies self@[j] == rhs[j] by {
                    if j < old(self)@.len() {
                        assert(pre[j] == old(self)@[j]);
                        assert(rhs[j] == old(self)@[j]);
                    } else if j < pre.len() {
                        assert(pre[j] == other@.subrange(0, i as int)[j - old(self)@.len()]);
                        assert(rhs[j] == other@.subrange(0, i as int + 1)[j - old(self)@.len()]);
                        assert(other@.subrange(0, i as int)[j - old(self)@.len()] == other@[j
                            - old(self)@.len()]);
                        assert(other@.subrange(0, i as int + 1)[j - old(self)@.len()] == other@[j
                            - old(self)@.len()]);
                    } else {
                        assert(rhs[j] == other@.subrange(0, i as int + 1)[i as int]);
                        assert(other@.subrange(0, i as int + 1)[i as int] == other@[i as int]);
                    }
                }
                assert(self@ =~= rhs);
            }
            i = i + 1;
        }
        proof {
            assert(other@.subrange(0, n as int) =~= other@);
        }
    }
}

} // verus!
