//! The binding style and the naming options of a traversal.

use vstd::prelude::*;
use vstd::string::StringExecFns;
use crate::tokens::Tokens;

verus! {

/// The type of binding to use when generating a pattern.
#[derive(Debug, Clone, Copy, PartialEq, Eq, Structural)]
pub enum BindStyle {
    /// `x`
    Move,
    /// `mut x`
    MoveMut,
    /// `ref x`
    Ref,
    /// `ref mut x`
    RefMut,
}

/// The default prefix of the generated binding identifiers.
pub open spec fn default_prefix() -> Seq<char> {
    "__binding"@
}

impl BindStyle {
    /// The binding-mode tokens this style places before each generated
    /// identifier: nothing for `Move`, a mutability marker for `MoveMut`,
    /// a reference marker for `Ref`, and both for `RefMut`.
    pub open spec fn spec_tokens(self) -> Seq<Seq<char>> {
        match self {
            BindStyle::Move => seq![],
            BindStyle::MoveMut => seq!["mut"@],
            BindStyle::Ref => seq!["ref"@],
            BindStyle::RefMut => seq!["ref"@, "mut"@],
        }
    }

    /// Appends this style's binding-mode tokens to `tokens`.
    pub fn to_tokens(&self, tokens: &mut Tokens)
        ensures
            final(tokens)@ == old(tokens)@ + self.spec_tokens(),
    {
        match *self {
            BindStyle::Move => {},
            BindStyle::MoveMut => tokens.append("mut"),
            BindStyle::Ref => tokens.append("ref"),
            BindStyle::RefMut => {
                tokens.append("ref");
                tokens.append("mut");
            },
        }
        proof {
            assert(tokens@ =~= old(tokens)@ + self.spec_tokens());
        }
    }
}

/// Binding options to use when generating a pattern.
///
/// The style controls the type of binding performed in the pattern, for
/// example `ref` or `ref mut`.  The prefix controls the name used for each
/// binding, and can be chosen to avoid conflicts with nested match
/// patterns; it is taken as given, with no check against identifiers
/// already in scope at the splice site.
#[derive(Debug, Clone)]
pub struct BindOpts {
    bind_style: BindStyle,
    prefix: String,
}

impl BindOpts {
    /// The chosen binding style.
    pub closed spec fn spec_style(&self) -> BindStyle {
        self.bind_style
    }

    /// The chosen naming prefix.
    pub closed spec fn spec_prefix(&self) -> Seq<char> {
        self.prefix@
    }

    /// Create a `BindOpts` with the given style, and the default prefix:
    /// `__binding`.
    pub fn new(bind_style: BindStyle) -> (r: BindOpts)
        ensures
            r.spec_style() == bind_style,
            r.spec_prefix() == default_prefix(),
    {
        BindOpts { bind_style, prefix: "__binding".to_owned() }
    }

    /// Create a `BindOpts` with the given style and prefix.
    pub fn with_prefix(bind_style: BindStyle, prefix: String) -> (r: BindOpts)
        ensures
            r.spec_style() == bind_style,
            r.spec_prefix() == prefix@,
    {
        BindOpts { bind_style, prefix }
    }

    /// The chosen binding style, as a value.
    pub fn style(&self) -> (s: BindStyle)
        ensures
            s == self.spec_style(),
    {
        self.bind_style
    }

    /// The chosen naming prefix, as a string slice.
    pub fn prefix(&self) -> (p: &str)
        ensures
            p@ == self.spec_prefix(),
    {
        self.prefix.as_str()
    }
}

impl From<BindStyle> for BindOpts {
    /// Promotes a bare style to options with the default prefix, for call
    /// sites that need no custom naming.
    fn from(style: BindStyle) -> (r: BindOpts)
        ensures
            r.spec_style() == style,
            r.spec_prefix() == default_prefix(),
    {
        BindOpts::new(style)
    }
}

impl vstd::std_specs::convert::FromSpecImpl<BindStyle> for BindOpts {
    /// A `String` value cannot be written down in specification code, so
    /// no single `BindOpts` value can stand as `from_spec`'s result;
    /// `obeys_from_spec` therefore opts out, and the conversion's
    /// behaviour is carried by the `ensures` on `from` above.
    closed spec fn obeys_from_spec() -> bool {
        false
    }

    closed spec fn from_spec(style: BindStyle) -> BindOpts {
        choose|o: BindOpts| o.spec_style() == style && o.spec_prefix() == default_prefix()
    }
}

} // verus!
