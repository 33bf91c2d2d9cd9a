//! The qualifiers of one invocation: constness and the call-type token,
//! decoded from the macro name, plus the caller-requested override marker.
//! They render as the optional trailing clause of the canonical macro.

use vstd::prelude::*;
use crate::errors::GmockSedError;
use crate::patterns::{calltype_len, calltype_token, HeadInfo};

verus! {

/// The decoded qualifiers of one match: the `CONST_` flag, the requested
/// override marker, the declared argument count, and the call-type token
/// (present exactly when the macro name carried the call-type variant and a
/// token was found in the argument text).
pub struct Qualifiers {
    pub is_const: bool,
    pub has_override: bool,
    pub argc: usize,
    pub calltype: Option<String>,
}

/// The length of a qualifier set's call-type token; zero when there is none.
pub open spec fn spec_ct_len(ct: Option<Seq<char>>) -> int {
    match ct {
        Some(x) => x.len() as int,
        None => 0,
    }
}

/// How a qualifier set renders: nothing when no qualifier is present, else a
/// parenthesized clause listing `const`, `override` and `Calltype(..)` in
/// that fixed order, comma-separated, preceded by a comma that attaches the
/// clause to the canonical macro's argument list.
pub open spec fn spec_qual_render(c: bool, o: bool, ct: Option<Seq<char>>) -> Seq<char> {
    match ct {
        None => {
            if c && o {
                ", (const, override)"@
            } else if c {
                ", (const)"@
            } else if o {
                ", (override)"@
            } else {
                Seq::empty()
            }
        },
        Some(x) => {
            if c && o {
                ", (const, override, Calltype("@ + x + "))"@
            } else if c {
                ", (const, Calltype("@ + x + "))"@
            } else if o {
                ", (override, Calltype("@ + x + "))"@
            } else {
                ", (Calltype("@ + x + "))"@
            }
        },
    }
}

impl Qualifiers {
    /// Takes over the qualifier flags and the declared argument count that
    /// the scanner decoded from the macro name.  The call-type token itself
    /// is filled in later by `calltype`; a declared call-type variant starts
    /// out as an empty placeholder.
    pub fn new(h: HeadInfo, add_override: bool) -> (r: Qualifiers)
        ensures
            r.is_const == h.is_const,
            r.has_override == add_override,
            r.argc == h.argc,
            r.calltype is Some <==> h.has_calltype,
            r.calltype matches Some(x) ==> x@ == Seq::<char>::empty(),
    {
        Qualifiers {
            is_const: h.is_const,
            has_override: add_override,
            argc: h.argc,
            calltype: if h.has_calltype {
                Some(String::new())
            } else {
                None
            },
        }
    }

    /// Pulls the call-type token from the front of the raw parameter text,
    /// when the macro name declared one.  A declared call-type with no token
    /// in the parameters is a parse failure.
    pub fn calltype(self, params: &str) -> (r: Result<Qualifiers, GmockSedError>)
        ensures
            self.calltype is None ==> r == Ok::<Qualifiers, GmockSedError>(self),
            self.calltype is Some && calltype_len(params@) == 0 ==> r == Err::<
                Qualifiers,
                GmockSedError,
            >(GmockSedError::ParseSignatureError),
            self.calltype is Some && calltype_len(params@) > 0 ==> (r matches Ok(q) && {
                &&& q.is_const == self.is_const
                &&& q.has_override == self.has_override
                &&& q.argc == self.argc
                &&& q.calltype matches Some(t) && t@ == params@.subrange(
                    0,
                    calltype_len(params@),
                )
            }),
    {
        if self.calltype.is_none() {
            return Ok(self);
        }
        match calltype_token(params) {
            Some(t) => Ok(
                Qualifiers {
                    is_const: self.is_const,
                    has_override: self.has_override,
                    argc: self.argc,
                    calltype: Some(t),
                },
            ),
            None => Err(GmockSedError::ParseSignatureError),
        }
    }

    /// The length of the call-type token, zero when there is none; callers
    /// skip this many characters of the parameter text before parsing the
    /// signature.
    pub fn len(&self) -> (r: usize)
        ensures
            r == spec_ct_len(self.calltype.deep_view()),
    {
        match &self.calltype {
            Some(ct) => ct.as_str().unicode_len(),
            None => 0,
        }
    }

    /// Drops the call-type token from the front of `s`.
    pub fn strip_self<'a>(&self, s: &'a str) -> (r: &'a str)
        requires
            spec_ct_len(self.calltype.deep_view()) <= s@.len(),
        ensures
            r@ == s@.subrange(spec_ct_len(self.calltype.deep_view()), s@.len() as int),
    {
        let k = self.len();
        let n = s.unicode_len();
        s.substring_char(k, n)
    }

    /// Renders the qualifier clause of the canonical macro.
    pub fn render(&self) -> (r: String)
        ensures
            r@ == spec_qual_render(self.is_const, self.has_override, self.calltype.deep_view()),
    {
        match &self.calltype {
            None => {
                if self.is_const && self.has_override {
                    ", (const, override)".to_owned()
                } else if self.is_const {
                    ", (const)".to_owned()
                } else if self.has_override {
                    ", (override)".to_owned()
                } else {
                    String::new()
                }
            },
            Some(ct) => {
                let mut r = if self.is_const && self.has_override {
                    ", (const, override, Calltype(".to_owned()
                } else if self.is_const {
                    ", (const, Calltype(".to_owned()
                } else if self.has_override {
                    ", (override, Calltype(".to_owned()
                } else {
                    ", (Calltype(".to_owned()
                };
                r.append(ct.as_str());
                r.append("))");
                r
            },
        }
    }
}

} // verus!
