//! The signature builder and the canonical invocation.
//!
//! `Signature::new` splits "name, return-type(args)" text into its return
//! type, method name and argument list; `MockMethod` assembles the canonical
//! macro string from a signature, a qualifier set and the statement
//! terminator.

use vstd::prelude::*;
use crate::args::{protect, spec_args_of, spec_args_render, spec_protect, Args};
use crate::errors::GmockSedError;
use crate::extract::lemma_rextract_len;
use crate::patterns::{sig_split, spec_sig_split};
use crate::quals::{spec_qual_render, Qualifiers};
use crate::text::{trim, trim_of};

verus! {

/// What `Signature::new` computes: the close-anchored scan isolates the
/// method's own argument list from the end of the text; everything before it,
/// trimmed, splits on the first splittable comma into the method name and the
/// raw return type; a return type containing a comma is protected with
/// parentheses.
pub open spec fn spec_signature(s: Seq<char>) -> Result<
    (Seq<char>, Seq<char>, Seq<char>),
    GmockSedError,
> {
    match spec_args_of(s) {
        None => Err(GmockSedError::UnmatchedParenthesisError),
        Some(args) => {
            let rest = s.subrange(0, s.len() - args.len() - 2);
            match spec_sig_split(trim(rest)) {
                None => Err(GmockSedError::ParseSignatureError),
                Some((name, ret_raw)) => Ok((spec_protect(ret_raw), name, args)),
            }
        },
    }
}

/// How a signature renders inside the canonical macro: return type, method
/// name, and the parenthesized argument list, comma-separated.
pub open spec fn spec_sig_render(
    ret: Seq<char>,
    name: Seq<char>,
    args: Seq<char>,
    argc: int,
) -> Seq<char> {
    ret + ", "@ + name + ", ("@ + spec_args_render(args, argc) + ")"@
}

/// One parsed method signature: protected return type, method name, and the
/// raw argument list with its declared count.
pub struct Signature {
    pub ret: String,
    pub name: String,
    pub args: Args,
}

impl Signature {
    /// Parses "name, return-type(args)" text.  Fails with
    /// `UnmatchedParenthesisError` when no argument list can be isolated from
    /// the end, and with `ParseSignatureError` when no comma splits the name
    /// from the return type.
    pub fn new(s: &str, argc: usize) -> (r: Result<Signature, GmockSedError>)
        ensures
            match spec_signature(s@) {
                Ok(parts) => r matches Ok(sig) && sig.ret@ == parts.0 && sig.name@ == parts.1
                    && sig.args.args@ == parts.2 && sig.args.argc == argc,
                Err(e) => r == Err::<Signature, GmockSedError>(e),
            },
    {
        let args = match Args::new(s, argc) {
            Ok(a) => a,
            Err(e) => {
                return Err(e);
            },
        };
        proof {
            lemma_rextract_len(s@);
        }
        let rest = args.strip_self(s);
        match sig_split(trim_of(rest)) {
            Some((name, ret_raw)) => Ok(
                Signature { ret: protect(ret_raw.as_str()), name, args },
            ),
            None => Err(GmockSedError::ParseSignatureError),
        }
    }

    /// Renders the signature part of the canonical macro.
    pub fn render(&self) -> (r: String)
        ensures
            r@ == spec_sig_render(self.ret@, self.name@, self.args.args@, self.args.argc as int),
    {
        let mut r = self.ret.clone();
        r.append(", ");
        r.append(self.name.as_str());
        r.append(", (");
        let a = self.args.render();
        r.append(a.as_str());
        r.append(")");
        r
    }
}

/// How a whole canonical invocation renders: the unified macro name, the
/// signature, the optional qualifier clause, and the preserved semicolon.
pub open spec fn spec_mock_render(
    ret: Seq<char>,
    name: Seq<char>,
    args: Seq<char>,
    argc: int,
    is_const: bool,
    has_override: bool,
    ct: Option<Seq<char>>,
    semi: bool,
) -> Seq<char> {
    "MOCK_METHOD("@ + spec_sig_render(ret, name, args, argc) + spec_qual_render(
        is_const,
        has_override,
        ct,
    ) + ")"@ + (if semi {
        ";"@
    } else {
        Seq::empty()
    })
}

/// One fully assembled canonical invocation.
pub struct MockMethod {
    pub signature: Signature,
    pub qualifiers: Qualifiers,
    pub has_semicolon: bool,
}

impl MockMethod {
    pub fn new(s: Signature, q: Qualifiers, sc: bool) -> (r: MockMethod)
        ensures
            r.signature == s,
            r.qualifiers == q,
            r.has_semicolon == sc,
    {
        MockMethod { signature: s, qualifiers: q, has_semicolon: sc }
    }

    /// The preserved statement terminator.
    pub fn semicolon(&self) -> (r: &'static str)
        ensures
            r@ == if self.has_semicolon {
                ";"@
            } else {
                Seq::<char>::empty()
            },
    {
        if self.has_semicolon {
            ";"
        } else {
            proof {
                reveal_strlit("");
            }
            ""
        }
    }

    /// Renders the canonical macro string that replaces the old-style match.
    pub fn render(&self) -> (r: String)
        ensures
            r@ == spec_mock_render(
                self.signature.ret@,
                self.signature.name@,
                self.signature.args.args@,
                self.signature.args.argc as int,
                self.qualifiers.is_const,
                self.qualifiers.has_override,
                self.qualifiers.calltype.deep_view(),
                self.has_semicolon,
            ),
    {
        let mut r = "MOCK_METHOD(".to_owned();
        let s = self.signature.render();
        r.append(s.as_str());
        let q = self.qualifiers.render();
        r.append(q.as_str());
        r.append(")");
        r.append(self.semicolon());
        r
    }
}

} // verus!
