//! Functions that a caller hands in to compute on texts.
use vstd::prelude::*;

verus! {

/// A function from text to text.
pub type TextRule = spec_fn(Seq<char>) -> Seq<char>;

/// Whether calling `f` always gives what `g` says.
pub open spec fn computes_text<F: Fn(String) -> String>(f: F, g: TextRule) -> bool {
    &&& forall|s: String| f.requires((s,))
    &&& forall|s: String, r: String| #[trigger] f.ensures((s,), r) ==> r@ == g(s@)
}

/// Whether `f` can be called on every text and gives back the same for the same text.
pub open spec fn is_text_fn<F: Fn(String) -> String>(f: F) -> bool {
    exists|g: TextRule| computes_text(f, g)
}

/// What `f` computes.
pub open spec fn text_fn_of<F: Fn(String) -> String>(f: F) -> TextRule {
    choose|g: TextRule| computes_text(f, g)
}

/// What `f` gives for `s`.
pub fn call_text<F: Fn(String) -> String>(f: &F, s: &str) -> (r: String)
    requires
        is_text_fn(*f),
    ensures
        r@ == text_fn_of(*f)(s@),
{
    f(s.to_owned())
}

} // verus!
