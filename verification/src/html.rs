//! Plain-text extraction for recipe bodies: an outside HTML rewriter
//! strips the markup, and verified code tidies what is left.

use vstd::prelude::*;
use vstd::string::StrSliceExecFns;

use crate::text::{spec_tidy, tidy_text};

verus! {

/// What the rewriter leaves of the markup: the document's text with the
/// doctype, comments and every tag removed, where `head`, `style` and
/// `script` elements are dropped together with their contents. The
/// rewriting is a function of the input text alone.
pub uninterp spec fn stripped_of(s: Seq<char>) -> Seq<char>;

/// Whether the rewriter accepts the markup: with the handlers fixed and
/// no memory limit set, success too is a function of the input text alone.
pub uninterp spec fn rewrite_ok(s: Seq<char>) -> bool;

/// Character-by-character string comparison.
fn str_eq(s: &str, t: &str) -> (b: bool)
    ensures
        b == (s@ == t@),
{
    let n = s.unicode_len();
    if n != t.unicode_len() {
        return false;
    }
    for i in 0..n
        invariant
            n == s@.len() == t@.len(),
            forall|k: int| 0 <= k < i ==> s@[k] == t@[k],
    {
        if s.get_char(i) != t.get_char(i) {
            return false;
        }
    }
    proof {
        assert(s@ =~= t@);
    }
    true
}

/// Whether an element with this tag name is dropped whole — contents
/// included — rather than replaced by its contents.
pub open spec fn spec_strip_whole(tag: Seq<char>) -> bool {
    tag == "head"@ || tag == "style"@ || tag == "script"@
}

/// Whether an element with this tag name is dropped whole.
pub fn strip_whole(tag: &str) -> (b: bool)
    ensures
        b == spec_strip_whole(tag@),
{
    str_eq(tag, "head") || str_eq(tag, "style") || str_eq(tag, "script")
}

/// Relies on lol_html::rewrite_str, with handlers that remove the
/// doctype, every comment and every tag, dropping `head`, `style` and
/// `script` elements whole: whether the call succeeds, and on success
/// the stripped text it returns, are functions of the input alone.
#[verifier::external_body]
fn rewrite_html(s: &str) -> (r: Result<String, String>)
    ensures
        r is Ok <==> rewrite_ok(s@),
        r is Ok ==> r->Ok_0@ == stripped_of(s@),
{
    let eh = lol_html::ElementContentHandlers::default().element(|el| {
        if strip_whole(el.tag_name().as_str()) { el.remove() } else { el.remove_and_keep_content() }
        Ok(())
    });
    let dh = lol_html::DocumentContentHandlers::default().comments(|c| { c.remove(); Ok(()) }).doctype(|d| { d.remove(); Ok(()) });
    let settings = lol_html::RewriteStrSettings {
        element_content_handlers: vec![(std::borrow::Cow::Owned("*".parse().unwrap()), eh)],
        document_content_handlers: vec![dh],
        ..lol_html::RewriteStrSettings::default()
    };
    lol_html::rewrite_str(s, settings).map_err(|e| e.to_string())
}

/// Extracts the plain text of an HTML recipe body: strips the markup,
/// then trims the text and each of its lines and joins the lines with
/// single newlines. Fails exactly when the rewriter itself does.
pub fn to_plain_text(s: &str) -> (r: Result<String, String>)
    ensures
        r is Ok <==> rewrite_ok(s@),
        r is Ok ==> r->Ok_0@ == spec_tidy(stripped_of(s@)),
{
    match rewrite_html(s) {
        Ok(t) => Ok(tidy_text(t.as_str())),
        Err(e) => Err(e),
    }
}

} // verus!
