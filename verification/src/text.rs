//! Searching and joining texts.

use vstd::prelude::*;
use vstd::string::*;

verus! {

/// Whether `needle` stands in `text` at place `at`.
pub open spec fn occurs_at<T>(needle: Seq<T>, text: Seq<T>, at: int) -> bool {
    0 <= at && at + needle.len() <= text.len() && text.subrange(at, at + needle.len()) == needle
}

/// Whether `needle` occurs in `text` as a run of consecutive items.
pub open spec fn occurs_in<T>(needle: Seq<T>, text: Seq<T>) -> bool {
    exists|at: int| #[trigger] occurs_at(needle, text, at)
}

/// What a search for the first occurrence gives: the first place at which
/// the needle stands, or nothing where it stands nowhere.
pub open spec fn is_first_occurrence<T>(
    needle: Seq<T>,
    text: Seq<T>,
    found: Option<usize>,
) -> bool {
    match found {
        Some(at) => occurs_at(needle, text, at as int) && forall|before: int|
            0 <= before < at ==> !#[trigger] occurs_at(needle, text, before),
        None => !occurs_in(needle, text),
    }
}

/// Calls `Finder::find` of `memchr::memmem` on a finder made for `needle`.
/// Trusted: it gives the place of the first occurrence of the needle in the
/// haystack, and nothing where there is none.
#[verifier::external_body]
fn find_bytes(haystack: &[u8], needle: &[u8]) -> (found: Option<usize>)
    ensures
        is_first_occurrence(needle@, haystack@, found),
{
    memchr::memmem::Finder::new(needle).find(haystack)
}

/// Whether the bytes of `name` occur in the bytes of `msg`.
pub fn mentions(msg: &str, name: &str) -> (mentioned: bool)
    ensures
        mentioned == occurs_in(name.spec_bytes(), msg.spec_bytes()),
{
    find_bytes(msg.as_bytes(), name.as_bytes()).is_some()
}

/// The texts one after the other with `between` between each two.
pub open spec fn joined(texts: Seq<Seq<char>>, between: Seq<char>) -> Seq<char>
    decreases texts.len(),
{
    if texts.len() == 0 {
        Seq::empty()
    } else if texts.len() == 1 {
        texts[0]
    } else {
        joined(texts.drop_last(), between) + between + texts.last()
    }
}

/// The texts that a vector holds, each by its view.
pub open spec fn texts_view(texts: Seq<String>) -> Seq<Seq<char>> {
    Seq::new(texts.len(), |i: int| texts[i]@)
}

/// Joins the texts with `between` between each two.
pub fn join(texts: &Vec<String>, between: &str) -> (whole: String)
    ensures
        whole@ == joined(texts_view(texts@), between@),
{
    let mut whole = String::new();
    let ghost views = texts_view(texts@);
    let mut i: usize = 0;
    while i < texts.len()
        invariant
            i <= texts.len(),
            views == texts_view(texts@),
            whole@ == joined(views.take(i as int), between@),
        decreases texts.len() - i,
    {
        if i > 0 {
            whole.append(between);
        }
        whole.append(texts[i].as_str());
        proof {
            let upto = views.take(i + 1);
            assert(upto.drop_last() =~= views.take(i as int));
        }
        i = i + 1;
    }
    assert(views.take(i as int) =~= views);
    whole
}

} // verus!
