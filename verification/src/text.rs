//! Small services on text.

use vstd::prelude::*;
use vstd::std_specs::iter::IteratorSpec;

verus! {

broadcast use vstd::string::group_string_axioms;

/// The characters of `text`, in order.
pub fn characters(text: &str) -> (out: Vec<char>)
    ensures
        out@ == text@,
{
    let mut out: Vec<char> = Vec::new();
    let mut rest = text.chars();
    loop
        invariant
            rest.obeys_prophetic_iter_laws(),
            rest.decrease() is Some,
            out@ + rest.remaining() == text@,
        decreases rest.decrease()->0,
    {
        let ghost before = rest.remaining();
        match rest.next() {
            Some(c) => {
                out.push(c);
                assert(out@ + rest.remaining() =~= text@) by {
                    assert(before =~= seq![c] + before.drop_first());
                }
            },
            None => {
                assert(out@ =~= out@ + rest.remaining());
                return out;
            },
        }
    }
}

/// Appends `c` to `text`.
///
/// Wraps `String::push`, which appends the character to the end of the
/// string.
#[verifier::external_body]
fn push_char(text: &mut String, c: char)
    ensures
        final(text)@ == old(text)@.push(c),
{
    text.push(c)
}

/// The string made of `characters`, in order.
pub fn string_of(characters: &[char]) -> (out: String)
    ensures
        out@ == characters@,
{
    let mut out = String::new();
    let mut at: usize = 0;
    while at < characters.len()
        invariant
            at <= characters.len(),
            out@ == characters@.subrange(0, at as int),
        decreases characters.len() - at,
    {
        push_char(&mut out, characters[at]);
        assert(characters@.subrange(0, at + 1) =~= characters@.subrange(0, at as int).push(
            characters@[at as int],
        ));
        at += 1;
    }
    assert(characters@.subrange(0, at as int) =~= characters@);
    out
}

} // verus!
