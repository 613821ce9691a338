//! Character classes and string helpers shared by the tokenizer, the
//! resolver and the builtins.

use vstd::prelude::*;

verus! {

/// The whitespace characters that separate tokens on a command line.
/// Line input is stripped of its trailing newline before tokenizing, so in
/// practice only spaces and tabs occur inside a line.
pub open spec fn is_space_char(c: char) -> bool {
    c == ' ' || c == '\t' || c == '\n' || c == '\r'
}

/// Executable test for `is_space_char`.
pub fn is_space(c: char) -> (r: bool)
    ensures
        r == is_space_char(c),
{
    c == ' ' || c == '\t' || c == '\n' || c == '\r'
}

/// Character-wise equality of two string slices.
pub fn str_eq(a: &str, b: &str) -> (r: bool)
    ensures
        r == (a@ == b@),
{
    let na: usize = a.unicode_len();
    let nb: usize = b.unicode_len();
    if na != nb {
        return false;
    }
    let mut i: usize = 0;
    while i < na
        invariant
            na == a@.len(),
            na == b@.len(),
            i <= na,
            forall|j: int| 0 <= j < i ==> a@[j] == b@[j],
        decreases na - i,
    {
        if a.get_char(i) != b.get_char(i) {
            return false;
        }
        i = i + 1;
    }
    proof {
        assert(a@ =~= b@);
    }
    true
}

/// The items joined into one line, with a single space between consecutive
/// items.
pub open spec fn join_space(items: Seq<Seq<char>>) -> Seq<char>
    decreases items.len(),
{
    if items.len() == 0 {
        Seq::empty()
    } else if items.len() == 1 {
        items[0]
    } else {
        items[0] + seq![' '] + join_space(items.drop_first())
    }
}

/// Joining one more item appends a single space boundary before it.
pub proof fn lemma_join_space_push(items: Seq<Seq<char>>, t: Seq<char>)
    ensures
        join_space(items.push(t)) == (if items.len() == 0 {
            t
        } else {
            join_space(items) + seq![' '] + t
        }),
    decreases items.len(),
{
    if items.len() == 0 {
        assert(items.push(t)[0] == t);
    } else if items.len() == 1 {
        assert(items.push(t)[0] == items[0]);
        assert(items.push(t).drop_first() =~= seq![t]);
        assert(join_space(seq![t]) == seq![t][0]);
    } else {
        assert(items.push(t)[0] == items[0]);
        assert(items.push(t).drop_first() =~= items.drop_first().push(t));
        lemma_join_space_push(items.drop_first(), t);
        assert(items[0] + seq![' '] + (join_space(items.drop_first()) + seq![' '] + t) =~= (items[0]
            + seq![' '] + join_space(items.drop_first())) + seq![' '] + t);
    }
}

/// Relies on `String::push`: appends the given character to the end of the
/// string.
#[verifier::external_body]
pub(crate) fn push_char(s: &mut String, c: char)
    ensures
        final(s)@ == old(s)@.push(c),
{
    s.push(c);
}

} // verus!
