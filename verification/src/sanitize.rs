//! File-system safe path segments made from titles.

use vstd::prelude::*;
use crate::text::{
    char_is_control, char_is_space, chars_of, is_control, is_space, lead_count, lemma_lead_count,
    lemma_lead_count_is, lemma_tail_count, lemma_tail_count_is, space_pred, strip_lead,
    strip_tail, tail_count, text_of_range,
};

verus! {

/// Characters that may not occur in a path segment.
pub open spec fn is_illegal(c: char) -> bool {
    c == '<' || c == '>' || c == '"' || c == ':' || c == '/' || c == '\\' || c == '|' || c == '?'
        || c == '*'
}

/// The character that stands for `c` in a segment.
pub open spec fn safe_char(c: char) -> char {
    if is_control(c) || is_illegal(c) {
        '_'
    } else {
        c
    }
}

/// `s` with every control or illegal character replaced by `_`.
pub open spec fn replaced(s: Seq<char>) -> Seq<char> {
    Seq::new(s.len(), |i: int| safe_char(s[i]))
}

/// The test "is white space or a dot", as a value.
pub open spec fn blank_or_dot() -> spec_fn(char) -> bool {
    |c: char| is_space(c) || c == '.'
}

/// The sanitised form of a title: illegal and control characters become
/// `_`, leading white space is dropped, and so is everything at the end
/// that is white space or a dot.
pub open spec fn sanitized(s: Seq<char>) -> Seq<char> {
    strip_tail(strip_lead(replaced(s), space_pred()), blank_or_dot())
}

fn char_is_illegal(c: char) -> (b: bool)
    ensures
        b == is_illegal(c),
{
    c == '<' || c == '>' || c == '"' || c == ':' || c == '/' || c == '\\' || c == '|' || c == '?'
        || c == '*'
}

/// Makes a title usable as one path component.
pub fn sanitize_segment(s: &str) -> (out: String)
    ensures
        out@ == sanitized(s@),
{
    let src = chars_of(s);
    let mut v: Vec<char> = Vec::new();
    let mut i: usize = 0;
    while i < src.len()
        invariant
            i <= src.len(),
            v@.len() == i,
            forall|j: int| 0 <= j < i ==> v@[j] == safe_char(src@[j]),
        decreases src.len() - i,
    {
        let c = src[i];
        if char_is_control(c) || char_is_illegal(c) {
            v.push('_');
        } else {
            v.push(c);
        }
        i += 1;
    }
    assert(v@ =~= replaced(s@));
    let ghost sp = space_pred();
    let ghost end = blank_or_dot();
    let mut a: usize = 0;
    while a < v.len() && char_is_space(v[a])
        invariant
            a <= v.len(),
            forall|j: int| 0 <= j < a ==> is_space(#[trigger] v@[j]),
        decreases v.len() - a,
    {
        a += 1;
    }
    proof {
        lemma_lead_count_is(v@, sp, a as int);
    }
    let ghost mid = v@.skip(a as int);
    let mut e: usize = v.len();
    while e > a && (char_is_space(v[e - 1]) || v[e - 1] == '.')
        invariant
            a <= e <= v.len(),
            mid == v@.skip(a as int),
            end == blank_or_dot(),
            forall|j: int| e - a <= j < mid.len() ==> end(#[trigger] mid[j]),
        decreases e,
    {
        e -= 1;
    }
    proof {
        if e > a {
            assert(mid[e - a - 1] == v@[e - 1]);
        }
        lemma_tail_count_is(mid, end, v.len() - e);
        assert(strip_tail(mid, end) =~= v@.subrange(a as int, e as int));
    }
    text_of_range(&v, a, e)
}

/// What is left after sanitising: no illegal and no control character,
/// no white space at the start, and neither white space nor a dot at the
/// end.
pub proof fn lemma_sanitized_is_clean(s: Seq<char>)
    ensures
        forall|i: int|
            0 <= i < sanitized(s).len() ==> !is_illegal(#[trigger] sanitized(s)[i]) && !is_control(
                sanitized(s)[i],
            ),
        sanitized(s).len() > 0 ==> !is_space(sanitized(s)[0]) && !is_space(sanitized(s).last())
            && sanitized(s).last() != '.',
{
    let t0 = replaced(s);
    let t1 = strip_lead(t0, space_pred());
    let r = strip_tail(t1, blank_or_dot());
    lemma_lead_count(t0, space_pred());
    lemma_tail_count(t1, blank_or_dot());
    let k = lead_count(t0, space_pred()) as int;
    assert forall|i: int| 0 <= i < r.len() implies !is_illegal(#[trigger] r[i]) && !is_control(
        r[i],
    ) by {
        assert(r[i] == t0[k + i]);
        assert(t0[k + i] == safe_char(s[k + i]));
    }
    if r.len() > 0 {
        assert(r[0] == t0[k]);
        assert(r.last() == t1[t1.len() - tail_count(t1, blank_or_dot()) - 1]);
        assert(!blank_or_dot()(r.last()));
    }
}

/// Sanitising is stable: a second pass leaves the result of the first as
/// it is, whatever the text.
pub proof fn lemma_sanitize_stable(s: Seq<char>)
    ensures
        sanitized(sanitized(s)) == sanitized(s),
{
    let r = sanitized(s);
    lemma_sanitized_is_clean(s);
    assert(replaced(r) =~= r);
    lemma_lead_count_is(r, space_pred(), 0);
    assert(strip_lead(r, space_pred()) =~= r);
    lemma_tail_count_is(r, blank_or_dot(), 0);
    assert(strip_tail(r, blank_or_dot()) =~= r);
}

} // verus!
