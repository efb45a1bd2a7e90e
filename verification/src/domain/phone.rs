//! Telephone numbers, brought to one form by the French convention.
use crate::domain::text::is_digit;
use vstd::prelude::*;

verus! {

/// What is kept of a number as it was typed: its digits, and a `+` that
/// comes before all of them. Every other character is dropped, and so is a
/// `+` further on.
pub open spec fn dialled(s: Seq<char>) -> Seq<char>
    decreases s.len(),
{
    if s.len() == 0 {
        Seq::empty()
    } else {
        let before = dialled(s.drop_last());
        let c = s.last();
        if is_digit(c) || (c == '+' && before.len() == 0) {
            before.push(c)
        } else {
            before
        }
    }
}

/// The prefix that stands for the `0` of a French national number.
pub open spec fn french_prefix() -> Seq<char> {
    seq!['+', '3', '3']
}

/// The normal form of a number: what `dialled` keeps of it, with
/// `french_prefix` in place of a `0` that it begins with. A number that
/// begins with `+`, or with another digit, is kept as dialled.
pub open spec fn normalized_phone(s: Seq<char>) -> Seq<char> {
    let kept = dialled(s);
    if kept.len() > 0 && kept.first() == '0' {
        french_prefix() + kept.drop_first()
    } else {
        kept
    }
}

/// The shape of what `dialled` keeps: digits, after at most one `+` in
/// front.
pub open spec fn is_dialled(s: Seq<char>) -> bool {
    forall|i: int| 0 <= i < s.len() ==> is_digit(#[trigger] s[i]) || (i == 0 && s[i] == '+')
}

/// `dialled` keeps digits after at most one `+`, and never more than it was
/// given.
pub proof fn lemma_dialled_shape(s: Seq<char>)
    ensures
        is_dialled(dialled(s)),
        dialled(s).len() <= s.len(),
    decreases s.len(),
{
    if s.len() > 0 {
        lemma_dialled_shape(s.drop_last());
    }
}

/// `dialled` drops nothing from a text that has the shape of its results.
pub proof fn lemma_dialled_keeps_dialled(s: Seq<char>)
    requires
        is_dialled(s),
    ensures
        dialled(s) == s,
    decreases s.len(),
{
    if s.len() > 0 {
        let front = s.drop_last();
        assert forall|i: int| 0 <= i < front.len() implies is_digit(#[trigger] front[i]) || (i == 0
            && front[i] == '+') by {
            assert(front[i] == s[i]);
        }
        lemma_dialled_keeps_dialled(front);
        assert(is_digit(s[s.len() - 1]) || (s.len() - 1 == 0 && s[s.len() - 1] == '+'));
        assert(front.push(s.last()) =~= s);
    } else {
        assert(s =~= Seq::empty());
    }
}

/// Of a number that is dialled already, the normal form is the number
/// itself, unless it begins with `0`: then `french_prefix` stands in place
/// of that `0`, and the rest is kept. So a number that begins with `+` is
/// its own normal form.
pub proof fn lemma_normalize_dialled(s: Seq<char>)
    requires
        is_dialled(s),
    ensures
        normalized_phone(s) == if s.len() > 0 && s.first() == '0' {
            french_prefix() + s.drop_first()
        } else {
            s
        },
{
    lemma_dialled_keeps_dialled(s);
}

/// A normal form is its own normal form: to normalize twice is to normalize
/// once.
pub proof fn lemma_normalize_idempotent(s: Seq<char>)
    ensures
        normalized_phone(normalized_phone(s)) == normalized_phone(s),
{
    let kept = dialled(s);
    let once = normalized_phone(s);
    lemma_dialled_shape(s);
    if kept.len() > 0 && kept.first() == '0' {
        assert forall|i: int| 0 <= i < once.len() implies is_digit(#[trigger] once[i]) || (i == 0
            && once[i] == '+') by {
            if i >= 3 {
                assert(once[i] == kept[i - 2]);
            }
        }
        lemma_dialled_keeps_dialled(once);
        assert(once.first() == '+');
    } else {
        lemma_dialled_keeps_dialled(once);
    }
}

} // verus!
