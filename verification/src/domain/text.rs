//! Characters and character sequences: white space, decimal digits, fields
//! between separators.
use vstd::prelude::*;
use vstd::std_specs::iter::IteratorSpec;

verus! {

/// The characters that Unicode gives the property `White_Space`.
pub open spec fn is_white_space(c: char) -> bool {
    let n = c as u32;
    ||| 0x09 <= n <= 0x0D
    ||| n == 0x20
    ||| n == 0x85
    ||| n == 0xA0
    ||| n == 0x1680
    ||| 0x2000 <= n <= 0x200A
    ||| n == 0x2028
    ||| n == 0x2029
    ||| n == 0x202F
    ||| n == 0x205F
    ||| n == 0x3000
}

/// `s` without the white space that it begins with.
pub open spec fn trim_start(s: Seq<char>) -> Seq<char>
    decreases s.len(),
{
    if s.len() > 0 && is_white_space(s.first()) {
        trim_start(s.drop_first())
    } else {
        s
    }
}

/// `s` without the white space that it ends with.
pub open spec fn trim_end(s: Seq<char>) -> Seq<char>
    decreases s.len(),
{
    if s.len() > 0 && is_white_space(s.last()) {
        trim_end(s.drop_last())
    } else {
        s
    }
}

/// `s` without the white space at either end.
pub open spec fn trim(s: Seq<char>) -> Seq<char> {
    trim_end(trim_start(s))
}

/// Whether every character of `s` is white space.
pub open spec fn is_blank(s: Seq<char>) -> bool {
    forall|i: int| 0 <= i < s.len() ==> is_white_space(#[trigger] s[i])
}

/// The ASCII digits `0` to `9`.
pub open spec fn is_digit(c: char) -> bool {
    '0' <= c <= '9'
}

/// The number that a digit stands for.
pub open spec fn digit_value(c: char) -> nat {
    (c as u32 - '0' as u32) as nat
}

/// The digit that stands for `d`, for a `d` below ten.
pub open spec fn digit_char(d: nat) -> char {
    ('0' as u8 + d) as u8 as char
}

/// Whether `s` holds digits only.
pub open spec fn all_digits(s: Seq<char>) -> bool {
    forall|i: int| 0 <= i < s.len() ==> is_digit(#[trigger] s[i])
}

/// The number that `s` writes in base ten, for an `s` of digits.
pub open spec fn decimal(s: Seq<char>) -> nat
    decreases s.len(),
{
    if s.len() == 0 {
        0
    } else {
        10 * decimal(s.drop_last()) + digit_value(s.last())
    }
}

/// Ten to the power `n`.
pub open spec fn pow10(n: nat) -> nat
    decreases n,
{
    if n == 0 {
        1
    } else {
        10 * pow10((n - 1) as nat)
    }
}

/// The last `width` digits of `n` in base ten, with zeros in front where
/// `n` has fewer.
pub open spec fn numeral(n: nat, width: nat) -> Seq<char>
    decreases width,
{
    if width == 0 {
        Seq::empty()
    } else {
        numeral(n / 10, (width - 1) as nat).push(digit_char(n % 10))
    }
}

/// The fields that `sep` parts `s` into, in order. There is one more than
/// `s` holds separators: the empty text has one empty field.
pub open spec fn split(s: Seq<char>, sep: char) -> Seq<Seq<char>>
    decreases s.len(),
{
    if s.len() == 0 {
        seq![Seq::empty()]
    } else {
        let before = split(s.drop_last(), sep);
        if s.last() == sep {
            before.push(Seq::empty())
        } else {
            before.update(before.len() - 1, before.last().push(s.last()))
        }
    }
}

/// The fields `fields` with `sep` between them: what `split` parts again.
pub open spec fn join(fields: Seq<Seq<char>>, sep: char) -> Seq<char>
    decreases fields.len(),
{
    if fields.len() == 0 {
        Seq::empty()
    } else if fields.len() == 1 {
        fields[0]
    } else {
        join(fields.drop_last(), sep) + seq![sep] + fields.last()
    }
}

/// The text that each of `fields` holds.
pub open spec fn texts(fields: Seq<Vec<char>>) -> Seq<Seq<char>> {
    Seq::new(fields.len(), |i: int| fields[i]@)
}

/// `trim_start` removes a run of white space from the front, as long as
/// there is any.
pub proof fn lemma_trim_start(s: Seq<char>)
    ensures
        trim_start(s).len() <= s.len(),
        trim_start(s) == s.skip(s.len() - trim_start(s).len()),
        forall|i: int| 0 <= i < s.len() - trim_start(s).len() ==> is_white_space(#[trigger] s[i]),
        trim_start(s).len() > 0 ==> !is_white_space(trim_start(s).first()),
    decreases s.len(),
{
    if s.len() > 0 && is_white_space(s.first()) {
        let rest = s.drop_first();
        lemma_trim_start(rest);
        let t = trim_start(rest);
        let lead = rest.len() - t.len();
        assert(t == s.skip(lead + 1));
        assert forall|i: int| 0 <= i < lead + 1 implies is_white_space(#[trigger] s[i]) by {
            if i > 0 {
                assert(s[i] == rest[i - 1]);
            }
        }
    } else {
        assert(s == s.skip(0));
    }
}

/// `trim_end` removes a run of white space from the back, as long as there
/// is any.
pub proof fn lemma_trim_end(s: Seq<char>)
    ensures
        trim_end(s).len() <= s.len(),
        trim_end(s) == s.take(trim_end(s).len() as int),
        forall|i: int| trim_end(s).len() <= i < s.len() ==> is_white_space(#[trigger] s[i]),
        trim_end(s).len() > 0 ==> !is_white_space(trim_end(s).last()),
    decreases s.len(),
{
    if s.len() > 0 && is_white_space(s.last()) {
        let rest = s.drop_last();
        lemma_trim_end(rest);
        let t = trim_end(rest);
        assert(t == s.take(t.len() as int));
        assert forall|i: int| t.len() <= i < s.len() implies is_white_space(#[trigger] s[i]) by {
            if i < rest.len() {
                assert(s[i] == rest[i]);
            }
        }
    } else {
        assert(s == s.take(s.len() as int));
    }
}

/// What is left of a blank text once trimmed is empty, and only of a blank
/// text.
pub proof fn lemma_trim_empty_iff_blank(s: Seq<char>)
    ensures
        trim(s).len() == 0 <==> is_blank(s),
{
    lemma_trim_start(s);
    let t = trim_start(s);
    lemma_trim_end(t);
    let lead = s.len() - t.len();
    if trim(s).len() == 0 {
        if t.len() > 0 {
            assert(is_white_space(t[0]));
        }
        assert forall|i: int| 0 <= i < s.len() implies is_white_space(#[trigger] s[i]) by {}
    } else {
        let last = trim(s).len() - 1;
        assert(!is_white_space(t[last]));
        assert(t[last] == s[lead + last]);
    }
}

/// A number below ten to the `width` is read back from its numeral, which
/// has `width` digits.
pub proof fn lemma_numeral_reads_back(n: nat, width: nat)
    requires
        n < pow10(width),
    ensures
        numeral(n, width).len() == width,
        all_digits(numeral(n, width)),
        decimal(numeral(n, width)) == n,
    decreases width,
{
    if width > 0 {
        let front = numeral(n / 10, (width - 1) as nat);
        lemma_numeral_reads_back(n / 10, (width - 1) as nat);
        assert(numeral(n, width).drop_last() =~= front);
        assert(is_digit(digit_char(n % 10)));
        assert(digit_value(digit_char(n % 10)) == n % 10);
        assert forall|i: int| 0 <= i < numeral(n, width).len() implies is_digit(
            #[trigger] numeral(n, width)[i],
        ) by {
            if i < front.len() {
                assert(numeral(n, width)[i] == front[i]);
            }
        }
    }
}

/// `split` gives at least one field, none of them holds the separator, and
/// joined again they are the text that was parted.
pub proof fn lemma_split_join(s: Seq<char>, sep: char)
    ensures
        split(s, sep).len() >= 1,
        forall|k: int| 0 <= k < split(s, sep).len() ==> !(#[trigger] split(s, sep)[k]).contains(sep),
        join(split(s, sep), sep) == s,
    decreases s.len(),
{
    let fields = split(s, sep);
    if s.len() == 0 {
        assert(join(fields, sep) =~= s);
    } else {
        let front = s.drop_last();
        let before = split(front, sep);
        lemma_split_join(front, sep);
        if s.last() == sep {
            assert(fields.drop_last() =~= before);
            assert(join(fields, sep) =~= s);
        } else {
            let grown = before.last().push(s.last());
            assert forall|k: int| 0 <= k < fields.len() implies !(#[trigger] fields[k]).contains(
                sep,
            ) by {
                if k == fields.len() - 1 {
                    if grown.contains(sep) {
                        let at = choose|i: int| 0 <= i < grown.len() && grown[i] == sep;
                        assert(before.last()[at] == sep);
                    }
                } else {
                    assert(fields[k] == before[k]);
                }
            }
            if before.len() == 1 {
                assert(join(fields, sep) =~= s);
            } else {
                assert(fields.drop_last() =~= before.drop_last());
                let start = join(before.drop_last(), sep) + seq![sep];
                assert(front == start + before.last());
                assert(join(fields, sep) == start + grown);
                assert(start + grown =~= (start + before.last()).push(s.last()));
                assert(front.push(s.last()) =~= s);
            }
        }
    }
}

/// A text without the separator is one field.
pub proof fn lemma_split_one_field(s: Seq<char>, sep: char)
    requires
        !s.contains(sep),
    ensures
        split(s, sep) == seq![s],
    decreases s.len(),
{
    if s.len() == 0 {
        assert(s =~= Seq::empty());
    } else {
        let front = s.drop_last();
        assert(s[s.len() - 1] != sep);
        if front.contains(sep) {
            let at = choose|i: int| 0 <= i < front.len() && front[i] == sep;
            assert(s[at] == sep);
        }
        lemma_split_one_field(front, sep);
        assert(front.push(s.last()) =~= s);
        assert(split(s, sep) =~= seq![s]);
    }
}

/// A separator and a text without one add one field, that text, to the
/// fields of what stands before them.
pub proof fn lemma_split_next_field(head: Seq<char>, tail: Seq<char>, sep: char)
    requires
        !tail.contains(sep),
    ensures
        split(head + seq![sep] + tail, sep) == split(head, sep).push(tail),
    decreases tail.len(),
{
    let s = head + seq![sep] + tail;
    if tail.len() == 0 {
        assert(s.drop_last() =~= head);
        assert(tail =~= Seq::empty());
    } else {
        let front = tail.drop_last();
        assert(tail[tail.len() - 1] != sep);
        if front.contains(sep) {
            let at = choose|i: int| 0 <= i < front.len() && front[i] == sep;
            assert(tail[at] == sep);
        }
        lemma_split_next_field(head, front, sep);
        assert(s.drop_last() =~= head + seq![sep] + front);
        assert(front.push(tail.last()) =~= tail);
        assert(split(s, sep) =~= split(head, sep).push(tail));
    }
}

/// No digit is a separator that is no digit.
pub proof fn lemma_digits_hold_no(s: Seq<char>, sep: char)
    requires
        all_digits(s),
        !is_digit(sep),
    ensures
        !s.contains(sep),
{
    if s.contains(sep) {
        let at = choose|i: int| 0 <= i < s.len() && s[i] == sep;
        assert(is_digit(s[at]));
    }
}

/// `String::push` of std: the character is added at the end, and nothing
/// else changes.
#[verifier::external_body]
pub(crate) fn push_char(s: &mut String, c: char)
    ensures
        final(s)@ == old(s)@.push(c),
{
    s.push(c);
}

/// The characters of `s`, in order.
pub fn chars_of(s: &str) -> (chars: Vec<char>)
    ensures
        chars@ == s@,
{
    let mut chars: Vec<char> = Vec::new();
    for c in it: s.chars()
        invariant
            it.seq() == s@,
            chars@ == s@.take(it.index() as int),
    {
        chars.push(c);
        assert(s@.take(it.index() + 1) == s@.take(it.index() as int).push(c));
    }
    assert(s@.take(s@.len() as int) == s@);
    chars
}

/// Appends to `s` the characters of `chars` from index `from` on: none of
/// them where `from` is past the last.
pub fn push_chars(s: &mut String, chars: &Vec<char>, from: usize)
    ensures
        from <= chars.len() ==> final(s)@ == old(s)@ + chars@.skip(from as int),
        from > chars.len() ==> final(s)@ == old(s)@,
{
    if from > chars.len() {
        return ;
    }
    let mut i: usize = from;
    assert(chars@.subrange(from as int, from as int) =~= Seq::empty());
    assert(s@ =~= old(s)@ + chars@.subrange(from as int, i as int));
    while i < chars.len()
        invariant
            from <= i <= chars.len(),
            s@ == old(s)@ + chars@.subrange(from as int, i as int),
        decreases chars.len() - i,
    {
        push_char(s, chars[i]);
        assert(chars@.subrange(from as int, i + 1) == chars@.subrange(from as int, i as int).push(
            chars@[i as int],
        ));
        i += 1;
    }
    assert(chars@.subrange(from as int, chars.len() as int) == chars@.skip(from as int));
}

/// Appends `n` to `out` in `width` digits.
pub fn push_numeral(out: &mut String, n: u16, width: u8)
    ensures
        final(out)@ == old(out)@ + numeral(n as nat, width as nat),
    decreases width,
{
    if width > 0 {
        push_numeral(out, n / 10, width - 1);
        let d: u8 = (n % 10) as u8;
        push_char(out, ('0' as u8 + d) as char);
        assert(out@ =~= old(out)@ + numeral(n as nat, width as nat));
    } else {
        assert(out@ =~= old(out)@ + numeral(n as nat, width as nat));
    }
}

/// Whether two texts hold the same characters.
pub fn same_text(a: &str, b: &str) -> (same: bool)
    ensures
        same == (a@ == b@),
{
    let left = chars_of(a);
    let right = chars_of(b);
    if left.len() != right.len() {
        return false;
    }
    let mut i: usize = 0;
    while i < left.len()
        invariant
            0 <= i <= left.len(),
            left.len() == right.len(),
            left@ == a@,
            right@ == b@,
            forall|j: int| 0 <= j < i ==> left@[j] == right@[j],
        decreases left.len() - i,
    {
        if left[i] != right[i] {
            return false;
        }
        i += 1;
    }
    assert(left@ =~= right@);
    true
}

/// Whether `s` ends with the characters of `suffix`.
pub fn ends_with(s: &str, suffix: &str) -> (yes: bool)
    ensures
        yes == suffix@.is_suffix_of(s@),
{
    let whole = chars_of(s);
    let end = chars_of(suffix);
    if end.len() > whole.len() {
        return false;
    }
    let start: usize = whole.len() - end.len();
    let mut i: usize = 0;
    while i < end.len()
        invariant
            0 <= i <= end.len(),
            start + end.len() == whole.len(),
            whole@ == s@,
            end@ == suffix@,
            forall|j: int| 0 <= j < i ==> end@[j] == whole@[start + j],
        decreases end.len() - i,
    {
        if end[i] != whole[start + i] {
            assert(whole@.subrange(start as int, whole.len() as int)[i as int] != end@[i as int]);
            return false;
        }
        i += 1;
    }
    assert(end@ =~= whole@.subrange(start as int, whole.len() as int));
    true
}

/// Whether `c` is white space.
pub fn char_is_white_space(c: char) -> (yes: bool)
    ensures
        yes == is_white_space(c),
{
    let n: u32 = c as u32;
    (0x09 <= n && n <= 0x0D) || n == 0x20 || n == 0x85 || n == 0xA0 || n == 0x1680 || (0x2000 <= n
        && n <= 0x200A) || n == 0x2028 || n == 0x2029 || n == 0x202F || n == 0x205F || n == 0x3000
}

/// Whether `c` is one of the digits `0` to `9`.
pub fn char_is_digit(c: char) -> (yes: bool)
    ensures
        yes == is_digit(c),
{
    '0' <= c && c <= '9'
}

/// Whether nothing would be left of `chars` once trimmed.
pub fn chars_are_blank(chars: &Vec<char>) -> (yes: bool)
    ensures
        yes == (trim(chars@).len() == 0),
        yes == is_blank(chars@),
{
    proof {
        lemma_trim_empty_iff_blank(chars@);
    }
    let mut i: usize = 0;
    while i < chars.len()
        invariant
            0 <= i <= chars.len(),
            (trim(chars@).len() == 0) == is_blank(chars@),
            forall|j: int| 0 <= j < i ==> is_white_space(#[trigger] chars@[j]),
        decreases chars.len() - i,
    {
        if !char_is_white_space(chars[i]) {
            assert(!is_white_space(chars@[i as int]));
            return false;
        }
        i += 1;
    }
    true
}

/// Parts `chars` at each `sep`.
pub fn split_chars(chars: &Vec<char>, sep: char) -> (fields: Vec<Vec<char>>)
    ensures
        texts(fields@) == split(chars@, sep),
{
    let mut fields: Vec<Vec<char>> = Vec::new();
    let mut current: Vec<char> = Vec::new();
    let mut i: usize = 0;
    assert(chars@.take(0) =~= Seq::empty());
    assert(texts(fields@).push(current@) =~= seq![Seq::<char>::empty()]);
    while i < chars.len()
        invariant
            0 <= i <= chars.len(),
            texts(fields@).push(current@) == split(chars@.take(i as int), sep),
        decreases chars.len() - i,
    {
        let c = chars[i];
        let ghost done = texts(fields@).push(current@);
        let ghost prefix = chars@.take(i + 1);
        assert(prefix.drop_last() == chars@.take(i as int));
        assert(prefix.last() == c);
        if c == sep {
            fields.push(current);
            current = Vec::new();
            assert(texts(fields@) =~= done);
            assert(texts(fields@).push(current@) =~= done.push(Seq::empty()));
        } else {
            current.push(c);
            assert(texts(fields@).push(current@) =~= done.update(
                done.len() - 1,
                done.last().push(c),
            ));
        }
        i += 1;
    }
    assert(chars@.take(chars.len() as int) == chars@);
    let ghost done = texts(fields@).push(current@);
    fields.push(current);
    assert(texts(fields@) =~= done);
    fields
}

/// Reads a number of one to four digits.
pub fn read_decimal(digits: &Vec<char>) -> (number: Option<u16>)
    ensures
        number is Some <==> 1 <= digits@.len() <= 4 && all_digits(digits@),
        number is Some ==> number->0 == decimal(digits@),
{
    if digits.len() == 0 || digits.len() > 4 {
        return None;
    }
    let mut value: u16 = 0;
    let mut i: usize = 0;
    assert(digits@.take(0) =~= Seq::empty());
    while i < digits.len()
        invariant
            0 <= i <= digits.len() <= 4,
            all_digits(digits@.take(i as int)),
            value == decimal(digits@.take(i as int)),
            value < pow10(i as nat),
        decreases digits.len() - i,
    {
        let c = digits[i];
        if !char_is_digit(c) {
            return None;
        }
        let ghost prefix = digits@.take(i + 1);
        assert(prefix.drop_last() == digits@.take(i as int));
        assert(prefix.last() == c);
        assert(pow10(4) == 10000 && pow10(i as nat + 1) <= pow10(4)) by {
            reveal_with_fuel(pow10, 5);
        }
        value = value * 10 + (c as u32 - '0' as u32) as u16;
        i += 1;
    }
    assert(digits@.take(digits.len() as int) == digits@);
    Some(value)
}

} // verus!
