//! Building and searching text.
//!
//! A `str` or `String` is modelled by its view, the sequence of its characters.

use vstd::prelude::*;

verus! {

/// The character that stands for the decimal digit `d`.
pub open spec fn digit(d: int) -> char
    recommends
        0 <= d < 10,
{
    (48 + d) as char
}

/// `n` in decimal, without leading zeros.
pub open spec fn decimal(n: nat) -> Seq<char>
    decreases n,
{
    if n < 10 {
        seq![digit(n as int)]
    } else {
        decimal(n / 10).push(digit((n % 10) as int))
    }
}

/// `n` in decimal, with a minus sign where it is negative.
pub open spec fn signed_decimal(n: int) -> Seq<char> {
    if n < 0 {
        seq!['-'] + decimal((-n) as nat)
    } else {
        decimal(n as nat)
    }
}

/// `needle` stands in `text` at position `at`.
pub open spec fn occurs_at(text: Seq<char>, needle: Seq<char>, at: int) -> bool {
    &&& 0 <= at
    &&& at + needle.len() <= text.len()
    &&& text.subrange(at, at + needle.len()) == needle
}

/// `needle` stands somewhere in `text`.
pub open spec fn contains_text(text: Seq<char>, needle: Seq<char>) -> bool {
    exists|at: int| occurs_at(text, needle, at)
}

/// `at` is the first place where `needle` stands in `text`.
pub open spec fn first_occurrence(text: Seq<char>, needle: Seq<char>, at: int) -> bool {
    &&& occurs_at(text, needle, at)
    &&& forall|earlier: int| earlier < at ==> !occurs_at(text, needle, earlier)
}

/// The first place where `needle` stands in `text`, if there is one.
pub open spec fn find_text(text: Seq<char>, needle: Seq<char>) -> Option<int> {
    if contains_text(text, needle) {
        Some(choose|at: int| first_occurrence(text, needle, at))
    } else {
        None
    }
}

/// A text has at most one first occurrence of a needle, and `find_text` gives it.
pub proof fn lemma_find_text_is_first(text: Seq<char>, needle: Seq<char>, at: int)
    requires
        first_occurrence(text, needle, at),
    ensures
        find_text(text, needle) == Some(at),
{
    assert(occurs_at(text, needle, at));
    let found = choose|at: int| first_occurrence(text, needle, at);
    assert(first_occurrence(text, needle, found));
    if found < at {
        assert(!occurs_at(text, needle, found));
    }
    if at < found {
        assert(!occurs_at(text, needle, at));
    }
}

/// The characters of `text`.
pub fn chars_of(text: &str) -> (chars: Vec<char>)
    ensures
        chars@ == text@,
{
    let mut chars: Vec<char> = Vec::new();
    for c in it: text.chars()
        invariant
            it.seq() == text@,
            chars@ == text@.take(it.index()),
    {
        chars.push(c);
    }
    chars
}

/// Whether two texts hold the same characters.
pub fn same_text(a: &str, b: &str) -> (same: bool)
    ensures
        same == (a@ == b@),
{
    let left = a.as_bytes();
    let right = b.as_bytes();
    proof {
        vstd::utf8::encode_utf8_decode_utf8(a@);
        vstd::utf8::encode_utf8_decode_utf8(b@);
    }
    if left.len() != right.len() {
        return false;
    }
    let mut i: usize = 0;
    while i < left.len()
        invariant
            i <= left@.len(),
            left@.len() == right@.len(),
            left@.take(i as int) == right@.take(i as int),
            left@ == vstd::utf8::encode_utf8(a@),
            right@ == vstd::utf8::encode_utf8(b@),
        decreases left@.len() - i,
    {
        if left[i] != right[i] {
            assert(left@[i as int] != right@[i as int]);
            return false;
        }
        assert(left@.take(i as int + 1) == left@.take(i as int).push(left@[i as int]));
        assert(right@.take(i as int + 1) == right@.take(i as int).push(right@[i as int]));
        i = i + 1;
    }
    assert(left@.take(i as int) == left@);
    assert(right@.take(i as int) == right@);
    true
}

/// Whether an optional text is present and holds the same characters as `wanted`.
pub fn is_text(text: &Option<String>, wanted: &str) -> (same: bool)
    ensures
        same == (text.deep_view() == Some(wanted@)),
{
    match text {
        Some(text) => same_text(text.as_str(), wanted),
        None => false,
    }
}

/// The position of the first occurrence of `needle` in `text`, in characters.
pub fn find(text: &Vec<char>, needle: &Vec<char>) -> (found: Option<usize>)
    ensures
        match found {
            Some(at) => find_text(text@, needle@) == Some(at as int) && first_occurrence(
                text@,
                needle@,
                at as int,
            ),
            None => find_text(text@, needle@) is None,
        },
{
    if text.len() < needle.len() {
        return None;
    }
    let last: usize = text.len() - needle.len();
    let mut at: usize = 0;
    loop
        invariant
            at <= last,
            last == text@.len() - needle@.len(),
            text@.len() <= usize::MAX,
            forall|earlier: int| earlier < at ==> !occurs_at(text@, needle@, earlier),
        decreases last - at,
    {
        let mut matched: usize = 0;
        while matched < needle.len() && text[at + matched] == needle[matched]
            invariant
                at <= last,
                last == text@.len() - needle@.len(),
                text@.len() <= usize::MAX,
                matched <= needle@.len(),
                forall|k: int| 0 <= k < matched ==> text@[at + k] == needle@[k],
            decreases needle@.len() - matched,
        {
            matched = matched + 1;
        }
        if matched == needle.len() {
            assert(text@.subrange(at as int, at + needle@.len()) == needle@);
            proof {
                lemma_find_text_is_first(text@, needle@, at as int);
            }
            return Some(at);
        }
        assert(!occurs_at(text@, needle@, at as int)) by {
            if occurs_at(text@, needle@, at as int) {
                assert(text@.subrange(at as int, at + needle@.len())[matched as int] == text@[at
                    + matched]);
            }
        }
        if at == last {
            return None;
        }
        at = at + 1;
    }
}

/// The text of one decimal digit.
fn digit_text(d: u64) -> (text: &'static str)
    requires
        d < 10,
    ensures
        text@ == seq![digit(d as int)],
{
    proof {
        reveal_strlit("0");
        reveal_strlit("1");
        reveal_strlit("2");
        reveal_strlit("3");
        reveal_strlit("4");
        reveal_strlit("5");
        reveal_strlit("6");
        reveal_strlit("7");
        reveal_strlit("8");
        reveal_strlit("9");
    }
    match d {
        0 => "0",
        1 => "1",
        2 => "2",
        3 => "3",
        4 => "4",
        5 => "5",
        6 => "6",
        7 => "7",
        8 => "8",
        _ => "9",
    }
}

/// Appends `n` in decimal.
pub fn append_decimal(text: &mut String, n: u64)
    ensures
        final(text)@ == old(text)@ + decimal(n as nat),
    decreases n,
{
    if n < 10 {
        text.append(digit_text(n));
    } else {
        append_decimal(text, n / 10);
        text.append(digit_text(n % 10));
        assert(old(text)@ + decimal((n / 10) as nat) + seq![digit((n % 10) as int)] == old(text)@
            + decimal(n as nat));
    }
}

/// Appends `n` in decimal, with its sign where it is negative.
pub fn append_signed_decimal(text: &mut String, n: i64)
    ensures
        final(text)@ == old(text)@ + signed_decimal(n as int),
{
    if n < 0 {
        proof {
            reveal_strlit("-");
        }
        text.append("-");
        let below: u64 = (-(n + 1)) as u64;
        append_decimal(text, below + 1);
        assert(old(text)@ + "-"@ + decimal((-n) as nat) == old(text)@ + (seq!['-'] + decimal(
            (-n) as nat,
        )));
    } else {
        append_decimal(text, n as u64);
    }
}

/// A number in decimal is written with digits only.
pub proof fn lemma_decimal_has_only_digits(n: nat)
    ensures
        decimal(n).len() > 0,
        forall|i: int| 0 <= i < decimal(n).len() ==> '0' <= #[trigger] decimal(n)[i] <= '9',
    decreases n,
{
    if n >= 10 {
        lemma_decimal_has_only_digits(n / 10);
    }
}

/// Two numbers that are written in the same way are the same.
pub proof fn lemma_decimal_is_unique(a: nat, b: nat)
    requires
        decimal(a) == decimal(b),
    ensures
        a == b,
    decreases a,
{
    lemma_decimal_has_only_digits(a / 10);
    lemma_decimal_has_only_digits(b / 10);
    assert(decimal(a).last() == digit((a % 10) as int));
    assert(decimal(b).last() == digit((b % 10) as int));
    if a >= 10 && b >= 10 {
        assert(decimal(a).drop_last() =~= decimal(a / 10));
        assert(decimal(b).drop_last() =~= decimal(b / 10));
        lemma_decimal_is_unique(a / 10, b / 10);
    }
}

/// The number that decimal digits stand for.
pub open spec fn decimal_value(text: Seq<char>) -> int
    decreases text.len(),
{
    if text.len() == 0 {
        0
    } else {
        decimal_value(text.drop_last()) * 10 + (text.last() as int - '0' as int)
    }
}

/// A number in decimal stands for that number, and has no zeros in front.
pub proof fn lemma_decimal_stands_for_its_number(n: nat)
    ensures
        decimal_value(decimal(n)) == n,
        decimal(n).len() > 1 ==> decimal(n)[0] != '0',
        decimal(n).len() == 1 <==> n < 10,
    decreases n,
{
    lemma_decimal_has_only_digits(n / 10);
    if n < 10 {
        assert(decimal(n).drop_last() =~= Seq::<char>::empty());
        assert(decimal_value(Seq::<char>::empty()) == 0);
    } else {
        lemma_decimal_stands_for_its_number(n / 10);
        assert(decimal(n).drop_last() =~= decimal(n / 10));
        assert(decimal(n)[0] == decimal(n / 10)[0]);
    }
}

/// A number with a sign stands for that number: it has a minus sign exactly if it is negative.
pub proof fn lemma_signed_decimal_stands_for_its_number(n: int)
    ensures
        n >= 0 ==> decimal_value(signed_decimal(n)) == n,
        n < 0 ==> signed_decimal(n)[0] == '-' && decimal_value(signed_decimal(n).skip(1)) == -n,
        n >= 0 ==> signed_decimal(n)[0] != '-',
{
    if n < 0 {
        assert(signed_decimal(n).skip(1) =~= decimal((-n) as nat));
        lemma_decimal_stands_for_its_number((-n) as nat);
    } else {
        lemma_decimal_has_only_digits(n as nat);
        assert('0' <= signed_decimal(n)[0]);
        lemma_decimal_stands_for_its_number(n as nat);
    }
}

/// A piece of a text stands in it.
pub proof fn lemma_piece_stands_in_text(before: Seq<char>, piece: Seq<char>, after: Seq<char>)
    ensures
        contains_text(before + piece + after, piece),
{
    let at = before.len() as int;
    assert((before + piece + after).subrange(at, at + piece.len()) =~= piece);
    assert(occurs_at(before + piece + after, piece, at));
}

/// What stands in a text stands in a longer one, too.
pub proof fn lemma_longer_text_holds_it(text: Seq<char>, needle: Seq<char>, more: Seq<char>)
    requires
        contains_text(text, needle),
    ensures
        contains_text(text + more, needle),
{
    let at = choose|at: int| occurs_at(text, needle, at);
    assert((text + more).subrange(at, at + needle.len()) =~= text.subrange(
        at,
        at + needle.len(),
    ));
    assert(occurs_at(text + more, needle, at));
}

/// A label, a gap and a value that are put behind a text stand in it.
pub proof fn lemma_labelled_value_stands_in_text(
    text: Seq<char>,
    label: Seq<char>,
    gap: Seq<char>,
    value: Seq<char>,
)
    ensures
        contains_text(text + label + gap + value, label + gap + value),
{
    let whole = text + label + gap + value;
    let piece = label + gap + value;
    let at = text.len() as int;
    assert(whole.len() == at + piece.len());
    assert forall|i: int| 0 <= i < piece.len() implies #[trigger] piece[i] == whole[at + i] by {
        if i < label.len() {
            assert(piece[i] == label[i]);
        } else if i < label.len() + gap.len() {
            assert(piece[i] == gap[i - label.len()]);
        }
    }
    assert(whole.subrange(at, at + piece.len()) =~= piece);
    assert(occurs_at(whole, piece, at));
}

/// What a text ends with stands in it.
pub proof fn lemma_end_stands_in_text(text: Seq<char>, end: Seq<char>)
    requires
        end.is_suffix_of(text),
    ensures
        contains_text(text, end),
{
    let at = text.len() - end.len();
    assert(text.subrange(at, at + end.len()) =~= end);
    assert(occurs_at(text, end, at));
}

} // verus!
