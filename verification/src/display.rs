//! What the tool shows to people.

use crate::object::{ObjectInfo, ObjectInfoView};
use crate::text;
use crate::text::{append_decimal, chars_of};
use vstd::prelude::*;

verus! {

/// 2^53: below it, every integer is a double-precision number.
pub const EXACT_INTEGERS: u64 = 9007199254740992;

/// 2^10 bytes.
pub const KIB: u64 = 1024;

/// 2^20 bytes.
pub const MIB: u64 = 1024 * 1024;

/// 2^30 bytes.
pub const GIB: u64 = 1024 * 1024 * 1024;

/// 2^40 bytes.
pub const TIB: u64 = 1024 * 1024 * 1024 * 1024;

/// How far apart the double-precision numbers around a size are.
pub open spec fn spacing(size: nat) -> nat
    decreases size,
{
    if size < EXACT_INTEGERS {
        1
    } else {
        2 * spacing(size / 2)
    }
}

/// `a / b`, rounded to the nearest integer, or to the even one of two that are as near.
pub open spec fn rounded_quotient(a: nat, b: nat) -> nat
    recommends
        b > 0,
{
    if 2 * (a % b) < b || (2 * (a % b) == b && a / b % 2 == 0) {
        a / b
    } else {
        a / b + 1
    }
}

/// The double-precision number nearest to a size. It is an integer.
pub open spec fn nearest_double(size: nat) -> nat {
    rounded_quotient(size, spacing(size)) * spacing(size)
}

/// A number in hundredths, with two digits after the point.
pub open spec fn hundredths_text(hundredths: nat) -> Seq<char> {
    text::decimal(hundredths / 100) + "."@ + text::decimal(hundredths / 10 % 10) + text::decimal(
        hundredths % 10,
    )
}

/// A size in the given unit, with two digits after the point.
pub open spec fn in_unit(size: nat, unit: nat) -> Seq<char> {
    hundredths_text(rounded_quotient(size * 100, unit))
}

/// A size as a short text, in the largest unit of which it is more than one.
pub open spec fn human_size_text(size: u64) -> Seq<char> {
    let size = nearest_double(size as nat);
    if size > TIB {
        in_unit(size, TIB as nat) + "T"@
    } else if size > GIB {
        in_unit(size, GIB as nat) + "G"@
    } else if size > MIB {
        in_unit(size, MIB as nat) + "M"@
    } else {
        in_unit(size, KIB as nat) + "K"@
    }
}

/// How far apart the double-precision numbers around a size are.
fn double_spacing(size: u64) -> (step: u64)
    ensures
        step == spacing(size as nat),
        step >= 1,
        step == 1 || step * 4503599627370496 <= size,
    decreases size,
{
    if size < EXACT_INTEGERS {
        1
    } else {
        let half: u64 = double_spacing(size / 2);
        2 * half
    }
}

/// `a / b`, rounded to the nearest integer, or to the even one of two that are as near.
fn round_quotient(a: u128, b: u128) -> (q: u128)
    requires
        0 < b <= u64::MAX,
        a < u128::MAX,
    ensures
        q == rounded_quotient(a as nat, b as nat),
        q <= a / b + 1,
{
    proof {
        vstd::arithmetic::div_mod::lemma_div_is_ordered_by_denominator(a as int, 1, b as int);
        vstd::arithmetic::div_mod::lemma_div_basics(a as int);
    }
    let whole: u128 = a / b;
    let rest: u128 = a % b;
    if 2 * rest < b || (2 * rest == b && whole % 2 == 0) {
        whole
    } else {
        whole + 1
    }
}

/// Appends a size in the given unit, with two digits after the point.
fn append_in_unit(text: &mut String, size: u128, unit: u64)
    requires
        size <= 0x2_0000_0000_0000_0000,
        unit >= KIB,
    ensures
        final(text)@ == old(text)@ + in_unit(size as nat, unit as nat),
{
    let hundredths: u128 = round_quotient(size * 100, unit as u128);
    proof {
        vstd::arithmetic::div_mod::lemma_div_is_ordered_by_denominator(
            size * 100,
            1024,
            unit as int,
        );
    }
    let hundredths: u64 = hundredths as u64;
    append_decimal(text, hundredths / 100);
    text.append(".");
    append_decimal(text, hundredths / 10 % 10);
    append_decimal(text, hundredths % 10);
    assert(text@ =~= old(text)@ + in_unit(size as nat, unit as nat));
}

/// Formats a byte count as a short human-readable string (e.g. `1.99G`, `6.36M`). The count is
/// taken in double precision.
pub fn human_size(size: u64) -> (text: String)
    ensures
        text@ == human_size_text(size),
{
    let step: u64 = double_spacing(size);
    let steps: u128 = round_quotient(size as u128, step as u128);
    proof {
        let q = (size / step) as int;
        vstd::arithmetic::div_mod::lemma_fundamental_div_mod(size as int, step as int);
        assert((q + 1) * step <= size + step) by (nonlinear_arith)
            requires
                size == step * q + size % step,
                size % step >= 0,
        ;
        assert(steps * step <= (q + 1) * step) by (nonlinear_arith)
            requires
                steps <= q + 1,
                step >= 0,
        ;
    }
    let nearest: u128 = steps * step as u128;
    let mut text = String::new();
    assert(text@ =~= Seq::<char>::empty());
    if nearest > TIB as u128 {
        append_in_unit(&mut text, nearest, TIB);
        text.append("T");
    } else if nearest > GIB as u128 {
        append_in_unit(&mut text, nearest, GIB);
        text.append("G");
    } else if nearest > MIB as u128 {
        append_in_unit(&mut text, nearest, MIB);
        text.append("M");
    } else {
        append_in_unit(&mut text, nearest, KIB);
        text.append("K");
    }
    assert(text@ =~= human_size_text(size));
    text
}

/// A size below 2^53 bytes is shown as it is, but for the rounding to two digits: it is a
/// double-precision number itself.
pub proof fn lemma_small_sizes_are_exact(size: nat)
    requires
        size < EXACT_INTEGERS,
    ensures
        nearest_double(size) == size,
{
    assert(spacing(size) == 1);
    assert(size % 1nat == 0 && size / 1nat == size) by (nonlinear_arith);
    assert(rounded_quotient(size, 1) == size);
}

/// The labels of an object's line, as they are to be shown.
#[derive(Clone, Debug)]
pub struct ObjectLabels {
    pub size: String,
    pub timestamp: String,
    pub storage_class: String,
    pub restore_status: String,
}

/// What is shown of an object below its key. The restore status is left out where there is none.
pub open spec fn object_line_text(labels: ObjectLabels, object: ObjectInfoView) -> Seq<char> {
    let line = "    "@ + labels.size@ + " "@ + text::decimal(object.size as nat) + " ("@
        + human_size_text(object.size) + ") "@ + labels.timestamp@ + " "@
        + object.timestamp.shown() + " "@ + labels.storage_class@ + " "@ + (
    match object.storage_class {
        Some(storage_class) => storage_class,
        None => Seq::empty(),
    });
    match object.restore_status {
        Some(status) => line + " "@ + labels.restore_status@ + " "@ + status,
        None => line,
    }
}

/// What is shown of an object below its key.
fn object_line(labels: &ObjectLabels, object: &ObjectInfo) -> (line: String)
    ensures
        line@ == object_line_text(*labels, object@),
{
    let mut line = "    ".to_owned();
    line.append(labels.size.as_str());
    line.append(" ");
    append_decimal(&mut line, object.size);
    line.append(" (");
    line.append(human_size(object.size).as_str());
    line.append(") ");
    line.append(labels.timestamp.as_str());
    line.append(" ");
    line.append(object.timestamp.to_text().as_str());
    line.append(" ");
    line.append(labels.storage_class.as_str());
    line.append(" ");
    let empty = String::new();
    let storage_class: &str = match &object.storage_class {
        Some(storage_class) => storage_class.as_str(),
        None => empty.as_str(),
    };
    assert(empty@ =~= Seq::<char>::empty());
    line.append(storage_class);
    match &object.restore_status {
        Some(status) => {
            line.append(" ");
            line.append(labels.restore_status.as_str());
            line.append(" ");
            line.append(status.as_str());
        },
        None => {},
    }
    line
}

/// What is shown of an object: its key in one line, as it is to be shown, and what is known of it
/// in the next.
pub fn print_object_human(display_key: &str, labels: &ObjectLabels, object: &ObjectInfo) -> (text:
    String)
    ensures
        text@ == "  "@ + display_key@ + "\n"@ + object_line_text(*labels, object@),
{
    let line = object_line(labels, object);
    "  ".to_owned().concat(display_key).concat("\n").concat(line.as_str())
}

/// What is said of a prefix that does not end with a slash, if it is not empty. Such a prefix can
/// match more than is meant (`foo` matches `foo` and `fooBar`), but it may be meant.
pub open spec fn prefix_warning(prefix: Seq<char>, context: Seq<char>) -> Option<Seq<char>> {
    if prefix.len() > 0 && prefix.last() != '/' {
        Some(
            "WARNING ["@ + context
                + "]: Prefix does not end with '/'. Keys may not match directory-style paths. (if intentional, e.g. non-path prefix like 'archive-', ignore.)"@,
        )
    } else {
        None
    }
}

/// Warns if a non-empty prefix does not end with `/`. Keys that are like paths usually have a
/// slash there.
pub fn warn_prefix_no_trailing_slash(prefix: &str, context: &str) -> (warning: Option<String>)
    ensures
        warning.deep_view() == prefix_warning(prefix@, context@),
{
    let chars = chars_of(prefix);
    let length: usize = chars.len();
    if length > 0 && chars[length - 1] != '/' {
        Some(
            "WARNING [".to_owned().concat(context).concat(
                "]: Prefix does not end with '/'. Keys may not match directory-style paths. (if intentional, e.g. non-path prefix like 'archive-', ignore.)",
            ),
        )
    } else {
        None
    }
}

/// Rounding a quotient gives the nearest number: it is not further from the quotient than half.
pub proof fn lemma_quotient_is_rounded_to_the_nearest(a: nat, b: nat)
    requires
        b > 0,
    ensures
        2 * rounded_quotient(a, b) * b <= 2 * a + b,
        2 * a <= 2 * rounded_quotient(a, b) * b + b,
{
    let q = a / b;
    let r = a % b;
    vstd::arithmetic::div_mod::lemma_fundamental_div_mod(a as int, b as int);
    vstd::arithmetic::div_mod::lemma_mod_bound(a as int, b as int);
    assert(2 * q * b == 2 * (a - r)) by (nonlinear_arith)
        requires
            a == b * q + r,
    ;
    assert(2 * (q + 1) * b == 2 * q * b + 2 * b) by (nonlinear_arith);
}

/// A size below 2^53 bytes is shown in the largest of TiB, GiB, MiB and KiB of which it is more
/// than one, or else in KiB, to the nearest hundredth.
pub proof fn lemma_size_is_shown_in_the_right_unit(size: u64)
    requires
        size < EXACT_INTEGERS,
    ensures
        ({
            let (unit, letter): (nat, char) = if size > 1024 * 1024 * 1024 * 1024 {
                (1024 * 1024 * 1024 * 1024, 'T')
            } else if size > 1024 * 1024 * 1024 {
                (1024 * 1024 * 1024, 'G')
            } else if size > 1024 * 1024 {
                (1024 * 1024, 'M')
            } else {
                (1024, 'K')
            };
            let shown = human_size_text(size);
            &&& shown.last() == letter
            &&& exists|hundredths: nat|
                shown.drop_last() == #[trigger] hundredths_text(hundredths) && 2 * hundredths * unit
                    <= 2 * (size * 100) + unit && 2 * (size * 100) <= 2 * hundredths * unit + unit
        }),
{
    lemma_small_sizes_are_exact(size as nat);
    reveal_strlit("T");
    reveal_strlit("G");
    reveal_strlit("M");
    reveal_strlit("K");
    let unit: nat = if size > TIB {
        TIB as nat
    } else if size > GIB {
        GIB as nat
    } else if size > MIB {
        MIB as nat
    } else {
        KIB as nat
    };
    let hundredths = rounded_quotient((size * 100) as nat, unit);
    lemma_quotient_is_rounded_to_the_nearest((size * 100) as nat, unit);
    assert(human_size_text(size).drop_last() =~= hundredths_text(hundredths));
}

/// A number in hundredths is shown by its whole part, a point and its two digits after it.
pub proof fn lemma_hundredths_are_shown_with_two_digits(hundredths: nat)
    ensures
        ({
            let shown = hundredths_text(hundredths);
            let n = shown.len() as int;
            &&& n >= 4
            &&& shown[n - 3] == '.'
            &&& text::decimal_value(shown.take(n - 3)) * 100 + (shown[n - 2] as int - '0' as int)
                * 10 + (shown[n - 1] as int - '0' as int) == hundredths
        }),
{
    reveal_strlit(".");
    let shown = hundredths_text(hundredths);
    let n = shown.len() as int;
    let whole = text::decimal(hundredths / 100);
    text::lemma_decimal_stands_for_its_number(hundredths / 100);
    text::lemma_decimal_has_only_digits(hundredths / 100);
    assert(shown.take(n - 3) =~= whole);
    assert(hundredths / 100 * 100 + hundredths / 10 % 10 * 10 + hundredths % 10 == hundredths);
}

/// What is shown of an object holds its size, its time of modification and its storage class, and
/// its restore status at the end, if it has one.
pub proof fn lemma_line_shows_the_object(labels: ObjectLabels, object: ObjectInfoView)
    ensures
        ({
            let line = object_line_text(labels, object);
            &&& text::contains_text(line, labels.size@ + " "@ + text::decimal(object.size as nat))
            &&& text::contains_text(line, " ("@ + human_size_text(object.size) + ") "@)
            &&& text::contains_text(line, labels.timestamp@ + " "@ + object.timestamp.shown())
            &&& object.storage_class matches Some(class) ==> text::contains_text(
                line,
                labels.storage_class@ + " "@ + class,
            )
            &&& object.restore_status matches Some(status) ==> text::contains_text(
                line,
                labels.restore_status@ + " "@ + status,
            )
        }),
{
    let gap = " "@;
    let lead = "    "@;
    let size = text::decimal(object.size as nat);
    let human = human_size_text(object.size);
    let time = object.timestamp.shown();
    let class = match object.storage_class {
        Some(class) => class,
        None => Seq::empty(),
    };
    let to_size = lead + labels.size@ + gap + size;
    let to_human = to_size + " ("@ + human + ") "@;
    let to_time = to_human + labels.timestamp@ + gap + time;
    let to_class = to_time + gap + labels.storage_class@ + gap + class;
    text::lemma_labelled_value_stands_in_text(lead, labels.size@, gap, size);
    lemma_found_to_the_end(to_size, labels.size@ + gap + size, labels, object);
    text::lemma_labelled_value_stands_in_text(to_size, " ("@, human, ") "@);
    lemma_found_to_the_end(to_human, " ("@ + human + ") "@, labels, object);
    text::lemma_labelled_value_stands_in_text(to_human, labels.timestamp@, gap, time);
    lemma_found_to_the_end(to_time, labels.timestamp@ + gap + time, labels, object);
    text::lemma_labelled_value_stands_in_text(to_time + gap, labels.storage_class@, gap, class);
    lemma_found_to_the_end(to_class, labels.storage_class@ + gap + class, labels, object);
    if let Some(status) = object.restore_status {
        text::lemma_labelled_value_stands_in_text(
            to_class + gap,
            labels.restore_status@,
            gap,
            status,
        );
    }
}

/// What stands in the beginning of what is shown of an object, up to one of its values, stands in
/// all of it.
proof fn lemma_found_to_the_end(
    beginning: Seq<char>,
    piece: Seq<char>,
    labels: ObjectLabels,
    object: ObjectInfoView,
)
    requires
        text::contains_text(beginning, piece),
        ({
            let to_size = "    "@ + labels.size@ + " "@ + text::decimal(object.size as nat);
            let to_human = to_size + " ("@ + human_size_text(object.size) + ") "@;
            let to_time = to_human + labels.timestamp@ + " "@ + object.timestamp.shown();
            let to_class = to_time + " "@ + labels.storage_class@ + " "@ + (
            match object.storage_class {
                Some(class) => class,
                None => Seq::empty(),
            });
            beginning == to_size || beginning == to_human || beginning == to_time || beginning
                == to_class
        }),
    ensures
        text::contains_text(object_line_text(labels, object), piece),
{
    let gap = " "@;
    let human = human_size_text(object.size);
    let time = object.timestamp.shown();
    let class = match object.storage_class {
        Some(class) => class,
        None => Seq::empty(),
    };
    let to_size = "    "@ + labels.size@ + gap + text::decimal(object.size as nat);
    let to_human = to_size + " ("@ + human + ") "@;
    let to_time = to_human + labels.timestamp@ + gap + time;
    let to_class = to_time + gap + labels.storage_class@ + gap + class;
    if text::contains_text(to_size, piece) {
        text::lemma_longer_text_holds_it(to_size, piece, " ("@);
        text::lemma_longer_text_holds_it(to_size + " ("@, piece, human);
        text::lemma_longer_text_holds_it(to_size + " ("@ + human, piece, ") "@);
    }
    if text::contains_text(to_human, piece) {
        text::lemma_longer_text_holds_it(to_human, piece, labels.timestamp@);
        text::lemma_longer_text_holds_it(to_human + labels.timestamp@, piece, gap);
        text::lemma_longer_text_holds_it(to_human + labels.timestamp@ + gap, piece, time);
    }
    if text::contains_text(to_time, piece) {
        let label = labels.storage_class@;
        text::lemma_longer_text_holds_it(to_time, piece, gap);
        text::lemma_longer_text_holds_it(to_time + gap, piece, label);
        text::lemma_longer_text_holds_it(to_time + gap + label, piece, gap);
        text::lemma_longer_text_holds_it(to_time + gap + label + gap, piece, class);
    }
    if let Some(status) = object.restore_status {
        let label = labels.restore_status@;
        text::lemma_longer_text_holds_it(to_class, piece, gap);
        text::lemma_longer_text_holds_it(to_class + gap, piece, label);
        text::lemma_longer_text_holds_it(to_class + gap + label, piece, gap);
        text::lemma_longer_text_holds_it(to_class + gap + label + gap, piece, status);
    }
}

/// A prefix is warned of exactly if it is not empty and does not end with a slash, and the warning
/// says where.
pub proof fn lemma_doubtful_prefixes_are_warned_of(prefix: Seq<char>, context: Seq<char>)
    ensures
        prefix_warning(prefix, context) is Some <==> (prefix.len() > 0 && prefix[prefix.len() - 1]
            != '/'),
        prefix_warning(prefix, context) matches Some(warning) ==> text::contains_text(
            warning,
            context,
        ),
{
    if let Some(warning) = prefix_warning(prefix, context) {
        text::lemma_piece_stands_in_text(
            "WARNING ["@,
            context,
            "]: Prefix does not end with '/'. Keys may not match directory-style paths. (if intentional, e.g. non-path prefix like 'archive-', ignore.)"@,
        );
    }
}

/// The double-precision numbers around a size from 2^53 on are so far apart that between 2^52 and
/// 2^53 of their distances reach up to it.
pub proof fn lemma_doubles_have_53_digits(size: nat)
    requires
        size >= 9007199254740992,
    ensures
        spacing(size) * 4503599627370496 <= size < spacing(size) * 9007199254740992,
    decreases size,
{
    if size / 2 >= 9007199254740992 {
        lemma_doubles_have_53_digits(size / 2);
    } else {
        assert(spacing(size / 2) == 1);
    }
}

/// A size is taken as the nearest double-precision number: it is not further away than half of
/// their distance.
pub proof fn lemma_size_is_taken_as_the_nearest_double(size: nat)
    ensures
        2 * nearest_double(size) <= 2 * size + spacing(size),
        2 * size <= 2 * nearest_double(size) + spacing(size),
{
    if size >= 9007199254740992 {
        lemma_doubles_have_53_digits(size);
    }
    let step = spacing(size);
    assert(step > 0);
    let n = rounded_quotient(size, step);
    lemma_quotient_is_rounded_to_the_nearest(size, step);
    assert(2 * (n * step) == 2 * n * step) by (nonlinear_arith);
}

/// A size from 2^53 bytes on is shown in TiB, to the nearest hundredth of the double-precision
/// number that it is taken as.
pub proof fn lemma_huge_size_is_shown_in_tib(size: u64)
    requires
        size >= 9007199254740992,
    ensures
        ({
            let shown = human_size_text(size);
            let taken = nearest_double(size as nat);
            let unit = 1024nat * 1024 * 1024 * 1024;
            &&& shown.last() == 'T'
            &&& exists|hundredths: nat|
                shown.drop_last() == #[trigger] hundredths_text(hundredths) && 2 * hundredths * unit
                    <= 2 * (taken * 100) + unit && 2 * (taken * 100) <= 2 * hundredths * unit + unit
        }),
{
    reveal_strlit("T");
    lemma_size_is_taken_as_the_nearest_double(size as nat);
    lemma_doubles_have_53_digits(size as nat);
    let taken = nearest_double(size as nat);
    let hundredths = rounded_quotient(taken * 100, TIB as nat);
    lemma_quotient_is_rounded_to_the_nearest(taken * 100, TIB as nat);
    assert(human_size_text(size).drop_last() =~= hundredths_text(hundredths));
}

} // verus!
