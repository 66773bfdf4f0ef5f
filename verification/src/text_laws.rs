//! What holds of the text primitives, stated on the text itself.

use vstd::arithmetic::div_mod::lemma_div_denominator;
use vstd::arithmetic::power::lemma_pow0;
use vstd::arithmetic::power::lemma_pow1;
use vstd::arithmetic::power::lemma_pow_positive;
use vstd::arithmetic::power::pow;
use vstd::prelude::*;

use crate::decimal::all_digits;
use crate::decimal::decimal_digits;
use crate::decimal::decimal_text;
use crate::decimal::digits_value;
use crate::decimal::i64_value;
use crate::decimal::integer_value;
use crate::order::bytes_at_most;
use crate::text::ascii_lower;
use crate::text::ascii_upper;
use crate::text::first_index;
use crate::text::has_text;
use crate::text::join_text;
use crate::text::lemma_first_index_found;
use crate::text::same_ignoring_ascii_case;
use crate::text::split_text;
use crate::text::splitn_text;
use crate::text::trim_end;
use crate::text::trim_leading;
use crate::text::trim_start;
use crate::text::trim_text;
use crate::text::white_space;
use crate::trusted::hex_text;

verus! {

/// White space is the 25 characters of the Unicode property.
pub proof fn law_white_space_characters(c: char)
    ensures
        white_space(c) <==> {
            ||| c == '\t' || c == '\n' || c == '\u{b}' || c == '\u{c}' || c == '\r' || c == ' '
            ||| c == '\u{85}' || c == '\u{a0}' || c == '\u{1680}' || c == '\u{2000}'
            ||| c == '\u{2001}' || c == '\u{2002}' || c == '\u{2003}' || c == '\u{2004}'
            ||| c == '\u{2005}' || c == '\u{2006}' || c == '\u{2007}' || c == '\u{2008}'
            ||| c == '\u{2009}' || c == '\u{200a}' || c == '\u{2028}' || c == '\u{2029}'
            ||| c == '\u{202f}' || c == '\u{205f}' || c == '\u{3000}'
        },
{
}

/// Every character is white space.
pub open spec fn blank(s: Seq<char>) -> bool {
    forall|i: int| 0 <= i < s.len() ==> white_space(#[trigger] s[i])
}

/// No white space stands at either end.
pub open spec fn firm(s: Seq<char>) -> bool {
    s.len() > 0 ==> !white_space(s[0]) && !white_space(s[s.len() - 1])
}

proof fn lemma_trim_start(before: Seq<char>, rest: Seq<char>)
    requires
        blank(before),
        rest.len() > 0 ==> !white_space(rest[0]),
    ensures
        trim_start(before + rest) == rest,
    decreases before.len(),
{
    let s = before + rest;
    if before.len() == 0 {
        assert(s =~= rest);
    } else {
        assert(white_space(before[0]));
        assert(s[0] == before[0]);
        assert(s.skip(1) =~= before.skip(1) + rest);
        lemma_trim_start(before.skip(1), rest);
    }
}

proof fn lemma_trim_end(core: Seq<char>, behind: Seq<char>)
    requires
        blank(behind),
        core.len() > 0 ==> !white_space(core[core.len() - 1]),
    ensures
        trim_end(core + behind) == core,
    decreases behind.len(),
{
    let s = core + behind;
    if behind.len() == 0 {
        assert(s =~= core);
    } else {
        assert(white_space(behind[behind.len() - 1]));
        assert(s.drop_last() =~= core + behind.drop_last());
        lemma_trim_end(core, behind.drop_last());
    }
}

/// Trimming takes the white space before and behind a text, and nothing of the
/// text.
pub proof fn law_trim_takes_outer_white_space(
    before: Seq<char>,
    core: Seq<char>,
    behind: Seq<char>,
)
    requires
        blank(before),
        firm(core),
        blank(behind),
    ensures
        trim_text(before + core + behind) == core,
{
    if core.len() == 0 {
        assert(before + core + behind =~= (before + behind) + core);
        lemma_trim_start(before + behind, core);
    } else {
        assert(before + core + behind =~= before + (core + behind));
        lemma_trim_start(before, core + behind);
        lemma_trim_end(core, behind);
    }
}

/// Every text is its trimmed form with white space before and behind it.
pub proof fn law_trimmed_text_is_firm(s: Seq<char>)
    ensures
        firm(trim_text(s)),
        exists|before: Seq<char>, behind: Seq<char>|
            #![trigger before + trim_text(s) + behind]
            blank(before) && blank(behind) && s == before + trim_text(s) + behind,
{
    let i = lemma_start_of(s);
    let t = s.skip(i);
    let j = lemma_end_of(t);
    let core = t.take(j);
    lemma_trim_start(s.take(i), t);
    assert(s =~= s.take(i) + t);
    if t.len() > 0 {
        lemma_trim_end(core, t.skip(j));
        assert(t =~= core + t.skip(j));
    } else {
        assert(core =~= t);
    }
    assert(trim_text(s) == core);
    assert(s =~= s.take(i) + trim_text(s) + t.skip(j));
}

proof fn lemma_start_of(s: Seq<char>) -> (i: int)
    ensures
        0 <= i <= s.len(),
        blank(s.take(i)),
        i < s.len() ==> !white_space(s[i]),
    decreases s.len(),
{
    if s.len() > 0 && white_space(s[0]) {
        let k = lemma_start_of(s.skip(1));
        assert forall|m: int| 0 <= m < k + 1 implies white_space(#[trigger] s.take(k + 1)[m]) by {
            if m > 0 {
                assert(white_space(s.skip(1).take(k)[m - 1]));
            }
        }
        k + 1
    } else {
        0
    }
}

proof fn lemma_end_of(t: Seq<char>) -> (j: int)
    requires
        t.len() > 0 ==> !white_space(t[0]),
    ensures
        0 <= j <= t.len(),
        blank(t.skip(j)),
        firm(t.take(j)),
        t.len() > 0 ==> j > 0,
    decreases t.len(),
{
    if t.len() > 0 && white_space(t.last()) {
        let front = t.drop_last();
        let j = lemma_end_of(front);
        assert(t.take(j) =~= front.take(j));
        assert forall|m: int| 0 <= m < t.skip(j).len() implies white_space(
            #[trigger] t.skip(j)[m],
        ) by {
            if m < t.skip(j).len() - 1 {
                assert(white_space(front.skip(j)[m]));
            }
        }
        j
    } else {
        assert(t.take(t.len() as int) =~= t);
        t.len() as int
    }
}

/// Joining puts the separator between neighbours, and nothing else.
pub proof fn law_join_concatenates(a: Seq<Seq<char>>, b: Seq<Seq<char>>, sep: Seq<char>)
    ensures
        a.len() == 0 ==> join_text(a, sep) == Seq::<char>::empty(),
        a.len() == 1 ==> join_text(a, sep) == a[0],
        a.len() > 0 && b.len() > 0 ==> join_text(a + b, sep) == join_text(a, sep) + sep
            + join_text(b, sep),
    decreases b.len(),
{
    if a.len() > 0 && b.len() > 0 {
        let all = a + b;
        assert(all.drop_last() =~= a + b.drop_last());
        assert(all.last() == b.last());
        law_join_concatenates(a, b.drop_last(), sep);
        if b.len() == 1 {
            assert(all.drop_last() =~= a);
            assert(join_text(all, sep) =~= join_text(a, sep) + sep + b[0]);
        } else {
            assert(join_text(all, sep) =~= join_text(a, sep) + sep + (join_text(
                b.drop_last(),
                sep,
            ) + sep + b.last()));
        }
    }
}

/// The pieces of a split hold no separator, and joined by it give the text back.
pub proof fn law_split_pieces_join_to_the_text(s: Seq<char>, sep: char)
    ensures
        split_text(s, sep).len() > 0,
        forall|i: int|
            0 <= i < split_text(s, sep).len() ==> !(#[trigger] split_text(s, sep)[i]).contains(
                sep,
            ),
        join_text(split_text(s, sep), seq![sep]) == s,
    decreases s.len(),
{
    crate::text::lemma_split_pieces(s, sep);
    lemma_first_index_found(s, sep);
    let f = first_index(s, sep) as int;
    if f < s.len() {
        let rest = s.skip(f + 1);
        law_split_pieces_join_to_the_text(rest, sep);
        law_join_concatenates(seq![s.take(f)], split_text(rest, sep), seq![sep]);
        assert(s =~= s.take(f) + seq![sep] + rest);
    }
}

/// A bounded split gives no more pieces than asked for; joined they give the
/// text back, and only a last piece that was kept whole holds the separator.
pub proof fn law_splitn_pieces_join_to_the_text(s: Seq<char>, n: nat, sep: char)
    requires
        n >= 1,
    ensures
        1 <= splitn_text(s, n, sep).len() <= n,
        forall|i: int|
            0 <= i < splitn_text(s, n, sep).len() - 1 ==> !(#[trigger] splitn_text(
                s,
                n,
                sep,
            )[i]).contains(sep),
        splitn_text(s, n, sep).len() < n ==> !splitn_text(s, n, sep).last().contains(sep),
        join_text(splitn_text(s, n, sep), seq![sep]) == s,
    decreases n,
{
    lemma_first_index_found(s, sep);
    let f = first_index(s, sep) as int;
    let pieces = splitn_text(s, n, sep);
    if n > 1 && f < s.len() {
        let rest = s.skip(f + 1);
        let later = splitn_text(rest, (n - 1) as nat, sep);
        law_splitn_pieces_join_to_the_text(rest, (n - 1) as nat, sep);
        law_join_concatenates(seq![s.take(f)], later, seq![sep]);
        assert(s =~= s.take(f) + seq![sep] + rest);
        assert forall|i: int| 0 <= i < pieces.len() - 1 implies !(#[trigger] pieces[i]).contains(
            sep,
        ) by {
            if i > 0 {
                assert(pieces[i] == later[i - 1]);
            }
        }
        assert(pieces.last() == later.last());
    }
}

/// A text holds another exactly where it is made of something, the other, and
/// something.
pub proof fn law_held_text_stands_between(s: Seq<char>, needle: Seq<char>)
    ensures
        has_text(s, needle) <==> exists|a: Seq<char>, b: Seq<char>|
            #![trigger a + needle + b]
            s == a + needle + b,
{
    if has_text(s, needle) {
        let i = choose|i: int|
            0 <= i && i + needle.len() <= s.len() && #[trigger] s.subrange(i, i + needle.len())
                == needle;
        assert(s =~= s.take(i) + needle + s.skip(i + needle.len()));
    }
    if exists|a: Seq<char>, b: Seq<char>| #![trigger a + needle + b] s == a + needle + b {
        let (a, b) = choose|a: Seq<char>, b: Seq<char>|
            #![trigger a + needle + b]
            s == a + needle + b;
        assert(s.subrange(a.len() as int, a.len() as int + needle.len()) =~= needle);
    }
}

/// Changing the case of ASCII letters moves them by 32, and leaves everything
/// else.
pub proof fn law_ascii_case_is_32_apart(c: char)
    ensures
        'A' <= c <= 'Z' ==> ascii_lower(c) as u32 == c as u32 + 32 && ascii_upper(c) == c,
        'a' <= c <= 'z' ==> ascii_upper(c) as u32 == c as u32 - 32 && ascii_lower(c) == c,
        !('A' <= c <= 'Z') && !('a' <= c <= 'z') ==> ascii_lower(c) == c && ascii_upper(c) == c,
{
}

/// Two texts are the same up to ASCII case exactly where they are as long, and
/// differ only by a letter standing for its other case.
pub proof fn law_same_up_to_ascii_case(a: Seq<char>, b: Seq<char>)
    ensures
        same_ignoring_ascii_case(a, b) <==> a.len() == b.len() && forall|i: int|
            0 <= i < a.len() ==> {
                ||| #[trigger] a[i] == b[i]
                ||| 'A' <= a[i] <= 'Z' && b[i] as u32 == a[i] as u32 + 32
                ||| 'A' <= b[i] <= 'Z' && a[i] as u32 == b[i] as u32 + 32
            },
{
    if a.len() == b.len() {
        assert forall|i: int| 0 <= i < a.len() implies (ascii_lower(#[trigger] a[i]) == ascii_lower(
            b[i],
        ) <==> {
            ||| a[i] == b[i]
            ||| 'A' <= a[i] <= 'Z' && b[i] as u32 == a[i] as u32 + 32
            ||| 'A' <= b[i] <= 'Z' && a[i] as u32 == b[i] as u32 + 32
        }) by {
            law_ascii_case_is_32_apart(a[i]);
            law_ascii_case_is_32_apart(b[i]);
        }
    }
}

/// Leading copies of a character are dropped, and nothing else.
pub proof fn law_leading_copies_are_dropped(n: nat, c: char, rest: Seq<char>)
    requires
        rest.len() > 0 ==> rest[0] != c,
    ensures
        trim_leading(Seq::new(n, |i: int| c) + rest, c) == rest,
    decreases n,
{
    let s = Seq::new(n, |i: int| c) + rest;
    if n == 0 {
        assert(s =~= rest);
    } else {
        assert(s.skip(1) =~= Seq::new((n - 1) as nat, |i: int| c) + rest);
        law_leading_copies_are_dropped((n - 1) as nat, c, rest);
    }
}

/// The digit at the place of each power of ten is the number's digit there, and
/// no zero leads a number of several digits. A negative number has a minus sign
/// before the digits of its opposite.
pub proof fn law_decimal_digits_by_place(v: int, k: nat)
    ensures
        v >= 0 ==> decimal_text(v) == decimal_digits(v as nat),
        v < 0 ==> decimal_text(v) == seq!['-'] + decimal_digits((-v) as nat),
        v >= 0 && k < decimal_text(v).len() ==> decimal_text(v)[decimal_text(v).len() - 1
            - k] as nat == 48 + (v / pow(10, k)) % 10,
        v >= 10 ==> decimal_text(v)[0] != '0',
        v >= 0 && k >= decimal_text(v).len() ==> v / pow(10, k) == 0,
    decreases v,
{
    if v >= 0 {
        lemma_pow0(10);
        if v >= 10 {
            law_decimal_digits_by_place(v / 10, 0);
            if v / 10 < 10 {
                assert(decimal_digits((v / 10) as nat) =~= seq![(48 + v / 10) as char]);
            }
        }
        if k == 0 {
            assert(v / 1 == v);
        } else {
            lemma_pow_positive(10, (k - 1) as nat);
            vstd::arithmetic::power::lemma_pow_adds(10, 1, (k - 1) as nat);
            lemma_pow1(10);
            lemma_div_denominator(v, 10, pow(10, (k - 1) as nat));
            if v >= 10 {
                law_decimal_digits_by_place(v / 10, (k - 1) as nat);
            } else {
                lemma_pow_positive(10, k);
                assert(pow(10, k) >= 10) by (nonlinear_arith)
                    requires
                        pow(10, k) == 10 * pow(10, (k - 1) as nat),
                        pow(10, (k - 1) as nat) > 0,
                ;
                vstd::arithmetic::div_mod::lemma_basic_div(v, pow(10, k));
            }
        }
    }
}

/// A number may be read with a plus sign or leading zeros, which change nothing;
/// what is read is a sign, at most, and digits.
pub proof fn law_numbers_are_signs_and_digits(s: Seq<char>)
    ensures
        all_digits(s) ==> i64_value(seq!['+'] + s) == i64_value(s),
        all_digits(s) ==> i64_value(seq!['0'] + s) == i64_value(s),
        i64_value(s) is Some ==> {
            &&& s.len() > 0
            &&& '0' <= s.last() <= '9'
            &&& s[0] == '+' || s[0] == '-' || '0' <= s[0] <= '9'
            &&& forall|i: int| 1 <= i < s.len() ==> '0' <= #[trigger] s[i] <= '9'
        },
{
    if all_digits(s) {
        let plus = seq!['+'] + s;
        assert(plus.skip(1) =~= s);
        assert(plus[0] == '+');
        assert(!all_digits(plus));
        assert('0' <= s[0] <= '9');
        let zero = seq!['0'] + s;
        assert(zero[0] == '0');
        assert forall|i: int| 0 <= i < zero.len() implies '0' <= #[trigger] zero[i] <= '9' by {
            if i > 0 {
                assert(zero[i] == s[i - 1]);
            }
        }
        lemma_leading_zero(s);
        assert(integer_value(zero) == integer_value(s));
    }
    if i64_value(s) is Some {
        if s[0] == '-' || s[0] == '+' {
            let t = s.skip(1);
            assert forall|i: int| 1 <= i < s.len() implies '0' <= #[trigger] s[i] <= '9' by {
                assert('0' <= t[i - 1] <= '9');
            }
        }
        assert(s.last() == s[s.len() - 1]);
    }
}

proof fn lemma_leading_zero(s: Seq<char>)
    ensures
        digits_value(seq!['0'] + s) == digits_value(s),
    decreases s.len(),
{
    let zero = seq!['0'] + s;
    if s.len() == 0 {
        assert(zero.drop_last() =~= Seq::<char>::empty());
        reveal_with_fuel(digits_value, 2);
    } else {
        assert(zero.drop_last() =~= seq!['0'] + s.drop_last());
        lemma_leading_zero(s.drop_last());
    }
}

/// Of two byte strings that differ first in one place, the one with the smaller
/// byte there comes first; a beginning comes before the whole.
pub proof fn law_order_is_by_the_first_difference(
    common: Seq<u8>,
    x: u8,
    a: Seq<u8>,
    y: u8,
    b: Seq<u8>,
)
    ensures
        x < y ==> bytes_at_most(common + seq![x] + a, common + seq![y] + b) && !bytes_at_most(
            common + seq![y] + b,
            common + seq![x] + a,
        ),
        bytes_at_most(common, common + a),
        a.len() > 0 ==> !bytes_at_most(common + a, common),
    decreases common.len(),
{
    let l = common + seq![x] + a;
    let r = common + seq![y] + b;
    if common.len() > 0 {
        let rest = common.skip(1);
        law_order_is_by_the_first_difference(rest, x, a, y, b);
        assert(l.skip(1) =~= rest + seq![x] + a);
        assert(r.skip(1) =~= rest + seq![y] + b);
        assert((common + a).skip(1) =~= rest + a);
        assert(l[0] == common[0] && r[0] == common[0] && (common + a)[0] == common[0]);
    } else {
        assert(l[0] == x && r[0] == y);
    }
}

/// A number is read back from its decimal text where 64 bits hold it, and from
/// no text otherwise; a minus sign before digits makes the opposite of them.
pub proof fn law_numbers_are_read_back(v: int, digits: Seq<char>)
    ensures
        i64::MIN <= v <= i64::MAX ==> i64_value(decimal_text(v)) == Some(v as i64),
        v < i64::MIN || v > i64::MAX ==> i64_value(decimal_text(v)) is None,
        all_digits(digits) && i64_value(digits) is Some ==> i64_value(seq!['-'] + digits) == Some(
            (-i64_value(digits)->Some_0) as i64,
        ),
{
    if i64::MIN <= v <= i64::MAX {
        crate::decimal::lemma_decimal_roundtrip(v as i64);
    } else if v >= 0 {
        crate::decimal::lemma_digits_roundtrip(v as nat);
        assert('0' <= decimal_text(v)[0] <= '9');
    } else {
        crate::decimal::lemma_digits_roundtrip((-v) as nat);
        assert(decimal_text(v).skip(1) =~= decimal_digits((-v) as nat));
    }
    if all_digits(digits) {
        assert((seq!['-'] + digits).skip(1) =~= digits);
        assert('0' <= digits[0] <= '9');
    }
}

/// Each byte is two hexadecimal digits in lower case, the higher one first.
pub proof fn law_hexadecimal_digits_are_the_bytes(bytes: Seq<u8>, i: int)
    requires
        0 <= i < bytes.len(),
    ensures
        hex_text(bytes).len() == 2 * bytes.len(),
        hex_text(bytes)[2 * i] == "0123456789abcdef"@[bytes[i] as int / 16],
        hex_text(bytes)[2 * i + 1] == "0123456789abcdef"@[bytes[i] as int % 16],
{
    reveal_strlit("0123456789abcdef");
    assert((2 * i) / 2 == i && (2 * i + 1) / 2 == i);
}

} // verus!
