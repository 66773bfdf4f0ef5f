//! Text primitives over the character view of strings.
//!
//! Every function here works on the `Seq<char>` view of a string, so that the
//! contracts of the other modules can be stated without speaking of bytes.

use vstd::prelude::*;
use vstd::string::StrSliceExecFns;
use vstd::string::StringExecFns;
use vstd::utf8::decode_utf8;
use vstd::utf8::encode_utf8;
use vstd::utf8::encode_utf8_decode_utf8;
use vstd::utf8::valid_utf8;

use crate::trusted::utf8_lossy_text;

verus! {

/// The characters with the Unicode `White_Space` property.
pub open spec fn white_space(c: char) -> bool {
    let v = c as u32;
    ||| 0x9 <= v <= 0xd
    ||| v == 0x20
    ||| v == 0x85
    ||| v == 0xa0
    ||| v == 0x1680
    ||| 0x2000 <= v <= 0x200a
    ||| v == 0x2028
    ||| v == 0x2029
    ||| v == 0x202f
    ||| v == 0x205f
    ||| v == 0x3000
}

/// Text without its leading white space.
pub open spec fn trim_start(s: Seq<char>) -> Seq<char>
    decreases s.len(),
{
    if s.len() > 0 && white_space(s[0]) {
        trim_start(s.skip(1))
    } else {
        s
    }
}

/// Text without its trailing white space.
pub open spec fn trim_end(s: Seq<char>) -> Seq<char>
    decreases s.len(),
{
    if s.len() > 0 && white_space(s.last()) {
        trim_end(s.drop_last())
    } else {
        s
    }
}

/// Text without white space at either end.
pub open spec fn trim_text(s: Seq<char>) -> Seq<char> {
    trim_end(trim_start(s))
}

/// Text without the leading copies of `c`.
pub open spec fn trim_leading(s: Seq<char>, c: char) -> Seq<char>
    decreases s.len(),
{
    if s.len() > 0 && s[0] == c {
        trim_leading(s.skip(1), c)
    } else {
        s
    }
}

/// The pieces between the occurrences of `sep`; one piece more than occurrences.
pub open spec fn split_text(s: Seq<char>, sep: char) -> Seq<Seq<char>>
    decreases s.len(),
{
    let i = first_index(s, sep);
    if i < s.len() {
        seq![s.take(i as int)] + split_text(s.skip(i as int + 1), sep)
    } else {
        seq![s]
    }
}

/// At most `n` pieces: the last one keeps every further `sep`.
pub open spec fn splitn_text(s: Seq<char>, n: nat, sep: char) -> Seq<Seq<char>>
    decreases n,
{
    let i = first_index(s, sep);
    if n <= 1 || i >= s.len() {
        seq![s]
    } else {
        seq![s.take(i as int)] + splitn_text(s.skip(i as int + 1), (n - 1) as nat, sep)
    }
}

/// Position of the first `c`, or the length where there is none.
pub open spec fn first_index(s: Seq<char>, c: char) -> nat
    decreases s.len(),
{
    if s.len() == 0 || s[0] == c {
        0
    } else {
        1 + first_index(s.skip(1), c)
    }
}

/// The parts one after another, with `sep` between neighbours.
pub open spec fn join_text(parts: Seq<Seq<char>>, sep: Seq<char>) -> Seq<char>
    decreases parts.len(),
{
    if parts.len() == 0 {
        seq![]
    } else if parts.len() == 1 {
        parts[0]
    } else {
        join_text(parts.drop_last(), sep) + sep + parts.last()
    }
}

/// `needle` occurs in `s` as a contiguous piece.
pub open spec fn has_text(s: Seq<char>, needle: Seq<char>) -> bool {
    exists|i: int|
        0 <= i && i + needle.len() <= s.len() && #[trigger] s.subrange(i, i + needle.len())
            == needle
}

/// The ASCII lower-case form of a character; other characters stay.
pub open spec fn ascii_lower(c: char) -> char {
    if 'A' <= c && c <= 'Z' {
        ((c as u32 + 32) as u32) as char
    } else {
        c
    }
}

/// The ASCII upper-case form of a character; other characters stay.
pub open spec fn ascii_upper(c: char) -> char {
    if 'a' <= c && c <= 'z' {
        ((c as u32 - 32) as u32) as char
    } else {
        c
    }
}

/// Equal up to the case of ASCII letters.
pub open spec fn same_ignoring_ascii_case(a: Seq<char>, b: Seq<char>) -> bool {
    &&& a.len() == b.len()
    &&& forall|i: int| 0 <= i < a.len() ==> ascii_lower(#[trigger] a[i]) == ascii_lower(b[i])
}

/// The character views of a sequence of string slices.
pub open spec fn texts(s: Seq<&str>) -> Seq<Seq<char>> {
    s.map_values(|p: &str| p@)
}

/// The character views of a sequence of strings.
pub open spec fn string_texts(s: Seq<String>) -> Seq<Seq<char>> {
    s.map_values(|p: String| p@)
}

/// The character view of an optional string.
pub open spec fn option_text(s: Option<String>) -> Option<Seq<char>> {
    match s {
        Some(t) => Some(t@),
        None => None,
    }
}

/// The text of some bytes; what is not UTF-8 is replaced.
pub open spec fn lossy_text(bytes: Seq<u8>) -> Seq<char> {
    if valid_utf8(bytes) {
        decode_utf8(bytes)
    } else {
        utf8_lossy_text(bytes)
    }
}

/// The byte view of an optional byte vector.
pub open spec fn option_bytes(b: Option<Vec<u8>>) -> Option<Seq<u8>> {
    match b {
        Some(v) => Some(v@),
        None => None,
    }
}

/// The characters of a string, one per element.
pub fn chars_of(s: &str) -> (r: Vec<char>)
    ensures
        r@ == s@,
{
    let mut v: Vec<char> = Vec::new();
    for c in it: s.chars()
        invariant
            v@ == it.seq().take(it.index()),
            it.seq() == s@,
    {
        v.push(c);
    }
    v
}

/// Two strings with the same bytes have the same characters.
pub proof fn lemma_encode_injective(a: Seq<char>, b: Seq<char>)
    requires
        encode_utf8(a) == encode_utf8(b),
    ensures
        a == b,
{
    encode_utf8_decode_utf8(a);
    encode_utf8_decode_utf8(b);
}

/// Byte-wise equality.
pub fn bytes_equal(a: &[u8], b: &[u8]) -> (r: bool)
    ensures
        r == (a@ == b@),
{
    if a.len() != b.len() {
        return false;
    }
    let n: usize = a.len();
    let mut i: usize = 0;
    while i < n
        invariant
            n == a@.len(),
            n == b@.len(),
            i <= n,
            forall|k: int| 0 <= k < i ==> a@[k] == b@[k],
        decreases n - i,
    {
        if a[i] != b[i] {
            assert(a@[i as int] != b@[i as int]);
            return false;
        }
        i = i + 1;
    }
    assert(a@ =~= b@);
    true
}

/// String equality.
pub fn str_equal(a: &str, b: &str) -> (r: bool)
    ensures
        r == (a@ == b@),
{
    let r: bool = bytes_equal(a.as_bytes(), b.as_bytes());
    proof {
        if r {
            lemma_encode_injective(a@, b@);
        }
    }
    r
}

/// Whether a string has no characters.
pub fn no_text(s: &str) -> (r: bool)
    ensures
        r == (s@.len() == 0),
{
    s.unicode_len() == 0
}

/// `a` followed by `b`.
pub fn concat2(a: &str, b: &str) -> (r: String)
    ensures
        r@ == a@ + b@,
{
    let mut s: String = a.to_owned();
    s.append(b);
    s
}

/// `a`, `b` and `c` one after another.
pub fn concat3(a: &str, b: &str, c: &str) -> (r: String)
    ensures
        r@ == a@ + b@ + c@,
{
    let mut s: String = a.to_owned();
    s.append(b);
    s.append(c);
    s
}

/// Whether a character has the Unicode `White_Space` property.
pub fn is_white_space(c: char) -> (r: bool)
    ensures
        r == white_space(c),
{
    let v: u32 = c as u32;
    (0x9 <= v && v <= 0xd) || v == 0x20 || v == 0x85 || v == 0xa0 || v == 0x1680 || (0x2000 <= v
        && v <= 0x200a) || v == 0x2028 || v == 0x2029 || v == 0x202f || v == 0x205f || v == 0x3000
}

/// Drops white space at both ends.
pub fn trim(s: &str) -> (r: &str)
    ensures
        r@ == trim_text(s@),
{
    let v: Vec<char> = chars_of(s);
    let n: usize = v.len();
    let mut lo: usize = 0;
    assert(s@.skip(0) =~= s@);
    while lo < n && is_white_space(v[lo])
        invariant
            v@ == s@,
            n == s@.len(),
            lo <= n,
            trim_start(s@) == trim_start(s@.skip(lo as int)),
        decreases n - lo,
    {
        assert(s@.skip(lo as int).skip(1) =~= s@.skip(lo + 1));
        lo = lo + 1;
    }
    let ghost t = s@.skip(lo as int);
    assert(trim_start(s@) == t);
    let mut hi: usize = n;
    assert(t =~= s@.subrange(lo as int, hi as int));
    while lo < hi && is_white_space(v[hi - 1])
        invariant
            v@ == s@,
            n == s@.len(),
            lo <= hi <= n,
            trim_end(t) == trim_end(s@.subrange(lo as int, hi as int)),
        decreases hi,
    {
        assert(s@.subrange(lo as int, hi as int).drop_last() =~= s@.subrange(lo as int, hi - 1));
        hi = hi - 1;
    }
    s.substring_char(lo, hi)
}

/// Drops the leading copies of `c`.
pub fn trim_leading_char(s: &str, c: char) -> (r: &str)
    ensures
        r@ == trim_leading(s@, c),
{
    let v: Vec<char> = chars_of(s);
    let n: usize = v.len();
    let mut lo: usize = 0;
    assert(s@.skip(0) =~= s@);
    while lo < n && v[lo] == c
        invariant
            v@ == s@,
            n == s@.len(),
            lo <= n,
            trim_leading(s@, c) == trim_leading(s@.skip(lo as int), c),
        decreases n - lo,
    {
        assert(s@.skip(lo as int).skip(1) =~= s@.skip(lo + 1));
        lo = lo + 1;
    }
    s.substring_char(lo, n)
}

/// Whether `s` begins with `prefix`.
pub fn has_prefix(s: &str, prefix: &str) -> (r: bool)
    ensures
        r == prefix@.is_prefix_of(s@),
{
    let v: Vec<char> = chars_of(s);
    let p: Vec<char> = chars_of(prefix);
    if p.len() > v.len() {
        return false;
    }
    matches_at(&v, 0, &p)
}

/// Whether `s` ends with `suffix`.
pub fn has_suffix(s: &str, suffix: &str) -> (r: bool)
    ensures
        r == suffix@.is_suffix_of(s@),
{
    let v: Vec<char> = chars_of(s);
    let p: Vec<char> = chars_of(suffix);
    if p.len() > v.len() {
        return false;
    }
    matches_at(&v, v.len() - p.len(), &p)
}

/// Whether the characters of `p` stand in `v` from position `at` on.
fn matches_at(v: &Vec<char>, at: usize, p: &Vec<char>) -> (r: bool)
    requires
        at + p@.len() <= v@.len(),
    ensures
        r == (v@.subrange(at as int, at + p@.len()) == p@),
{
    let n: usize = p.len();
    let m: usize = v.len();
    let mut i: usize = 0;
    while i < n
        invariant
            n == p@.len(),
            m == v@.len(),
            at + n <= m,
            i <= n,
            forall|k: int| 0 <= k < i ==> v@[at + k] == #[trigger] p@[k],
        decreases n - i,
    {
        if v[at + i] != p[i] {
            assert(v@.subrange(at as int, at + p@.len())[i as int] != p@[i as int]);
            return false;
        }
        i = i + 1;
    }
    assert(v@.subrange(at as int, at + p@.len()) =~= p@);
    true
}

/// The text behind `prefix`, where `s` begins with it.
pub fn strip_prefix<'a>(s: &'a str, prefix: &str) -> (r: Option<&'a str>)
    ensures
        r is Some == prefix@.is_prefix_of(s@),
        r matches Some(rest) ==> rest@ == s@.skip(prefix@.len() as int),
{
    if has_prefix(s, prefix) {
        Some(s.substring_char(prefix.unicode_len(), s.unicode_len()))
    } else {
        None
    }
}

/// Whether `needle` occurs in `s`.
pub fn contains_text(s: &str, needle: &str) -> (r: bool)
    ensures
        r == has_text(s@, needle@),
{
    let v: Vec<char> = chars_of(s);
    let p: Vec<char> = chars_of(needle);
    if p.len() > v.len() {
        return false;
    }
    let last: usize = v.len() - p.len();
    let mut at: usize = 0;
    loop
        invariant
            v@ == s@,
            p@ == needle@,
            last + p@.len() == v@.len(),
            at <= last,
            forall|k: int| 0 <= k < at ==> #[trigger] s@.subrange(k, k + needle@.len()) != needle@,
        decreases last - at,
    {
        if matches_at(&v, at, &p) {
            return true;
        }
        if at == last {
            return false;
        }
        at = at + 1;
    }
}

/// Whether two strings are equal up to the case of ASCII letters.
pub fn equal_ignoring_ascii_case(a: &str, b: &str) -> (r: bool)
    ensures
        r == same_ignoring_ascii_case(a@, b@),
{
    let x: Vec<char> = chars_of(a);
    let y: Vec<char> = chars_of(b);
    if x.len() != y.len() {
        return false;
    }
    let n: usize = x.len();
    let mut i: usize = 0;
    while i < n
        invariant
            x@ == a@,
            y@ == b@,
            n == x@.len(),
            n == y@.len(),
            i <= n,
            forall|k: int| 0 <= k < i ==> ascii_lower(#[trigger] a@[k]) == ascii_lower(b@[k]),
        decreases n - i,
    {
        if lower_ascii_char(x[i]) != lower_ascii_char(y[i]) {
            assert(ascii_lower(a@[i as int]) != ascii_lower(b@[i as int]));
            return false;
        }
        i = i + 1;
    }
    true
}

/// The code point of a character with ASCII letters in lower case.
fn lower_ascii_char(c: char) -> (r: u32)
    ensures
        r == ascii_lower(c) as u32,
{
    let v: u32 = c as u32;
    if 65 <= v && v <= 90 {
        v + 32
    } else {
        v
    }
}

/// Position of the first `c` at or behind `from`, or the length.
fn find_char(v: &Vec<char>, from: usize, c: char) -> (r: usize)
    requires
        from <= v@.len(),
    ensures
        from <= r <= v@.len(),
        r == from + first_index(v@.skip(from as int), c),
{
    let n: usize = v.len();
    let mut i: usize = from;
    while i < n && v[i] != c
        invariant
            n == v@.len(),
            from <= i <= n,
            first_index(v@.skip(from as int), c) == (i - from) + first_index(v@.skip(i as int), c),
        decreases n - i,
    {
        assert(v@.skip(i as int).skip(1) =~= v@.skip(i + 1));
        i = i + 1;
    }
    i
}

/// The pieces of `s` between the occurrences of `sep`.
pub fn split<'a>(s: &'a str, sep: char) -> (r: Vec<&'a str>)
    ensures
        texts(r@) == split_text(s@, sep),
{
    let v: Vec<char> = chars_of(s);
    let n: usize = v.len();
    let mut out: Vec<&'a str> = Vec::new();
    let mut from: usize = 0;
    assert(s@.skip(0) =~= s@);
    assert(texts(out@) + split_text(s@, sep) =~= split_text(s@, sep));
    loop
        invariant
            v@ == s@,
            n == s@.len(),
            from <= n,
            texts(out@) + split_text(s@.skip(from as int), sep) == split_text(s@, sep),
        decreases n - from,
    {
        let i: usize = find_char(&v, from, sep);
        let piece: &'a str = s.substring_char(from, i);
        let ghost rest = s@.skip(from as int);
        let ghost before = texts(out@);
        out.push(piece);
        assert(texts(out@) =~= before.push(piece@));
        assert(piece@ =~= rest.take(i - from));
        if i == n {
            assert(rest.take(i - from) =~= rest);
            assert(split_text(rest, sep) == seq![rest]);
            assert(texts(out@) =~= before + seq![rest]);
            return out;
        }
        assert(rest.skip(i - from + 1) =~= s@.skip(i + 1));
        assert(texts(out@) + split_text(s@.skip(i + 1), sep) =~= before + (seq![piece@]
            + split_text(s@.skip(i + 1), sep)));
        from = i + 1;
    }
}

/// At most `limit` pieces of `s`; the last one keeps every further `sep`.
pub fn splitn<'a>(s: &'a str, limit: usize, sep: char) -> (r: Vec<&'a str>)
    requires
        limit >= 1,
    ensures
        texts(r@) == splitn_text(s@, limit as nat, sep),
{
    let v: Vec<char> = chars_of(s);
    let n: usize = v.len();
    let mut out: Vec<&'a str> = Vec::new();
    let mut from: usize = 0;
    let mut left: usize = limit;
    assert(s@.skip(0) =~= s@);
    assert(texts(out@) + splitn_text(s@, limit as nat, sep) =~= splitn_text(s@, limit as nat, sep));
    loop
        invariant
            v@ == s@,
            n == s@.len(),
            from <= n,
            1 <= left,
            texts(out@) + splitn_text(s@.skip(from as int), left as nat, sep) == splitn_text(
                s@,
                limit as nat,
                sep,
            ),
        decreases left,
    {
        let i: usize = find_char(&v, from, sep);
        let ghost rest = s@.skip(from as int);
        let ghost before = texts(out@);
        if left == 1 || i == n {
            let piece: &'a str = s.substring_char(from, n);
            out.push(piece);
            assert(piece@ =~= rest);
            assert(texts(out@) =~= before + seq![rest]);
            return out;
        }
        let piece: &'a str = s.substring_char(from, i);
        out.push(piece);
        assert(texts(out@) =~= before.push(piece@));
        assert(piece@ =~= rest.take(i - from));
        assert(rest.skip(i - from + 1) =~= s@.skip(i + 1));
        assert(texts(out@) + splitn_text(s@.skip(i + 1), (left - 1) as nat, sep) =~= before + (
        seq![piece@] + splitn_text(s@.skip(i + 1), (left - 1) as nat, sep)));
        from = i + 1;
        left = left - 1;
    }
}

/// The parts one after another, with `sep` between neighbours.
pub fn join(parts: &Vec<String>, sep: &str) -> (r: String)
    ensures
        r@ == join_text(string_texts(parts@), sep@),
{
    let mut out: String = String::new();
    let n: usize = parts.len();
    let mut i: usize = 0;
    while i < n
        invariant
            n == parts@.len(),
            i <= n,
            out@ == join_text(string_texts(parts@).take(i as int), sep@),
        decreases n - i,
    {
        let ghost all = string_texts(parts@);
        assert(all.take(i + 1).drop_last() =~= all.take(i as int));
        if i > 0 {
            out.append(sep);
        }
        out.append(parts[i].as_str());
        assert(out@ =~= join_text(all.take(i + 1), sep@));
        i = i + 1;
    }
    assert(string_texts(parts@).take(n as int) =~= string_texts(parts@));
    out
}

/// The first occurrence comes no later than any other.
pub proof fn lemma_first_index_bound(s: Seq<char>, c: char, k: int)
    requires
        0 <= k < s.len(),
        s[k] == c,
    ensures
        first_index(s, c) <= k,
    decreases k,
{
    if s[0] != c {
        assert(s.skip(1)[k - 1] == c);
        lemma_first_index_bound(s.skip(1), c, k - 1);
    }
}

/// Behind text without `c`, a `c` is the first one.
pub proof fn lemma_first_index_behind(a: Seq<char>, rest: Seq<char>, c: char)
    requires
        !a.contains(c),
    ensures
        first_index(a + seq![c] + rest, c) == a.len(),
    decreases a.len(),
{
    let s = a + seq![c] + rest;
    if a.len() > 0 {
        assert(a[0] != c) by {
            assert(a.contains(a[0]));
        }
        assert(s[0] == a[0]);
        let b = a.skip(1);
        assert(!b.contains(c)) by {
            if b.contains(c) {
                let i = choose|i: int| 0 <= i < b.len() && b[i] == c;
                assert(a[i + 1] == c);
            }
        }
        lemma_first_index_behind(b, rest, c);
        assert(s.skip(1) =~= b + seq![c] + rest);
    } else {
        assert(s[0] == c);
    }
}

/// Where there is no `c`, the first index is the length; else it is that of a `c`.
pub proof fn lemma_first_index_found(s: Seq<char>, c: char)
    ensures
        first_index(s, c) <= s.len(),
        first_index(s, c) == s.len() <==> !s.contains(c),
        first_index(s, c) < s.len() ==> s[first_index(s, c) as int] == c,
        !s.take(first_index(s, c) as int).contains(c),
    decreases s.len(),
{
    let f = first_index(s, c) as int;
    if s.len() > 0 && s[0] != c {
        let rest = s.skip(1);
        lemma_first_index_found(rest, c);
        if rest.contains(c) {
            let i = choose|i: int| 0 <= i < rest.len() && rest[i] == c;
            assert(s[i + 1] == c);
        }
        if s.contains(c) {
            let i = choose|i: int| 0 <= i < s.len() && s[i] == c;
            assert(rest[i - 1] == c);
        }
        if s.take(f).contains(c) {
            let i = choose|i: int| 0 <= i < f && s.take(f)[i] == c;
            assert(rest.take(f - 1)[i - 1] == c);
        }
    }
}

/// No piece of a split holds the separator, and there is at least one.
pub proof fn lemma_split_pieces(s: Seq<char>, sep: char)
    ensures
        split_text(s, sep).len() > 0,
        forall|i: int|
            0 <= i < split_text(s, sep).len() ==> !(#[trigger] split_text(s, sep)[i]).contains(
                sep,
            ),
    decreases s.len(),
{
    lemma_first_index_found(s, sep);
    let f = first_index(s, sep) as int;
    if f < s.len() {
        let rest = s.skip(f + 1);
        lemma_split_pieces(rest, sep);
        let pieces = split_text(s, sep);
        assert forall|i: int| 0 <= i < pieces.len() implies !(#[trigger] pieces[i]).contains(
            sep,
        ) by {
            if i > 0 {
                assert(pieces[i] == split_text(rest, sep)[i - 1]);
            }
        }
    }
}

/// Text behind a further separator is a further piece.
pub proof fn lemma_split_append(a: Seq<char>, b: Seq<char>, sep: char)
    requires
        !b.contains(sep),
    ensures
        split_text(a + seq![sep] + b, sep) == split_text(a, sep).push(b),
    decreases a.len(),
{
    let s = a + seq![sep] + b;
    lemma_first_index_found(a, sep);
    lemma_first_index_found(b, sep);
    if a.contains(sep) {
        let f = first_index(a, sep) as int;
        let front = a.take(f);
        let rest = a.skip(f + 1);
        lemma_first_index_behind(front, rest + seq![sep] + b, sep);
        assert(s =~= front + seq![sep] + (rest + seq![sep] + b));
        assert(s.take(f) =~= front);
        assert(s.skip(f + 1) =~= rest + seq![sep] + b);
        lemma_split_append(rest, b, sep);
        assert(split_text(s, sep) =~= split_text(a, sep).push(b));
    } else {
        lemma_first_index_behind(a, b, sep);
        assert(s.take(a.len() as int) =~= a);
        assert(s.skip(a.len() as int + 1) =~= b);
        assert(split_text(a, sep) =~= seq![a]);
        assert(split_text(b, sep) =~= seq![b]);
        assert(split_text(s, sep) =~= split_text(a, sep).push(b));
    }
}

/// Splitting what was joined gives the parts back.
pub proof fn lemma_split_joined(parts: Seq<Seq<char>>, sep: char)
    requires
        parts.len() > 0,
        forall|i: int| 0 <= i < parts.len() ==> !(#[trigger] parts[i]).contains(sep),
    ensures
        split_text(join_text(parts, seq![sep]), sep) == parts,
    decreases parts.len(),
{
    if parts.len() == 1 {
        lemma_first_index_found(parts[0], sep);
        assert(!parts[0].contains(sep));
        assert(split_text(parts[0], sep) =~= parts);
    } else {
        let front = parts.drop_last();
        assert forall|i: int| 0 <= i < front.len() implies !(#[trigger] front[i]).contains(
            sep,
        ) by {
            assert(front[i] == parts[i]);
        }
        lemma_split_joined(front, sep);
        assert(!parts[parts.len() - 1].contains(sep));
        lemma_split_append(join_text(front, seq![sep]), parts.last(), sep);
        assert(parts =~= front.push(parts.last()));
    }
}

/// Position of the last `c`, or -1 where there is none.
pub open spec fn last_index_of(s: Seq<char>, c: char) -> int
    decreases s.len(),
{
    if s.len() == 0 {
        -1
    } else if s.last() == c {
        s.len() - 1
    } else {
        last_index_of(s.drop_last(), c)
    }
}

/// The text before the last `c` and the text behind it.
pub open spec fn rsplit_text(s: Seq<char>, c: char) -> Option<(Seq<char>, Seq<char>)> {
    let i = last_index_of(s, c);
    if i >= 0 {
        Some((s.take(i), s.skip(i + 1)))
    } else {
        None
    }
}

/// Text splits at its last `c` into `a` and `b` exactly where it is `a`, `c` and
/// `b`, and `b` holds no `c`.
pub proof fn lemma_rsplit(s: Seq<char>, c: char, a: Seq<char>, b: Seq<char>)
    ensures
        rsplit_text(s, c) == Some((a, b)) <==> s == a + seq![c] + b && !b.contains(c),
    decreases s.len(),
{
    lemma_last_index_of(s, c);
    let i = last_index_of(s, c);
    if rsplit_text(s, c) == Some((a, b)) {
        assert(s =~= a + seq![c] + b);
    }
    if s == a + seq![c] + b && !b.contains(c) {
        let n = a.len() as int;
        assert(s[n] == c);
        if i < n {
            assert(s.skip(i + 1)[n - i - 1] == c);
        } else if i > n {
            assert(b[i - n - 1] == c);
        }
        assert(s.take(n) =~= a);
        assert(s.skip(n + 1) =~= b);
    }
}

/// The last index is that of a `c` with none behind it, where there is one.
pub proof fn lemma_last_index_of(s: Seq<char>, c: char)
    ensures
        -1 <= last_index_of(s, c) < s.len(),
        last_index_of(s, c) >= 0 ==> s[last_index_of(s, c)] == c,
        !s.skip(last_index_of(s, c) + 1).contains(c),
    decreases s.len(),
{
    let i = last_index_of(s, c);
    if s.len() > 0 && s.last() != c {
        let front = s.drop_last();
        lemma_last_index_of(front, c);
        let back = s.skip(i + 1);
        if back.contains(c) {
            let k = choose|k: int| 0 <= k < back.len() && back[k] == c;
            assert(s[i + 1 + k] == c);
            assert(front.skip(i + 1)[k] == c);
        }
    }
}

/// Splits a string at its last `c`.
pub fn rsplit_once<'a>(s: &'a str, c: char) -> (r: Option<(&'a str, &'a str)>)
    ensures
        r is Some == rsplit_text(s@, c) is Some,
        r matches Some((a, b)) ==> rsplit_text(s@, c) == Some((a@, b@)),
{
    let v: Vec<char> = chars_of(s);
    let n: usize = v.len();
    let mut end: usize = n;
    assert(s@.take(n as int) =~= s@);
    while end > 0 && v[end - 1] != c
        invariant
            v@ == s@,
            n == s@.len(),
            end <= n,
            last_index_of(s@, c) == last_index_of(s@.take(end as int), c),
        decreases end,
    {
        assert(s@.take(end as int).drop_last() =~= s@.take(end - 1));
        end = end - 1;
    }
    if end == 0 {
        return None;
    }
    assert(s@.take(end as int).last() == c);
    let front: &'a str = s.substring_char(0, end - 1);
    let back: &'a str = s.substring_char(end, n);
    assert(front@ =~= s@.take(end - 1));
    assert(back@ =~= s@.skip(end as int));
    Some((front, back))
}

} // verus!
