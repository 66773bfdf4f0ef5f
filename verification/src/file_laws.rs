//! What holds of file names, filters, types, listings and downloads, stated on
//! names and paths themselves.

use vstd::prelude::*;
use vstd::utf8::decode_utf8;
use vstd::utf8::encode_utf8;
use vstd::utf8::encode_utf8_decode_utf8;
use vstd::utf8::encode_utf8_first_scalar;
use vstd::utf8::encode_utf8_valid_utf8;
use vstd::utf8::valid_utf8;

use crate::order::bytes_at_most;
use crate::path::extension_bytes;
use crate::path::extension_text;
use crate::path::last_index;
use crate::path::names_of;
use crate::path::rel_text;
use crate::path::ComponentView;
use crate::text::lemma_first_index_found;
use crate::text::lemma_split_joined;
use crate::text::lossy_text;
use crate::text::same_ignoring_ascii_case;
use crate::text::split_text;
use crate::text::trim_leading;
use crate::text_laws::law_join_concatenates;
use crate::text_laws::law_leading_copies_are_dropped;
use crate::text_laws::law_split_pieces_join_to_the_text;
use crate::trusted::utf8_lossy_text;
use crate::workspace::candidate;
use crate::workspace::collected;
use crate::workspace::error_message;
use crate::workspace::found;
use crate::workspace::hidden;
use crate::workspace::listed;
use crate::workspace::mime_type;
use crate::workspace::normalized;
use crate::workspace::passes_ext_filter;
use crate::workspace::private_state;
use crate::workspace::resolved;
use crate::workspace::segment_components;
use crate::workspace::stably_sorted;
use crate::workspace::visited;
use crate::workspace::DownloadView;
use crate::workspace::EntryView;
use crate::workspace::ErrorView;
use crate::workspace::FailureView;
use crate::workspace::FileMetadata;
use crate::workspace::WalkView;

verus! {

proof fn lemma_last_dot(stem: Seq<u8>, ext: Seq<u8>)
    requires
        !ext.contains(46),
    ensures
        last_index(stem + seq![46u8] + ext, 46) == stem.len(),
    decreases ext.len(),
{
    let name = stem + seq![46u8] + ext;
    if ext.len() > 0 {
        let front = ext.drop_last();
        assert(ext.contains(ext.last()));
        assert(!front.contains(46)) by {
            if front.contains(46) {
                let i = choose|i: int| 0 <= i < front.len() && front[i] == 46;
                assert(ext[i] == 46);
            }
        }
        lemma_last_dot(stem, front);
        assert(name.drop_last() =~= stem + seq![46u8] + front);
    }
}

proof fn lemma_no_dot(name: Seq<u8>)
    requires
        !name.contains(46),
    ensures
        last_index(name, 46) == -1,
    decreases name.len(),
{
    if name.len() > 0 {
        let front = name.drop_last();
        assert(name.contains(name.last()));
        assert(!front.contains(46)) by {
            if front.contains(46) {
                let i = choose|i: int| 0 <= i < front.len() && front[i] == 46;
                assert(name[i] == 46);
            }
        }
        lemma_no_dot(front);
    }
}

/// What stands behind the last dot of a file's name is its extension, unless
/// nothing stands before that dot. No other path has one.
pub proof fn law_extension_stands_behind_the_last_dot(
    dir: Seq<ComponentView>,
    stem: Seq<u8>,
    ext: Seq<u8>,
    other: ComponentView,
)
    requires
        !ext.contains(46),
    ensures
        stem.len() > 0 ==> extension_bytes(
            dir.push(ComponentView::Normal(stem + seq![46u8] + ext)),
        ) == Some(ext),
        stem.len() > 0 && valid_utf8(ext) ==> extension_text(
            dir.push(ComponentView::Normal(stem + seq![46u8] + ext)),
        ) == Some(decode_utf8(ext)),
        stem.len() > 0 && !valid_utf8(ext) ==> extension_text(
            dir.push(ComponentView::Normal(stem + seq![46u8] + ext)),
        ) is None,
        extension_text(dir.push(ComponentView::Normal(seq![46u8] + ext))) is None,
        extension_text(dir.push(ComponentView::Normal(ext))) is None,
        !(other is Normal) ==> extension_text(dir.push(other)) is None,
        extension_text(Seq::empty()) is None,
{
    lemma_last_dot(stem, ext);
    lemma_last_dot(Seq::empty(), ext);
    lemma_no_dot(ext);
    assert(Seq::<u8>::empty() + seq![46u8] + ext =~= seq![46u8] + ext);
    assert((stem + seq![46u8] + ext).skip(stem.len() as int + 1) =~= ext);
}

proof fn lemma_encode_append(a: Seq<char>, b: Seq<char>)
    ensures
        encode_utf8(a + b) == encode_utf8(a) + encode_utf8(b),
    decreases a.len(),
{
    if a.len() == 0 {
        assert(a + b =~= b);
        assert(encode_utf8(a) + encode_utf8(b) =~= encode_utf8(b));
    } else {
        assert((a + b).drop_first() =~= a.drop_first() + b);
        assert((a + b)[0] == a[0]);
        lemma_encode_append(a.drop_first(), b);
        assert(encode_utf8(a + b) =~= encode_utf8(a) + encode_utf8(b));
    }
}

proof fn lemma_dots_are_dots(s: Seq<char>)
    ensures
        encode_utf8(s).contains(46) ==> s.contains('.'),
        s.len() > 0 ==> encode_utf8(s).len() > 0,
        s.len() > 0 && s[0] == '.' ==> encode_utf8(s)[0] == 46,
        s.len() > 0 && encode_utf8(s)[0] == 46 ==> s[0] == '.',
    decreases s.len(),
{
    if s.len() > 0 {
        let bytes = encode_utf8(s);
        let rest = s.drop_first();
        encode_utf8_first_scalar(s);
        lemma_dots_are_dots(rest);
        assert(46u8 & 0x7f == 46u8) by (bit_vector);
        assert(46u32 & 0x7f == 46u32) by (bit_vector);
        if bytes[0] == 46 {
            vstd::utf8::char_u32_cast(s[0], 46);
            vstd::utf8::char_u32_cast('.', 46);
        }
        if bytes.contains(46) {
            let i = choose|i: int| 0 <= i < bytes.len() && bytes[i] == 46;
            let n = vstd::utf8::length_of_first_scalar(bytes);
            if i < n {
                assert(i == 0);
                assert(s[0] == '.');
            } else {
                assert(bytes[i] == encode_utf8(rest)[i - n]);
                assert(encode_utf8(rest).contains(46));
                let k = choose|k: int| 0 <= k < rest.len() && rest[k] == '.';
                assert(s[k + 1] == '.');
            }
        }
    }
}

/// The extension of a name that is a stem, a dot and text without a dot is that
/// text, as it stands.
pub proof fn law_extension_of_a_name(dir: Seq<ComponentView>, stem: Seq<char>, ext: Seq<char>)
    requires
        stem.len() > 0,
        !ext.contains('.'),
    ensures
        extension_text(dir.push(ComponentView::Normal(encode_utf8(stem + seq!['.'] + ext))))
            == Some(ext),
{
    lemma_dots_are_dots(ext);
    lemma_dots_are_dots(stem);
    lemma_encode_append(stem + seq!['.'], ext);
    lemma_encode_append(stem, seq!['.']);
    assert(encode_utf8(seq!['.']) =~= seq![46u8]) by {
        assert(seq!['.'].drop_first() =~= Seq::<char>::empty());
        reveal_with_fuel(encode_utf8, 2);
        assert(46u32 & 0x7f == 46u32) by (bit_vector);
    }
    encode_utf8_valid_utf8(ext);
    encode_utf8_decode_utf8(ext);
    law_extension_stands_behind_the_last_dot(
        dir,
        encode_utf8(stem),
        encode_utf8(ext),
        ComponentView::CurDir,
    );
}

/// Some dots and then `w`, which starts with no dot.
pub open spec fn dotted(wanted: Seq<char>, w: Seq<char>) -> bool {
    &&& w.len() > 0 ==> w[0] != '.'
    &&& exists|n: int|
        0 <= n <= wanted.len() && w == #[trigger] wanted.skip(n) && forall|i: int|
            0 <= i < n ==> #[trigger] wanted[i] == '.'
}

proof fn lemma_dotted(wanted: Seq<char>) -> (w: Seq<char>)
    ensures
        dotted(wanted, w),
        w == trim_leading(wanted, '.'),
    decreases wanted.len(),
{
    if wanted.len() > 0 && wanted[0] == '.' {
        let w = lemma_dotted(wanted.skip(1));
        let rest = wanted.skip(1);
        let n = choose|n: int|
            0 <= n <= rest.len() && w == #[trigger] rest.skip(n) && forall|i: int|
                0 <= i < n ==> #[trigger] rest[i] == '.';
        assert(w =~= wanted.skip(n + 1));
        assert forall|i: int| 0 <= i < n + 1 implies #[trigger] wanted[i] == '.' by {
            if i > 0 {
                assert(rest[i - 1] == '.');
            }
        }
        w
    } else {
        assert(wanted =~= wanted.skip(0));
        wanted
    }
}

/// A file passes a filter that is not empty exactly where its extension is, up to
/// ASCII case, one of the wanted ones without their leading dots. Every file
/// passes no filter, and the empty one.
pub proof fn law_filter_wants_the_extension(path: Seq<ComponentView>, filter: Seq<Seq<char>>)
    ensures
        passes_ext_filter(path, None),
        filter.len() == 0 ==> passes_ext_filter(path, Some(filter)),
        filter.len() > 0 ==> (passes_ext_filter(path, Some(filter)) <==> extension_text(
            path,
        ) is Some && exists|i: int, w: Seq<char>|
            0 <= i < filter.len() && #[trigger] dotted(filter[i], w) && same_ignoring_ascii_case(
                w,
                extension_text(path)->Some_0,
            )),
{
    if extension_text(path) is Some && filter.len() > 0 {
        let ext = extension_text(path)->Some_0;
        if passes_ext_filter(path, Some(filter)) {
            let i = choose|i: int|
                0 <= i < filter.len() && same_ignoring_ascii_case(
                    trim_leading(#[trigger] filter[i], '.'),
                    ext,
                );
            let w = lemma_dotted(filter[i]);
            assert(dotted(filter[i], w));
        }
        if exists|i: int, w: Seq<char>|
            0 <= i < filter.len() && #[trigger] dotted(filter[i], w) && same_ignoring_ascii_case(
                w,
                ext,
            ) {
            let (i, w) = choose|i: int, w: Seq<char>|
                0 <= i < filter.len() && #[trigger] dotted(filter[i], w)
                    && same_ignoring_ascii_case(w, ext);
            let want = filter[i];
            let n = choose|n: int|
                0 <= n <= want.len() && w == #[trigger] want.skip(n) && forall|i: int|
                    0 <= i < n ==> #[trigger] want[i] == '.';
            law_leading_copies_are_dropped(n as nat, '.', w);
            assert(want =~= Seq::new(n as nat, |i: int| '.') + w);
            assert(same_ignoring_ascii_case(trim_leading(filter[i], '.'), ext));
        }
    }
}

/// A file whose extension equals, up to the case of ASCII letters, what the filter
/// wants behind some dots passes, however either is written.
pub proof fn law_wanted_extension_passes(
    dir: Seq<ComponentView>,
    stem: Seq<char>,
    ext: Seq<char>,
    filter: Seq<Seq<char>>,
    at: int,
    dots: nat,
    wanted: Seq<char>,
)
    requires
        stem.len() > 0,
        !ext.contains('.'),
        0 <= at < filter.len(),
        filter[at] == Seq::new(dots, |i: int| '.') + wanted,
        wanted.len() == ext.len(),
        forall|i: int|
            0 <= i < ext.len() ==> {
                ||| #[trigger] wanted[i] == ext[i]
                ||| 'A' <= wanted[i] <= 'Z' && ext[i] as u32 == wanted[i] as u32 + 32
                ||| 'A' <= ext[i] <= 'Z' && wanted[i] as u32 == ext[i] as u32 + 32
            },
    ensures
        passes_ext_filter(
            dir.push(ComponentView::Normal(encode_utf8(stem + seq!['.'] + ext))),
            Some(filter),
        ),
{
    let path = dir.push(ComponentView::Normal(encode_utf8(stem + seq!['.'] + ext)));
    law_extension_of_a_name(dir, stem, ext);
    crate::text_laws::law_same_up_to_ascii_case(wanted, ext);
    assert(wanted.len() > 0 ==> wanted[0] != '.') by {
        if wanted.len() > 0 && wanted[0] == '.' {
            assert(ext[0] == '.');
        }
    }
    assert(filter[at].skip(dots as int) =~= wanted);
    assert(dotted(filter[at], wanted));
    law_filter_wants_the_extension(path, filter);
}

/// Changing the case of letters of an extension changes nothing in what filters
/// it passes.
pub proof fn law_filter_ignores_case(
    dir: Seq<ComponentView>,
    stem: Seq<char>,
    ext: Seq<char>,
    recased: Seq<char>,
    filter: Seq<Seq<char>>,
)
    requires
        stem.len() > 0,
        !ext.contains('.'),
        recased.len() == ext.len(),
        forall|i: int|
            0 <= i < ext.len() ==> {
                ||| #[trigger] recased[i] == ext[i]
                ||| 'A' <= recased[i] <= 'Z' && ext[i] as u32 == recased[i] as u32 + 32
                ||| 'A' <= ext[i] <= 'Z' && recased[i] as u32 == ext[i] as u32 + 32
            },
    ensures
        passes_ext_filter(
            dir.push(ComponentView::Normal(encode_utf8(stem + seq!['.'] + ext))),
            Some(filter),
        ) == passes_ext_filter(
            dir.push(ComponentView::Normal(encode_utf8(stem + seq!['.'] + recased))),
            Some(filter),
        ),
{
    let path = dir.push(ComponentView::Normal(encode_utf8(stem + seq!['.'] + ext)));
    let other = dir.push(ComponentView::Normal(encode_utf8(stem + seq!['.'] + recased)));
    assert(!recased.contains('.')) by {
        if recased.contains('.') {
            let i = choose|i: int| 0 <= i < recased.len() && recased[i] == '.';
            assert(ext[i] == '.');
        }
    }
    law_extension_of_a_name(dir, stem, ext);
    law_extension_of_a_name(dir, stem, recased);
    crate::text_laws::law_same_up_to_ascii_case(recased, ext);
    law_filter_wants_the_extension(path, filter);
    law_filter_wants_the_extension(other, filter);
    if passes_ext_filter(path, Some(filter)) && filter.len() > 0 {
        let (i, w) = choose|i: int, w: Seq<char>|
            0 <= i < filter.len() && #[trigger] dotted(filter[i], w) && same_ignoring_ascii_case(
                w,
                ext,
            );
        lemma_same_case_trans(w, ext, recased);
        assert(dotted(filter[i], w));
    }
    if passes_ext_filter(other, Some(filter)) && filter.len() > 0 {
        let (i, w) = choose|i: int, w: Seq<char>|
            0 <= i < filter.len() && #[trigger] dotted(filter[i], w) && same_ignoring_ascii_case(
                w,
                recased,
            );
        lemma_same_case_trans(w, recased, ext);
        assert(dotted(filter[i], w));
    }
}

proof fn lemma_same_case_trans(a: Seq<char>, b: Seq<char>, c: Seq<char>)
    requires
        same_ignoring_ascii_case(a, b),
        same_ignoring_ascii_case(b, c) || same_ignoring_ascii_case(c, b),
    ensures
        same_ignoring_ascii_case(a, c),
{
    assert forall|i: int| 0 <= i < a.len() implies crate::text::ascii_lower(#[trigger] a[i])
        == crate::text::ascii_lower(c[i]) by {
        assert(crate::text::ascii_lower(a[i]) == crate::text::ascii_lower(b[i]));
        if same_ignoring_ascii_case(b, c) {
            assert(crate::text::ascii_lower(b[i]) == crate::text::ascii_lower(c[i]));
        } else {
            assert(crate::text::ascii_lower(c[i]) == crate::text::ascii_lower(b[i]));
        }
    }
}

/// The type of each known extension; a file with another extension, or with none,
/// is a stream of bytes.
pub proof fn law_types_of_extensions(path: Seq<ComponentView>)
    ensures
        extension_text(path) == Some("md"@) ==> mime_type(path) == "text/markdown; charset=utf-8"@,
        extension_text(path) == Some("markdown"@) ==> mime_type(path)
            == "text/markdown; charset=utf-8"@,
        extension_text(path) == Some("txt"@) ==> mime_type(path) == "text/plain; charset=utf-8"@,
        extension_text(path) == Some("log"@) ==> mime_type(path) == "text/plain; charset=utf-8"@,
        extension_text(path) == Some("json"@) ==> mime_type(path) == "application/json"@,
        extension_text(path) == Some("csv"@) ==> mime_type(path) == "text/csv; charset=utf-8"@,
        extension_text(path) == Some("html"@) ==> mime_type(path) == "text/html; charset=utf-8"@,
        extension_text(path) == Some("htm"@) ==> mime_type(path) == "text/html; charset=utf-8"@,
        extension_text(path) == Some("pdf"@) ==> mime_type(path) == "application/pdf"@,
        extension_text(path) == Some("png"@) ==> mime_type(path) == "image/png"@,
        extension_text(path) == Some("jpg"@) ==> mime_type(path) == "image/jpeg"@,
        extension_text(path) == Some("jpeg"@) ==> mime_type(path) == "image/jpeg"@,
        extension_text(path) == Some("gif"@) ==> mime_type(path) == "image/gif"@,
        extension_text(path) == Some("webp"@) ==> mime_type(path) == "image/webp"@,
        extension_text(path) == Some("svg"@) ==> mime_type(path) == "image/svg+xml"@,
        extension_text(path) == Some("zip"@) ==> mime_type(path) == "application/zip"@,
        extension_text(path) is None ==> mime_type(path) == "application/octet-stream"@,
        mime_type(path) != "application/octet-stream"@ ==> {
            &&& extension_text(path) matches Some(ext)
            &&& {
                ||| ext == "md"@
                ||| ext == "markdown"@
                ||| ext == "txt"@
                ||| ext == "log"@
                ||| ext == "json"@
                ||| ext == "csv"@
                ||| ext == "html"@
                ||| ext == "htm"@
                ||| ext == "pdf"@
                ||| ext == "png"@
                ||| ext == "jpg"@
                ||| ext == "jpeg"@
                ||| ext == "gif"@
                ||| ext == "webp"@
                ||| ext == "svg"@
                ||| ext == "zip"@
            }
        },
{
    reveal_strlit("");
    reveal_strlit("md");
    reveal_strlit("markdown");
    reveal_strlit("txt");
    reveal_strlit("log");
    reveal_strlit("json");
    reveal_strlit("csv");
    reveal_strlit("html");
    reveal_strlit("htm");
    reveal_strlit("pdf");
    reveal_strlit("png");
    reveal_strlit("jpg");
    reveal_strlit("jpeg");
    reveal_strlit("gif");
    reveal_strlit("webp");
    reveal_strlit("svg");
    reveal_strlit("zip");
    assert("md"@.len() == 2 && "md"@[0] == 'm' && "md"@[1] == 'd');
    assert("markdown"@.len() == 8 && "markdown"@[0] == 'm' && "markdown"@[1] == 'a');
    assert("txt"@.len() == 3 && "txt"@[0] == 't' && "txt"@[1] == 'x');
    assert("log"@.len() == 3 && "log"@[0] == 'l' && "log"@[1] == 'o');
    assert("json"@.len() == 4 && "json"@[0] == 'j' && "json"@[1] == 's');
    assert("csv"@.len() == 3 && "csv"@[0] == 'c' && "csv"@[1] == 's');
    assert("html"@.len() == 4 && "html"@[0] == 'h' && "html"@[1] == 't');
    assert("htm"@.len() == 3 && "htm"@[0] == 'h' && "htm"@[1] == 't');
    assert("pdf"@.len() == 3 && "pdf"@[0] == 'p' && "pdf"@[1] == 'd');
    assert("png"@.len() == 3 && "png"@[0] == 'p' && "png"@[1] == 'n');
    assert("jpg"@.len() == 3 && "jpg"@[0] == 'j' && "jpg"@[1] == 'p');
    assert("jpeg"@.len() == 4 && "jpeg"@[0] == 'j' && "jpeg"@[1] == 'p');
    assert("gif"@.len() == 3 && "gif"@[0] == 'g' && "gif"@[1] == 'i');
    assert("webp"@.len() == 4 && "webp"@[0] == 'w' && "webp"@[1] == 'e');
    assert("svg"@.len() == 3 && "svg"@[0] == 's' && "svg"@[1] == 'v');
    assert("zip"@.len() == 3 && "zip"@[0] == 'z' && "zip"@[1] == 'i');
    assert("htm"@[2] == 'm');
    assert(""@.len() == 0);
}

proof fn lemma_split_concatenates(a: Seq<char>, b: Seq<char>, sep: char)
    ensures
        split_text(a + seq![sep] + b, sep) == split_text(a, sep) + split_text(b, sep),
{
    law_split_pieces_join_to_the_text(a, sep);
    law_split_pieces_join_to_the_text(b, sep);
    let l = split_text(a, sep);
    let r = split_text(b, sep);
    law_join_concatenates(l, r, seq![sep]);
    assert forall|i: int| 0 <= i < (l + r).len() implies !(#[trigger] (l + r)[i]).contains(sep) by {
        if i < l.len() {
            assert((l + r)[i] == l[i]);
        } else {
            assert((l + r)[i] == r[i - l.len()]);
        }
    }
    lemma_split_joined(l + r, sep);
}

proof fn lemma_segments_concatenate(a: Seq<Seq<char>>, b: Seq<Seq<char>>)
    ensures
        segment_components(a + b) == segment_components(a) + segment_components(b),
    decreases b.len(),
{
    if b.len() == 0 {
        assert(a + b =~= a);
        assert(segment_components(a) + segment_components(b) =~= segment_components(a));
    } else {
        assert((a + b).drop_last() =~= a + b.drop_last());
        assert((a + b).last() == b.last());
        lemma_segments_concatenate(a, b.drop_last());
        assert(segment_components(a + b) =~= segment_components(a) + segment_components(b));
    }
}

/// Two requests with a slash between them stand for their names one after the
/// other, and are refused where either is.
pub proof fn law_requests_join_at_slashes(a: Seq<char>, b: Seq<char>)
    ensures
        normalized(a + seq!['/'] + b) == match (normalized(a), normalized(b)) {
            (Ok(p), Ok(q)) => Ok(p + q),
            _ => Err(ErrorView::Forbidden),
        },
{
    lemma_split_concatenates(a, b, '/');
    let l = split_text(a, '/');
    let r = split_text(b, '/');
    lemma_segments_concatenate(l, r);
    if l.contains(".."@) {
        let i = choose|i: int| 0 <= i < l.len() && l[i] == ".."@;
        assert((l + r)[i] == ".."@);
    }
    if r.contains(".."@) {
        let i = choose|i: int| 0 <= i < r.len() && r[i] == ".."@;
        assert((l + r)[l.len() + i] == ".."@);
    }
    if (l + r).contains(".."@) {
        let i = choose|i: int| 0 <= i < (l + r).len() && (l + r)[i] == ".."@;
        if i < l.len() {
            assert(l[i] == ".."@);
        } else {
            assert(r[i - l.len()] == ".."@);
        }
    }
}

/// A request without a slash: `..` is refused, nothing and `.` stand for the
/// place itself, and everything else is a name.
pub proof fn law_request_without_slash_is_a_name(name: Seq<char>)
    requires
        !name.contains('/'),
    ensures
        name.len() == 0 || name == seq!['.'] ==> normalized(name) == Ok::<_, ErrorView>(
            Seq::<ComponentView>::empty(),
        ),
        name == seq!['.', '.'] ==> normalized(name) == Err::<Seq<ComponentView>, _>(
            ErrorView::Forbidden,
        ),
        name.len() > 0 && name != seq!['.'] && name != seq!['.', '.'] ==> normalized(name) == Ok::<
            _,
            ErrorView,
        >(seq![ComponentView::Normal(encode_utf8(name))]),
{
    reveal_strlit("");
    reveal_strlit(".");
    reveal_strlit("..");
    assert("."@ =~= seq!['.']);
    assert(".."@ =~= seq!['.', '.']);
    assert(""@ =~= Seq::<char>::empty());
    if name.len() == 0 {
        assert(name =~= ""@);
    }
    lemma_first_index_found(name, '/');
    let pieces = split_text(name, '/');
    assert(pieces =~= seq![name]);
    assert(pieces[0] == name);
    assert(pieces.drop_last() =~= Seq::<Seq<char>>::empty());
    reveal_with_fuel(segment_components, 2);
    assert(Seq::<ComponentView>::empty().push(ComponentView::Normal(encode_utf8(name)))
        =~= seq![ComponentView::Normal(encode_utf8(name))]);
}

proof fn lemma_names_concatenate(a: Seq<ComponentView>, b: Seq<ComponentView>)
    ensures
        names_of(a + b) == names_of(a) + names_of(b),
    decreases b.len(),
{
    if b.len() == 0 {
        assert(a + b =~= a);
        assert(names_of(a) + names_of(b) =~= names_of(a));
    } else {
        assert((a + b).drop_last() =~= a + b.drop_last());
        assert((a + b).last() == b.last());
        lemma_names_concatenate(a, b.drop_last());
        assert(names_of(a + b) =~= names_of(a) + names_of(b));
    }
}

proof fn lemma_names_of_names(a: Seq<ComponentView>)
    requires
        crate::path::names_only(a),
    ensures
        names_of(a).len() == a.len(),
    decreases a.len(),
{
    if a.len() > 0 {
        assert(a[a.len() - 1] is Normal);
        assert forall|i: int| 0 <= i < a.drop_last().len() implies (
        #[trigger] a.drop_last()[i]) is Normal by {
            assert(a[i] is Normal);
        }
        lemma_names_of_names(a.drop_last());
    }
}

/// The text of a path is the text of its names with single slashes between them;
/// a name that is not UTF-8 is shown with replacements.
pub proof fn law_path_text_joins_names(
    a: Seq<ComponentView>,
    b: Seq<ComponentView>,
    name: Seq<char>,
    raw: Seq<u8>,
)
    ensures
        rel_text(Seq::empty()) == Seq::<char>::empty(),
        rel_text(seq![ComponentView::Normal(encode_utf8(name))]) == name,
        !valid_utf8(raw) ==> rel_text(seq![ComponentView::Normal(raw)]) == utf8_lossy_text(raw),
        crate::path::names_only(a) && crate::path::names_only(b) && a.len() > 0 && b.len() > 0
            ==> rel_text(a + b) == rel_text(a) + seq!['/'] + rel_text(b),
        names_of(a) == names_of(b) ==> rel_text(a) == rel_text(b),
{
    reveal_strlit("/");
    assert("/"@ =~= seq!['/']);
    encode_utf8_valid_utf8(name);
    encode_utf8_decode_utf8(name);
    let f = |n: Seq<u8>| lossy_text(n);
    lemma_one_name(encode_utf8(name));
    lemma_one_name(raw);
    assert(names_of(Seq::empty()).map_values(f) =~= Seq::<Seq<char>>::empty());
    if crate::path::names_only(a) && crate::path::names_only(b) && a.len() > 0 && b.len() > 0 {
        lemma_names_concatenate(a, b);
        lemma_names_of_names(a);
        lemma_names_of_names(b);
        assert((names_of(a) + names_of(b)).map_values(f) =~= names_of(a).map_values(f) + names_of(
            b,
        ).map_values(f));
        law_join_concatenates(names_of(a).map_values(f), names_of(b).map_values(f), "/"@);
    }
}

proof fn lemma_one_name(name: Seq<u8>)
    ensures
        rel_text(seq![ComponentView::Normal(name)]) == lossy_text(name),
{
    let one = seq![ComponentView::Normal(name)];
    let f = |n: Seq<u8>| lossy_text(n);
    assert(one.drop_last() =~= Seq::<ComponentView>::empty());
    assert(one.last() == ComponentView::Normal(name));
    reveal_with_fuel(names_of, 2);
    assert(names_of(one) =~= seq![name]);
    assert(names_of(one).map_values(f) =~= seq![lossy_text(name)]);
    law_join_concatenates(seq![lossy_text(name)], seq![], "/"@);
}

/// A path is hidden where one of its parts is; a name is where it starts with a
/// dot, provided that it is UTF-8, and no other component is.
pub proof fn law_hidden_names_start_with_a_dot(
    a: Seq<ComponentView>,
    b: Seq<ComponentView>,
    c: ComponentView,
    name: Seq<char>,
)
    ensures
        hidden(a + b) <==> hidden(a) || hidden(b),
        !hidden(Seq::empty()),
        c is Normal ==> (hidden(seq![c]) <==> c->Normal_0.len() > 0 && c->Normal_0[0] == 46
            && valid_utf8(c->Normal_0)),
        !(c is Normal) ==> !hidden(seq![c]),
        hidden(seq![ComponentView::Normal(encode_utf8(name))]) <==> name.len() > 0 && name[0]
            == '.',
{
    if hidden(a) {
        let i = choose|i: int|
            0 <= i < a.len() && match #[trigger] a[i] {
                ComponentView::Normal(name) => crate::workspace::hidden_name(name),
                _ => false,
            };
        assert((a + b)[i] == a[i]);
    }
    if hidden(b) {
        let i = choose|i: int|
            0 <= i < b.len() && match #[trigger] b[i] {
                ComponentView::Normal(name) => crate::workspace::hidden_name(name),
                _ => false,
            };
        assert((a + b)[a.len() + i] == b[i]);
    }
    if hidden(a + b) {
        let i = choose|i: int|
            0 <= i < (a + b).len() && match #[trigger] (a + b)[i] {
                ComponentView::Normal(name) => crate::workspace::hidden_name(name),
                _ => false,
            };
        if i < a.len() {
            assert((a + b)[i] == a[i]);
        } else {
            assert((a + b)[i] == b[i - a.len()]);
        }
    }
    assert(seq![c][0] == c);
    let n = ComponentView::Normal(encode_utf8(name));
    assert(seq![n][0] == n);
    lemma_dots_are_dots(name);
    encode_utf8_valid_utf8(name);
}

/// A place below the root is private where its first name is one of the agent's
/// own, or where it lies in a state directory other than the root; every place
/// outside of the root is private.
pub proof fn law_private_places(
    root: Seq<ComponentView>,
    rest: Seq<ComponentView>,
    outside: Seq<ComponentView>,
    state: Seq<ComponentView>,
)
    ensures
        private_state(root + rest, root, None) <==> rest.len() > 0 && {
            ||| rest[0] == ComponentView::Normal(encode_utf8("sessions"@))
            ||| rest[0] == ComponentView::Normal(encode_utf8("memory"@))
            ||| rest[0] == ComponentView::Normal(encode_utf8("logs"@))
            ||| rest[0] == ComponentView::Normal(encode_utf8("AGENT.json"@))
        },
        !root.is_prefix_of(outside) ==> private_state(outside, root, None) && private_state(
            outside,
            root,
            Some(state),
        ),
        state != root ==> private_state(state + rest, root, Some(state)),
        !state.is_prefix_of(outside) || state == root ==> (private_state(outside, root, Some(state))
            <==> private_state(outside, root, None)),
{
    let place = root + rest;
    assert(root.is_prefix_of(place)) by {
        assert(place.subrange(0, root.len() as int) =~= root);
    }
    assert(state.is_prefix_of(state + rest)) by {
        assert((state + rest).subrange(0, state.len() as int) =~= state);
    }
    if rest.len() > 0 {
        assert(place[root.len() as int] == rest[0]);
    }
}

/// A walk enters the root and every place below it that is not hidden there; the
/// names that lead to the root do not count.
pub proof fn law_walk_enters_what_is_not_hidden(
    root: Seq<ComponentView>,
    rest: Seq<ComponentView>,
    elsewhere: Seq<ComponentView>,
)
    ensures
        visited(root, root),
        visited(root, root + rest) <==> !hidden(rest),
        !root.is_prefix_of(elsewhere) ==> (visited(root, elsewhere) <==> !hidden(elsewhere)),
{
    let place = root + rest;
    assert(place.skip(root.len() as int) =~= rest);
    assert(root.is_prefix_of(place)) by {
        assert(place.subrange(0, root.len() as int) =~= root);
    }
    if place == root {
        assert(rest.len() == 0);
        assert(!hidden(rest));
    }
}

/// A regular file below the root that the walk enters and that is not private is
/// listed, where it passes the filter, under the text of its path from the root,
/// with its size, time and type.
pub proof fn law_public_file_is_listed(
    root: Seq<ComponentView>,
    state_dir: Option<Seq<ComponentView>>,
    ext_filter: Option<Seq<Seq<char>>>,
    path: Seq<ComponentView>,
    rel: Seq<ComponentView>,
    metadata: Result<FileMetadata, Seq<char>>,
)
    requires
        visited(root, path),
        !private_state(root + rel, root, state_dir),
        passes_ext_filter(rel, ext_filter),
    ensures
        listed(
            root,
            state_dir,
            ext_filter,
            WalkView::Entry { path, is_file: true, canonical: Some(root + rel), metadata },
        ) == match metadata {
            Ok(m) => Ok::<_, ErrorView>(
                Some(
                    EntryView {
                        rel_path: rel_text(rel),
                        size_bytes: m.len,
                        modified_at: m.modified_at,
                        mime_type: mime_type(rel),
                    },
                ),
            ),
            Err(e) => Err(ErrorView::Io(e)),
        },
{
    assert((root + rel).skip(root.len() as int) =~= rel);
}

/// What is no regular file, cannot be located, lies under a hidden name, is
/// private or fails the filter is passed over; a step that failed fails the
/// listing with its text.
pub proof fn law_other_steps_are_passed_over(
    root: Seq<ComponentView>,
    state_dir: Option<Seq<ComponentView>>,
    ext_filter: Option<Seq<Seq<char>>>,
    path: Seq<ComponentView>,
    is_file: bool,
    place: Seq<ComponentView>,
    metadata: Result<FileMetadata, Seq<char>>,
    failure: Seq<char>,
)
    ensures
        listed(root, state_dir, ext_filter, WalkView::Failed(failure)) == Err::<
            Option<EntryView>,
            _,
        >(ErrorView::Io(failure)),
        listed(
            root,
            state_dir,
            ext_filter,
            WalkView::Entry { path, is_file, canonical: None, metadata },
        ) == Ok::<_, ErrorView>(None::<EntryView>),
        !is_file || !visited(root, path) || private_state(place, root, state_dir)
            || !passes_ext_filter(place.skip(root.len() as int), ext_filter) ==> listed(
            root,
            state_dir,
            ext_filter,
            WalkView::Entry { path, is_file, canonical: Some(place), metadata },
        ) == Ok::<_, ErrorView>(None::<EntryView>),
{
}

/// A walk collects what its two halves collect, in order; the first step that
/// fails decides the failure, and a step adds what it is listed as.
pub proof fn law_walk_collects_in_order(
    root: Seq<ComponentView>,
    state_dir: Option<Seq<ComponentView>>,
    ext_filter: Option<Seq<Seq<char>>>,
    a: Seq<WalkView>,
    b: Seq<WalkView>,
    item: WalkView,
)
    ensures
        collected(root, state_dir, ext_filter, Seq::empty()) == Ok::<_, ErrorView>(
            Seq::<EntryView>::empty(),
        ),
        collected(root, state_dir, ext_filter, seq![item]) == match listed(
            root,
            state_dir,
            ext_filter,
            item,
        ) {
            Ok(Some(entry)) => Ok(seq![entry]),
            Ok(None) => Ok(seq![]),
            Err(e) => Err(e),
        },
        collected(root, state_dir, ext_filter, a + b) == match (
            collected(root, state_dir, ext_filter, a),
            collected(root, state_dir, ext_filter, b),
        ) {
            (Err(e), _) => Err(e),
            (Ok(_), Err(e)) => Err(e),
            (Ok(x), Ok(y)) => Ok(x + y),
        },
    decreases b.len(),
{
    let one = seq![item];
    assert(one.drop_last() =~= Seq::<WalkView>::empty());
    assert(one.last() == item);
    reveal_with_fuel(collected, 2);
    if let Ok(Some(entry)) = listed(root, state_dir, ext_filter, item) {
        assert(Seq::<EntryView>::empty().push(entry) =~= seq![entry]);
    }
    if b.len() == 0 {
        assert(a + b =~= a);
        if let Ok(x) = collected(root, state_dir, ext_filter, a) {
            assert(x + Seq::<EntryView>::empty() =~= x);
        }
    } else {
        law_walk_collects_in_order(root, state_dir, ext_filter, a, b.drop_last(), item);
        assert((a + b).drop_last() =~= a + b.drop_last());
        assert((a + b).last() == b.last());
        if let Ok(x) = collected(root, state_dir, ext_filter, a) {
            if let Ok(y) = collected(root, state_dir, ext_filter, b.drop_last()) {
                if let Ok(Some(entry)) = listed(root, state_dir, ext_filter, b.last()) {
                    assert((x + y).push(entry) =~= x + y.push(entry));
                }
            }
        }
    }
}

/// A place that is missing holds no files, one that cannot be reached fails with
/// its text, one outside of the root is refused, and one in the root holds what
/// the walk collects.
pub proof fn law_listing_starts_inside_the_root(
    root: Seq<ComponentView>,
    state_dir: Option<Seq<ComponentView>>,
    ext_filter: Option<Seq<Seq<char>>>,
    rest: Seq<ComponentView>,
    outside: Seq<ComponentView>,
    failure: Seq<char>,
    walked: Seq<WalkView>,
)
    ensures
        found(root, state_dir, ext_filter, Err(FailureView::NotFound), walked) == Ok::<
            _,
            ErrorView,
        >(Seq::<EntryView>::empty()),
        found(root, state_dir, ext_filter, Err(FailureView::Other(failure)), walked) == Err::<
            Seq<EntryView>,
            _,
        >(ErrorView::Io(failure)),
        !root.is_prefix_of(outside) ==> found(root, state_dir, ext_filter, Ok(outside), walked)
            == Err::<Seq<EntryView>, _>(ErrorView::Forbidden),
        found(root, state_dir, ext_filter, Ok(root + rest), walked) == collected(
            root,
            state_dir,
            ext_filter,
            walked,
        ),
{
    assert(root.is_prefix_of(root + rest)) by {
        assert((root + rest).subrange(0, root.len() as int) =~= root);
    }
}

/// A sorted listing has the entries it was made from, ordered by the UTF-8 bytes
/// of their paths, those of one path in the order in which they came.
pub proof fn law_listing_is_ordered(
    sorted: Seq<EntryView>,
    entries: Seq<EntryView>,
    i: int,
    j: int,
    path: Seq<char>,
)
    requires
        stably_sorted(sorted, entries),
    ensures
        sorted.len() == entries.len(),
        sorted.to_multiset() == entries.to_multiset(),
        0 <= i <= j < sorted.len() ==> bytes_at_most(
            encode_utf8(sorted[i].rel_path),
            encode_utf8(sorted[j].rel_path),
        ),
        sorted.filter(|e: EntryView| e.rel_path == path) == entries.filter(
            |e: EntryView| e.rel_path == path,
        ),
{
    sorted.to_multiset_ensures();
    entries.to_multiset_ensures();
    assert(crate::workspace::with_path(sorted, path) == crate::workspace::with_path(entries, path));
}

/// A request leads to its names below the root; one that stands for the root
/// itself, holds a hidden name or is refused as a path is forbidden.
pub proof fn law_request_leads_below_the_root(root: Seq<ComponentView>, raw: Seq<char>)
    ensures
        candidate(root, raw) == match normalized(raw) {
            Ok(rel) => if rel.len() > 0 && !hidden(rel) {
                Ok(root + rel)
            } else {
                Err(ErrorView::Forbidden)
            },
            Err(_) => Err(ErrorView::Forbidden),
        },
{
}

/// A regular file in the root that is not private is handed out, under the text
/// of the place where it lies, with its size and the type that its requested name
/// has.
pub proof fn law_public_file_is_handed_out(
    root: Seq<ComponentView>,
    state_dir: Option<Seq<ComponentView>>,
    raw: Seq<char>,
    asked: Seq<ComponentView>,
    rel: Seq<ComponentView>,
    m: FileMetadata,
)
    requires
        normalized(raw) == Ok::<_, ErrorView>(asked),
        asked.len() > 0,
        !hidden(asked),
        !private_state(root + rel, root, state_dir),
        m.is_file,
    ensures
        resolved(root, state_dir, raw, Ok(root + rel), Ok(m)) == Ok::<_, ErrorView>(
            (DownloadView {
                path: root + rel,
                rel_path: rel_text(rel),
                size_bytes: m.len,
                mime_type: mime_type(asked),
            }),
        ),
{
    assert((root + rel).skip(root.len() as int) =~= rel);
}

/// Why a request that leads somewhere is not answered: what is missing, or no
/// regular file, is not found; what is private is forbidden; and what the file
/// system says otherwise is passed on.
pub proof fn law_download_fails_as_the_file_system_does(
    root: Seq<ComponentView>,
    state_dir: Option<Seq<ComponentView>>,
    raw: Seq<char>,
    place: Seq<ComponentView>,
    failure: Seq<char>,
    metadata: Result<FileMetadata, FailureView>,
)
    requires
        candidate(root, raw) is Ok,
    ensures
        resolved(root, state_dir, raw, Err(FailureView::NotFound), metadata) == Err::<
            DownloadView,
            _,
        >(ErrorView::NotFound),
        resolved(root, state_dir, raw, Err(FailureView::Other(failure)), metadata) == Err::<
            DownloadView,
            _,
        >(ErrorView::Io(failure)),
        private_state(place, root, state_dir) ==> resolved(
            root,
            state_dir,
            raw,
            Ok(place),
            metadata,
        ) == Err::<DownloadView, _>(ErrorView::Forbidden),
        !private_state(place, root, state_dir) ==> {
            &&& resolved(root, state_dir, raw, Ok(place), Err(FailureView::NotFound)) == Err::<
                DownloadView,
                _,
            >(ErrorView::NotFound)
            &&& resolved(root, state_dir, raw, Ok(place), Err(FailureView::Other(failure)))
                == Err::<DownloadView, _>(ErrorView::Io(failure))
            &&& metadata is Ok && !metadata->Ok_0.is_file ==> resolved(
                root,
                state_dir,
                raw,
                Ok(place),
                metadata,
            ) == Err::<DownloadView, _>(ErrorView::NotFound)
        },
{
}

/// The text of each error.
pub proof fn law_error_texts(text: Seq<char>)
    ensures
        error_message(ErrorView::NoWorkspace) == "Workspace not configured"@,
        error_message(ErrorView::NotFound) == "File not found"@,
        error_message(ErrorView::Forbidden) == "Path is outside the workspace"@,
        error_message(ErrorView::Io(text)) == text,
{
}

} // verus!
