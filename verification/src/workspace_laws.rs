//! What holds of requested paths, listings and downloads together.

use vstd::prelude::*;
use vstd::utf8::decode_utf8;
use vstd::utf8::decode_utf8_encode_utf8;
use vstd::utf8::encode_utf8_decode_utf8;
use vstd::utf8::encode_utf8_valid_utf8;
use vstd::utf8::valid_utf8;

use crate::path::names_of;
use crate::path::names_only;
use crate::path::rel_text;
use crate::path::ComponentView;
use crate::text::lemma_split_append;
use crate::text::lemma_split_joined;
use crate::text::lemma_split_pieces;
use crate::text::lossy_text;
use crate::text::split_text;
use crate::workspace::candidate;
use crate::workspace::collected;
use crate::workspace::found;
use crate::workspace::listed;
use crate::workspace::normalized;
use crate::workspace::passes_ext_filter;
use crate::workspace::private_state;
use crate::workspace::resolved;
use crate::workspace::segment_components;
use crate::workspace::stably_sorted;
use crate::workspace::visited;
use crate::workspace::with_path;
use crate::workspace::DownloadView;
use crate::workspace::EntryView;
use crate::workspace::ErrorView;
use crate::workspace::FailureView;
use crate::workspace::FileMetadata;
use crate::workspace::WalkView;

verus! {

/// A component that is a name of its own: text without a slash, neither empty
/// nor `.` nor `..`.
pub open spec fn plain_name(c: ComponentView) -> bool {
    c matches ComponentView::Normal(name) && valid_utf8(name) && plain_segment(decode_utf8(name))
}

/// Text without a slash, neither empty nor `.` nor `..`.
pub open spec fn plain_segment(s: Seq<char>) -> bool {
    s != ""@ && s != "."@ && s != ".."@ && !s.contains('/')
}

/// Every component is a plain name.
pub open spec fn plain_names(p: Seq<ComponentView>) -> bool {
    forall|i: int| 0 <= i < p.len() ==> plain_name(#[trigger] p[i])
}

proof fn lemma_segments_are_plain(segments: Seq<Seq<char>>)
    requires
        !segments.contains(".."@),
        forall|i: int| 0 <= i < segments.len() ==> !(#[trigger] segments[i]).contains('/'),
    ensures
        plain_names(segment_components(segments)),
    decreases segments.len(),
{
    if segments.len() > 0 {
        let front = segments.drop_last();
        assert(!front.contains(".."@)) by {
            if front.contains(".."@) {
                let i = choose|i: int| 0 <= i < front.len() && front[i] == ".."@;
                assert(segments[i] == ".."@);
            }
        }
        assert forall|i: int| 0 <= i < front.len() implies !(#[trigger] front[i]).contains('/') by {
            assert(front[i] == segments[i]);
        }
        lemma_segments_are_plain(front);
        let last = segments.last();
        assert(segments.contains(last));
        assert(!segments[segments.len() - 1].contains('/'));
        encode_utf8_valid_utf8(last);
        encode_utf8_decode_utf8(last);
    }
}

/// A requested path that is not refused is a sequence of plain names: nothing
/// in it leads upwards.
pub proof fn law_normalized_paths_are_plain(raw: Seq<char>)
    ensures
        normalized(raw) matches Ok(p) ==> names_only(p) && plain_names(p),
{
    lemma_split_pieces(raw, '/');
    if !split_text(raw, '/').contains(".."@) {
        lemma_segments_are_plain(split_text(raw, '/'));
        let p = segment_components(split_text(raw, '/'));
        assert forall|i: int| 0 <= i < p.len() implies (#[trigger] p[i]) is Normal by {
            assert(plain_name(p[i]));
        }
    }
}

proof fn lemma_names_as_segments(p: Seq<ComponentView>)
    requires
        plain_names(p),
    ensures
        names_of(p).len() == p.len(),
        forall|i: int|
            0 <= i < p.len() ==> plain_segment(#[trigger] lossy_text(names_of(p)[i])),
        segment_components(names_of(p).map_values(|n: Seq<u8>| lossy_text(n))) == p,
    decreases p.len(),
{
    let texts = names_of(p).map_values(|n: Seq<u8>| lossy_text(n));
    if p.len() > 0 {
        let front = p.drop_last();
        assert forall|i: int| 0 <= i < front.len() implies plain_name(#[trigger] front[i]) by {
            assert(front[i] == p[i]);
        }
        lemma_names_as_segments(front);
        assert(plain_name(p[p.len() - 1]));
        let name = p.last()->Normal_0;
        decode_utf8_encode_utf8(name);
        assert(names_of(p) =~= names_of(front).push(name));
        assert forall|i: int| 0 <= i < p.len() implies plain_segment(
            #[trigger] lossy_text(names_of(p)[i]),
        ) by {
            if i < front.len() {
                assert(names_of(p)[i] == names_of(front)[i]);
            }
        }
        assert(texts.drop_last() =~= names_of(front).map_values(|n: Seq<u8>| lossy_text(n)));
        assert(texts.last() == decode_utf8(name));
        assert(segment_components(texts) =~= front.push(p.last()));
        assert(p =~= front.push(p.last()));
    } else {
        assert(texts =~= Seq::<Seq<char>>::empty());
        assert(segment_components(texts) =~= p);
    }
}

/// Asking for the text of a path of plain names gives that path.
pub proof fn law_path_text_names_the_path(p: Seq<ComponentView>)
    requires
        plain_names(p),
    ensures
        normalized(rel_text(p)) == Ok::<Seq<ComponentView>, ErrorView>(p),
{
    lemma_names_as_segments(p);
    let texts = names_of(p).map_values(|n: Seq<u8>| lossy_text(n));
    reveal_strlit("/");
    reveal_strlit("");
    reveal_strlit("..");
    assert("/"@ =~= seq!['/']);
    if p.len() == 0 {
        assert(names_of(p) =~= Seq::<Seq<u8>>::empty());
        assert(rel_text(p) =~= Seq::<char>::empty());
        let segments = split_text(rel_text(p), '/');
        assert(segments =~= seq![Seq::<char>::empty()]);
        assert(""@ =~= Seq::<char>::empty());
        assert(".."@.len() == 2);
        assert(segments.drop_last() =~= Seq::<Seq<char>>::empty());
        reveal_with_fuel(segment_components, 2);
        assert(segment_components(segments) =~= p);
    } else {
        assert forall|i: int| 0 <= i < texts.len() implies !(#[trigger] texts[i]).contains('/')
            && texts[i] != ".."@ by {
            assert(plain_segment(lossy_text(names_of(p)[i])));
        }
        lemma_split_joined(texts, '/');
    }
}

/// What a requested path stands for, written as text, stands for the same.
pub proof fn law_normalizing_twice_changes_nothing(raw: Seq<char>)
    ensures
        normalized(raw) matches Ok(p) ==> normalized(rel_text(p)) == normalized(raw),
{
    law_normalized_paths_are_plain(raw);
    if let Ok(p) = normalized(raw) {
        law_path_text_names_the_path(p);
    }
}

proof fn lemma_leading_empty_segment(segments: Seq<Seq<char>>)
    ensures
        segment_components(seq![""@] + segments) == segment_components(segments),
    decreases segments.len(),
{
    let more = seq![""@] + segments;
    if segments.len() == 0 {
        assert(more.drop_last() =~= Seq::<Seq<char>>::empty());
        assert(segments =~= Seq::<Seq<char>>::empty());
        reveal_with_fuel(segment_components, 2);
    } else {
        assert(more.drop_last() =~= seq![""@] + segments.drop_last());
        assert(more.last() == segments.last());
        lemma_leading_empty_segment(segments.drop_last());
    }
}

/// A slash at either end of a requested path makes no difference.
pub proof fn law_outer_slashes_are_dropped(raw: Seq<char>)
    ensures
        normalized("/"@ + raw) == normalized(raw),
        normalized(raw + "/"@) == normalized(raw),
{
    reveal_strlit("/");
    reveal_strlit("");
    reveal_strlit("..");
    assert("/"@ =~= seq!['/']);
    assert(""@ =~= Seq::<char>::empty());
    let segments = split_text(raw, '/');
    let before = "/"@ + raw;
    assert(before[0] == '/');
    assert(before.take(0) =~= ""@);
    assert(before.skip(1) =~= raw);
    assert(split_text(before, '/') =~= seq![""@] + segments);
    lemma_leading_empty_segment(segments);
    assert(split_text(before, '/').contains(".."@) == segments.contains(".."@)) by {
        assert(".."@.len() == 2);
        if split_text(before, '/').contains(".."@) {
            let i = choose|i: int| 0 <= i < segments.len() + 1 && split_text(before, '/')[i] == ".."@;
            assert(segments[i - 1] == ".."@);
        }
        if segments.contains(".."@) {
            let i = choose|i: int| 0 <= i < segments.len() && segments[i] == ".."@;
            assert(split_text(before, '/')[i + 1] == ".."@);
        }
    }
    lemma_split_append(raw, ""@, '/');
    assert(raw + seq!['/'] + ""@ =~= raw + "/"@);
    let behind = split_text(raw + "/"@, '/');
    assert(behind == segments.push(""@));
    assert(behind.drop_last() =~= segments);
    assert(behind.contains(".."@) == segments.contains(".."@)) by {
        assert(".."@.len() == 2);
        if behind.contains(".."@) {
            let i = choose|i: int| 0 <= i < behind.len() && behind[i] == ".."@;
            assert(segments[i] == ".."@);
        }
        if segments.contains(".."@) {
            let i = choose|i: int| 0 <= i < segments.len() && segments[i] == ".."@;
            assert(behind[i] == ".."@);
        }
    }
}

/// A request with a `..` anywhere in it is refused, whatever the file system
/// would say.
pub proof fn law_traversal_is_refused(
    root: Seq<ComponentView>,
    state_dir: Option<Seq<ComponentView>>,
    raw: Seq<char>,
    canonical: Result<Seq<ComponentView>, FailureView>,
    metadata: Result<FileMetadata, FailureView>,
)
    requires
        split_text(raw, '/').contains(".."@),
    ensures
        normalized(raw) == Err::<Seq<ComponentView>, ErrorView>(ErrorView::Forbidden),
        resolved(root, state_dir, raw, canonical, metadata) == Err::<DownloadView, ErrorView>(
            ErrorView::Forbidden,
        ),
{
}

/// A request that leads out of the workspace, by a link for instance, is
/// refused.
pub proof fn law_escape_is_refused(
    root: Seq<ComponentView>,
    state_dir: Option<Seq<ComponentView>>,
    raw: Seq<char>,
    place: Seq<ComponentView>,
    metadata: Result<FileMetadata, FailureView>,
)
    requires
        !root.is_prefix_of(place),
    ensures
        resolved(root, state_dir, raw, Ok(place), metadata) == Err::<DownloadView, ErrorView>(
            ErrorView::Forbidden,
        ),
{
    law_normalized_paths_are_plain(raw);
}

/// What is handed out lies in the workspace and is a regular file that belongs
/// to no private state.
pub proof fn law_download_is_confined(
    root: Seq<ComponentView>,
    state_dir: Option<Seq<ComponentView>>,
    raw: Seq<char>,
    canonical: Result<Seq<ComponentView>, FailureView>,
    metadata: Result<FileMetadata, FailureView>,
)
    ensures
        resolved(root, state_dir, raw, canonical, metadata) matches Ok(d) ==> {
            &&& canonical == Ok::<Seq<ComponentView>, FailureView>(d.path)
            &&& root.is_prefix_of(d.path)
            &&& !private_state(d.path, root, state_dir)
            &&& metadata is Ok && metadata->Ok_0.is_file
        },
{
}

proof fn lemma_collected_from_walk(
    root: Seq<ComponentView>,
    state_dir: Option<Seq<ComponentView>>,
    ext_filter: Option<Seq<Seq<char>>>,
    walked: Seq<WalkView>,
    entries: Seq<EntryView>,
    entry: EntryView,
)
    requires
        collected(root, state_dir, ext_filter, walked) == Ok::<Seq<EntryView>, ErrorView>(entries),
    ensures
        entries.contains(entry) <==> exists|i: int|
            0 <= i < walked.len() && listed(
                root,
                state_dir,
                ext_filter,
                #[trigger] walked[i],
            ) == Ok::<Option<EntryView>, ErrorView>(Some(entry)),
    decreases walked.len(),
{
    if walked.len() > 0 {
        let front = walked.drop_last();
        let done = collected(root, state_dir, ext_filter, front)->Ok_0;
        lemma_collected_from_walk(root, state_dir, ext_filter, front, done, entry);
        let last = listed(root, state_dir, ext_filter, walked.last());
        if entries.contains(entry) {
            let k = choose|k: int| 0 <= k < entries.len() && entries[k] == entry;
            if k < done.len() {
                assert(done[k] == entry);
                let i = choose|i: int|
                    0 <= i < front.len() && listed(
                        root,
                        state_dir,
                        ext_filter,
                        #[trigger] front[i],
                    ) == Ok::<Option<EntryView>, ErrorView>(Some(entry));
                assert(walked[i] == front[i]);
            } else {
                assert(walked[walked.len() - 1] == walked.last());
            }
        }
        if exists|i: int|
            0 <= i < walked.len() && listed(
                root,
                state_dir,
                ext_filter,
                #[trigger] walked[i],
            ) == Ok::<Option<EntryView>, ErrorView>(Some(entry)) {
            let i = choose|i: int|
                0 <= i < walked.len() && listed(
                    root,
                    state_dir,
                    ext_filter,
                    #[trigger] walked[i],
                ) == Ok::<Option<EntryView>, ErrorView>(Some(entry));
            if i < front.len() {
                assert(front[i] == walked[i]);
                let k = choose|k: int| 0 <= k < done.len() && done[k] == entry;
                assert(entries[k] == entry);
            } else {
                assert(entries[entries.len() - 1] == entry);
            }
        }
    }
}

/// A listing holds what the steps of the walk contribute, and nothing else.
pub proof fn law_listing_is_complete(
    root: Seq<ComponentView>,
    state_dir: Option<Seq<ComponentView>>,
    ext_filter: Option<Seq<Seq<char>>>,
    place: Seq<ComponentView>,
    walked: Seq<WalkView>,
    entries: Seq<EntryView>,
    sorted: Seq<EntryView>,
    entry: EntryView,
)
    requires
        found(root, state_dir, ext_filter, Ok(place), walked) == Ok::<Seq<EntryView>, ErrorView>(
            entries,
        ),
        stably_sorted(sorted, entries),
    ensures
        sorted.contains(entry) <==> exists|i: int|
            0 <= i < walked.len() && listed(
                root,
                state_dir,
                ext_filter,
                #[trigger] walked[i],
            ) == Ok::<Option<EntryView>, ErrorView>(Some(entry)),
{
    lemma_collected_from_walk(root, state_dir, ext_filter, walked, entries, entry);
    sorted.to_multiset_ensures();
    entries.to_multiset_ensures();
    assert(sorted.contains(entry) <==> sorted.to_multiset().count(entry) > 0);
    assert(entries.contains(entry) <==> entries.to_multiset().count(entry) > 0);
}

/// What is listed is a regular file of the workspace that passes the filter,
/// lies under no hidden name and belongs to no private state.
pub proof fn law_listed_files_are_public(
    root: Seq<ComponentView>,
    state_dir: Option<Seq<ComponentView>>,
    ext_filter: Option<Seq<Seq<char>>>,
    item: WalkView,
)
    ensures
        listed(root, state_dir, ext_filter, item) matches Ok(Some(entry)) ==> {
            &&& item is Entry
            &&& item->is_file
            &&& visited(root, item->path)
            &&& item->canonical is Some
            &&& !private_state(item->canonical->Some_0, root, state_dir)
            &&& root.is_prefix_of(item->canonical->Some_0)
            &&& passes_ext_filter(item->canonical->Some_0.skip(root.len() as int), ext_filter)
            &&& entry.rel_path == rel_text(item->canonical->Some_0.skip(root.len() as int))
        },
{
}

/// A listed file can be downloaded under the path that the listing shows, with
/// the same size and type.
pub proof fn law_listed_file_can_be_downloaded(
    root: Seq<ComponentView>,
    state_dir: Option<Seq<ComponentView>>,
    ext_filter: Option<Seq<Seq<char>>>,
    rel: Seq<ComponentView>,
    m: FileMetadata,
    entry: EntryView,
)
    requires
        rel.len() > 0,
        plain_names(rel),
        m.is_file,
        listed(
            root,
            state_dir,
            ext_filter,
            WalkView::Entry {
                path: root + rel,
                is_file: true,
                canonical: Some(root + rel),
                metadata: Ok(m),
            },
        ) == Ok::<Option<EntryView>, ErrorView>(Some(entry)),
    ensures
        candidate(root, entry.rel_path) == Ok::<Seq<ComponentView>, ErrorView>(root + rel),
        resolved(root, state_dir, entry.rel_path, Ok(root + rel), Ok(m)) == Ok::<
            DownloadView,
            ErrorView,
        >(
            (DownloadView {
                path: root + rel,
                rel_path: entry.rel_path,
                size_bytes: entry.size_bytes,
                mime_type: entry.mime_type,
            }),
        ),
{
    let place = root + rel;
    assert(place.skip(root.len() as int) =~= rel);
    assert(root.is_prefix_of(place)) by {
        assert(place.subrange(0, root.len() as int) =~= root);
    }
    assert(place != root) by {
        assert(place.len() > root.len());
    }
    law_path_text_names_the_path(rel);
}

/// A file that is handed out under its own path is in the unfiltered listing.
pub proof fn law_downloaded_file_is_listed(
    root: Seq<ComponentView>,
    state_dir: Option<Seq<ComponentView>>,
    raw: Seq<char>,
    m: FileMetadata,
)
    requires
        candidate(root, raw) is Ok,
        resolved(root, state_dir, raw, Ok(candidate(root, raw)->Ok_0), Ok(m)) is Ok,
    ensures
        ({
            let place = candidate(root, raw)->Ok_0;
            let d = resolved(root, state_dir, raw, Ok(place), Ok(m))->Ok_0;
            listed(
                root,
                state_dir,
                None,
                WalkView::Entry {
                    path: place,
                    is_file: true,
                    canonical: Some(place),
                    metadata: Ok(m),
                },
            ) == Ok::<Option<EntryView>, ErrorView>(
                Some(
                    EntryView {
                        rel_path: d.rel_path,
                        size_bytes: d.size_bytes,
                        modified_at: m.modified_at,
                        mime_type: d.mime_type,
                    },
                ),
            )
        }),
{
    let rel = normalized(raw)->Ok_0;
    let place = root + rel;
    assert(place.skip(root.len() as int) =~= rel);
    assert(place != root) by {
        assert(place.len() > root.len());
    }
}

/// A path as a listing shows it: names with single slashes between them, none of
/// them empty, `.` or `..`.
pub open spec fn tidy_path(s: Seq<char>) -> bool {
    &&& s.len() > 0
    &&& s[0] != '/'
    &&& s.last() != '/'
    &&& forall|k: int|
        0 <= k < split_text(s, '/').len() ==> plain_segment(#[trigger] split_text(s, '/')[k])
}

/// A step that is listed is a file that lies where the walk found it, at a place
/// of plain names below the root.
pub open spec fn settled(
    root: Seq<ComponentView>,
    state_dir: Option<Seq<ComponentView>>,
    ext_filter: Option<Seq<Seq<char>>>,
    item: WalkView,
) -> bool {
    listed(root, state_dir, ext_filter, item) matches Ok(Some(_)) ==> {
        &&& item->canonical == Some(item->path)
        &&& item->path.len() > root.len()
        &&& plain_names(item->path.skip(root.len() as int))
    }
}

/// Every step is settled, and no two places in the walk are the same.
pub open spec fn settled_walk(
    root: Seq<ComponentView>,
    state_dir: Option<Seq<ComponentView>>,
    ext_filter: Option<Seq<Seq<char>>>,
    walked: Seq<WalkView>,
) -> bool {
    &&& forall|i: int|
        0 <= i < walked.len() ==> settled(root, state_dir, ext_filter, #[trigger] walked[i])
    &&& forall|i: int, j: int|
        0 <= i < j < walked.len() && walked[i] is Entry && walked[j] is Entry ==> (
        #[trigger] walked[i])->path != (#[trigger] walked[j])->path
}

/// No two entries have one path.
pub open spec fn distinct_paths(entries: Seq<EntryView>) -> bool {
    forall|i: int, j: int|
        0 <= i < j < entries.len() ==> (#[trigger] entries[i]).rel_path != (
        #[trigger] entries[j]).rel_path
}

/// The text of a path of plain names, at least one, is tidy.
proof fn lemma_path_text_is_tidy(p: Seq<ComponentView>)
    requires
        p.len() > 0,
        plain_names(p),
    ensures
        tidy_path(rel_text(p)),
{
    reveal_strlit("/");
    reveal_strlit("");
    assert("/"@ =~= seq!['/']);
    assert(""@ =~= Seq::<char>::empty());
    lemma_names_as_segments(p);
    let texts = names_of(p).map_values(|n: Seq<u8>| lossy_text(n));
    assert forall|k: int| 0 <= k < texts.len() implies plain_segment(#[trigger] texts[k])
        && !texts[k].contains('/') by {
        assert(plain_segment(lossy_text(names_of(p)[k])));
    }
    lemma_split_joined(texts, '/');
    let s = rel_text(p);
    let pieces = split_text(s, '/');
    assert(pieces == texts);
    assert(plain_segment(pieces[0]));
    assert(plain_segment(pieces[pieces.len() - 1]));
    if s.len() == 0 {
        assert(pieces =~= seq![s]);
        assert(s =~= ""@);
    } else if s[0] == '/' {
        assert(s.take(0) =~= ""@);
        assert(pieces[0] == ""@);
    } else if s.last() == '/' {
        let front = s.drop_last();
        lemma_split_append(front, ""@, '/');
        assert(s =~= front + seq!['/'] + ""@);
        assert(pieces[pieces.len() - 1] == ""@);
    }
}

/// What a settled step contributes is the text of its place below the root.
proof fn lemma_settled_step(
    root: Seq<ComponentView>,
    state_dir: Option<Seq<ComponentView>>,
    ext_filter: Option<Seq<Seq<char>>>,
    item: WalkView,
    entry: EntryView,
)
    requires
        settled(root, state_dir, ext_filter, item),
        listed(root, state_dir, ext_filter, item) == Ok::<Option<EntryView>, ErrorView>(
            Some(entry),
        ),
    ensures
        tidy_path(entry.rel_path),
        normalized(entry.rel_path) == Ok::<Seq<ComponentView>, ErrorView>(
            item->path.skip(root.len() as int),
        ),
        item is Entry,
        item->path == root + item->path.skip(root.len() as int),
{
    let rel = item->path.skip(root.len() as int);
    lemma_path_text_is_tidy(rel);
    law_path_text_names_the_path(rel);
    assert(item->path.subrange(0, root.len() as int) == root);
    assert(item->path =~= root + rel);
}

proof fn lemma_collected_is_distinct(
    root: Seq<ComponentView>,
    state_dir: Option<Seq<ComponentView>>,
    ext_filter: Option<Seq<Seq<char>>>,
    walked: Seq<WalkView>,
    entries: Seq<EntryView>,
)
    requires
        collected(root, state_dir, ext_filter, walked) == Ok::<Seq<EntryView>, ErrorView>(entries),
        settled_walk(root, state_dir, ext_filter, walked),
    ensures
        distinct_paths(entries),
        forall|k: int| 0 <= k < entries.len() ==> tidy_path((#[trigger] entries[k]).rel_path),
    decreases walked.len(),
{
    if walked.len() > 0 {
        let front = walked.drop_last();
        let done = collected(root, state_dir, ext_filter, front)->Ok_0;
        assert(settled_walk(root, state_dir, ext_filter, front)) by {
            assert forall|i: int| 0 <= i < front.len() implies settled(
                root,
                state_dir,
                ext_filter,
                #[trigger] front[i],
            ) by {
                assert(front[i] == walked[i]);
            }
            assert forall|i: int, j: int|
                0 <= i < j < front.len() && front[i] is Entry && front[j] is Entry implies (
            #[trigger] front[i])->path != (#[trigger] front[j])->path by {
                assert(front[i] == walked[i]);
                assert(front[j] == walked[j]);
            }
        }
        lemma_collected_is_distinct(root, state_dir, ext_filter, front, done);
        let n = walked.len() - 1;
        assert(walked[n] == walked.last());
        if let Ok(Some(entry)) = listed(root, state_dir, ext_filter, walked.last()) {
            lemma_settled_step(root, state_dir, ext_filter, walked[n], entry);
            assert(entries == done.push(entry));
            assert forall|k: int| 0 <= k < done.len() implies (#[trigger] done[k]).rel_path
                != entry.rel_path by {
                lemma_collected_from_walk(root, state_dir, ext_filter, front, done, done[k]);
                assert(done.contains(done[k]));
                let i = choose|i: int|
                    0 <= i < front.len() && listed(
                        root,
                        state_dir,
                        ext_filter,
                        #[trigger] front[i],
                    ) == Ok::<Option<EntryView>, ErrorView>(Some(done[k]));
                assert(front[i] == walked[i]);
                lemma_settled_step(root, state_dir, ext_filter, walked[i], done[k]);
                assert(walked[i]->path != walked[n]->path);
            }
            assert forall|i: int, j: int| 0 <= i < j < entries.len() implies (
            #[trigger] entries[i]).rel_path != (#[trigger] entries[j]).rel_path by {
                assert(entries[i] == done[i]);
                if j < done.len() {
                    assert(entries[j] == done[j]);
                }
            }
            assert forall|k: int| 0 <= k < entries.len() implies tidy_path(
                (#[trigger] entries[k]).rel_path,
            ) by {
                if k < done.len() {
                    assert(entries[k] == done[k]);
                }
            }
        }
    }
}

/// Of entries with distinct paths, at most one has a given path.
proof fn lemma_distinct_filter(entries: Seq<EntryView>, rel_path: Seq<char>)
    requires
        distinct_paths(entries),
    ensures
        with_path(entries, rel_path).len() <= 1,
        with_path(entries, rel_path).len() == 1 ==> exists|k: int|
            0 <= k < entries.len() && (#[trigger] entries[k]).rel_path == rel_path,
    decreases entries.len(),
{
    reveal(Seq::filter);
    if entries.len() > 0 {
        let front = entries.drop_last();
        assert(distinct_paths(front)) by {
            assert forall|i: int, j: int| 0 <= i < j < front.len() implies (
            #[trigger] front[i]).rel_path != (#[trigger] front[j]).rel_path by {
                assert(entries[i] == front[i]);
                assert(entries[j] == front[j]);
            }
        }
        lemma_distinct_filter(front, rel_path);
        assert(entries[entries.len() - 1] == entries.last());
        if with_path(front, rel_path).len() == 1 {
            let k = choose|k: int|
                0 <= k < front.len() && (#[trigger] front[k]).rel_path == rel_path;
            assert(entries[k] == front[k]);
        }
    }
}

/// An entry with a path is among those with that path.
proof fn lemma_filter_counts(entries: Seq<EntryView>, i: int)
    requires
        0 <= i < entries.len(),
    ensures
        with_path(entries, entries[i].rel_path).len() >= 1,
    decreases entries.len(),
{
    reveal(Seq::filter);
    if i < entries.len() - 1 {
        assert(entries.drop_last()[i] == entries[i]);
        lemma_filter_counts(entries.drop_last(), i);
    }
}

/// Two entries with one path are both among those with that path.
proof fn lemma_filter_counts_two(entries: Seq<EntryView>, i: int, j: int)
    requires
        0 <= i < j < entries.len(),
        entries[i].rel_path == entries[j].rel_path,
    ensures
        with_path(entries, entries[i].rel_path).len() >= 2,
    decreases entries.len(),
{
    reveal(Seq::filter);
    let front = entries.drop_last();
    assert(front[i] == entries[i]);
    if j < entries.len() - 1 {
        assert(front[j] == entries[j]);
        lemma_filter_counts_two(front, i, j);
    } else {
        lemma_filter_counts(front, i);
    }
}

/// No path is listed twice, and each is tidy: where the steps of a walk lie at
/// different places, and each listed file lies where it was found, at a place of
/// plain names below the root.
pub proof fn law_no_path_is_listed_twice(
    root: Seq<ComponentView>,
    state_dir: Option<Seq<ComponentView>>,
    ext_filter: Option<Seq<Seq<char>>>,
    place: Seq<ComponentView>,
    walked: Seq<WalkView>,
    entries: Seq<EntryView>,
    sorted: Seq<EntryView>,
)
    requires
        found(root, state_dir, ext_filter, Ok(place), walked) == Ok::<Seq<EntryView>, ErrorView>(
            entries,
        ),
        stably_sorted(sorted, entries),
        settled_walk(root, state_dir, ext_filter, walked),
    ensures
        distinct_paths(sorted),
        forall|k: int| 0 <= k < sorted.len() ==> tidy_path((#[trigger] sorted[k]).rel_path),
{
    lemma_collected_is_distinct(root, state_dir, ext_filter, walked, entries);
    assert forall|i: int, j: int| 0 <= i < j < sorted.len() implies (#[trigger] sorted[i]).rel_path
        != (#[trigger] sorted[j]).rel_path by {
        if sorted[i].rel_path == sorted[j].rel_path {
            let rel_path = sorted[i].rel_path;
            lemma_filter_counts_two(sorted, i, j);
            lemma_distinct_filter(entries, rel_path);
            assert(with_path(sorted, rel_path) == with_path(entries, rel_path));
        }
    }
    assert forall|k: int| 0 <= k < sorted.len() implies tidy_path(
        (#[trigger] sorted[k]).rel_path,
    ) by {
        sorted.to_multiset_ensures();
        entries.to_multiset_ensures();
        assert(sorted.contains(sorted[k]));
        assert(sorted.to_multiset().count(sorted[k]) > 0);
        assert(entries.contains(sorted[k]));
        let m = choose|m: int| 0 <= m < entries.len() && entries[m] == sorted[k];
        assert(tidy_path(entries[m].rel_path));
    }
}

} // verus!
