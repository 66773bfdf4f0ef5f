//! What the values of the library stand for, part by part.

use vstd::prelude::*;

use crate::json::json_option;
use crate::json::str_option;
use crate::json::Json;
use crate::json::JsonMember;
use crate::json::JsonObject;
use crate::path::option_path;
use crate::path::ComponentView;
use crate::path::PathComponent;
use crate::path::WorkspacePath;
use crate::text::option_bytes;
use crate::text::option_text;
use crate::text::string_texts;
use crate::text::texts;
use crate::workspace::answered_metadata;
use crate::workspace::answered_path;
use crate::workspace::download_result;
use crate::workspace::entry_views;
use crate::workspace::filter_texts;
use crate::workspace::listed_result;
use crate::workspace::path_result;
use crate::workspace::walk_views;
use crate::workspace::DownloadView;
use crate::workspace::EntryView;
use crate::workspace::ErrorView;
use crate::workspace::FailureView;
use crate::workspace::FileMetadata;
use crate::workspace::FsFailure;
use crate::workspace::WalkItem;
use crate::workspace::WalkView;
use crate::workspace::WorkspaceDownload;
use crate::workspace::WorkspaceFileEntry;
use crate::workspace::WorkspaceFileError;

verus! {

/// Optional and listed texts stand for their characters, one for one.
pub proof fn law_texts_stand_for_their_characters(
    text: String,
    slice: &str,
    bytes: Vec<u8>,
    strings: Seq<String>,
    slices: Seq<&str>,
    i: int,
)
    ensures
        option_text(Some(text)) == Some(text@),
        option_text(None) is None,
        str_option(Some(slice)) == Some(slice@),
        str_option(None) is None,
        option_bytes(Some(bytes)) == Some(bytes@),
        option_bytes(None) is None,
        string_texts(strings).len() == strings.len(),
        0 <= i < strings.len() ==> string_texts(strings)[i] == strings[i]@,
        texts(slices).len() == slices.len(),
        0 <= i < slices.len() ==> texts(slices)[i] == slices[i]@,
{
}

/// A path stands for its components in order, and a component for its kind and
/// its bytes.
pub proof fn law_paths_stand_for_their_components(
    path: WorkspacePath,
    i: int,
    name: Vec<u8>,
)
    ensures
        path@.len() == path.components@.len(),
        0 <= i < path.components@.len() ==> path@[i] == path.components@[i]@,
        PathComponent::Normal(name)@ == ComponentView::Normal(name@),
        PathComponent::Prefix(name)@ == ComponentView::Prefix(name@),
        PathComponent::RootDir@ == ComponentView::RootDir,
        PathComponent::CurDir@ == ComponentView::CurDir,
        PathComponent::ParentDir@ == ComponentView::ParentDir,
        option_path(Some(&path)) == Some(path@),
        option_path(None) is None,
{
}

/// An entry, a download, an error and a failure stand for their parts.
pub proof fn law_files_stand_for_their_parts(
    entry: WorkspaceFileEntry,
    download: WorkspaceDownload,
    text: String,
)
    ensures
        entry@ == (EntryView {
            rel_path: entry.rel_path@,
            size_bytes: entry.size_bytes,
            modified_at: entry.modified_at,
            mime_type: entry.mime_type@,
        }),
        download@ == (DownloadView {
            path: download.path@,
            rel_path: download.rel_path@,
            size_bytes: download.size_bytes,
            mime_type: download.mime_type@,
        }),
        WorkspaceFileError::NoWorkspace@ == ErrorView::NoWorkspace,
        WorkspaceFileError::NotFound@ == ErrorView::NotFound,
        WorkspaceFileError::Forbidden@ == ErrorView::Forbidden,
        WorkspaceFileError::Io(text)@ == ErrorView::Io(text@),
        FsFailure::NotFound@ == FailureView::NotFound,
        FsFailure::Other(text)@ == FailureView::Other(text@),
{
}

/// A step of a walk stands for what it met, and a walk and a listing for their
/// steps and entries in order.
pub proof fn law_walks_stand_for_their_steps(
    item: WalkItem,
    walked: Seq<WalkItem>,
    entries: Seq<WorkspaceFileEntry>,
    i: int,
)
    ensures
        item matches WalkItem::Failed(e) ==> item@ == WalkView::Failed(e@),
        item matches WalkItem::Entry(entry) ==> {
            &&& item@ is Entry
            &&& item@->path == entry.path@
            &&& item@->is_file == entry.is_file
            &&& match entry.canonical {
                Some(place) => item@->canonical == Some(place@),
                None => item@->canonical is None,
            }
            &&& match entry.metadata {
                Ok(m) => item@->metadata == Ok::<FileMetadata, Seq<char>>(m),
                Err(e) => item@->metadata == Err::<FileMetadata, Seq<char>>(e@),
            }
        },
        walk_views(walked).len() == walked.len(),
        0 <= i < walked.len() ==> walk_views(walked)[i] == walked[i]@,
        entry_views(entries).len() == entries.len(),
        0 <= i < entries.len() ==> entry_views(entries)[i] == entries[i]@,
{
}

/// An outcome stands for what it holds.
pub proof fn law_outcomes_stand_for_what_they_hold(
    path: WorkspacePath,
    m: FileMetadata,
    failure: FsFailure,
    error: WorkspaceFileError,
    entry: WorkspaceFileEntry,
    download: WorkspaceDownload,
)
    ensures
        answered_path(Ok(path)) == Ok::<_, FailureView>(path@),
        answered_path(Err(failure)) == Err::<Seq<ComponentView>, _>(failure@),
        answered_metadata(Ok(m)) == Ok::<_, FailureView>(m),
        answered_metadata(Err(failure)) == Err::<FileMetadata, _>(failure@),
        path_result(Ok(path)) == Ok::<_, ErrorView>(path@),
        path_result(Err(error)) == Err::<Seq<ComponentView>, _>(error@),
        listed_result(Ok(Some(entry))) == Ok::<_, ErrorView>(Some(entry@)),
        listed_result(Ok(None)) == Ok::<_, ErrorView>(None::<EntryView>),
        listed_result(Err(error)) == Err::<Option<EntryView>, _>(error@),
        download_result(Ok(download)) == Ok::<_, ErrorView>(download@),
        download_result(Err(error)) == Err::<DownloadView, _>(error@),
{
}

/// A filter stands for the texts in it, in order, and no filter for none.
pub proof fn law_filters_stand_for_their_texts(wanted: &[String], i: int)
    ensures
        filter_texts(None) is None,
        filter_texts(Some(wanted)) is Some,
        filter_texts(Some(wanted))->Some_0.len() == wanted@.len(),
        0 <= i < wanted@.len() ==> filter_texts(Some(wanted))->Some_0[i] == wanted@[i]@,
{
}

/// An object maps the key of each member to its value, the later one where a key
/// comes twice.
pub proof fn law_objects_map_keys_to_values(
    object: JsonObject,
    longer: JsonObject,
    last: JsonMember,
    value: &Json,
)
    ensures
        object.members@.len() == 0 ==> object@ == Map::<Seq<char>, crate::json::JsonView>::empty(),
        longer.members@ == object.members@.push(last) ==> longer@ == object@.insert(
            last.key@,
            last.value@,
        ),
        json_option(Some(value)) == Some(value@),
        json_option(None) is None,
{
    assert(object.members@.push(last).drop_last() =~= object.members@);
}

} // verus!
