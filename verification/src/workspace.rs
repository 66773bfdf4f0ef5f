//! Agent workspace file listing and download rules.
//!
//! The file system is touched elsewhere: what it answered is handed in as plain
//! values, and these functions decide what follows from the answers.

use vstd::prelude::*;
use vstd::seq_lib::to_multiset_build;
use vstd::seq_lib::to_multiset_insert;
use vstd::slice::slice_to_vec;
use vstd::utf8::encode_utf8;
use vstd::utf8::valid_utf8;

use crate::order::lemma_bytes_total;
use crate::order::lemma_bytes_transitive;
use crate::order::text_at_most;
use crate::order::text_ordered;
use crate::path::extension_text;
use crate::path::names_only;
use crate::path::option_path;
use crate::path::rel_path_to_string;
use crate::path::rel_text;
use crate::path::ComponentView;
use crate::path::PathComponent;
use crate::path::WorkspacePath;
use crate::text::bytes_equal;
use crate::text::equal_ignoring_ascii_case;
use crate::text::same_ignoring_ascii_case;
use crate::text::split;
use crate::text::split_text;
use crate::text::str_equal;
use crate::text::string_texts;
use crate::text::texts;
use crate::text::trim_leading;
use crate::text::trim_leading_char;
use crate::trusted::string_from_utf8;

verus! {

/// A moment in seconds and nanoseconds since the Unix epoch.
#[derive(Debug, Clone, Copy, PartialEq, Eq)]
pub struct FileTime {
    pub secs: i64,
    pub nanos: u32,
}

/// Metadata returned by the workspace file listing endpoint.
#[derive(Debug, Clone)]
pub struct WorkspaceFileEntry {
    pub rel_path: String,
    pub size_bytes: u64,
    pub modified_at: Option<FileTime>,
    pub mime_type: String,
}

/// The value of a listed file.
pub struct EntryView {
    pub rel_path: Seq<char>,
    pub size_bytes: u64,
    pub modified_at: Option<FileTime>,
    pub mime_type: Seq<char>,
}

impl View for WorkspaceFileEntry {
    type V = EntryView;

    open spec fn view(&self) -> EntryView {
        EntryView {
            rel_path: self.rel_path@,
            size_bytes: self.size_bytes,
            modified_at: self.modified_at,
            mime_type: self.mime_type@,
        }
    }
}

/// Resolved file ready for download.
#[derive(Debug, Clone)]
pub struct WorkspaceDownload {
    pub path: WorkspacePath,
    pub rel_path: String,
    pub size_bytes: u64,
    pub mime_type: String,
}

/// The value of a resolved download.
pub struct DownloadView {
    pub path: Seq<ComponentView>,
    pub rel_path: Seq<char>,
    pub size_bytes: u64,
    pub mime_type: Seq<char>,
}

impl View for WorkspaceDownload {
    type V = DownloadView;

    open spec fn view(&self) -> DownloadView {
        DownloadView {
            path: self.path@,
            rel_path: self.rel_path@,
            size_bytes: self.size_bytes,
            mime_type: self.mime_type@,
        }
    }
}

/// Why a listing or a download is refused.
#[derive(Debug, Clone, PartialEq, Eq)]
pub enum WorkspaceFileError {
    NoWorkspace,
    NotFound,
    Forbidden,
    Io(String),
}

/// The value of a refusal.
pub enum ErrorView {
    NoWorkspace,
    NotFound,
    Forbidden,
    Io(Seq<char>),
}

impl View for WorkspaceFileError {
    type V = ErrorView;

    open spec fn view(&self) -> ErrorView {
        match self {
            WorkspaceFileError::NoWorkspace => ErrorView::NoWorkspace,
            WorkspaceFileError::NotFound => ErrorView::NotFound,
            WorkspaceFileError::Forbidden => ErrorView::Forbidden,
            WorkspaceFileError::Io(e) => ErrorView::Io(e@),
        }
    }
}

/// The text of a refusal.
pub open spec fn error_message(e: ErrorView) -> Seq<char> {
    match e {
        ErrorView::NoWorkspace => "Workspace not configured"@,
        ErrorView::NotFound => "File not found"@,
        ErrorView::Forbidden => "Path is outside the workspace"@,
        ErrorView::Io(text) => text,
    }
}

impl WorkspaceFileError {
    /// The text shown for the error.
    pub fn message(&self) -> (r: String)
        ensures
            r@ == error_message(self@),
    {
        match self {
            WorkspaceFileError::NoWorkspace => "Workspace not configured".to_owned(),
            WorkspaceFileError::NotFound => "File not found".to_owned(),
            WorkspaceFileError::Forbidden => "Path is outside the workspace".to_owned(),
            WorkspaceFileError::Io(e) => e.as_str().to_owned(),
        }
    }
}

/// How the file system failed to answer.
#[derive(Debug, Clone, PartialEq, Eq)]
pub enum FsFailure {
    NotFound,
    Other(String),
}

/// The value of a failure of the file system.
pub enum FailureView {
    NotFound,
    Other(Seq<char>),
}

impl View for FsFailure {
    type V = FailureView;

    open spec fn view(&self) -> FailureView {
        match self {
            FsFailure::NotFound => FailureView::NotFound,
            FsFailure::Other(e) => FailureView::Other(e@),
        }
    }
}

/// The value of the file system's answer to a path.
pub open spec fn answered_path(r: Result<WorkspacePath, FsFailure>) -> Result<
    Seq<ComponentView>,
    FailureView,
> {
    match r {
        Ok(p) => Ok(p@),
        Err(e) => Err(e@),
    }
}

/// The value of the file system's answer to a request for metadata.
pub open spec fn answered_metadata(r: Result<FileMetadata, FsFailure>) -> Result<
    FileMetadata,
    FailureView,
> {
    match r {
        Ok(m) => Ok(m),
        Err(e) => Err(e@),
    }
}

/// The value of a path result.
pub open spec fn path_result(r: Result<WorkspacePath, WorkspaceFileError>) -> Result<
    Seq<ComponentView>,
    ErrorView,
> {
    match r {
        Ok(p) => Ok(p@),
        Err(e) => Err(e@),
    }
}

/// The canonical workspace root: `canonical` is what canonicalizing the
/// configured directory gave, `is_dir` whether that is a directory.
pub fn canonical_dir(canonical: Result<WorkspacePath, String>, is_dir: bool) -> (r: Result<
    WorkspacePath,
    WorkspaceFileError,
>)
    ensures
        path_result(r) == match canonical {
            Ok(p) => if is_dir {
                Ok(p@)
            } else {
                Err(ErrorView::NoWorkspace)
            },
            Err(e) => Err(ErrorView::Io(e@)),
        },
{
    match canonical {
        Ok(p) => if is_dir {
            Ok(p)
        } else {
            Err(WorkspaceFileError::NoWorkspace)
        },
        Err(e) => Err(WorkspaceFileError::Io(e)),
    }
}

/// The canonical state directory: `canonical` is what canonicalizing it gave,
/// where one is configured.
pub fn canonical_optional(canonical: Option<Result<WorkspacePath, String>>) -> (r: Option<
    WorkspacePath,
>)
    ensures
        r == match canonical {
            Some(Ok(p)) => Some(p),
            _ => None,
        },
{
    match canonical {
        Some(Ok(p)) => Some(p),
        _ => None,
    }
}

/// The components that the segments of a requested path stand for; empty
/// segments and `.` stand for none.
pub open spec fn segment_components(segments: Seq<Seq<char>>) -> Seq<ComponentView>
    decreases segments.len(),
{
    if segments.len() == 0 {
        seq![]
    } else {
        let done = segment_components(segments.drop_last());
        if segments.last() == ""@ || segments.last() == "."@ {
            done
        } else {
            done.push(ComponentView::Normal(encode_utf8(segments.last())))
        }
    }
}

/// The relative path that a requested path stands for. A `..` is refused.
pub open spec fn normalized(raw: Seq<char>) -> Result<Seq<ComponentView>, ErrorView> {
    if split_text(raw, '/').contains(".."@) {
        Err(ErrorView::Forbidden)
    } else {
        Ok(segment_components(split_text(raw, '/')))
    }
}

/// Turns a requested path into a relative path made of names only. Slashes at
/// the ends, repeated slashes and `.` are dropped; `..` is refused. Names are
/// told apart at slashes alone, as on Unix: a backslash or a drive letter is part
/// of a name, so `..\report.md` is one name here, which Windows reads as two.
pub fn normalize_rel_path(raw: &str) -> (r: Result<WorkspacePath, WorkspaceFileError>)
    ensures
        path_result(r) == normalized(raw@),
        r matches Ok(p) ==> names_only(p@),
{
    let segments: Vec<&str> = split(raw, '/');
    let n: usize = segments.len();
    let mut out: WorkspacePath = WorkspacePath::empty();
    let mut i: usize = 0;
    let ghost all = texts(segments@);
    assert(segment_components(all.take(0)) =~= out@);
    while i < n
        invariant
            n == segments@.len(),
            i <= n,
            all == texts(segments@),
            all == split_text(raw@, '/'),
            forall|k: int| 0 <= k < i ==> #[trigger] all[k] != ".."@,
            out@ == segment_components(all.take(i as int)),
            names_only(out@),
        decreases n - i,
    {
        let segment: &str = segments[i];
        assert(all[i as int] == segment@);
        assert(all.take(i + 1).drop_last() =~= all.take(i as int));
        assert(all.take(i + 1).last() == segment@);
        if str_equal(segment, "..") {
            assert(all.contains(".."@));
            return Err(WorkspaceFileError::Forbidden);
        }
        if !str_equal(segment, "") && !str_equal(segment, ".") {
            let ghost before = out@;
            out.components.push(PathComponent::Normal(slice_to_vec(segment.as_bytes())));
            assert(out@ =~= before.push(ComponentView::Normal(encode_utf8(segment@))));
        }
        i = i + 1;
    }
    assert(all.take(n as int) =~= all);
    assert(!all.contains(".."@));
    Ok(out)
}

/// A name that is text and begins with a dot.
pub open spec fn hidden_name(name: Seq<u8>) -> bool {
    name.len() > 0 && name[0] == 46 && valid_utf8(name)
}

/// Some component is a hidden name.
pub open spec fn hidden(path: Seq<ComponentView>) -> bool {
    exists|i: int|
        0 <= i < path.len() && match #[trigger] path[i] {
            ComponentView::Normal(name) => hidden_name(name),
            _ => false,
        }
}

/// Whether some component of the path is a hidden name.
pub fn has_hidden_component(path: &WorkspacePath) -> (r: bool)
    ensures
        r == hidden(path@),
{
    let n: usize = path.components.len();
    let mut i: usize = 0;
    while i < n
        invariant
            n == path.components@.len(),
            i <= n,
            forall|k: int|
                0 <= k < i ==> match #[trigger] path@[k] {
                    ComponentView::Normal(name) => !hidden_name(name),
                    _ => true,
                },
        decreases n - i,
    {
        assert(path@[i as int] == path.components@[i as int]@);
        match &path.components[i] {
            PathComponent::Normal(name) => {
                if name.len() > 0 && name[0] == 46 && string_from_utf8(
                    slice_to_vec(name.as_slice()),
                ).is_some() {
                    return true;
                }
            },
            _ => {},
        }
        i = i + 1;
    }
    false
}

/// A name at the top of a workspace that holds private state.
pub open spec fn private_name(name: Seq<u8>) -> bool {
    ||| name == encode_utf8("sessions"@)
    ||| name == encode_utf8("memory"@)
    ||| name == encode_utf8("logs"@)
    ||| name == encode_utf8("AGENT.json"@)
}

/// A component that is a private name.
pub open spec fn private_component(c: ComponentView) -> bool {
    c matches ComponentView::Normal(name) && private_name(name)
}

/// The path lies in the state directory, outside the workspace, or under a
/// private name at the top of the workspace.
pub open spec fn private_state(
    path: Seq<ComponentView>,
    root: Seq<ComponentView>,
    state_dir: Option<Seq<ComponentView>>,
) -> bool {
    ||| state_dir matches Some(state) && state != root && state.is_prefix_of(path)
    ||| !root.is_prefix_of(path)
    ||| path.len() > root.len() && private_component(path[root.len() as int])
}

/// Whether a canonical path belongs to the agent's private state.
pub fn is_private_state_path(
    path: &WorkspacePath,
    root: &WorkspacePath,
    state_dir: Option<&WorkspacePath>,
) -> (r: bool)
    ensures
        r == private_state(path@, root@, option_path(state_dir)),
{
    match state_dir {
        Some(state) => {
            if !state.equals(root) && path.starts_with(state) {
                return true;
            }
        },
        None => {},
    }
    let rel: WorkspacePath = match path.strip_prefix(root) {
        Some(rel) => rel,
        None => return true,
    };
    if rel.components.len() == 0 {
        assert(rel@.len() == 0);
        return false;
    }
    assert(rel@.len() == rel.components@.len());
    assert(rel@[0] == rel.components@[0]@);
    assert(path@.skip(root@.len() as int)[0] == path@[root@.len() as int]);
    match &rel.components[0] {
        PathComponent::Normal(name) => {
            bytes_equal(name.as_slice(), "sessions".as_bytes()) || bytes_equal(
                name.as_slice(),
                "memory".as_bytes(),
            ) || bytes_equal(name.as_slice(), "logs".as_bytes()) || bytes_equal(
                name.as_slice(),
                "AGENT.json".as_bytes(),
            )
        },
        _ => false,
    }
}

/// An extension that one of the wanted ones names, with or without leading
/// dots and in any ASCII case.
pub open spec fn wanted_extension(ext: Seq<char>, wanted: Seq<Seq<char>>) -> bool {
    exists|i: int|
        0 <= i < wanted.len() && same_ignoring_ascii_case(
            trim_leading(#[trigger] wanted[i], '.'),
            ext,
        )
}

/// The path passes the extension filter; no filter and an empty one pass all.
pub open spec fn passes_ext_filter(
    path: Seq<ComponentView>,
    ext_filter: Option<Seq<Seq<char>>>,
) -> bool {
    match ext_filter {
        Some(wanted) => wanted.len() == 0 || (extension_text(path) matches Some(ext)
            && wanted_extension(ext, wanted)),
        None => true,
    }
}

/// The wanted extensions of an optional filter.
pub open spec fn filter_texts(ext_filter: Option<&[String]>) -> Option<Seq<Seq<char>>> {
    match ext_filter {
        Some(wanted) => Some(string_texts(wanted@)),
        None => None,
    }
}

/// Whether the path passes the extension filter.
pub fn matches_ext_filter(path: &WorkspacePath, ext_filter: Option<&[String]>) -> (r: bool)
    ensures
        r == passes_ext_filter(path@, filter_texts(ext_filter)),
{
    let filter: &[String] = match ext_filter {
        Some(f) => f,
        None => return true,
    };
    let n: usize = filter.len();
    if n == 0 {
        return true;
    }
    let ext: String = match path.extension() {
        Some(e) => e,
        None => return false,
    };
    let ghost wanted = string_texts(filter@);
    let mut i: usize = 0;
    while i < n
        invariant
            n == filter@.len(),
            i <= n,
            wanted == string_texts(filter@),
            filter_texts(ext_filter) == Some(wanted),
            extension_text(path@) == Some(ext@),
            forall|k: int|
                0 <= k < i ==> !same_ignoring_ascii_case(
                    trim_leading(#[trigger] wanted[k], '.'),
                    ext@,
                ),
        decreases n - i,
    {
        assert(wanted[i as int] == filter@[i as int]@);
        if equal_ignoring_ascii_case(trim_leading_char(filter[i].as_str(), '.'), ext.as_str()) {
            assert(wanted_extension(ext@, wanted));
            return true;
        }
        i = i + 1;
    }
    false
}

/// The MIME type of an extension.
pub open spec fn mime_of_extension(ext: Seq<char>) -> Seq<char> {
    if ext == "md"@ || ext == "markdown"@ {
        "text/markdown; charset=utf-8"@
    } else if ext == "txt"@ || ext == "log"@ {
        "text/plain; charset=utf-8"@
    } else if ext == "json"@ {
        "application/json"@
    } else if ext == "csv"@ {
        "text/csv; charset=utf-8"@
    } else if ext == "html"@ || ext == "htm"@ {
        "text/html; charset=utf-8"@
    } else if ext == "pdf"@ {
        "application/pdf"@
    } else if ext == "png"@ {
        "image/png"@
    } else if ext == "jpg"@ || ext == "jpeg"@ {
        "image/jpeg"@
    } else if ext == "gif"@ {
        "image/gif"@
    } else if ext == "webp"@ {
        "image/webp"@
    } else if ext == "svg"@ {
        "image/svg+xml"@
    } else if ext == "zip"@ {
        "application/zip"@
    } else {
        "application/octet-stream"@
    }
}

/// The MIME type of a path, by its extension.
pub open spec fn mime_type(path: Seq<ComponentView>) -> Seq<char> {
    match extension_text(path) {
        Some(ext) => mime_of_extension(ext),
        None => mime_of_extension(""@),
    }
}

fn mime_for_extension(ext: &str) -> (r: &'static str)
    ensures
        r@ == mime_of_extension(ext@),
{
    if str_equal(ext, "md") || str_equal(ext, "markdown") {
        "text/markdown; charset=utf-8"
    } else if str_equal(ext, "txt") || str_equal(ext, "log") {
        "text/plain; charset=utf-8"
    } else if str_equal(ext, "json") {
        "application/json"
    } else if str_equal(ext, "csv") {
        "text/csv; charset=utf-8"
    } else if str_equal(ext, "html") || str_equal(ext, "htm") {
        "text/html; charset=utf-8"
    } else if str_equal(ext, "pdf") {
        "application/pdf"
    } else if str_equal(ext, "png") {
        "image/png"
    } else if str_equal(ext, "jpg") || str_equal(ext, "jpeg") {
        "image/jpeg"
    } else if str_equal(ext, "gif") {
        "image/gif"
    } else if str_equal(ext, "webp") {
        "image/webp"
    } else if str_equal(ext, "svg") {
        "image/svg+xml"
    } else if str_equal(ext, "zip") {
        "application/zip"
    } else {
        "application/octet-stream"
    }
}

/// The MIME type of a file, by the extension of its path.
pub fn mime_type_for_path(path: &WorkspacePath) -> (r: &'static str)
    ensures
        r@ == mime_type(path@),
{
    match path.extension() {
        Some(ext) => mime_for_extension(ext.as_str()),
        None => mime_for_extension(""),
    }
}

/// What the file system says of a file.
#[derive(Debug, Clone, Copy, PartialEq, Eq)]
pub struct FileMetadata {
    pub is_file: bool,
    pub len: u64,
    pub modified_at: Option<FileTime>,
}

/// What was found at one place of a walk through the workspace.
#[derive(Debug)]
pub struct WalkEntry {
    /// Where the walk found it.
    pub path: WorkspacePath,
    /// Whether it is a regular file; a link is none.
    pub is_file: bool,
    /// Where it really lies, if that can be told.
    pub canonical: Option<WorkspacePath>,
    /// What the file system says of it.
    pub metadata: Result<FileMetadata, String>,
}

/// One step of a walk through the workspace.
#[derive(Debug)]
pub enum WalkItem {
    Failed(String),
    Entry(WalkEntry),
}

/// The value of one step of a walk.
pub enum WalkView {
    Failed(Seq<char>),
    Entry {
        path: Seq<ComponentView>,
        is_file: bool,
        canonical: Option<Seq<ComponentView>>,
        metadata: Result<FileMetadata, Seq<char>>,
    },
}

impl View for WalkItem {
    type V = WalkView;

    open spec fn view(&self) -> WalkView {
        match self {
            WalkItem::Failed(e) => WalkView::Failed(e@),
            WalkItem::Entry(entry) => WalkView::Entry {
                path: entry.path@,
                is_file: entry.is_file,
                canonical: match entry.canonical {
                    Some(p) => Some(p@),
                    None => None,
                },
                metadata: match entry.metadata {
                    Ok(m) => Ok(m),
                    Err(e) => Err(e@),
                },
            },
        }
    }
}

/// The values of the steps of a walk.
pub open spec fn walk_views(walked: Seq<WalkItem>) -> Seq<WalkView> {
    walked.map_values(|w: WalkItem| w@)
}

/// The values of listed files.
pub open spec fn entry_views(entries: Seq<WorkspaceFileEntry>) -> Seq<EntryView> {
    entries.map_values(|e: WorkspaceFileEntry| e@)
}

/// Where a listing starts: at the root, or at the requested prefix below it.
pub fn listing_start(root: &WorkspacePath, prefix: Option<&str>) -> (r: Result<
    WorkspacePath,
    WorkspaceFileError,
>)
    ensures
        path_result(r) == match normalized(
            match prefix {
                Some(p) => p@,
                None => ""@,
            },
        ) {
            Ok(rel) => Ok(root@ + rel),
            Err(e) => Err(e),
        },
{
    let rel: WorkspacePath = match normalize_rel_path(
        match prefix {
            Some(p) => p,
            None => "",
        },
    ) {
        Ok(rel) => rel,
        Err(e) => return Err(e),
    };
    Ok(root.join(&rel))
}

/// A walk enters a place unless it lies under a hidden name of the workspace.
pub open spec fn visited(root: Seq<ComponentView>, path: Seq<ComponentView>) -> bool {
    path == root || !hidden(
        if root.is_prefix_of(path) {
            path.skip(root.len() as int)
        } else {
            path
        },
    )
}

/// Whether a walk through the workspace enters a place.
pub fn should_visit(root: &WorkspacePath, path: &WorkspacePath) -> (r: bool)
    ensures
        r == visited(root@, path@),
{
    path.equals(root) || !has_hidden_component(
        &match path.strip_prefix(root) {
            Some(rel) => rel,
            None => path.copied(),
        },
    )
}

/// What one step of the walk contributes to the listing.
pub open spec fn listed(
    root: Seq<ComponentView>,
    state_dir: Option<Seq<ComponentView>>,
    ext_filter: Option<Seq<Seq<char>>>,
    item: WalkView,
) -> Result<Option<EntryView>, ErrorView> {
    match item {
        WalkView::Failed(e) => Err(ErrorView::Io(e)),
        WalkView::Entry { path, is_file, canonical, metadata } => {
            if !visited(root, path) || !is_file || canonical is None {
                Ok(None)
            } else {
                let place = canonical->Some_0;
                let rel = place.skip(root.len() as int);
                if private_state(place, root, state_dir) || !passes_ext_filter(rel, ext_filter) {
                    Ok(None)
                } else {
                    match metadata {
                        Err(e) => Err(ErrorView::Io(e)),
                        Ok(m) => Ok(
                            Some(
                                EntryView {
                                    rel_path: rel_text(rel),
                                    size_bytes: m.len,
                                    modified_at: m.modified_at,
                                    mime_type: mime_type(rel),
                                },
                            ),
                        ),
                    }
                }
            }
        },
    }
}

/// The value of what one step contributes.
pub open spec fn listed_result(
    r: Result<Option<WorkspaceFileEntry>, WorkspaceFileError>,
) -> Result<Option<EntryView>, ErrorView> {
    match r {
        Ok(Some(entry)) => Ok(Some(entry@)),
        Ok(None) => Ok(None),
        Err(e) => Err(e@),
    }
}

/// What one step of the walk contributes to the listing.
pub fn list_item(
    root: &WorkspacePath,
    state_dir: Option<&WorkspacePath>,
    ext_filter: Option<&[String]>,
    item: &WalkItem,
) -> (r: Result<Option<WorkspaceFileEntry>, WorkspaceFileError>)
    ensures
        listed_result(r) == listed(
            root@,
            option_path(state_dir),
            filter_texts(ext_filter),
            item@,
        ),
{
    let entry: &WalkEntry = match item {
        WalkItem::Failed(e) => return Err(WorkspaceFileError::Io(e.as_str().to_owned())),
        WalkItem::Entry(entry) => entry,
    };
    if !should_visit(root, &entry.path) || !entry.is_file {
        return Ok(None);
    }
    let canonical: &WorkspacePath = match &entry.canonical {
        Some(p) => p,
        None => return Ok(None),
    };
    if is_private_state_path(canonical, root, state_dir) {
        return Ok(None);
    }
    let rel: WorkspacePath = match canonical.strip_prefix(root) {
        Some(rel) => rel,
        None => return Err(WorkspaceFileError::Forbidden),
    };
    if !matches_ext_filter(&rel, ext_filter) {
        return Ok(None);
    }
    match &entry.metadata {
        Ok(m) => Ok(
            Some(
                WorkspaceFileEntry {
                    rel_path: rel_path_to_string(&rel),
                    size_bytes: m.len,
                    modified_at: m.modified_at,
                    mime_type: mime_type_for_path(&rel).to_owned(),
                },
            ),
        ),
        Err(e) => Err(WorkspaceFileError::Io(e.as_str().to_owned())),
    }
}

/// What a walk contributes, in the order of its steps; the first failure ends it.
pub open spec fn collected(
    root: Seq<ComponentView>,
    state_dir: Option<Seq<ComponentView>>,
    ext_filter: Option<Seq<Seq<char>>>,
    walked: Seq<WalkView>,
) -> Result<Seq<EntryView>, ErrorView>
    decreases walked.len(),
{
    if walked.len() == 0 {
        Ok(seq![])
    } else {
        match collected(root, state_dir, ext_filter, walked.drop_last()) {
            Err(e) => Err(e),
            Ok(done) => match listed(root, state_dir, ext_filter, walked.last()) {
                Err(e) => Err(e),
                Ok(None) => Ok(done),
                Ok(Some(entry)) => Ok(done.push(entry)),
            },
        }
    }
}

/// The entries come in the order of their paths.
pub open spec fn sorted_by_path(entries: Seq<EntryView>) -> bool {
    forall|i: int, j: int|
        0 <= i <= j < entries.len() ==> text_at_most(
            (#[trigger] entries[i]).rel_path,
            (#[trigger] entries[j]).rel_path,
        )
}

/// The entries with one path, in their order.
pub open spec fn with_path(entries: Seq<EntryView>, rel_path: Seq<char>) -> Seq<EntryView> {
    entries.filter(|e: EntryView| e.rel_path == rel_path)
}

/// `sorted` holds the entries of `entries` in the order of their paths, those
/// with one path in the order in which they came.
pub open spec fn stably_sorted(sorted: Seq<EntryView>, entries: Seq<EntryView>) -> bool {
    &&& sorted_by_path(sorted)
    &&& sorted.to_multiset() == entries.to_multiset()
    &&& forall|rel_path: Seq<char>| #[trigger]
        with_path(sorted, rel_path) == with_path(entries, rel_path)
}

/// A filter that no element passes leaves nothing.
proof fn lemma_none_kept(entries: Seq<EntryView>, keep: spec_fn(EntryView) -> bool)
    requires
        forall|i: int| 0 <= i < entries.len() ==> !keep(#[trigger] entries[i]),
    ensures
        entries.filter(keep) == Seq::<EntryView>::empty(),
    decreases entries.len(),
{
    reveal(Seq::filter);
    if entries.len() == 0 {
        assert(entries =~= Seq::<EntryView>::empty());
    } else {
        assert(!keep(entries[entries.len() - 1]));
        lemma_none_kept(entries.drop_last(), keep);
    }
}

/// Inserting an entry behind those that come before it or have its path keeps
/// the order.
proof fn lemma_insert_sorted(
    sorted: Seq<EntryView>,
    entries: Seq<EntryView>,
    at: int,
    entry: EntryView,
)
    requires
        stably_sorted(sorted, entries),
        0 <= at <= sorted.len(),
        forall|i: int|
            0 <= i < at ==> text_at_most((#[trigger] sorted[i]).rel_path, entry.rel_path),
        forall|i: int|
            at <= i < sorted.len() ==> !text_at_most(
                (#[trigger] sorted[i]).rel_path,
                entry.rel_path,
            ),
    ensures
        stably_sorted(sorted.insert(at, entry), entries.push(entry)),
{
    let out = sorted.insert(at, entry);
    assert forall|i: int, j: int| 0 <= i <= j < out.len() implies text_at_most(
        (#[trigger] out[i]).rel_path,
        (#[trigger] out[j]).rel_path,
    ) by {
        if i < at {
            assert(out[i] == sorted[i]);
            if j > at {
                assert(out[j] == sorted[j - 1]);
            } else if j < at {
                assert(out[j] == sorted[j]);
            }
        } else if i > at {
            assert(out[i] == sorted[i - 1]);
            assert(out[j] == sorted[j - 1]);
        } else {
            lemma_bytes_total(encode_utf8(entry.rel_path), encode_utf8(entry.rel_path));
            if j > at {
                assert(out[j] == sorted[j - 1]);
                lemma_bytes_total(
                    encode_utf8(sorted[j - 1].rel_path),
                    encode_utf8(entry.rel_path),
                );
            }
        }
    }
    to_multiset_insert(sorted, at, entry);
    to_multiset_build(entries, entry);
    assert(out.to_multiset() =~= entries.push(entry).to_multiset());
    let front = sorted.take(at);
    let back = sorted.skip(at);
    assert(sorted =~= front + back);
    assert(out =~= front + seq![entry] + back);
    assert forall|rel_path: Seq<char>| #[trigger]
        with_path(out, rel_path) == with_path(entries.push(entry), rel_path) by {
        let same = |e: EntryView| e.rel_path == rel_path;
        Seq::filter_distributes_over_add(front, back, same);
        Seq::filter_distributes_over_add(front, seq![entry], same);
        Seq::filter_distributes_over_add(front + seq![entry], back, same);
        reveal_with_fuel(Seq::filter, 2);
        assert(entries.push(entry).drop_last() =~= entries);
        assert(seq![entry].drop_last() =~= Seq::<EntryView>::empty());
        assert(with_path(sorted, rel_path) == with_path(entries, rel_path));
        if rel_path == entry.rel_path {
            assert forall|i: int| 0 <= i < back.len() implies !same(#[trigger] back[i]) by {
                assert(back[i] == sorted[at + i]);
                lemma_bytes_total(encode_utf8(rel_path), encode_utf8(rel_path));
            }
            lemma_none_kept(back, same);
        }
        assert(out.filter(same) =~= entries.push(entry).filter(same));
    }
}

/// Puts an entry into a sorted listing, behind those with the same path.
fn insert_entry(
    entries: &mut Vec<WorkspaceFileEntry>,
    entry: WorkspaceFileEntry,
    Ghost(came): Ghost<Seq<EntryView>>,
)
    requires
        stably_sorted(entry_views(old(entries)@), came),
    ensures
        stably_sorted(entry_views(final(entries)@), came.push(entry@)),
{
    let n: usize = entries.len();
    let mut lo: usize = 0;
    let mut hi: usize = n;
    let ghost views = entry_views(entries@);
    while lo < hi
        invariant
            n == entries@.len(),
            lo <= hi <= n,
            views == entry_views(entries@),
            sorted_by_path(views),
            forall|i: int|
                0 <= i < lo ==> text_at_most((#[trigger] views[i]).rel_path, entry@.rel_path),
            forall|i: int|
                hi <= i < n ==> !text_at_most((#[trigger] views[i]).rel_path, entry@.rel_path),
        decreases hi - lo,
    {
        let mid: usize = lo + (hi - lo) / 2;
        assert(views[mid as int] == entries@[mid as int]@);
        if text_ordered(entries[mid].rel_path.as_str(), entry.rel_path.as_str()) {
            assert forall|i: int| 0 <= i < mid + 1 implies text_at_most(
                (#[trigger] views[i]).rel_path,
                entry@.rel_path,
            ) by {
                lemma_bytes_transitive(
                    encode_utf8(views[i].rel_path),
                    encode_utf8(views[mid as int].rel_path),
                    encode_utf8(entry@.rel_path),
                );
            }
            lo = mid + 1;
        } else {
            assert forall|i: int| mid <= i < n implies !text_at_most(
                (#[trigger] views[i]).rel_path,
                entry@.rel_path,
            ) by {
                if text_at_most(views[i].rel_path, entry@.rel_path) {
                    lemma_bytes_transitive(
                        encode_utf8(views[mid as int].rel_path),
                        encode_utf8(views[i].rel_path),
                        encode_utf8(entry@.rel_path),
                    );
                }
            }
            hi = mid;
        }
    }
    proof {
        lemma_insert_sorted(views, came, lo as int, entry@);
    }
    let ghost added = entry@;
    entries.insert(lo, entry);
    assert(entry_views(entries@) =~= views.insert(lo as int, added));
}

/// A failure after the first steps of a walk is the walk's.
proof fn lemma_collected_fails(
    root: Seq<ComponentView>,
    state_dir: Option<Seq<ComponentView>>,
    ext_filter: Option<Seq<Seq<char>>>,
    walked: Seq<WalkView>,
    n: int,
)
    requires
        0 <= n <= walked.len(),
        collected(root, state_dir, ext_filter, walked.take(n)) is Err,
    ensures
        collected(root, state_dir, ext_filter, walked) == collected(
            root,
            state_dir,
            ext_filter,
            walked.take(n),
        ),
    decreases walked.len(),
{
    if n < walked.len() {
        assert(walked.drop_last().take(n) =~= walked.take(n));
        lemma_collected_fails(root, state_dir, ext_filter, walked.drop_last(), n);
    } else {
        assert(walked.take(n) =~= walked);
    }
}

/// What a listing finds, in the order of the walk. `start` is what
/// canonicalizing the start gave: a start that does not exist lists nothing.
pub open spec fn found(
    root: Seq<ComponentView>,
    state_dir: Option<Seq<ComponentView>>,
    ext_filter: Option<Seq<Seq<char>>>,
    start: Result<Seq<ComponentView>, FailureView>,
    walked: Seq<WalkView>,
) -> Result<Seq<EntryView>, ErrorView> {
    match start {
        Err(FailureView::NotFound) => Ok(seq![]),
        Err(FailureView::Other(e)) => Err(ErrorView::Io(e)),
        Ok(place) => if root.is_prefix_of(place) {
            collected(root, state_dir, ext_filter, walked)
        } else {
            Err(ErrorView::Forbidden)
        },
    }
}

/// Lists the files under an agent workspace, sorted by path.
///
/// `root` is the canonical workspace root, `start` what canonicalizing the
/// start of the listing gave, and `walked` what a walk from there that enters
/// the places of [`should_visit`] and follows no links came upon.
pub fn list_files(
    root: &WorkspacePath,
    state_dir: Option<&WorkspacePath>,
    ext_filter: Option<&[String]>,
    start: &Result<WorkspacePath, FsFailure>,
    walked: &Vec<WalkItem>,
) -> (r: Result<Vec<WorkspaceFileEntry>, WorkspaceFileError>)
    ensures
        match found(
            root@,
            option_path(state_dir),
            filter_texts(ext_filter),
            answered_path(*start),
            walk_views(walked@),
        ) {
            Ok(entries) => r is Ok && stably_sorted(entry_views(r->Ok_0@), entries),
            Err(e) => r is Err && r->Err_0@ == e,
        },
{
    let mut entries: Vec<WorkspaceFileEntry> = Vec::new();
    let ghost mut came: Seq<EntryView> = seq![];
    assert(entry_views(entries@) =~= came);
    match start {
        Err(FsFailure::NotFound) => return Ok(entries),
        Err(FsFailure::Other(e)) => return Err(WorkspaceFileError::Io(e.as_str().to_owned())),
        Ok(place) => {
            if !place.starts_with(root) {
                return Err(WorkspaceFileError::Forbidden);
            }
        },
    }
    let ghost views = walk_views(walked@);
    let ghost state = option_path(state_dir);
    let ghost filter = filter_texts(ext_filter);
    let n: usize = walked.len();
    let mut i: usize = 0;
    assert(views.take(0) =~= Seq::<WalkView>::empty());
    while i < n
        invariant
            n == walked@.len(),
            i <= n,
            views == walk_views(walked@),
            state == option_path(state_dir),
            filter == filter_texts(ext_filter),
            found(root@, state, filter, answered_path(*start), views) == collected(
                root@,
                state,
                filter,
                views,
            ),
            collected(root@, state, filter, views.take(i as int)) == Ok::<Seq<EntryView>, ErrorView>(
                came,
            ),
            stably_sorted(entry_views(entries@), came),
        decreases n - i,
    {
        assert(views.take(i + 1).drop_last() =~= views.take(i as int));
        assert(views.take(i + 1).last() == walked@[i as int]@);
        match list_item(root, state_dir, ext_filter, &walked[i]) {
            Err(e) => {
                proof {
                    lemma_collected_fails(root@, state, filter, views, i + 1);
                }
                return Err(e);
            },
            Ok(None) => {},
            Ok(Some(entry)) => {
                let ghost added = entry@;
                insert_entry(&mut entries, entry, Ghost(came));
                proof {
                    came = came.push(added);
                }
            },
        }
        i = i + 1;
    }
    assert(views.take(n as int) =~= views);
    Ok(entries)
}

/// Where a requested file is looked for.
pub open spec fn candidate(root: Seq<ComponentView>, rel_path: Seq<char>) -> Result<
    Seq<ComponentView>,
    ErrorView,
> {
    match normalized(rel_path) {
        Ok(rel) => if rel.len() == 0 || hidden(rel) {
            Err(ErrorView::Forbidden)
        } else {
            Ok(root + rel)
        },
        Err(e) => Err(e),
    }
}

/// Where a requested file is looked for. A path without names, one with a
/// hidden name and one with `..` are refused.
pub fn download_candidate(root: &WorkspacePath, rel_path: &str) -> (r: Result<
    WorkspacePath,
    WorkspaceFileError,
>)
    ensures
        path_result(r) == candidate(root@, rel_path@),
{
    match normalize_rel_path(rel_path) {
        Ok(rel) => if rel.is_empty() || has_hidden_component(&rel) {
            Err(WorkspaceFileError::Forbidden)
        } else {
            Ok(root.join(&rel))
        },
        Err(e) => Err(e),
    }
}

/// The refusal that a failure of the file system leads to.
pub open spec fn refused(failure: FailureView) -> ErrorView {
    match failure {
        FailureView::NotFound => ErrorView::NotFound,
        FailureView::Other(e) => ErrorView::Io(e),
    }
}

/// The refusal that a failure of the file system leads to.
pub fn download_failure(failure: &FsFailure) -> (r: WorkspaceFileError)
    ensures
        r@ == refused(failure@),
{
    match failure {
        FsFailure::NotFound => WorkspaceFileError::NotFound,
        FsFailure::Other(e) => WorkspaceFileError::Io(e.as_str().to_owned()),
    }
}

/// What a requested file resolves to. `canonical` is what canonicalizing the
/// candidate gave, `metadata` what the file system says of that place.
pub open spec fn resolved(
    root: Seq<ComponentView>,
    state_dir: Option<Seq<ComponentView>>,
    rel_path: Seq<char>,
    canonical: Result<Seq<ComponentView>, FailureView>,
    metadata: Result<FileMetadata, FailureView>,
) -> Result<DownloadView, ErrorView> {
    match (candidate(root, rel_path), canonical, metadata) {
        (Err(e), _, _) => Err(e),
        (_, Err(failure), _) => Err(refused(failure)),
        (_, Ok(place), metadata) => if private_state(place, root, state_dir) {
            Err(ErrorView::Forbidden)
        } else {
            match metadata {
                Err(failure) => Err(refused(failure)),
                Ok(m) => if m.is_file {
                    Ok(
                        DownloadView {
                            path: place,
                            rel_path: rel_text(place.skip(root.len() as int)),
                            size_bytes: m.len,
                            mime_type: mime_type(normalized(rel_path)->Ok_0),
                        },
                    )
                } else {
                    Err(ErrorView::NotFound)
                },
            }
        },
    }
}

/// The value of a download result.
pub open spec fn download_result(r: Result<WorkspaceDownload, WorkspaceFileError>) -> Result<
    DownloadView,
    ErrorView,
> {
    match r {
        Ok(d) => Ok(d@),
        Err(e) => Err(e@),
    }
}

/// Resolves a workspace-relative path for download.
///
/// `root` is the canonical workspace root, `canonical` what canonicalizing
/// [`download_candidate`] gave, and `metadata` what the file system says of
/// that place; an answer to a question that does not come up is not read.
pub fn read_file_for_download(
    root: &WorkspacePath,
    state_dir: Option<&WorkspacePath>,
    rel_path: &str,
    canonical: &Result<WorkspacePath, FsFailure>,
    metadata: &Result<FileMetadata, FsFailure>,
) -> (r: Result<WorkspaceDownload, WorkspaceFileError>)
    ensures
        download_result(r) == resolved(
            root@,
            option_path(state_dir),
            rel_path@,
            answered_path(*canonical),
            answered_metadata(*metadata),
        ),
{
    let rel: WorkspacePath = match normalize_rel_path(rel_path) {
        Ok(rel) => rel,
        Err(e) => return Err(e),
    };
    if rel.is_empty() || has_hidden_component(&rel) {
        return Err(WorkspaceFileError::Forbidden);
    }
    let place: &WorkspacePath = match canonical {
        Ok(place) => place,
        Err(failure) => return Err(download_failure(failure)),
    };
    if is_private_state_path(place, root, state_dir) {
        return Err(WorkspaceFileError::Forbidden);
    }
    let m: &FileMetadata = match metadata {
        Ok(m) => m,
        Err(failure) => return Err(download_failure(failure)),
    };
    if !m.is_file {
        return Err(WorkspaceFileError::NotFound);
    }
    match place.strip_prefix(root) {
        Some(inside) => Ok(
            WorkspaceDownload {
                path: place.copied(),
                rel_path: rel_path_to_string(&inside),
                size_bytes: m.len,
                mime_type: mime_type_for_path(&rel).to_owned(),
            },
        ),
        None => Err(WorkspaceFileError::Forbidden),
    }
}

} // verus!
