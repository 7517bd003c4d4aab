//! Mappings from a source document to its published copy, the registry that
//! lists them, and the plan of file operations that publishes one mapping.
//!
//! Nothing here touches a file. Publishing a mapping yields a `Publication`:
//! the file operations to carry out, in order, by whoever owns the disk.

use vstd::prelude::*;
use crate::error::PublishError;
use crate::escapes::{normalize_escapes, normalized};
use crate::images::{embedded_names, image_dir_name, rewrite_image_links, target_image_dir_name,
    with_image_links};
use crate::paths::{join, joined};
use crate::settings::{Settings, SettingsView};
use crate::text::{chars_of, contains, contains_exec};
use crate::utils::{get_original_date, opt_chars, original_date};

verus! {

/// A mapping from a source document to the file it is published to.
#[derive(Debug, PartialEq, Eq)]
pub struct FilePair {
    /// The document in the vault.
    pub source: String,
    /// The published copy.
    pub target: String,
}

/// A mapping as plain text.
pub struct FilePairView {
    pub source: Seq<char>,
    pub target: Seq<char>,
}

impl View for FilePair {
    type V = FilePairView;

    open spec fn view(&self) -> FilePairView {
        FilePairView { source: self.source@, target: self.target@ }
    }
}

impl Clone for FilePair {
    fn clone(&self) -> (copy: FilePair)
        ensures
            copy@ == self@,
    {
        FilePair { source: self.source.clone(), target: self.target.clone() }
    }
}

impl Default for FilePair {
    fn default() -> (pair: FilePair)
        ensures
            pair@.source == Seq::<char>::empty(),
            pair@.target == Seq::<char>::empty(),
    {
        FilePair { source: String::new(), target: String::new() }
    }
}

/// The mappings of a sequence of pairs, in order.
pub open spec fn pair_views(pairs: Seq<FilePair>) -> Seq<FilePairView> {
    pairs.map_values(|p: FilePair| p@)
}

/// The registry: the mappings to publish, in the order in which they were
/// added.
#[derive(Debug, PartialEq, Eq)]
pub struct Config {
    pub files: Vec<FilePair>,
}

impl View for Config {
    type V = Seq<FilePairView>;

    open spec fn view(&self) -> Seq<FilePairView> {
        pair_views(self.files@)
    }
}

/// No two mappings of the registry have the same source.
pub open spec fn sources_unique(registry: Seq<FilePairView>) -> bool {
    forall|i: int, j: int|
        0 <= i < j < registry.len() ==> (#[trigger] registry[i]).source != (
        #[trigger] registry[j]).source
}

/// One file operation of a publication.
#[derive(Debug, PartialEq, Eq)]
pub enum FileAction {
    /// Replace what the file at `path` holds by `content`.
    Write { path: String, content: String },
    /// Create the directory `path`, and those above it, unless it is there.
    EnsureDir { path: String },
    /// Copy the file at `from` to `to`.
    Copy { from: String, to: String },
}

/// A file operation as plain text.
pub enum FileActionView {
    Write { path: Seq<char>, content: Seq<char> },
    EnsureDir { path: Seq<char> },
    Copy { from: Seq<char>, to: Seq<char> },
}

impl View for FileAction {
    type V = FileActionView;

    open spec fn view(&self) -> FileActionView {
        match self {
            FileAction::Write { path, content } => FileActionView::Write {
                path: path@,
                content: content@,
            },
            FileAction::EnsureDir { path } => FileActionView::EnsureDir { path: path@ },
            FileAction::Copy { from, to } => FileActionView::Copy { from: from@, to: to@ },
        }
    }
}

/// What publishing one mapping does to the disk.
///
/// The actions are carried out in order, each only after the one before it
/// succeeded. Where `failure` is set, the publication then ends with that
/// error; what was done before it stays done.
#[derive(Debug, PartialEq, Eq)]
pub struct Publication {
    pub actions: Vec<FileAction>,
    pub failure: Option<PublishError>,
}

/// A publication as plain text.
pub struct PublicationView {
    pub actions: Seq<FileActionView>,
    pub failure: Option<PublishError>,
}

impl View for Publication {
    type V = PublicationView;

    open spec fn view(&self) -> PublicationView {
        PublicationView {
            actions: self.actions@.map_values(|a: FileAction| a@),
            failure: self.failure,
        }
    }
}

/// What a target is, as far as publishing goes.
#[derive(Debug, Clone, Copy, PartialEq, Eq, Structural)]
pub enum TargetKind {
    /// A document of the site: its image embeds become links, and its images
    /// are brought along.
    Published,
    /// A plain copy of the source.
    Mirror,
}

/// A target is published on the site exactly if its path holds the marker.
pub open spec fn target_kind(target: Seq<char>, marker: Seq<char>) -> TargetKind {
    if contains(target, marker) {
        TargetKind::Published
    } else {
        TargetKind::Mirror
    }
}

/// The copy of one embedded image from the vault's image directory into
/// `dir`.
pub open spec fn image_copy(source_image_dir: Seq<char>, dir: Seq<char>, name: Seq<char>)
    -> FileActionView {
    FileActionView::Copy { from: joined(source_image_dir, name), to: joined(dir, name) }
}

/// The part of a publication that deals with the target of a published
/// document, whose text after escape normalization is `content`.
///
/// The target gets the text with its embeds turned into links. Then the
/// image directory of the document is made sure of, and every embedded image
/// is copied into it, in the order of the embeds. Where the target's name
/// yields no directory name, nothing is done and the publication fails.
pub open spec fn image_publication(
    pair: FilePairView,
    date: Seq<char>,
    content: Seq<char>,
    settings: SettingsView,
) -> PublicationView {
    match image_dir_name(pair.target, date) {
        None => PublicationView {
            actions: seq![],
            failure: Some(PublishError::InvalidTargetFilename),
        },
        Some(dir_name) => {
            let dir = joined(settings.target_image_dir, dir_name);
            PublicationView {
                actions: seq![
                    FileActionView::Write {
                        path: pair.target,
                        content: with_image_links(content, dir_name),
                    },
                    FileActionView::EnsureDir { path: dir },
                ] + embedded_names(content).map_values(
                    |name: Seq<char>| image_copy(settings.source_image_dir, dir, name),
                ),
                failure: None,
            }
        },
    }
}

/// The publication of a mapping whose source holds `content` and whose
/// source file was created on `created`, where that is known.
///
/// Without a date nothing is done. Otherwise the source is first rewritten
/// with its escapes normalized. A plain copy then gets the same text; a
/// published document gets what `image_publication` says.
pub open spec fn publication(
    pair: FilePairView,
    content: Seq<char>,
    created: Option<Seq<char>>,
    settings: SettingsView,
) -> PublicationView {
    match original_date(content, created) {
        None => PublicationView {
            actions: seq![],
            failure: Some(PublishError::CreationDateUnavailable),
        },
        Some(date) => {
            let text = normalized(content);
            let heal = FileActionView::Write { path: pair.source, content: text };
            match target_kind(pair.target, settings.published_marker) {
                TargetKind::Mirror => PublicationView {
                    actions: seq![heal, FileActionView::Write { path: pair.target, content: text }],
                    failure: None,
                },
                TargetKind::Published => {
                    let rest = image_publication(pair, date, text, settings);
                    PublicationView { actions: seq![heal] + rest.actions, failure: rest.failure }
                },
            }
        },
    }
}

/// The publication of a document of the site whose target yields no image
/// directory, as a file name without a hyphen does: the source is rewritten
/// with its escapes normalized, nothing else is done, and the publication
/// ends with `InvalidTargetFilename`.
pub proof fn lemma_target_without_slug(
    pair: FilePairView,
    content: Seq<char>,
    created: Option<Seq<char>>,
    settings: SettingsView,
)
    requires
        original_date(content, created) matches Some(date) && image_dir_name(pair.target, date)
            is None,
        target_kind(pair.target, settings.published_marker) == TargetKind::Published,
    ensures
        publication(pair, content, created, settings) == (PublicationView {
            actions: seq![FileActionView::Write { path: pair.source, content: normalized(content) }],
            failure: Some(PublishError::InvalidTargetFilename),
        }),
{
    let date = original_date(content, created)->Some_0;
    let rest = image_publication(pair, date, normalized(content), settings);
    let heal = FileActionView::Write { path: pair.source, content: normalized(content) };
    assert(seq![heal] + rest.actions =~= seq![heal]);
}

/// Whether `target` is a document of the site or a plain copy.
pub fn classify_target(target: &str, settings: &Settings) -> (kind: TargetKind)
    ensures
        kind == target_kind(target@, settings@.published_marker),
{
    let path = chars_of(target);
    let marker = chars_of(settings.published_marker.as_str());
    if contains_exec(&path, &marker) {
        TargetKind::Published
    } else {
        TargetKind::Mirror
    }
}

impl FilePair {
    /// Plans the publication of this mapping from what was read on disk: the
    /// text of the source and, where it is known, the day on which the source
    /// file was created.
    pub fn update_file(&self, content: &str, created: Option<&str>, settings: &Settings) -> (plan:
        Publication)
        ensures
            plan@ == publication(self@, content@, opt_chars(created), settings@),
            original_date(content@, opt_chars(created)) is Some ==> plan@.actions.len() > 0
                && plan@.actions[0] == (FileActionView::Write {
                path: self@.source,
                content: normalized(content@),
            }),
            original_date(content@, opt_chars(created)) is Some && target_kind(
                self@.target,
                settings@.published_marker,
            ) == TargetKind::Mirror ==> plan@.failure is None && plan@.actions == seq![
                FileActionView::Write { path: self@.source, content: normalized(content@) },
                FileActionView::Write { path: self@.target, content: normalized(content@) },
            ],
    {
        let date = match get_original_date(content, created) {
            Ok(date) => date,
            Err(e) => {
                let plan = Publication { actions: Vec::new(), failure: Some(e) };
                assert(plan@.actions =~= seq![]);
                return plan;
            },
        };
        let text = normalize_escapes(content);
        let heal = FileAction::Write { path: self.source.clone(), content: text.clone() };
        match classify_target(self.target.as_str(), settings) {
            TargetKind::Mirror => {
                let copy = FileAction::Write { path: self.target.clone(), content: text };
                let mut actions: Vec<FileAction> = Vec::new();
                actions.push(heal);
                actions.push(copy);
                let plan = Publication { actions, failure: None };
                assert(plan@.actions =~= seq![heal@, copy@]);
                plan
            },
            TargetKind::Published => {
                let rest = self.update_images(date.as_str(), text.as_str(), settings);
                let mut actions: Vec<FileAction> = Vec::new();
                actions.push(heal);
                let mut tail = rest.actions;
                actions.append(&mut tail);
                let plan = Publication { actions, failure: rest.failure };
                assert(plan@.actions =~= seq![heal@] + rest@.actions);
                plan
            },
        }
    }

    /// Plans the target's side of the publication of a published document:
    /// the target with its embeds turned into links, the image directory,
    /// and one copy for each embedded image.
    ///
    /// `content` is the text of the document after escape normalization.
    pub fn update_images(&self, original_date: &str, content: &str, settings: &Settings) -> (plan:
        Publication)
        ensures
            plan@ == image_publication(self@, original_date@, content@, settings@),
    {
        let dir_name = match target_image_dir_name(self.target.as_str(), original_date) {
            Some(name) => name,
            None => {
                let plan = Publication {
                    actions: Vec::new(),
                    failure: Some(PublishError::InvalidTargetFilename),
                };
                assert(plan@.actions =~= seq![]);
                return plan;
            },
        };
        let (text, names) = rewrite_image_links(content, dir_name.as_str());
        let dir = join(settings.target_image_dir.as_str(), dir_name.as_str());
        let mut actions: Vec<FileAction> = Vec::new();
        actions.push(FileAction::Write { path: self.target.clone(), content: text });
        actions.push(FileAction::EnsureDir { path: dir.clone() });
        let ghost head = actions@.map_values(|a: FileAction| a@);
        let ghost copy = |name: Seq<char>| image_copy(settings@.source_image_dir, dir@, name);
        let mut i: usize = 0;
        while i < names.len()
            invariant
                i <= names.len(),
                names.deep_view() == embedded_names(content@),
                copy == |name: Seq<char>| image_copy(settings@.source_image_dir, dir@, name),
                actions@.map_values(|a: FileAction| a@) == head + names.deep_view().take(
                    i as int,
                ).map_values(copy),
            decreases names.len() - i,
        {
            let from = join(settings.source_image_dir.as_str(), names[i].as_str());
            let to = join(dir.as_str(), names[i].as_str());
            let ghost before = actions@.map_values(|a: FileAction| a@);
            let action = FileAction::Copy { from, to };
            actions.push(action);
            assert(actions@.map_values(|a: FileAction| a@) =~= before.push(action@));
            assert(names.deep_view().take(i + 1).map_values(copy) =~= names.deep_view().take(
                i as int,
            ).map_values(copy).push(action@));
            i += 1;
        }
        assert(names.deep_view().take(names.len() as int) =~= names.deep_view());
        let plan = Publication { actions, failure: None };
        assert(head =~= seq![
            FileActionView::Write {
                path: self@.target,
                content: with_image_links(content@, dir_name@),
            },
            FileActionView::EnsureDir { path: dir@ },
        ]);
        plan
    }
}

} // verus!
