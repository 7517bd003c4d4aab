//! The three commands and what each decides: publishing every mapping of
//! the registry, registering a mapping, and deregistering mappings by file
//! name.
//!
//! A command never reads or writes the registry file itself. It is handed
//! the registry as it was loaded and says what the registry becomes; saving
//! it after a change that succeeded is left to the caller.

use vstd::prelude::*;
use vstd::seq_lib::group_filter_ensures;
use crate::error::PublishError;
use crate::filepair::{pair_views, sources_unique, Config, FilePair, FilePairView};
use crate::paths::{after_last, file_name, final_component, text_after_last};
use crate::settings::{Settings, SettingsView};
use crate::text::{chars_of, push_all, string_of};
use crate::utils::{get_original_date, original_date};

verus! {

/// A command of the tool.
#[derive(Debug, PartialEq, Eq)]
pub enum Cli {
    /// Publish every mapping of the registry.
    Update(ConfigPath),
    /// Register a mapping.
    Add(AddRemove),
    /// Deregister the mappings of a source file name.
    Remove(AddRemove),
}

/// The registry file to use, where it is not the usual one.
#[derive(Debug, PartialEq, Eq)]
pub struct ConfigPath {
    pub config: Option<String>,
}

/// What to register or deregister.
#[derive(Debug, PartialEq, Eq)]
pub struct AddRemove {
    /// The source document, as the command names it.
    pub source_path: String,
    /// The target, as the command names it. Without one the document goes
    /// to the site, under a name made of its date and its file name.
    pub target_path: Option<String>,
    /// The registry file to use, where it is not the usual one.
    pub config: Option<String>,
    /// Whether a target that is made up lies in the private directory.
    pub private: bool,
    /// Taken from the command line and kept; no rule reads it. Whether images
    /// are brought along is decided by the target alone.
    pub update_images: bool,
}

/// Where the target of a new mapping comes from.
#[derive(Debug, PartialEq, Eq)]
pub enum NewTarget {
    /// The command names the target; this is its resolved path.
    Given(String),
    /// The command names none. The target is made from the source document:
    /// its text and, where it is known, the day on which its file was
    /// created.
    FromDocument { content: String, created: Option<String> },
}

/// The origin of a new target as plain text.
pub enum NewTargetView {
    Given(Seq<char>),
    FromDocument { content: Seq<char>, created: Option<Seq<char>> },
}

impl View for NewTarget {
    type V = NewTargetView;

    open spec fn view(&self) -> NewTargetView {
        match self {
            NewTarget::Given(path) => NewTargetView::Given(path@),
            NewTarget::FromDocument { content, created } => NewTargetView::FromDocument {
                content: content@,
                created: match created {
                    Some(day) => Some(day@),
                    None => None,
                },
            },
        }
    }
}

/// What an add command found on disk at its source path: the resolved path
/// of the source, and where the target comes from.
#[derive(Debug, PartialEq, Eq)]
pub struct FoundSource {
    pub path: String,
    pub target: NewTarget,
}

/// A found source as plain text.
pub struct FoundSourceView {
    pub path: Seq<char>,
    pub target: NewTargetView,
}

impl View for FoundSource {
    type V = FoundSourceView;

    open spec fn view(&self) -> FoundSourceView {
        FoundSourceView { path: self.path@, target: self.target@ }
    }
}

/// What a run over the registry does next.
#[derive(Debug, PartialEq, Eq)]
pub enum BatchStep {
    /// Load the registry from this file.
    Load(String),
    /// Publish the mapping at this index of the registry.
    Publish(usize),
    /// Every mapping was published.
    Finished,
    /// A publication failed; the mappings after it are left alone.
    Aborted,
}

/// A step of a run as plain values.
pub enum BatchStepView {
    Load(Seq<char>),
    Publish(int),
    Finished,
    Aborted,
}

impl View for BatchStep {
    type V = BatchStepView;

    open spec fn view(&self) -> BatchStepView {
        match self {
            BatchStep::Load(path) => BatchStepView::Load(path@),
            BatchStep::Publish(index) => BatchStepView::Publish(*index as int),
            BatchStep::Finished => BatchStepView::Finished,
            BatchStep::Aborted => BatchStepView::Aborted,
        }
    }
}

/// The characters of an optional string.
pub open spec fn opt_string_chars(s: Option<String>) -> Option<Seq<char>> {
    match s {
        Some(s) => Some(s@),
        None => None,
    }
}

/// The registry file of a command: the one it names, else the usual one.
pub open spec fn config_file_of(named: Option<Seq<char>>, settings: SettingsView) -> Seq<char> {
    match named {
        Some(path) => path,
        None => settings.config_file,
    }
}

/// The next step of a run over the registry.
///
/// The registry is loaded first. Its mappings are then published one after
/// the other, in the order of the registry: after `attempted` of them the
/// next is the one at that index. The run is over when none is left, or as
/// soon as a publication has failed.
pub open spec fn batch_step(
    named: Option<Seq<char>>,
    settings: SettingsView,
    registry: Option<Seq<FilePairView>>,
    attempted: int,
    failed: bool,
) -> BatchStepView {
    match registry {
        None => BatchStepView::Load(config_file_of(named, settings)),
        Some(mappings) => if failed {
            BatchStepView::Aborted
        } else if attempted < mappings.len() {
            BatchStepView::Publish(attempted)
        } else {
            BatchStepView::Finished
        },
    }
}

/// Some mapping of the registry has this source.
pub open spec fn registers(registry: Seq<FilePairView>, source: Seq<char>) -> bool {
    exists|i: int| 0 <= i < registry.len() && (#[trigger] registry[i]).source == source
}

/// The target that is made up for a source: in the private or the public
/// directory, the date, a hyphen, and the file name of the source, which is
/// all that follows its last separator.
pub open spec fn default_target(
    source: Seq<char>,
    date: Seq<char>,
    private: bool,
    settings: SettingsView,
) -> Seq<char> {
    let dir = if private {
        settings.private_target_dir
    } else {
        settings.public_target_dir
    };
    dir + seq!['/'] + date + seq!['-'] + after_last(source, '/')
}

/// The target of a new mapping, or `None` where it has to be made from a
/// document whose date cannot be told.
pub open spec fn new_target(
    source: Seq<char>,
    target: NewTargetView,
    private: bool,
    settings: SettingsView,
) -> Option<Seq<char>> {
    match target {
        NewTargetView::Given(path) => Some(path),
        NewTargetView::FromDocument { content, created } => match original_date(content, created) {
            Some(date) => Some(default_target(source, date, private, settings)),
            None => None,
        },
    }
}

/// The registry after a mapping for the source that was found is added, or
/// why it is not.
///
/// A source that does not exist is refused, and so is one that is registered
/// already, whatever the target. The new mapping goes to the end.
pub open spec fn added(
    registry: Seq<FilePairView>,
    found: Option<FoundSourceView>,
    private: bool,
    settings: SettingsView,
) -> Result<Seq<FilePairView>, PublishError> {
    match found {
        None => Err(PublishError::SourceMissing),
        Some(source) => if registers(registry, source.path) {
            Err(PublishError::AlreadyRegistered)
        } else {
            match new_target(source.path, source.target, private, settings) {
                Some(path) => Ok(registry.push(FilePairView { source: source.path, target: path })),
                None => Err(PublishError::CreationDateUnavailable),
            }
        },
    }
}

/// What was found of an add command, as plain text.
pub open spec fn opt_found(found: Option<&FoundSource>) -> Option<FoundSourceView> {
    match found {
        Some(source) => Some(source@),
        None => None,
    }
}

/// The source of the mapping has the file name `name`.
pub open spec fn has_file_name(pair: FilePairView, name: Seq<char>) -> bool {
    final_component(pair.source) == Some(name)
}

/// Some mapping of the registry has a source with the file name `name`.
pub open spec fn registers_name(registry: Seq<FilePairView>, name: Seq<char>) -> bool {
    exists|i: int| 0 <= i < registry.len() && has_file_name(#[trigger] registry[i], name)
}

/// The mappings whose source has another file name than `name`, or none, in
/// their order.
pub open spec fn without_name(registry: Seq<FilePairView>, name: Seq<char>) -> Seq<FilePairView> {
    registry.filter(|pair: FilePairView| !has_file_name(pair, name))
}

/// The registry after the mappings with the file name of `path` are removed,
/// or why nothing is removed.
///
/// Only the file names are compared, not the directories: every mapping
/// whose source has the file name of `path` goes.
pub open spec fn removed(registry: Seq<FilePairView>, path: Seq<char>) -> Result<
    Seq<FilePairView>,
    PublishError,
> {
    match final_component(path) {
        None => Err(PublishError::InvalidSourcePath),
        Some(name) => if registers_name(registry, name) {
            Ok(without_name(registry, name))
        } else {
            Err(PublishError::NotRegistered)
        },
    }
}

/// Once a source is registered, registering it again is refused, whatever
/// target the second command names.
pub proof fn lemma_second_add_is_refused(
    registry: Seq<FilePairView>,
    first: FoundSourceView,
    first_private: bool,
    second: FoundSourceView,
    second_private: bool,
    settings: SettingsView,
)
    requires
        added(registry, Some(first), first_private, settings) is Ok,
        second.path == first.path,
    ensures
        added(
            added(registry, Some(first), first_private, settings)->Ok_0,
            Some(second),
            second_private,
            settings,
        ) == Err::<Seq<FilePairView>, PublishError>(PublishError::AlreadyRegistered),
{
    let after = added(registry, Some(first), first_private, settings)->Ok_0;
    assert(after[registry.len() as int].source == first.path);
}

/// Adding a mapping keeps the sources of the registry distinct.
pub proof fn lemma_add_keeps_sources_unique(
    registry: Seq<FilePairView>,
    found: Option<FoundSourceView>,
    private: bool,
    settings: SettingsView,
)
    requires
        sources_unique(registry),
        added(registry, found, private, settings) is Ok,
    ensures
        sources_unique(added(registry, found, private, settings)->Ok_0),
{
    let after = added(registry, found, private, settings)->Ok_0;
    let source = found->Some_0.path;
    assert forall|i: int, j: int| 0 <= i < j < after.len() implies (#[trigger] after[i]).source
        != (#[trigger] after[j]).source by {
        if j == registry.len() {
            assert(registry[i].source != source);
        } else {
            assert(registry[i].source != registry[j].source);
        }
    }
}

/// Deregistering a file name that no source of the registry has is refused.
pub proof fn lemma_remove_unknown_name(registry: Seq<FilePairView>, path: Seq<char>)
    requires
        final_component(path) is Some,
        forall|i: int|
            0 <= i < registry.len() ==> !has_file_name(
                #[trigger] registry[i],
                final_component(path)->Some_0,
            ),
    ensures
        removed(registry, path) == Err::<Seq<FilePairView>, PublishError>(
            PublishError::NotRegistered,
        ),
{
}

/// The registry file of a command: the one it names, else the usual one.
pub fn chosen_config_file(named: &Option<String>, settings: &Settings) -> (path: String)
    ensures
        path@ == config_file_of(opt_string_chars(*named), settings@),
{
    match named {
        Some(path) => path.clone(),
        None => settings.config_file.clone(),
    }
}

/// The target that is made up for `source`, a document of date `date`.
pub fn make_default_target(source: &str, date: &str, private: bool, settings: &Settings) -> (path:
    String)
    ensures
        path@ == default_target(source@, date@, private, settings@),
{
    let mut out = if private {
        chars_of(settings.private_target_dir.as_str())
    } else {
        chars_of(settings.public_target_dir.as_str())
    };
    out.push('/');
    let date_chars = chars_of(date);
    push_all(&mut out, &date_chars);
    out.push('-');
    let name = text_after_last(source, '/');
    let name_chars = chars_of(name.as_str());
    push_all(&mut out, &name_chars);
    string_of(&out)
}

impl ConfigPath {
    /// The registry file that this command works on.
    pub fn config_file(&self, settings: &Settings) -> (path: String)
        ensures
            path@ == config_file_of(opt_string_chars(self.config), settings@),
    {
        chosen_config_file(&self.config, settings)
    }

    /// Decides the next step of publishing every mapping of the registry.
    ///
    /// `registry` is the registry once it has been loaded, `attempted` the
    /// number of its mappings that were handed out for publication so far,
    /// and `failed` whether the last of them failed.
    pub fn update_files(
        &self,
        settings: &Settings,
        registry: Option<&Config>,
        attempted: usize,
        failed: bool,
    ) -> (step: BatchStep)
        ensures
            step@ == batch_step(
                opt_string_chars(self.config),
                settings@,
                match registry {
                    Some(r) => Some(r@),
                    None => None,
                },
                attempted as int,
                failed,
            ),
    {
        match registry {
            None => BatchStep::Load(self.config_file(settings)),
            Some(r) => {
                if failed {
                    BatchStep::Aborted
                } else if attempted < r.files.len() {
                    BatchStep::Publish(attempted)
                } else {
                    BatchStep::Finished
                }
            },
        }
    }
}

impl Config {
    /// Whether some mapping has this source.
    pub fn has_source(&self, source: &str) -> (found: bool)
        ensures
            found == registers(self@, source@),
    {
        let wanted = source.to_owned();
        let mut i: usize = 0;
        while i < self.files.len()
            invariant
                i <= self.files.len(),
                wanted@ == source@,
                forall|j: int| 0 <= j < i ==> (#[trigger] self@[j]).source != source@,
            decreases self.files.len() - i,
        {
            if self.files[i].source == wanted {
                assert(self@[i as int].source == source@);
                return true;
            }
            i += 1;
        }
        false
    }
}

impl AddRemove {
    /// The registry file that this command works on.
    pub fn config_file(&self, settings: &Settings) -> (path: String)
        ensures
            path@ == config_file_of(opt_string_chars(self.config), settings@),
    {
        chosen_config_file(&self.config, settings)
    }

    /// Registers a mapping for the source of this command.
    ///
    /// `found` is what stands on disk at the source path: nothing, or a file
    /// with its resolved path and the origin of its target. On success the
    /// mapping stands at the end of the registry, which is then to be saved.
    /// A refusal leaves the registry as it was.
    pub fn add_file(
        &self,
        registry: &mut Config,
        found: Option<&FoundSource>,
        settings: &Settings,
    ) -> (done: Result<(), PublishError>)
        ensures
            match done {
                Ok(()) => added(old(registry)@, opt_found(found), self.private, settings@) == Ok::<
                    Seq<FilePairView>,
                    PublishError,
                >(final(registry)@),
                Err(e) => added(old(registry)@, opt_found(found), self.private, settings@) == Err::<
                    Seq<FilePairView>,
                    PublishError,
                >(e) && final(registry)@ == old(registry)@,
            },
            found matches Some(source) && registers(old(registry)@, source@.path) ==> done == Err::<
                (),
                PublishError,
            >(PublishError::AlreadyRegistered),
            sources_unique(old(registry)@) ==> sources_unique(final(registry)@),
    {
        let source = match found {
            Some(source) => source,
            None => {
                return Err(PublishError::SourceMissing);
            },
        };
        if registry.has_source(source.path.as_str()) {
            return Err(PublishError::AlreadyRegistered);
        }
        let path = match &source.target {
            NewTarget::Given(path) => path.clone(),
            NewTarget::FromDocument { content, created } => {
                let day = match created {
                    Some(day) => Some(day.as_str()),
                    None => None,
                };
                match get_original_date(content.as_str(), day) {
                    Ok(date) => make_default_target(
                        source.path.as_str(),
                        date.as_str(),
                        self.private,
                        settings,
                    ),
                    Err(e) => {
                        return Err(e);
                    },
                }
            },
        };
        let pair = FilePair { source: source.path.clone(), target: path };
        proof {
            if sources_unique(registry@) {
                lemma_add_keeps_sources_unique(
                    registry@,
                    opt_found(found),
                    self.private,
                    settings@,
                );
            }
            assert(pair_views(registry.files@.push(pair)) =~= registry@.push(pair@));
        }
        registry.files.push(pair);
        Ok(())
    }

    /// Deregisters every mapping whose source has the file name of this
    /// command's source path.
    ///
    /// On success the registry is without them and is then to be saved. A
    /// refusal leaves the registry as it was.
    pub fn remove_file(&self, registry: &mut Config) -> (done: Result<(), PublishError>)
        ensures
            match done {
                Ok(()) => removed(old(registry)@, self.source_path@) == Ok::<
                    Seq<FilePairView>,
                    PublishError,
                >(final(registry)@),
                Err(e) => removed(old(registry)@, self.source_path@) == Err::<
                    Seq<FilePairView>,
                    PublishError,
                >(e) && final(registry)@ == old(registry)@,
            },
            done is Ok ==> final(registry)@.len() < old(registry)@.len(),
            sources_unique(old(registry)@) ==> sources_unique(final(registry)@),
    {
        let name = match file_name(self.source_path.as_str()) {
            Some(name) => name,
            None => {
                return Err(PublishError::InvalidSourcePath);
            },
        };
        let ghost keep = |pair: FilePairView| !has_file_name(pair, name@);
        let mut kept: Vec<FilePair> = Vec::new();
        let mut found = false;
        let mut i: usize = 0;
        proof {
            reveal(Seq::filter);
        }
        while i < registry.files.len()
            invariant
                i <= registry.files.len(),
                *registry == *old(registry),
                keep == |pair: FilePairView| !has_file_name(pair, name@),
                pair_views(kept@) == registry@.take(i as int).filter(keep),
                found == registers_name(registry@.take(i as int), name@),
                kept@.len() <= i,
                found ==> kept@.len() < i,
            decreases registry.files.len() - i,
        {
            let pair = &registry.files[i];
            let same = match file_name(pair.source.as_str()) {
                Some(n) => n == name,
                None => false,
            };
            let ghost before = registry@.take(i as int);
            let ghost after = registry@.take(i + 1);
            proof {
                assert(after =~= before.push(pair@));
                before.lemma_filter_push(pair@, keep);
                if same {
                    assert(has_file_name(after[i as int], name@));
                } else if registers_name(after, name@) {
                    let k = choose|k: int|
                        0 <= k < after.len() && has_file_name(#[trigger] after[k], name@);
                    assert(has_file_name(before[k], name@));
                }
                if found {
                    let k = choose|k: int|
                        0 <= k < before.len() && has_file_name(#[trigger] before[k], name@);
                    assert(has_file_name(after[k], name@));
                }
            }
            if same {
                found = true;
            } else {
                kept.push(pair.clone());
            }
            i += 1;
        }
        assert(registry@.take(registry.files.len() as int) =~= registry@);
        if !found {
            return Err(PublishError::NotRegistered);
        }
        proof {
            if sources_unique(registry@) {
                lemma_filter_keeps_sources_unique(registry@, keep);
            }
        }
        registry.files = kept;
        Ok(())
    }
}

/// Leaving mappings out keeps the sources of those that stay distinct.
proof fn lemma_filter_keeps_sources_unique(
    registry: Seq<FilePairView>,
    keep: spec_fn(FilePairView) -> bool,
)
    requires
        sources_unique(registry),
    ensures
        sources_unique(registry.filter(keep)),
    decreases registry.len(),
{
    reveal(Seq::filter);
    if registry.len() > 0 {
        let init = registry.drop_last();
        let last = registry.last();
        assert forall|i: int, j: int| 0 <= i < j < init.len() implies (#[trigger] init[i]).source
            != (#[trigger] init[j]).source by {
            assert(registry[i].source != registry[j].source);
        }
        lemma_filter_keeps_sources_unique(init, keep);
        let rest = init.filter(keep);
        if keep(last) {
            let all = rest.push(last);
            assert forall|i: int, j: int| 0 <= i < j < all.len() implies (#[trigger] all[i]).source
                != (#[trigger] all[j]).source by {
                if j == rest.len() {
                    broadcast use group_filter_ensures;

                    assert(rest.contains(rest[i]));
                    init.lemma_filter_contains_rev(keep, rest[i]);
                    let k = choose|k: int| 0 <= k < init.len() && init[k] == rest[i];
                    assert(registry[k].source != registry[registry.len() - 1].source);
                } else {
                    assert(rest[i].source != rest[j].source);
                }
            }
        }
    }
}

} // verus!
