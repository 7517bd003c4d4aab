//! The places on disk that the tool works with. They are handed in by the
//! caller, so that the same rules run against any directory tree.

use vstd::prelude::*;

verus! {

/// Where the registry, the published documents and the images live, and how
/// a published document is told from a plain copy.
#[derive(Debug, PartialEq, Eq)]
pub struct Settings {
    /// The registry file that is used where a command names no other.
    pub config_file: String,
    /// The directory of the documents that are published openly.
    pub public_target_dir: String,
    /// The directory of the documents that are published privately.
    pub private_target_dir: String,
    /// The directory in which the vault keeps its images.
    pub source_image_dir: String,
    /// The directory below which the site keeps one image directory for each
    /// document.
    pub target_image_dir: String,
    /// The piece of a path by which a target is known to be published on the
    /// site, such as `/blog/`. A target without it is a plain copy.
    pub published_marker: String,
}

/// The settings as plain text.
pub struct SettingsView {
    pub config_file: Seq<char>,
    pub public_target_dir: Seq<char>,
    pub private_target_dir: Seq<char>,
    pub source_image_dir: Seq<char>,
    pub target_image_dir: Seq<char>,
    pub published_marker: Seq<char>,
}

impl View for Settings {
    type V = SettingsView;

    open spec fn view(&self) -> SettingsView {
        SettingsView {
            config_file: self.config_file@,
            public_target_dir: self.public_target_dir@,
            private_target_dir: self.private_target_dir@,
            source_image_dir: self.source_image_dir@,
            target_image_dir: self.target_image_dir@,
            published_marker: self.published_marker@,
        }
    }
}

} // verus!
