use tk_blog_publish::cli::{
    make_default_target, AddRemove, BatchStep, ConfigPath, FoundSource, NewTarget,
};
use tk_blog_publish::error::PublishError;
use tk_blog_publish::filepair::{Config, FilePair};
use tk_blog_publish::settings::Settings;

fn settings() -> Settings {
    Settings {
        config_file: "/etc/publish/config.toml".to_string(),
        public_target_dir: "/site/content/posts".to_string(),
        private_target_dir: "/site/content/private".to_string(),
        source_image_dir: "/vault/media/image".to_string(),
        target_image_dir: "/site/static/photos".to_string(),
        published_marker: "/posts/".to_string(),
    }
}

fn pair(source: &str, target: &str) -> FilePair {
    FilePair { source: source.to_string(), target: target.to_string() }
}

fn command(source: &str) -> AddRemove {
    AddRemove {
        source_path: source.to_string(),
        target_path: None,
        config: None,
        private: false,
        update_images: false,
    }
}

fn given(source: &str, target: &str) -> FoundSource {
    FoundSource { path: source.to_string(), target: NewTarget::Given(target.to_string()) }
}

fn document(source: &str, content: &str, created: Option<&str>) -> FoundSource {
    FoundSource {
        path: source.to_string(),
        target: NewTarget::FromDocument {
            content: content.to_string(),
            created: created.map(|d| d.to_string()),
        },
    }
}

#[test]
fn add_appends_the_mapping() {
    let mut registry = Config { files: vec![pair("/vault/a.md", "/site/a.md")] };
    let done = command("b.md").add_file(&mut registry, Some(&given("/vault/b.md", "/site/b.md")), &settings());
    assert_eq!(done, Ok(()));
    assert_eq!(
        registry,
        Config { files: vec![pair("/vault/a.md", "/site/a.md"), pair("/vault/b.md", "/site/b.md")] }
    );
}

#[test]
fn add_to_an_empty_registry() {
    let mut registry = Config { files: vec![] };
    let done = command("a.md").add_file(&mut registry, Some(&given("/vault/a.md", "/site/a.md")), &settings());
    assert_eq!(done, Ok(()));
    assert_eq!(registry, Config { files: vec![pair("/vault/a.md", "/site/a.md")] });
}

#[test]
fn second_add_of_a_source_is_refused() {
    let mut registry = Config { files: vec![] };
    let args = command("a.md");
    assert_eq!(args.add_file(&mut registry, Some(&given("/vault/a.md", "/site/a.md")), &settings()), Ok(()));
    let before = Config { files: registry.files.clone() };
    assert_eq!(
        args.add_file(&mut registry, Some(&given("/vault/a.md", "/site/a.md")), &settings()),
        Err(PublishError::AlreadyRegistered)
    );
    assert_eq!(registry, before);
    assert_eq!(
        args.add_file(&mut registry, Some(&given("/vault/a.md", "/elsewhere/a.md")), &settings()),
        Err(PublishError::AlreadyRegistered)
    );
    assert_eq!(registry, before);
    assert_eq!(
        args.add_file(&mut registry, Some(&document("/vault/a.md", "no date", None)), &settings()),
        Err(PublishError::AlreadyRegistered)
    );
    assert_eq!(registry, before);
}

#[test]
fn missing_source_is_refused() {
    let mut registry = Config { files: vec![pair("/vault/a.md", "/site/a.md")] };
    assert_eq!(command("b.md").add_file(&mut registry, None, &settings()), Err(PublishError::SourceMissing));
    assert_eq!(registry, Config { files: vec![pair("/vault/a.md", "/site/a.md")] });
    assert_eq!(command("a.md").add_file(&mut registry, None, &settings()), Err(PublishError::SourceMissing));
    assert_eq!(registry, Config { files: vec![pair("/vault/a.md", "/site/a.md")] });
}

#[test]
fn sources_are_compared_by_their_whole_path() {
    let mut registry = Config { files: vec![pair("/vault/a.md", "/site/a.md")] };
    let args = command("a.md");
    assert_eq!(args.add_file(&mut registry, Some(&given("/vault/sub/a.md", "/site/a2.md")), &settings()), Ok(()));
    assert_eq!(args.add_file(&mut registry, Some(&given("/vault/a.m", "/site/a3.md")), &settings()), Ok(()));
    assert_eq!(args.add_file(&mut registry, Some(&given("/vault/a.mdx", "/site/a4.md")), &settings()), Ok(()));
    assert_eq!(registry.files.len(), 4);
}

#[test]
fn targets_may_repeat() {
    let mut registry = Config { files: vec![pair("/vault/a.md", "/site/x.md")] };
    let done = command("b.md").add_file(&mut registry, Some(&given("/vault/b.md", "/site/x.md")), &settings());
    assert_eq!(done, Ok(()));
    assert_eq!(registry.files.len(), 2);
}

#[test]
fn default_target_is_made_of_date_and_file_name() {
    let mut registry = Config { files: vec![] };
    let content = "date: 2023-05-01\nbody";
    let done = command("note.md").add_file(&mut registry, Some(&document("/vault/note.md", content, None)), &settings());
    assert_eq!(done, Ok(()));
    assert_eq!(
        registry,
        Config { files: vec![pair("/vault/note.md", "/site/content/posts/2023-05-01-note.md")] }
    );
}

#[test]
fn private_flag_chooses_the_private_directory() {
    let mut registry = Config { files: vec![] };
    let mut args = command("note.md");
    args.private = true;
    let done = args.add_file(&mut registry, Some(&document("/vault/note.md", "text", Some("2020-02-29"))), &settings());
    assert_eq!(done, Ok(()));
    assert_eq!(
        registry,
        Config { files: vec![pair("/vault/note.md", "/site/content/private/2020-02-29-note.md")] }
    );
}

#[test]
fn private_flag_leaves_a_given_target_alone() {
    let mut registry = Config { files: vec![] };
    let mut args = command("note.md");
    args.private = true;
    let done = args.add_file(&mut registry, Some(&given("/vault/note.md", "/site/x.md")), &settings());
    assert_eq!(done, Ok(()));
    assert_eq!(registry, Config { files: vec![pair("/vault/note.md", "/site/x.md")] });
}

#[test]
fn default_target_needs_a_date() {
    let mut registry = Config { files: vec![pair("/vault/a.md", "/site/a.md")] };
    let done = command("b.md").add_file(&mut registry, Some(&document("/vault/b.md", "no date", None)), &settings());
    assert_eq!(done, Err(PublishError::CreationDateUnavailable));
    assert_eq!(registry, Config { files: vec![pair("/vault/a.md", "/site/a.md")] });
}

#[test]
fn default_target_formula() {
    let s = settings();
    assert_eq!(make_default_target("/vault/sub/note.md", "2023-05-01", false, &s), "/site/content/posts/2023-05-01-note.md");
    assert_eq!(make_default_target("/vault/sub/note.md", "2023-05-01", true, &s), "/site/content/private/2023-05-01-note.md");
    assert_eq!(make_default_target("note.md", "x", false, &s), "/site/content/posts/x-note.md");
    assert_eq!(make_default_target("/vault/dir/", "x", false, &s), "/site/content/posts/x-");
}

#[test]
fn remove_takes_every_mapping_with_the_file_name() {
    let mut registry = Config {
        files: vec![
            pair("/vault/a.md", "/site/a.md"),
            pair("/vault/b.md", "/site/b.md"),
            pair("/other/a.md", "/site/a2.md"),
            pair("/vault/c.md", "/site/c.md"),
        ],
    };
    assert_eq!(command("a.md").remove_file(&mut registry), Ok(()));
    assert_eq!(
        registry,
        Config { files: vec![pair("/vault/b.md", "/site/b.md"), pair("/vault/c.md", "/site/c.md")] }
    );
}

#[test]
fn remove_goes_by_the_file_name_alone() {
    let mut registry = Config { files: vec![pair("/vault/a.md", "/site/a.md")] };
    assert_eq!(command("/somewhere/else/a.md").remove_file(&mut registry), Ok(()));
    assert_eq!(registry, Config { files: vec![] });
    let mut registry = Config { files: vec![pair("/vault/a.md", "/site/a.md")] };
    assert_eq!(command("./a.md/").remove_file(&mut registry), Ok(()));
    assert_eq!(registry, Config { files: vec![] });
}

#[test]
fn remove_of_an_unknown_name_is_refused() {
    let files = vec![pair("/vault/a.md", "/site/a.md"), pair("/vault/b.md", "/site/b.md")];
    let mut registry = Config { files: files.clone() };
    assert_eq!(command("c.md").remove_file(&mut registry), Err(PublishError::NotRegistered));
    assert_eq!(registry, Config { files: files.clone() });
    assert_eq!(command("/vault/a.m").remove_file(&mut registry), Err(PublishError::NotRegistered));
    assert_eq!(registry, Config { files: files.clone() });
    assert_eq!(command("vault").remove_file(&mut registry), Err(PublishError::NotRegistered));
    assert_eq!(registry, Config { files });
}

#[test]
fn remove_from_an_empty_registry_is_refused() {
    let mut registry = Config { files: vec![] };
    assert_eq!(command("a.md").remove_file(&mut registry), Err(PublishError::NotRegistered));
    assert_eq!(registry, Config { files: vec![] });
}

#[test]
fn remove_ignores_the_targets() {
    let mut registry = Config { files: vec![pair("/vault/a.md", "/site/b.md")] };
    assert_eq!(command("b.md").remove_file(&mut registry), Err(PublishError::NotRegistered));
    assert_eq!(registry, Config { files: vec![pair("/vault/a.md", "/site/b.md")] });
}

#[test]
fn remove_needs_a_file_name() {
    let files = vec![pair("/vault/a.md", "/site/a.md"), pair("/", "/site/root")];
    let mut registry = Config { files: files.clone() };
    assert_eq!(command("/").remove_file(&mut registry), Err(PublishError::InvalidSourcePath));
    assert_eq!(command("").remove_file(&mut registry), Err(PublishError::InvalidSourcePath));
    assert_eq!(command("/vault/..").remove_file(&mut registry), Err(PublishError::InvalidSourcePath));
    assert_eq!(registry, Config { files });
}

#[test]
fn mapping_without_file_name_is_never_matched() {
    let files = vec![pair("/", "/site/root"), pair("/vault/..", "/site/up")];
    let mut registry = Config { files: files.clone() };
    assert_eq!(command("a.md").remove_file(&mut registry), Err(PublishError::NotRegistered));
    assert_eq!(registry, Config { files });
}

#[test]
fn has_source_finds_whole_paths() {
    let registry = Config { files: vec![pair("/vault/a.md", "/site/a.md"), pair("", "/site/e.md")] };
    assert!(registry.has_source("/vault/a.md"));
    assert!(registry.has_source(""));
    assert!(!registry.has_source("/vault/a.m"));
    assert!(!registry.has_source("/vault/a.md "));
    assert!(!registry.has_source("/site/a.md"));
}

#[test]
fn command_names_its_registry_file() {
    let s = settings();
    assert_eq!(ConfigPath { config: None }.config_file(&s), "/etc/publish/config.toml");
    assert_eq!(ConfigPath { config: Some("/tmp/c.toml".to_string()) }.config_file(&s), "/tmp/c.toml");
    let mut args = command("a.md");
    assert_eq!(args.config_file(&s), "/etc/publish/config.toml");
    args.config = Some("other.toml".to_string());
    assert_eq!(args.config_file(&s), "other.toml");
}

#[test]
fn run_loads_the_registry_first() {
    let s = settings();
    let args = ConfigPath { config: None };
    assert_eq!(args.update_files(&s, None, 0, false), BatchStep::Load("/etc/publish/config.toml".to_string()));
    let args = ConfigPath { config: Some("/tmp/c.toml".to_string()) };
    assert_eq!(args.update_files(&s, None, 0, false), BatchStep::Load("/tmp/c.toml".to_string()));
}

#[test]
fn run_publishes_in_the_order_of_the_registry() {
    let s = settings();
    let args = ConfigPath { config: None };
    let registry = Config { files: vec![pair("/a", "/x"), pair("/b", "/y"), pair("/c", "/z")] };
    assert_eq!(args.update_files(&s, Some(&registry), 0, false), BatchStep::Publish(0));
    assert_eq!(args.update_files(&s, Some(&registry), 1, false), BatchStep::Publish(1));
    assert_eq!(args.update_files(&s, Some(&registry), 2, false), BatchStep::Publish(2));
    assert_eq!(args.update_files(&s, Some(&registry), 3, false), BatchStep::Finished);
}

#[test]
fn run_stops_at_the_first_failure() {
    let s = settings();
    let args = ConfigPath { config: None };
    let registry = Config { files: vec![pair("/a", "/x"), pair("/b", "/y"), pair("/c", "/z")] };
    assert_eq!(args.update_files(&s, Some(&registry), 1, true), BatchStep::Aborted);
    assert_eq!(args.update_files(&s, Some(&registry), 3, true), BatchStep::Aborted);
}

#[test]
fn run_over_an_empty_registry_is_finished_at_once() {
    let s = settings();
    let args = ConfigPath { config: None };
    let registry = Config { files: vec![] };
    assert_eq!(args.update_files(&s, Some(&registry), 0, false), BatchStep::Finished);
}
