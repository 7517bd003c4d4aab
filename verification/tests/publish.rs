use tk_blog_publish::error::PublishError;
use tk_blog_publish::filepair::{classify_target, FileAction, FilePair, Publication, TargetKind};
use tk_blog_publish::settings::Settings;

fn settings() -> Settings {
    Settings {
        config_file: "/etc/publish/config.toml".to_string(),
        public_target_dir: "/site/content/posts".to_string(),
        private_target_dir: "/site/content/private".to_string(),
        source_image_dir: "/vault/media/image".to_string(),
        target_image_dir: "/site/static/photos".to_string(),
        published_marker: "/posts/".to_string(),
    }
}

fn pair(source: &str, target: &str) -> FilePair {
    FilePair { source: source.to_string(), target: target.to_string() }
}

fn write(path: &str, content: &str) -> FileAction {
    FileAction::Write { path: path.to_string(), content: content.to_string() }
}

fn ensure_dir(path: &str) -> FileAction {
    FileAction::EnsureDir { path: path.to_string() }
}

fn copy(from: &str, to: &str) -> FileAction {
    FileAction::Copy { from: from.to_string(), to: to.to_string() }
}

#[test]
fn published_document_gets_links_and_images() {
    let mapping = pair("/vault/note.md", "/site/posts/2023-05-01-note.md");
    let plan = mapping.update_file("date: 2023-05-01\nbody ![[img.png]]", None, &settings());
    assert_eq!(
        plan,
        Publication {
            actions: vec![
                write("/vault/note.md", "date: 2023-05-01\nbody ![[img.png]]"),
                write(
                    "/site/posts/2023-05-01-note.md",
                    "date: 2023-05-01\nbody ![](/photos/2023-05-01-note.md/img.png)"
                ),
                ensure_dir("/site/static/photos/2023-05-01-note.md"),
                copy("/vault/media/image/img.png", "/site/static/photos/2023-05-01-note.md/img.png"),
            ],
            failure: None,
        }
    );
}

#[test]
fn source_is_healed_but_keeps_its_embeds() {
    let mapping = pair("/vault/math.md", "/site/posts/2024-02-03-math.md");
    let content = "date: 2024-02-03\nx\\\\\n![[plot.png]]\n";
    let plan = mapping.update_file(content, None, &settings());
    assert_eq!(
        plan.actions,
        vec![
            write("/vault/math.md", "date: 2024-02-03\nx \\\\\\\n![[plot.png]]\n"),
            write(
                "/site/posts/2024-02-03-math.md",
                "date: 2024-02-03\nx \\\\\\\n![](/photos/2024-02-03-math.md/plot.png)\n"
            ),
            ensure_dir("/site/static/photos/2024-02-03-math.md"),
            copy("/vault/media/image/plot.png", "/site/static/photos/2024-02-03-math.md/plot.png"),
        ]
    );
    assert_eq!(plan.failure, None);
}

#[test]
fn plain_copy_gets_the_normalized_text_and_nothing_else() {
    let mapping = pair("/vault/note.md", "/backup/note.md");
    let content = "date: 2023-05-01\nbody ![[img.png]] x\\\\\n";
    let plan = mapping.update_file(content, None, &settings());
    let healed = "date: 2023-05-01\nbody ![[img.png]] x \\\\\\\n";
    assert_eq!(
        plan,
        Publication {
            actions: vec![write("/vault/note.md", healed), write("/backup/note.md", healed)],
            failure: None,
        }
    );
}

#[test]
fn published_document_without_embeds_still_gets_its_directory() {
    let mapping = pair("/vault/note.md", "/site/posts/a-b.md");
    let plan = mapping.update_file("date: 2023-05-01\nno images", None, &settings());
    assert_eq!(
        plan.actions,
        vec![
            write("/vault/note.md", "date: 2023-05-01\nno images"),
            write("/site/posts/a-b.md", "date: 2023-05-01\nno images"),
            ensure_dir("/site/static/photos/2023-05-01-b.md"),
        ]
    );
    assert_eq!(plan.failure, None);
}

#[test]
fn images_are_copied_in_the_order_of_the_embeds() {
    let mapping = pair("/vault/note.md", "/site/posts/my-trip.md");
    let plan = mapping.update_file("![[b.png]] ![[a.png]] ![[b.png]]", Some("2022-12-24"), &settings());
    assert_eq!(
        plan.actions,
        vec![
            write("/vault/note.md", "![[b.png]] ![[a.png]] ![[b.png]]"),
            write(
                "/site/posts/my-trip.md",
                "![](/photos/2022-12-24-trip.md/b.png) ![](/photos/2022-12-24-trip.md/a.png) ![](/photos/2022-12-24-trip.md/b.png)"
            ),
            ensure_dir("/site/static/photos/2022-12-24-trip.md"),
            copy("/vault/media/image/b.png", "/site/static/photos/2022-12-24-trip.md/b.png"),
            copy("/vault/media/image/a.png", "/site/static/photos/2022-12-24-trip.md/a.png"),
            copy("/vault/media/image/b.png", "/site/static/photos/2022-12-24-trip.md/b.png"),
        ]
    );
}

#[test]
fn creation_date_names_the_directory_where_none_is_declared() {
    let mapping = pair("/vault/note.md", "/site/posts/my-note.md");
    let plan = mapping.update_file("![[a.png]]", Some("2021-07-08"), &settings());
    assert_eq!(plan.actions[1], write("/site/posts/my-note.md", "![](/photos/2021-07-08-note.md/a.png)"));
    assert_eq!(plan.actions[2], ensure_dir("/site/static/photos/2021-07-08-note.md"));
}

#[test]
fn publication_without_any_date_does_nothing() {
    let mapping = pair("/vault/note.md", "/site/posts/note.md");
    let plan = mapping.update_file("no date", None, &settings());
    assert_eq!(
        plan,
        Publication { actions: vec![], failure: Some(PublishError::CreationDateUnavailable) }
    );
}

#[test]
fn target_without_word_fails_after_the_source_is_healed() {
    let mapping = pair("/vault/note.md", "/site/posts/ ");
    let plan = mapping.update_file("date: 2023-05-01\nx\\\\\n", None, &settings());
    assert_eq!(
        plan,
        Publication {
            actions: vec![write("/vault/note.md", "date: 2023-05-01\nx \\\\\\\n")],
            failure: Some(PublishError::InvalidTargetFilename),
        }
    );
}

#[test]
fn target_without_hyphen_fails_after_the_source_is_healed() {
    let mapping = pair("/vault/note.md", "/site/posts/post.md");
    let plan = mapping.update_file("date: 2024-01-01\nx\\\\\n![[a.png]]", None, &settings());
    assert_eq!(
        plan,
        Publication {
            actions: vec![write("/vault/note.md", "date: 2024-01-01\nx \\\\\\\n![[a.png]]")],
            failure: Some(PublishError::InvalidTargetFilename),
        }
    );
}

#[test]
fn plain_copy_needs_no_hyphen() {
    let mapping = pair("/vault/note.md", "/backup/post.md");
    let plan = mapping.update_file("date: 2024-01-01\nbody", None, &settings());
    assert_eq!(
        plan,
        Publication {
            actions: vec![
                write("/vault/note.md", "date: 2024-01-01\nbody"),
                write("/backup/post.md", "date: 2024-01-01\nbody"),
            ],
            failure: None,
        }
    );
}

#[test]
fn update_images_refuses_a_target_without_hyphen() {
    let mapping = pair("/vault/note.md", "/site/posts/post.md");
    let plan = mapping.update_images("2024-01-01", "a ![[x.png]] b", &settings());
    assert_eq!(
        plan,
        Publication { actions: vec![], failure: Some(PublishError::InvalidTargetFilename) }
    );
}

#[test]
fn update_images_takes_a_target_that_ends_with_a_hyphen() {
    let mapping = pair("/vault/note.md", "/site/posts/post-");
    let plan = mapping.update_images("2024-01-01", "a ![[x.png]] b", &settings());
    assert_eq!(
        plan,
        Publication {
            actions: vec![
                write("/site/posts/post-", "a ![](/photos/2024-01-01-/x.png) b"),
                ensure_dir("/site/static/photos/2024-01-01-"),
                copy("/vault/media/image/x.png", "/site/static/photos/2024-01-01-/x.png"),
            ],
            failure: None,
        }
    );
}

#[test]
fn update_images_plans_the_target_side() {
    let mapping = pair("/vault/note.md", "/site/posts/2023-05-01-my-post.md");
    let plan = mapping.update_images("2023-05-01", "a ![[x.png]] b", &settings());
    assert_eq!(
        plan,
        Publication {
            actions: vec![
                write("/site/posts/2023-05-01-my-post.md", "a ![](/photos/2023-05-01-post.md/x.png) b"),
                ensure_dir("/site/static/photos/2023-05-01-post.md"),
                copy("/vault/media/image/x.png", "/site/static/photos/2023-05-01-post.md/x.png"),
            ],
            failure: None,
        }
    );
}

#[test]
fn update_images_refuses_a_target_without_file_name() {
    let mapping = pair("/vault/note.md", "/site/posts/..");
    let plan = mapping.update_images("2023-05-01", "a ![[x.png]] b", &settings());
    assert_eq!(
        plan,
        Publication { actions: vec![], failure: Some(PublishError::InvalidTargetFilename) }
    );
}

#[test]
fn marker_decides_the_kind_of_target() {
    let s = settings();
    assert_eq!(classify_target("/site/posts/a.md", &s), TargetKind::Published);
    assert_eq!(classify_target("/posts/", &s), TargetKind::Published);
    assert_eq!(classify_target("/a/posts/b/c.md", &s), TargetKind::Published);
    assert_eq!(classify_target("/site/posts", &s), TargetKind::Mirror);
    assert_eq!(classify_target("/site/post/s/a.md", &s), TargetKind::Mirror);
    assert_eq!(classify_target("posts/a.md", &s), TargetKind::Mirror);
    assert_eq!(classify_target("", &s), TargetKind::Mirror);
}

#[test]
fn marker_is_taken_from_the_settings() {
    let mut s = settings();
    s.published_marker = "/blog/".to_string();
    assert_eq!(classify_target("/home/me/blog/content/a.md", &s), TargetKind::Published);
    assert_eq!(classify_target("/site/posts/a.md", &s), TargetKind::Mirror);
}

#[test]
fn planning_is_deterministic() {
    let mapping = pair("/vault/note.md", "/site/posts/my-note.md");
    let content = "date: 2023-05-01\n![[a.png]] x\\\\\n";
    assert_eq!(
        mapping.update_file(content, None, &settings()),
        mapping.update_file(content, None, &settings())
    );
}

#[test]
fn clone_and_default_of_a_mapping() {
    let mapping = pair("/vault/note.md", "/site/posts/note.md");
    assert_eq!(mapping.clone(), mapping);
    assert_eq!(FilePair::default(), pair("", ""));
}

#[test]
fn marker_is_found_as_the_standard_library_finds_it() {
    let markers = ["/blog/", "", "/", "a", "blog", "//", "/blog/x"];
    let targets = ["", "/", "/blog", "/blog/", "x/blog/y", "/bl/og/", "/blog//blog/", "blog/", "/Blog/"];
    for marker in markers {
        let mut s = settings();
        s.published_marker = marker.to_string();
        for target in targets {
            let expected = if target.contains(marker) { TargetKind::Published } else { TargetKind::Mirror };
            assert_eq!(classify_target(target, &s), expected, "{:?} in {:?}", marker, target);
        }
    }
}
