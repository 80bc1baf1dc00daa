use nodus::skills::{
    managed_file_target, managed_file_targets, sort_by_path, ManagedError, ManagedTarget, SkillFiles,
};
use nodus::path::PathStyle;

#[test]
fn skill_files_go_below_the_skills_directory() {
    let p = PathStyle::Posix;
    assert_eq!(
        managed_file_target(p, "/proj/skills", "acme_review", "/snap/skills/review", "/snap/skills/review/SKILL.md")
            .as_deref(),
        Some("/proj/skills/acme_review/SKILL.md")
    );
    assert_eq!(
        managed_file_target(p, "/proj/skills/", "acme_review", "/snap/skills/review/", "/snap/skills/review//refs/a.md")
            .as_deref(),
        Some("/proj/skills/acme_review/refs/a.md")
    );
    assert_eq!(managed_file_target(p, "/proj/skills", "acme_review", "/snap/skills/review", "/snap/other/x.md"), None);
    assert_eq!(
        managed_file_target(PathStyle::Windows, "C:\\proj\\skills", "r", "C:\\snap\\r", "C:\\snap\\r\\SKILL.md").as_deref(),
        Some("C:\\proj\\skills\\r\\SKILL.md")
    );
}


fn target(path: &str, source: &str) -> ManagedTarget {
    ManagedTarget { path: path.to_string(), source: source.to_string() }
}

fn paths(v: &[ManagedTarget]) -> Vec<&str> {
    v.iter().map(|t| t.path.as_str()).collect()
}

#[test]
fn targets_sort_by_path_components() {
    let files = vec![
        target("/p/b", "1"),
        target("/p/a/z", "2"),
        target("/p/a-b", "3"),
        target("/p/a", "4"),
        target("/p/./a/b", "5"),
    ];
    let sorted = sort_by_path(nodus::path::PathStyle::Posix, &files);
    // Component order: `/p/a` and its children come before `/p/a-b`, though
    // `-` sorts before `/` as text.
    assert_eq!(paths(&sorted), vec!["/p/a", "/p/./a/b", "/p/a/z", "/p/a-b", "/p/b"]);
    assert_eq!(sorted[0].source, "4");
}

#[test]
fn managed_files_cover_every_skill_in_path_order() {
    let skills = vec![
        SkillFiles {
            skill_dir: "acme_zeta".to_string(),
            source_root: "/snap/skills/zeta".to_string(),
            entries: vec!["/snap/skills/zeta/SKILL.md".to_string()],
        },
        SkillFiles {
            skill_dir: "acme_alpha".to_string(),
            source_root: "/snap/skills/alpha".to_string(),
            entries: vec![
                "/snap/skills/alpha/refs/b.md".to_string(),
                "/snap/skills/alpha/SKILL.md".to_string(),
            ],
        },
    ];
    let targets = managed_file_targets(nodus::path::PathStyle::Posix, "/proj/skills", &skills).ok().unwrap();
    assert_eq!(
        paths(&targets),
        vec![
            "/proj/skills/acme_alpha/SKILL.md",
            "/proj/skills/acme_alpha/refs/b.md",
            "/proj/skills/acme_zeta/SKILL.md",
        ]
    );
    assert_eq!(targets[1].source, "/snap/skills/alpha/refs/b.md");
}

#[test]
fn managed_files_report_files_outside_their_skill() {
    let skills = vec![SkillFiles {
        skill_dir: "s".to_string(),
        source_root: "/snap/skills/s".to_string(),
        entries: vec!["/snap/skills/s/a.md".to_string(), "/elsewhere/b.md".to_string()],
    }];
    match managed_file_targets(nodus::path::PathStyle::Posix, "/proj/skills", &skills) {
        Err(ManagedError::NotRelative { file }) => assert_eq!(file, "/elsewhere/b.md"),
        Ok(_) => panic!("expected an error"),
    }
}

#[test]
fn targets_at_the_same_place_keep_their_order() {
    let files = vec![
        target("/p/b", "1"),
        target("/p//a", "2"),
        target("/p/a", "3"),
        target("/p/./a", "4"),
    ];
    let sorted = sort_by_path(PathStyle::Posix, &files);
    let sources: Vec<&str> = sorted.iter().map(|t| t.source.as_str()).collect();
    assert_eq!(sources, vec!["2", "3", "4", "1"]);
}

#[test]
fn windows_prefixes_sort_by_their_form() {
    let files = vec![
        target("C:\\x", "drive"),
        target("\\\\srv\\sh\\x", "share"),
        target("\\\\?\\C:\\x", "verbatim drive"),
        target("\\\\.\\COM1", "device"),
    ];
    let sorted = sort_by_path(PathStyle::Windows, &files);
    let sources: Vec<&str> = sorted.iter().map(|t| t.source.as_str()).collect();
    assert_eq!(sources, vec!["verbatim drive", "device", "share", "drive"]);
}
