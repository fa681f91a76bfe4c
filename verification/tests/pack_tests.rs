use vx_pack::errors::PackError;
use vx_pack::manifest::FxManifest;
use vx_pack::pack::{handle_command, PackContext};
use vx_pack::packer::{archive_file_name, is_excluded, path_contains_web_dist, plan_archive, WalkEntry};
use vx_pack::script::read_manifest_source;
use vx_pack::web::{build_web_project, detect_package_manager, PackageManager};

fn entry(path: &str, is_file: bool) -> WalkEntry {
    WalkEntry { path: path.to_string(), is_file }
}

#[test]
fn default_manifest_values() {
    let m = FxManifest::new();
    assert_eq!(m.ignored_paths, vec![".git/**", ".vscode/**", ".gitattributes"]);
    assert_eq!(m.ui_page, None);
}

#[test]
fn unrecognized_directives_leave_default() {
    let src = "name 'demo'\nauthor \"someone\"\n-- a comment line\n\nversion '1.0'";
    let m = read_manifest_source(src).unwrap();
    let d = FxManifest::new();
    assert_eq!(m.ignored_paths, d.ignored_paths);
    assert_eq!(m.ui_page, d.ui_page);
}

#[test]
fn ignore_directives_accumulate_in_order() {
    let src = "vx_ignore 'node_modules/**'\nvx_ignore 'dist'\nvx_ignore 'node_modules/**'";
    let m = read_manifest_source(src).unwrap();
    assert_eq!(
        m.ignored_paths,
        vec![".git/**", ".vscode/**", ".gitattributes", "node_modules/**", "dist", "node_modules/**"]
    );
    assert_eq!(m.ui_page, None);
}

#[test]
fn ui_page_last_write_wins() {
    let src = "ui_page 'web/dist/other.html'\nui_page 'web/dist/index.html'";
    let m = read_manifest_source(src).unwrap();
    assert_eq!(m.ui_page.as_deref(), Some("web/dist/index.html"));
    assert_eq!(m.ignored_paths, FxManifest::new().ignored_paths);
}

#[test]
fn apply_directive_recognizes_keys() {
    let mut m = FxManifest::new();
    m.apply_directive("ui_page", "web/dist/index.html");
    m.apply_directive("vx_ignore", "target/**");
    m.apply_directive("something_else", "ignored");
    assert_eq!(m.ui_page.as_deref(), Some("web/dist/index.html"));
    assert_eq!(m.ignored_paths.last().map(|s| s.as_str()), Some("target/**"));
    assert_eq!(m.ignored_paths.len(), 4);
}

#[test]
fn unquoted_value_is_a_syntax_error() {
    assert_eq!(read_manifest_source("ui_page web").err(), Some(PackError::ScriptSyntax));
}

#[test]
fn unterminated_string_is_a_syntax_error() {
    assert_eq!(read_manifest_source("ui_page 'web/dist").err(), Some(PackError::ScriptSyntax));
}

#[test]
fn trailing_garbage_is_a_syntax_error() {
    assert_eq!(read_manifest_source("ui_page 'a' extra").err(), Some(PackError::ScriptSyntax));
}

#[test]
fn blank_and_comment_lines_parse() {
    let m = read_manifest_source("\n   \n-- only comments here\n\t\n").unwrap();
    assert_eq!(m.ui_page, None);
    assert_eq!(m.ignored_paths, FxManifest::new().ignored_paths);
}

#[test]
fn double_quoted_values_parse() {
    let m = read_manifest_source("vx_ignore \"it's here\"").unwrap();
    assert_eq!(m.ignored_paths.last().map(|s| s.as_str()), Some("it's here"));
}

#[test]
fn git_paths_are_excluded() {
    let m = FxManifest::new();
    assert_eq!(is_excluded("proj/.git/config", &m), Ok(true));
    assert_eq!(is_excluded("proj/.gitattributes", &m), Ok(true));
    assert_eq!(is_excluded("proj/src/main.txt", &m), Ok(false));
}

#[test]
fn web_dist_overrides_exclusion() {
    let mut m = FxManifest::new();
    m.apply_directive("vx_ignore", "web/**");
    assert_eq!(is_excluded("proj/web/src/app.ts", &m), Ok(true));
    assert_eq!(is_excluded("proj/web/dist/index.html", &m), Ok(false));
    assert_eq!(is_excluded("proj/web/dist/assets/app.js", &m), Ok(false));
}

#[test]
fn invalid_glob_pattern_is_reported() {
    let mut m = FxManifest::new();
    m.apply_directive("vx_ignore", "[");
    assert_eq!(is_excluded("proj/anything", &m), Err(PackError::InvalidPattern));
}

#[test]
fn fragment_detection_accepts_both_separators() {
    assert!(path_contains_web_dist("proj/web/dist/index.html"));
    assert!(path_contains_web_dist("proj\\web\\dist\\index.html"));
    assert!(!path_contains_web_dist("proj/webdist/index.html"));
    assert!(!path_contains_web_dist("short"));
}

#[test]
fn archive_name_is_last_component_zip() {
    assert_eq!(archive_file_name("a/b/proj").as_str(), "proj.zip");
    assert_eq!(archive_file_name("proj").as_str(), "proj.zip");
    assert_eq!(archive_file_name("a\\b\\proj").as_str(), "proj.zip");
}

#[test]
fn plan_includes_files_and_excludes_git() {
    let m = FxManifest::new();
    let entries = vec![
        entry("proj", false),
        entry("proj/.git", false),
        entry("proj/.git/HEAD", true),
        entry("proj/src", false),
        entry("proj/src/main.txt", true),
        entry("proj/proj.zip", true),
    ];
    let plan = plan_archive("proj", &entries, &m).unwrap();
    assert_eq!(plan, vec!["src/main.txt"]);
}

#[test]
fn plan_never_contains_the_archive_itself() {
    let m = FxManifest::new();
    let entries = vec![entry("proj", false), entry("proj/proj.zip", true), entry("proj/a.txt", true)];
    let plan = plan_archive("proj", &entries, &m).unwrap();
    assert_eq!(plan, vec!["a.txt"]);
}

#[test]
fn packing_twice_gives_identical_entry_sets() {
    let mut m = FxManifest::new();
    m.apply_directive("vx_ignore", "web/**");
    let entries = vec![
        entry("proj", false),
        entry("proj/web", false),
        entry("proj/web/dist", false),
        entry("proj/web/dist/index.html", true),
        entry("proj/web/src", false),
        entry("proj/web/src/app.ts", true),
        entry("proj/readme.txt", true),
    ];
    let first = plan_archive("proj", &entries, &m).unwrap();
    let second = plan_archive("proj", &entries, &m).unwrap();
    assert_eq!(first, second);
    assert_eq!(first, vec!["web/dist/index.html", "readme.txt"]);
}

#[test]
fn plan_reports_invalid_pattern() {
    let mut m = FxManifest::new();
    m.apply_directive("vx_ignore", "***");
    let entries = vec![entry("proj", false), entry("proj/a.txt", true)];
    assert_eq!(plan_archive("proj", &entries, &m), Err(PackError::InvalidPattern));
}

#[test]
fn detect_package_manager_precedence() {
    assert_eq!(detect_package_manager(true, true, true), Some(PackageManager::Npm));
    assert_eq!(detect_package_manager(false, true, true), Some(PackageManager::Yarn));
    assert_eq!(detect_package_manager(false, false, true), Some(PackageManager::Pnpm));
    assert_eq!(detect_package_manager(false, false, false), None);
}

#[test]
fn handle_command_without_ui_page_skips_web_build() {
    let m = FxManifest::new();
    let r = handle_command(&m, false, false, false).unwrap();
    assert!(r.is_none());
}

#[test]
fn handle_command_rejects_unsupported_ui_page() {
    let mut m = FxManifest::new();
    m.apply_directive("ui_page", "web/dist/other.html");
    match handle_command(&m, false, false, false) {
        Err(e) => assert_eq!(e, PackError::UnsupportedUiPage),
        Ok(_) => panic!("an unsupported UI page must abort the operation"),
    }
}

#[test]
fn handle_command_builds_supported_ui_page() {
    let mut m = FxManifest::new();
    m.apply_directive("ui_page", "web/dist/index.html");
    let plan = handle_command(&m, false, true, false).unwrap().unwrap();
    assert_eq!(plan.command.as_str(), "yarn");
    let plan = handle_command(&m, false, false, false).unwrap().unwrap();
    assert_eq!(plan.command.as_str(), "npm");
}

#[test]
fn build_web_project_requires_a_ui_page() {
    let m = FxManifest::new();
    match build_web_project(&m, true, false, false) {
        Err(e) => assert_eq!(e, PackError::MissingUiPage),
        Ok(_) => panic!("a missing UI page must be an error"),
    }
}

#[test]
fn pack_context_pairs_root_and_manifest() {
    let mut m = FxManifest::new();
    m.apply_directive("vx_ignore", "extra");
    let c = PackContext::new("proj".to_string(), m);
    assert_eq!(c.root_path.as_str(), "proj");
    assert_eq!(c.manifest.ignored_paths.last().map(|s| s.as_str()), Some("extra"));
}

#[test]
fn error_messages_are_stable() {
    assert_eq!(PackError::MissingUiPage.message(), "no UI page found");
    assert_eq!(
        PackError::UnsupportedUiPage.message(),
        "as of now, only web/dist/index.html is supported"
    );
    assert!(!PackError::ScriptSyntax.message().is_empty());
    assert!(!PackError::InvalidPattern.message().is_empty());
}

#[test]
fn stale_archive_does_not_change_the_plan() {
    let m = FxManifest::new();
    let without = vec![entry("proj", false), entry("proj/a.txt", true)];
    let with = vec![
        entry("proj", false),
        entry("proj/proj.zip", true),
        entry("proj/a.txt", true),
    ];
    assert_eq!(
        plan_archive("proj", &without, &m).unwrap(),
        plan_archive("proj", &with, &m).unwrap()
    );
}

#[test]
fn crlf_scripts_parse() {
    let m = read_manifest_source("vx_ignore 'a'\r\nui_page 'web/dist/index.html'\r\n").unwrap();
    assert_eq!(m.ui_page.as_deref(), Some("web/dist/index.html"));
    assert_eq!(m.ignored_paths.last().map(|s| s.as_str()), Some("a"));
}

#[test]
fn boolean_directives_parse_and_declare_nothing() {
    let m = read_manifest_source("server_only true\nloadscreen_manual false\nvx_ignore 'a'").unwrap();
    assert_eq!(
        m.ignored_paths,
        vec![".git/**", ".vscode/**", ".gitattributes", "a"]
    );
    assert_eq!(m.ui_page, None);
}

#[test]
fn array_directives_parse_and_declare_nothing() {
    let src = "files {\n    'a.lua',\n    'b.lua', -- shipped elsewhere\n}\nui_page 'web/dist/index.html'";
    let m = read_manifest_source(src).unwrap();
    assert_eq!(m.ui_page.as_deref(), Some("web/dist/index.html"));
    assert_eq!(m.ignored_paths, FxManifest::new().ignored_paths);
}

#[test]
fn empty_and_trailing_comma_arrays_parse() {
    let m = read_manifest_source("files {}\nmore { 'x', }").unwrap();
    assert_eq!(m.ignored_paths, FxManifest::new().ignored_paths);
}

#[test]
fn call_form_directives_parse() {
    let m = read_manifest_source("ui_page('web/dist/index.html')\nvx_ignore(\"web/**\")").unwrap();
    assert_eq!(m.ui_page.as_deref(), Some("web/dist/index.html"));
    assert_eq!(m.ignored_paths.last().map(|s| s.as_str()), Some("web/**"));
}

#[test]
fn trailing_comments_after_directives_parse() {
    let m = read_manifest_source("vx_ignore 'x' -- keep the cache out\nname 'demo' --end").unwrap();
    assert_eq!(m.ignored_paths.last().map(|s| s.as_str()), Some("x"));
}

#[test]
fn bare_word_value_is_a_syntax_error() {
    assert_eq!(read_manifest_source("key maybe").err(), Some(PackError::ScriptSyntax));
}

#[test]
fn unterminated_array_is_a_syntax_error() {
    assert_eq!(read_manifest_source("files { 'a',").err(), Some(PackError::ScriptSyntax));
}

#[test]
fn unclosed_call_form_is_a_syntax_error() {
    assert_eq!(read_manifest_source("ui_page('a'").err(), Some(PackError::ScriptSyntax));
}

#[test]
fn trailing_separators_do_not_change_the_archive_name() {
    assert_eq!(archive_file_name("a/b/proj/").as_str(), "proj.zip");
    assert_eq!(archive_file_name("proj///").as_str(), "proj.zip");
    assert_eq!(archive_file_name("a\\b\\proj\\").as_str(), "proj.zip");
}
