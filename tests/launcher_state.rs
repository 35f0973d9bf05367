use grunner::app_mode::AppMode;
use grunner::config::{
    apply_settings, default_app_dirs, expand_home, Config, FileSettings, ObsidianConfig, DEFAULT_MAX_RESULTS,
};
use grunner::history::{ClipboardHistory, LaunchHistory};
use grunner::text::{lines, trim_str, words};

#[test]
fn mode_from_prefix() {
    assert_eq!(AppMode::from_text(":obg foo"), AppMode::ObsidianGrep);
    assert_eq!(AppMode::from_text(":ob foo"), AppMode::Obsidian);
    assert_eq!(AppMode::from_text(":f x"), AppMode::FileSearch);
    assert_eq!(AppMode::from_text(":s x"), AppMode::SearchProvider);
    assert_eq!(AppMode::from_text("firefox"), AppMode::Normal);
    assert_eq!(AppMode::from_text(""), AppMode::Normal);
}

#[test]
fn mode_icons_and_bar() {
    assert_eq!(AppMode::FileSearch.icon_name("obs"), Some("text-x-generic"));
    assert_eq!(AppMode::SearchProvider.icon_name("obs"), Some("system-search"));
    assert_eq!(AppMode::ObsidianGrep.icon_name("obs"), Some("obs"));
    assert_eq!(AppMode::Normal.icon_name("obs"), None);
    assert!(AppMode::Obsidian.show_obsidian_bar());
    assert!(!AppMode::FileSearch.show_obsidian_bar());
}

#[test]
fn clipboard_history_skips_repeat_and_drops_oldest() {
    let mut h = ClipboardHistory::new(Some(2));
    h.push("a".to_string());
    h.push("a".to_string());
    assert_eq!(h.len(), 1);
    h.push("b".to_string());
    h.push("c".to_string());
    assert_eq!(h.iter(), vec!["b".to_string(), "c".to_string()]);
    h.push("b".to_string());
    assert_eq!(h.iter(), vec!["c".to_string(), "b".to_string()]);
    assert_eq!(ClipboardHistory::new(None).max(), 20);
}

#[test]
fn launch_history_counts() {
    let mut h = LaunchHistory::new();
    assert_eq!(h.get_count("/a.desktop"), 0);
    h.record_launch("/a.desktop");
    h.record_launch("/b.desktop");
    h.record_launch("/a.desktop");
    assert_eq!(h.get_count("/a.desktop"), 2);
    assert_eq!(h.get_count("/b.desktop"), 1);
    assert_eq!(h.get_count("/c.desktop"), 0);
}

#[test]
fn home_expansion() {
    assert_eq!(expand_home("~/Documents", "/home/alice"), "/home/alice/Documents");
    assert_eq!(expand_home("~/Documents", "/home/alice/"), "/home/alice/Documents");
    assert_eq!(expand_home("~", "/home/alice"), "/home/alice");
    assert_eq!(expand_home("/etc/fstab", "/home/alice"), "/etc/fstab");
    assert_eq!(expand_home("~/x", ""), "x");
    assert_eq!(expand_home("~//abs", "/home/alice"), "/abs");
}

#[test]
fn defaults_and_overrides() {
    assert_eq!(default_app_dirs().len(), 5);
    let d = Config::defaults("/home/u");
    assert_eq!(d.app_dirs[2], "/home/u/.local/share/applications");
    assert_eq!(d.max_results, DEFAULT_MAX_RESULTS);
    let s = FileSettings {
        window_width: Some(800),
        window_height: Some(0),
        max_results: Some(10),
        app_dirs: Some(vec!["~/apps".to_string()]),
        command_debounce_ms: None,
        provider_blacklist: Some(vec!["x.desktop".to_string()]),
        calculator: Some(true),
        commands: None,
        obsidian: Some(ObsidianConfig { vault: "~/v".to_string(), ..Default::default() }),
    };
    let c = apply_settings(s, "/home/u");
    assert_eq!(c.window_width, 800);
    assert_eq!(c.window_height, 480);
    assert_eq!(c.max_results, 10);
    assert_eq!(c.app_dirs, vec!["/home/u/apps".to_string()]);
    assert_eq!(c.command_debounce_ms, 300);
    assert_eq!(c.search_provider_blacklist, vec!["x.desktop".to_string()]);
    assert!(c.calculator);
    assert_eq!(c.commands.len(), 2);
    assert_eq!(c.obsidian.map(|o| o.vault), Some("~/v".to_string()));
}

#[test]
fn text_lines_and_trim() {
    assert_eq!(lines("a\r\nb\n\nc"), vec!["a".to_string(), "b".to_string(), String::new(), "c".to_string()]);
    assert_eq!(lines("x\n"), vec!["x".to_string()]);
    assert!(lines("").is_empty());
    assert_eq!(trim_str(" \t y z \u{a0}"), "y z");
    assert_eq!(words("a  b"), vec!["a".to_string(), "b".to_string()]);
}
