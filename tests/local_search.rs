use grunner::app_mode::AppMode;
use grunner::commands::{line_action, LineAction};
use grunner::icon::IconData;
use grunner::launcher::app_icon;
use grunner::provider::{result_icon, IconChoice, SearchResult};
use grunner::calculator::{ensure_float_literals, is_arithmetic_query};
use grunner::commands::{
    extract_obsidian_arg, find_command, obsidian_line_uri, obsidian_path_uri, obsidian_vault_uri,
    open_obsidian_grep_line, parse_colon_command, parse_file_line, relative_to_vault, route_colon_command, ColonCommand,
    VaultTarget,
};
use grunner::launcher::{clean_exec, combine_scores, parse_desktop_file, rank_apps, rank_by_scores, terminal_command_flag, DesktopApp};
use grunner::text::split_once;

fn app(name: &str, description: &str) -> DesktopApp {
    DesktopApp {
        name: name.to_string(),
        command: name.to_lowercase(),
        description: description.to_string(),
        icon: String::new(),
        terminal: false,
    }
}

#[test]
fn desktop_entry_is_read() {
    let text = "# comment\nName=Outside\n[Desktop Entry]\nType=Application\nName=Files\nName=Other\nExec=nautilus --new-window %U\nComment=Access files\nIcon=org.gnome.Nautilus\nTerminal=TRUE\n[Desktop Action new]\nName=New Window\nNoDisplay=true\n";
    let a = parse_desktop_file(text).expect("application");
    assert_eq!(a.name, "Files");
    assert_eq!(a.command, "nautilus --new-window %U");
    assert_eq!(a.description, "Access files");
    assert_eq!(a.icon, "org.gnome.Nautilus");
    assert!(a.terminal);
}

#[test]
fn hidden_or_non_application_entries_are_skipped() {
    assert!(parse_desktop_file("[Desktop Entry]\nType=Link\nName=x\nExec=y\n").is_none());
    assert!(parse_desktop_file("[Desktop Entry]\nType=Application\nName=x\nExec=y\nNoDisplay=true\n").is_none());
    assert!(parse_desktop_file("[Desktop Entry]\nType=Application\nName=x\nExec=y\nHidden=True\n").is_none());
    assert!(parse_desktop_file("[Desktop Entry]\nType=Application\nName=x\n").is_none());
    assert!(parse_desktop_file("Type=Application\nName=x\nExec=y\n").is_none());
}

#[test]
fn field_codes_are_dropped() {
    assert_eq!(clean_exec("firefox %u"), "firefox");
    assert_eq!(clean_exec("  gimp   %F --new  %i x%f "), "gimp --new x%f");
    assert_eq!(clean_exec("%U"), "");
}

#[test]
fn description_scores_count_half() {
    assert_eq!(combine_scores(None, None), None);
    assert_eq!(combine_scores(Some(10), Some(30)), Some(15));
    assert_eq!(combine_scores(Some(20), Some(30)), Some(20));
    assert_eq!(combine_scores(None, Some(-7)), Some(-3));
    assert_eq!(combine_scores(None, Some(i64::MIN)), Some(i64::MIN / 2));
}

#[test]
fn ranking_orders_by_score_then_index() {
    let scores = vec![Some(5), None, Some(9), Some(5), Some(1)];
    assert_eq!(rank_by_scores(&scores, 10), vec![2, 0, 3, 4]);
    assert_eq!(rank_by_scores(&scores, 2), vec![2, 0]);
    assert_eq!(rank_by_scores(&scores, 0), Vec::<usize>::new());
}

#[test]
fn apps_ranked_against_query() {
    let apps = vec![app("Firefox", "Web Browser"), app("Files", ""), app("Calculator", "")];
    assert_eq!(rank_apps(&apps, "", 1), vec![0, 1, 2]);
    let r = rank_apps(&apps, "fire", 10);
    assert_eq!(r[0], 0);
    assert!(!r.contains(&2));
    assert!(rank_apps(&apps, "zzzzq", 10).is_empty());
}

#[test]
fn colon_commands_are_split_and_routed() {
    assert_eq!(parse_colon_command(":f  foo bar "), ("f".to_string(), "foo bar".to_string()));
    assert_eq!(parse_colon_command(":ob"), ("ob".to_string(), String::new()));
    assert_eq!(route_colon_command(":s nautilus"), ColonCommand::SearchBackends("nautilus".to_string()));
    assert_eq!(route_colon_command(":obg todo"), ColonCommand::VaultGrep("todo".to_string()));
    assert_eq!(route_colon_command(":ob x"), ColonCommand::VaultFiles("x".to_string()));
    assert_eq!(route_colon_command(":fg needle"), ColonCommand::Custom("fg".to_string(), "needle".to_string()));
}

#[test]
fn configured_commands_are_found() {
    let cmds = vec![("f".to_string(), "plocate".to_string()), ("fg".to_string(), "rg".to_string())];
    assert_eq!(find_command(&cmds, "fg"), Some("rg".to_string()));
    assert_eq!(find_command(&cmds, "x"), None);
}

#[test]
fn vault_helpers() {
    assert_eq!(extract_obsidian_arg(":ob   todo list  "), "todo list");
    assert_eq!(extract_obsidian_arg(":ob"), "");
    assert_eq!(relative_to_vault("/v/notes/a.md", Some("/v")), "notes/a.md");
    assert_eq!(relative_to_vault("/w/a.md", Some("/v")), "/w/a.md");
    assert_eq!(relative_to_vault("/v/a.md", None), "/v/a.md");
}

#[test]
fn grep_lines_name_their_target() {
    assert_eq!(open_obsidian_grep_line("notes/a.md:12:some text"), VaultTarget::FileLine("notes/a.md".to_string(), "12".to_string()));
    assert_eq!(open_obsidian_grep_line("notes/a.md:rest"), VaultTarget::File("notes/a.md".to_string()));
    assert_eq!(open_obsidian_grep_line("plain.md"), VaultTarget::File("plain.md".to_string()));
    assert_eq!(split_once("a:b:c", ':'), Some(("a".to_string(), "b:c".to_string())));
}

#[test]
fn vault_uris_are_percent_encoded() {
    assert_eq!(obsidian_path_uri("/v/My Note.md"), "obsidian://open?path=%2Fv%2FMy%20Note.md");
    assert_eq!(obsidian_vault_uri("Vault é"), "obsidian://open?vault=Vault%20%C3%A9");
    assert_eq!(obsidian_line_uri("~/v", "/home/u", "a.md", "7"), "obsidian://open?path=%2Fhome%2Fu%2Fv%2Fa.md&line=7");
    assert_eq!(obsidian_line_uri("~/v", "/home/u", "/abs/b.md", "1"), "obsidian://open?path=%2Fabs%2Fb.md&line=1");
}

#[test]
fn arithmetic_queries_and_float_literals() {
    assert!(is_arithmetic_query("7 / (5 + 1)"));
    assert!(!is_arithmetic_query("7x"));
    assert_eq!(ensure_float_literals("7/5"), "7.0/5.0");
    assert_eq!(ensure_float_literals("1.5+20"), "1.5+20.0");
    assert_eq!(ensure_float_literals("1.5.3"), "1.5.3.0");
    assert_eq!(ensure_float_literals("(3)"), "(3.0)");
}

#[test]
fn file_line_output_is_split_greedily() {
    assert_eq!(parse_file_line("/a/b.rs:12:fn main"), Some(("/a/b.rs".to_string(), "12".to_string())));
    assert_eq!(parse_file_line("/a/b.rs:12:x:7:y"), Some(("/a/b.rs:12:x".to_string(), "7".to_string())));
    assert_eq!(parse_file_line("/a/b.rs:12"), None);
    assert_eq!(parse_file_line(":12:x"), None);
    assert_eq!(parse_file_line("/a/b.rs::x"), None);
}

#[test]
fn terminal_flags() {
    assert_eq!(terminal_command_flag("gnome-terminal"), "--");
    assert_eq!(terminal_command_flag("kitty"), "--");
    assert_eq!(terminal_command_flag("foot"), "-e");
    assert_eq!(terminal_command_flag("xterm"), "-e");
}

#[test]
fn icons_for_display() {
    let mut r = SearchResult {
        id: "1".to_string(),
        name: "n".to_string(),
        description: String::new(),
        icon: Some(IconData::File("/tmp/t.png".to_string())),
        app_icon: "org.app".to_string(),
        bus_name: "b".to_string(),
        object_path: "/p".to_string(),
    };
    assert_eq!(result_icon(&r), IconChoice::FromFile("/tmp/t.png".to_string()));
    r.icon = Some(IconData::Themed("folder".to_string()));
    assert_eq!(result_icon(&r), IconChoice::Named("folder".to_string()));
    r.icon = Some(IconData::Themed(String::new()));
    assert_eq!(result_icon(&r), IconChoice::Named("org.app".to_string()));
    r.icon = None;
    r.app_icon = String::new();
    assert_eq!(result_icon(&r), IconChoice::Named("system-search".to_string()));
    assert_eq!(app_icon(""), IconChoice::Named("application-x-executable".to_string()));
    assert_eq!(app_icon("/usr/share/pixmaps/x.png"), IconChoice::FromFile("/usr/share/pixmaps/x.png".to_string()));
    assert_eq!(app_icon("firefox"), IconChoice::Named("firefox".to_string()));
}

#[test]
fn output_lines_act_by_mode() {
    assert_eq!(
        line_action(AppMode::ObsidianGrep, "a.md:3:x"),
        LineAction::VaultGrepLine(VaultTarget::FileLine("a.md".to_string(), "3".to_string()))
    );
    assert_eq!(line_action(AppMode::Obsidian, "/v/a.md"), LineAction::VaultFile("/v/a.md".to_string()));
    assert_eq!(line_action(AppMode::FileSearch, "/home/u/f.txt"), LineAction::FileOrLine("/home/u/f.txt".to_string()));
}
