//! What this machine has, and what it lacks.

use kotori::config::model::SyncEngine;
use kotori::json::Json;
use kotori::platform::distro::{Distro, Family, Package};
use kotori::platform::probes::{
    file_dialog, gamescope, keyring, kopia, rclone, report, resolution, window_control, wine,
    Answers, Found, MIN_GAMESCOPE_MAJOR, MIN_GAMESCOPE_MINOR,
};
use kotori::platform::version::{
    finished, first_line, gamescope_version, strip_ansi, strip_log_prefix, Ran,
};
use kotori::platform::{platform, Check, Level, Report, State};

const MIN_GAMESCOPE: (u32, u32) = (MIN_GAMESCOPE_MAJOR, MIN_GAMESCOPE_MINOR);

fn check(level: Level, state: State) -> Check {
    Check {
        id: "x",
        title: "x".to_string(),
        level,
        state,
        detail: String::new(),
        impact: String::new(),
        install: String::new(),
    }
}

fn from_checks(checks: Vec<Check>) -> Report {
    Report::from_checks("linux", "", checks)
}

#[test]
fn a_missing_optional_dependency_does_not_make_the_report_fail() {
    let report = from_checks(vec![
        check(Level::Required, State::Ready),
        check(Level::Optional, State::Missing),
        check(Level::Optional, State::Degraded),
    ]);
    assert!(report.ok, "{report:?}");

    let report = from_checks(vec![
        check(Level::Required, State::Ready),
        check(Level::Required, State::Missing),
    ]);
    assert!(!report.ok);
}

#[test]
fn a_required_dependency_that_answers_badly_is_not_reported_as_missing() {
    let report = from_checks(vec![check(Level::Required, State::Degraded)]);
    assert!(report.ok);
}

#[test]
fn the_install_command_follows_the_distro() {
    let arch = Distro::parse("ID=arch\nPRETTY_NAME=\"Arch Linux\"\n");
    assert_eq!(arch.name, "Arch Linux");
    assert_eq!(arch.install(Package::same("rclone")), "sudo pacman -S rclone");

    let debian = Distro::parse("ID=ubuntu\nID_LIKE=debian\nPRETTY_NAME=\"Ubuntu 24.04\"\n");
    assert_eq!(debian.install(Package::same("rclone")), "sudo apt install rclone");
    assert_eq!(
        debian.install(Package::per_distro("libsecret", "libsecret-tools", "libsecret")),
        "sudo apt install libsecret-tools"
    );

    let fedora = Distro::parse("ID=fedora\nPRETTY_NAME=\"Fedora 41\"\n");
    assert_eq!(fedora.install(Package::same("rclone")), "sudo dnf install rclone");

    assert_eq!(
        arch.install(Package::per_distro("archlinuxcn/kopia", "kopia", "kopia")),
        "sudo pacman -S archlinuxcn/kopia"
    );

    let unknown = Distro::parse("ID=nixos\nPRETTY_NAME=\"NixOS\"\n");
    assert_eq!(unknown.install(Package::same("rclone")), "");
}

#[test]
fn os_release_is_read_without_assuming_quotes_and_order() {
    let distro = Distro::parse(
        "# comment\nPRETTY_NAME='Manjaro Linux'\nID=manjaro\nID_LIKE=\"arch\"\nHOME_URL=x\n",
    );
    assert_eq!(distro.name, "Manjaro Linux");
    assert_eq!(distro.family, Family::Arch);
}

#[test]
fn a_version_line_becomes_one_plain_line() {
    let raw = "\u{1b}[0;34m[gamescope]\u{1b}[0m \u{1b}[0;37m[Info]\u{1b}[0m  console: gamescope version 3.16.28 (gcc)\n第二行\n";
    assert_eq!(first_line(raw, "已安装"), "gamescope version 3.16.28 (gcc)");
    assert_eq!(first_line("wine-10.9\n", "已安装"), "wine-10.9");
    assert_eq!(first_line("   \n\n", "已安装"), "已安装");
    assert_eq!(first_line("0.22.3 build: xyz\n", "已安装"), "0.22.3 build: xyz");
}

#[test]
fn the_gamescope_version_is_read_out_of_a_noisy_line() {
    assert_eq!(gamescope_version("gamescope version 3.16.28 (gcc 16.2.1)"), Some((3, 16)));
    assert_eq!(gamescope_version("wine-10.9"), Some((10, 9)));
    assert_eq!(gamescope_version("gamescope version 4.0"), Some((4, 0)));
    assert_eq!(gamescope_version("gamescope (unknown)"), None);
    assert_eq!(gamescope_version(""), None);
}

#[test]
fn an_older_gamescope_is_degraded_not_ready() {
    let old = gamescope_version("gamescope version 3.15.1");
    assert!(old.is_some_and(|version| version < MIN_GAMESCOPE));
    let new = gamescope_version("gamescope version 3.16.0");
    assert!(new.is_some_and(|version| version >= MIN_GAMESCOPE));

    let arch = Distro::parse("ID=arch\n");
    let old = gamescope(&arch, &Ran::Out("gamescope version 3.15.1".to_string()));
    assert_eq!(old.state, State::Degraded);
    assert_eq!(old.install, "sudo pacman -S gamescope");
    let new = gamescope(&arch, &Ran::Out("gamescope version 3.16.0".to_string()));
    assert_eq!(new.state, State::Ready);
}

#[test]
fn the_wire_shape_is_what_the_settings_page_reads() {
    let value = Check {
        id: "rclone",
        title: "rclone".to_string(),
        level: Level::Required,
        state: State::Ready,
        detail: "rclone v1.75.1".to_string(),
        impact: "云存档同步".to_string(),
        install: String::new(),
    }
    .to_json();
    assert_eq!(value.text_at("level"), Some("required"));
    assert_eq!(value.text_at("state"), Some("ready"));
    assert_eq!(value.text_at("install"), Some(""));
    assert!(value.get("id").is_some() && value.get("impact").is_some());
}

#[test]
fn kopia_is_an_alternative_not_a_requirement() {
    let report = from_checks(vec![
        check(Level::Required, State::Ready),
        check(Level::Optional, State::Missing),
    ]);
    assert!(report.ok, "{report:?}");
    assert_eq!(
        Check::missing_optional("kopia", "kopia", "x", String::new()).level,
        Level::Optional
    );
    assert_eq!(
        Check::ready_optional("kopia", "kopia", "x".to_string(), "y").state,
        State::Ready
    );
}

#[test]
fn decorations_are_taken_off() {
    assert_eq!(strip_ansi("\u{1b}[1;31mred\u{1b}[0m!"), "red!");
    assert_eq!(strip_ansi("plain"), "plain");
    assert_eq!(strip_log_prefix("[a] [b] rest"), "rest");
    assert_eq!(strip_log_prefix("rest"), "rest");
    let long = "x".repeat(500);
    assert!(first_line(&long, "y").chars().count() <= 120);
}

#[test]
fn a_program_speaks_on_either_output() {
    match finished(b"out".to_vec(), b"err".to_vec(), true) {
        Ran::Out(text) => assert_eq!(text, "out"),
        _ => panic!("it said something"),
    }
    match finished(b"  ".to_vec(), b"err".to_vec(), false) {
        Ran::Out(text) => assert_eq!(text, "err"),
        _ => panic!("it said something"),
    }
    assert!(matches!(finished(Vec::new(), Vec::new(), false), Ran::Failed));
}

fn answers() -> Answers {
    Answers {
        gamescope: Ran::Out("gamescope version 3.16.28".to_string()),
        wine: Ran::Out("wine-10.9".to_string()),
        rclone: None,
        kopia: Some(Found {
            path: "/usr/bin/kopia".to_string(),
            ran: Ran::Out("0.22.3".to_string()),
        }),
        file_dialog: None,
        kde: false,
        resolution: Some((2560, 1440)),
        keyring: None,
    }
}

#[test]
fn rclone_is_needed_only_where_it_syncs() {
    let arch = Distro::parse("ID=arch\nPRETTY_NAME=\"Arch Linux\"\n");
    let with_rclone = report("linux", &arch, SyncEngine::Rclone, &answers());
    assert!(!with_rclone.ok);
    assert_eq!(with_rclone.checks.len(), 8);
    assert_eq!(with_rclone.distro, "Arch Linux");
    let with_kopia = report("linux", &arch, SyncEngine::Kopia, &answers());
    assert!(with_kopia.ok);
    let on_windows = report("windows", &Distro::unknown(), SyncEngine::Kopia, &answers());
    assert_eq!(on_windows.checks.len(), 5);
    let value = with_kopia.to_json();
    assert_eq!(value.text_at("platform"), Some("linux"));
    assert!(matches!(value.get("ok"), Some(Json::Bool(true))));
    assert_eq!(value.list_at("checks").unwrap().len(), 8);
}

#[test]
fn every_probe_has_its_say() {
    let arch = Distro::parse("ID=arch\n");
    assert_eq!(wine(&arch, &Ran::Failed).state, State::Missing);
    assert_eq!(wine(&arch, &Ran::Timeout).state, State::Degraded);
    assert_eq!(rclone(&arch, Level::Required, &None).state, State::Missing);
    let silent = Some(Found { path: "/usr/bin/rclone".to_string(), ran: Ran::Timeout });
    assert_eq!(rclone(&arch, Level::Required, &silent).state, State::Degraded);
    assert_eq!(kopia(&arch, &None).level, Level::Optional);
    assert_eq!(file_dialog(&arch, &None).state, State::Ready);
    assert_ne!(file_dialog(&arch, &Some("no portal".to_string())).state, State::Ready);
    assert_eq!(window_control(true).state, State::Ready);
    assert_ne!(window_control(false).state, State::Ready);
    assert_eq!(resolution(Some((2560, 1440))).state, State::Ready);
    assert_ne!(resolution(None).state, State::Ready);
    assert_eq!(keyring(&arch, &None).state, State::Ready);
    assert_ne!(keyring(&arch, &Some("locked".to_string())).state, State::Ready);
}

#[test]
fn a_platform_has_one_of_three_names() {
    assert_eq!(platform("linux"), "linux");
    assert_eq!(platform("windows"), "windows");
    assert_eq!(platform("macos"), "other");
}

#[test]
fn checks_are_made_for_each_state() {
    assert_eq!(Check::ready("a", "a", String::new(), "b").level, Level::Required);
    assert_eq!(Check::missing("a", "a", "b", String::new()).state, State::Missing);
    assert_eq!(
        Check::missing_at("a", "a", Level::Optional, "b", String::new()).level,
        Level::Optional
    );
    assert_eq!(
        Check::ready_at("a", "a", Level::Optional, String::new(), "b").level,
        Level::Optional
    );
    let degraded =
        Check::degraded("a", "a", Level::Required, "d".to_string(), "i", "x".to_string());
    assert_eq!(degraded.state, State::Degraded);
    assert_eq!(degraded.install, "x");
}
