//! The checks, one by one: what each says for every answer the machine can give.

use crate::config::model::SyncEngine;
use crate::platform;
use crate::platform::distro;
use crate::platform::distro::{Distro, Family, Package};
use crate::platform::version;
use crate::platform::version::{first_line, gamescope_version, Ran};
use crate::platform::{Check, Finding, Level, Report};
use crate::text::chars::same_text;
use crate::text::glue::{glue2, glue3, glue4};
use crate::text::number;
use crate::text::number::number_text;
use vstd::prelude::*;

verus! {

/// The gamescope that kotori's arguments are made for.
pub const MIN_GAMESCOPE_MAJOR: u32 = 3;

pub const MIN_GAMESCOPE_MINOR: u32 = 16;

/// How long a program may take to answer, in seconds.
pub const PROBE_TIMEOUT_SECONDS: u64 = 5;

pub open spec fn command(family: Family, name: &'static str) -> Seq<char> {
    distro::install_command(family, Package { arch: name, debian: name, fedora: name })
}

// ---------------------------------------------------------------------------------------------
// gamescope and wine

/// A version is older than the one that kotori needs.
pub open spec fn is_too_old(major: nat, minor: nat) -> bool {
    major < MIN_GAMESCOPE_MAJOR || (major == MIN_GAMESCOPE_MAJOR && minor < MIN_GAMESCOPE_MINOR)
}

pub open spec fn gamescope_finding(family: Family, ran: Ran) -> Finding {
    match ran {
        Ran::Out(text) => {
            let detail = version::short_line(text@, "已安装"@);
            let ready = platform::ready_finding(
                "gamescope"@,
                "gamescope"@,
                Level::Required,
                detail,
                "启动游戏与缩放增强"@,
            );
            match version::version_from(detail, 0) {
                Some((major, minor)) => if is_too_old(major, minor) {
                    platform::degraded_finding(
                        "gamescope"@,
                        "gamescope"@,
                        Level::Required,
                        detail + " —— 比 kotori 要求的 3.16 旧"@,
                        "旧版没有 `-S`/`-F`/`--sharpness` 这套参数,缩放不会按你设的那样生效;升级它"@,
                        command(family, "gamescope"),
                    )
                } else {
                    ready
                },
                None => ready,
            }
        },
        Ran::Timeout => platform::degraded_finding(
            "gamescope"@,
            "gamescope"@,
            Level::Required,
            "装了,但 `gamescope --version` 没有在 5 秒内回答"@,
            "启动游戏时可能会卡住,值得先手动跑一次看看"@,
            Seq::empty(),
        ),
        Ran::Failed => platform::missing_finding(
            "gamescope"@,
            "gamescope"@,
            Level::Required,
            "没有它就启动不了游戏:kotori 是用 gamescope 把 wine 拉起来的,缩放增强(FSR / 整数缩放 / 锐度)也全靠它"@,
            command(family, "gamescope"),
        ),
    }
}

pub fn gamescope(distro: &Distro, ran: &Ran) -> (check: Check)
    ensures
        check@ == gamescope_finding(distro.family, *ran),
{
    let install = distro.install(Package::same("gamescope"));
    match ran {
        Ran::Out(text) => {
            let detail = first_line(text.as_str(), "已安装");
            let old = match gamescope_version(detail.as_str()) {
                Some((major, minor)) => major < MIN_GAMESCOPE_MAJOR || (major
                    == MIN_GAMESCOPE_MAJOR && minor < MIN_GAMESCOPE_MINOR),
                None => false,
            };
            if old {
                Check::degraded(
                    "gamescope",
                    "gamescope",
                    Level::Required,
                    glue2(detail.as_str(), " —— 比 kotori 要求的 3.16 旧"),
                    "旧版没有 `-S`/`-F`/`--sharpness` 这套参数,缩放不会按你设的那样生效;升级它",
                    install,
                )
            } else {
                Check::ready("gamescope", "gamescope", detail, "启动游戏与缩放增强")
            }
        },
        Ran::Timeout => Check::degraded(
            "gamescope",
            "gamescope",
            Level::Required,
            "装了,但 `gamescope --version` 没有在 5 秒内回答".to_owned(),
            "启动游戏时可能会卡住,值得先手动跑一次看看",
            String::new(),
        ),
        Ran::Failed => Check::missing(
            "gamescope",
            "gamescope",
            "没有它就启动不了游戏:kotori 是用 gamescope 把 wine 拉起来的,缩放增强(FSR / 整数缩放 / 锐度)也全靠它",
            install,
        ),
    }
}

pub open spec fn wine_finding(family: Family, ran: Ran) -> Finding {
    match ran {
        Ran::Out(text) => platform::ready_finding(
            "wine"@,
            "wine"@,
            Level::Required,
            version::short_line(text@, "已安装"@),
            "启动 Windows 游戏、管理 prefix"@,
        ),
        Ran::Timeout => platform::degraded_finding(
            "wine"@,
            "wine"@,
            Level::Required,
            "装了,但 `wine --version` 没有在 5 秒内回答"@,
            "启动游戏时可能会卡住,值得先手动跑一次看看"@,
            Seq::empty(),
        ),
        Ran::Failed => platform::missing_finding(
            "wine"@,
            "wine"@,
            Level::Required,
            "没有它就启动不了 Windows 游戏;已经配好的 wine prefix 也需要它来跑"@,
            command(family, "wine"),
        ),
    }
}

pub fn wine(distro: &Distro, ran: &Ran) -> (check: Check)
    ensures
        check@ == wine_finding(distro.family, *ran),
{
    let install = distro.install(Package::same("wine"));
    match ran {
        Ran::Out(text) => Check::ready(
            "wine",
            "wine",
            first_line(text.as_str(), "已安装"),
            "启动 Windows 游戏、管理 prefix",
        ),
        Ran::Timeout => Check::degraded(
            "wine",
            "wine",
            Level::Required,
            "装了,但 `wine --version` 没有在 5 秒内回答".to_owned(),
            "启动游戏时可能会卡住,值得先手动跑一次看看",
            String::new(),
        ),
        Ran::Failed => Check::missing(
            "wine",
            "wine",
            "没有它就启动不了 Windows 游戏;已经配好的 wine prefix 也需要它来跑",
            install,
        ),
    }
}

// ---------------------------------------------------------------------------------------------
// The two ways to sync

/// A program that was found, and how it answered.
pub struct Found {
    pub path: String,
    pub ran: Ran,
}

pub open spec fn rclone_finding(family: Family, level: Level, found: Option<Found>) -> Finding {
    let missing = platform::missing_finding(
        "rclone"@,
        "rclone"@,
        level,
        "没有它就用不了 rclone 那种同步方式(默认就是它);选了 kopia 的机器可以不要"@,
        command(family, "rclone"),
    );
    match found {
        None => missing,
        Some(found) => match found.ran {
            Ran::Out(text) => platform::ready_finding(
                "rclone"@,
                "rclone"@,
                level,
                version::short_line(text@, "已安装"@) + "（"@ + found.path@ + "）"@,
                "云存档同步"@,
            ),
            Ran::Timeout => platform::degraded_finding(
                "rclone"@,
                "rclone"@,
                level,
                "找到了 "@ + found.path@ + ",但 `rclone version` 没有在 5 秒内回答"@,
                "同步可能会一直卡着,值得先手动跑一次看看"@,
                Seq::empty(),
            ),
            Ran::Failed => missing,
        },
    }
}

/// rclone is required only where it is the way to sync: with kopia nothing ever comes to it.
pub fn rclone(distro: &Distro, level: Level, found: &Option<Found>) -> (check: Check)
    ensures
        check@ == rclone_finding(distro.family, level, *found),
{
    let install = distro.install(Package::same("rclone"));
    let impact = "没有它就用不了 rclone 那种同步方式(默认就是它);选了 kopia 的机器可以不要";
    match found {
        None => Check::missing_at("rclone", "rclone", level, impact, install),
        Some(found) => match &found.ran {
            Ran::Out(text) => {
                let line = first_line(text.as_str(), "已安装");
                Check::ready_at(
                    "rclone",
                    "rclone",
                    level,
                    glue4(line.as_str(), "（", found.path.as_str(), "）"),
                    "云存档同步",
                )
            },
            Ran::Timeout => Check::degraded(
                "rclone",
                "rclone",
                level,
                glue3(
                    "找到了 ",
                    found.path.as_str(),
                    ",但 `rclone version` 没有在 5 秒内回答",
                ),
                "同步可能会一直卡着,值得先手动跑一次看看",
                String::new(),
            ),
            Ran::Failed => Check::missing_at("rclone", "rclone", level, impact, install),
        },
    }
}

pub open spec fn kopia_finding(family: Family, found: Option<Found>) -> Finding {
    let missing = platform::missing_finding(
        "kopia"@,
        "kopia"@,
        Level::Optional,
        "没有它就用不了 kopia 那种同步方式(增量、去重、自带加密);rclone 那条路不受影响"@,
        distro::install_command(
            family,
            Package { arch: "archlinuxcn/kopia", debian: "kopia", fedora: "kopia" },
        ),
    );
    match found {
        None => missing,
        Some(found) => match found.ran {
            Ran::Out(text) => platform::ready_finding(
                "kopia"@,
                "kopia"@,
                Level::Optional,
                version::short_line(text@, "已安装"@) + "（"@ + found.path@ + "）"@,
                "kopia 同步方式(增量、去重、加密)"@,
            ),
            Ran::Timeout => platform::degraded_finding(
                "kopia"@,
                "kopia"@,
                Level::Optional,
                "找到了 "@ + found.path@ + ",但 `kopia --version` 没有在 5 秒内回答"@,
                "同步可能会一直卡着,值得先手动跑一次看看"@,
                Seq::empty(),
            ),
            Ran::Failed => missing,
        },
    }
}

/// kopia is never required: without it the other way to sync goes on as before.
pub fn kopia(distro: &Distro, found: &Option<Found>) -> (check: Check)
    ensures
        check@ == kopia_finding(distro.family, *found),
{
    let install = distro.install(Package::per_distro("archlinuxcn/kopia", "kopia", "kopia"));
    let impact = "没有它就用不了 kopia 那种同步方式(增量、去重、自带加密);rclone 那条路不受影响";
    match found {
        None => Check::missing_optional("kopia", "kopia", impact, install),
        Some(found) => match &found.ran {
            Ran::Out(text) => {
                let line = first_line(text.as_str(), "已安装");
                Check::ready_optional(
                    "kopia",
                    "kopia",
                    glue4(line.as_str(), "（", found.path.as_str(), "）"),
                    "kopia 同步方式(增量、去重、加密)",
                )
            },
            Ran::Timeout => Check::degraded(
                "kopia",
                "kopia",
                Level::Optional,
                glue3(
                    "找到了 ",
                    found.path.as_str(),
                    ",但 `kopia --version` 没有在 5 秒内回答",
                ),
                "同步可能会一直卡着,值得先手动跑一次看看",
                String::new(),
            ),
            Ran::Failed => Check::missing_optional("kopia", "kopia", impact, install),
        },
    }
}

// ---------------------------------------------------------------------------------------------
// The desktop

pub open spec fn file_dialog_finding(family: Family, problem: Option<String>) -> Finding {
    match problem {
        None => platform::ready_finding(
            "file-dialog"@,
            "系统文件对话框"@,
            Level::Optional,
            "桌面门户可用,各处「浏览…」都能弹出对话框"@,
            "挑游戏目录 / exe / wine prefix / 存档位置"@,
        ),
        Some(reason) => platform::degraded_finding(
            "file-dialog"@,
            "系统文件对话框"@,
            Level::Optional,
            reason@,
            "「浏览…」按钮会灰掉,路径只能手打 —— 功能本身不受影响"@,
            command(family, "xdg-desktop-portal"),
        ),
    }
}

pub fn file_dialog(distro: &Distro, problem: &Option<String>) -> (check: Check)
    ensures
        check@ == file_dialog_finding(distro.family, *problem),
{
    match problem {
        None => Check::ready_optional(
            "file-dialog",
            "系统文件对话框",
            "桌面门户可用,各处「浏览…」都能弹出对话框".to_owned(),
            "挑游戏目录 / exe / wine prefix / 存档位置",
        ),
        Some(reason) => Check::degraded(
            "file-dialog",
            "系统文件对话框",
            Level::Optional,
            reason.clone(),
            "「浏览…」按钮会灰掉,路径只能手打 —— 功能本身不受影响",
            distro.install(Package::same("xdg-desktop-portal")),
        ),
    }
}

pub open spec fn window_control_finding(kde: bool) -> Finding {
    if kde {
        platform::ready_finding(
            "window-control"@,
            "窗口尺寸控制"@,
            Level::Optional,
            "KDE Plasma:运行时改变游戏窗口尺寸可用"@,
            "按比例放大 / 缩小正在玩的游戏窗口"@,
        )
    } else {
        platform::degraded_finding(
            "window-control"@,
            "窗口尺寸控制"@,
            Level::Optional,
            "只在 KDE Plasma 上实现(平铺桌面里窗口尺寸是布局的事)"@,
            "改窗口尺寸会如实回「做不到」;滤镜与锐度仍然可用"@,
            Seq::empty(),
        )
    }
}

pub fn window_control(kde: bool) -> (check: Check)
    ensures
        check@ == window_control_finding(kde),
{
    if kde {
        Check::ready_optional(
            "window-control",
            "窗口尺寸控制",
            "KDE Plasma:运行时改变游戏窗口尺寸可用".to_owned(),
            "按比例放大 / 缩小正在玩的游戏窗口",
        )
    } else {
        Check::degraded(
            "window-control",
            "窗口尺寸控制",
            Level::Optional,
            "只在 KDE Plasma 上实现(平铺桌面里窗口尺寸是布局的事)".to_owned(),
            "改窗口尺寸会如实回「做不到」;滤镜与锐度仍然可用",
            String::new(),
        )
    }
}

pub open spec fn resolution_finding(found: Option<(u32, u32)>) -> Finding {
    match found {
        Some((width, height)) => platform::ready_finding(
            "resolution"@,
            "输出分辨率探测"@,
            Level::Optional,
            "探测到 "@ + number::decimal(width as nat) + "×"@ + number::decimal(height as nat),
            "窗口尺寸留空时按屏幕开窗"@,
        ),
        None => platform::degraded_finding(
            "resolution"@,
            "输出分辨率探测"@,
            Level::Optional,
            "没探测到(桌面不认识 / 工具不在)"@,
            "留空时按内置默认开窗;也可以设 KOTORI_OUTPUT_RESOLUTION=宽x高"@,
            Seq::empty(),
        ),
    }
}

pub fn resolution(found: Option<(u32, u32)>) -> (check: Check)
    ensures
        check@ == resolution_finding(found),
{
    match found {
        Some((width, height)) => Check::ready_optional(
            "resolution",
            "输出分辨率探测",
            glue4(
                "探测到 ",
                number_text(width as u64).as_str(),
                "×",
                number_text(height as u64).as_str(),
            ),
            "窗口尺寸留空时按屏幕开窗",
        ),
        None => Check::degraded(
            "resolution",
            "输出分辨率探测",
            Level::Optional,
            "没探测到(桌面不认识 / 工具不在)".to_owned(),
            "留空时按内置默认开窗;也可以设 KOTORI_OUTPUT_RESOLUTION=宽x高",
            String::new(),
        ),
    }
}

pub open spec fn keyring_finding(family: Family, problem: Option<String>) -> Finding {
    match problem {
        None => platform::ready_finding(
            "keyring"@,
            "系统密钥环"@,
            Level::Optional,
            "可用:凭据可以交给桌面的密钥环保管"@,
            "零输入地保管 B2 凭据"@,
        ),
        Some(reason) => platform::degraded_finding(
            "keyring"@,
            "系统密钥环"@,
            Level::Optional,
            reason@,
            "凭据改用权限 0600 的明文文件,或者你自己设的主密码文件 —— 两者都是正常状态"@,
            distro::install_command(
                family,
                Package { arch: "libsecret", debian: "libsecret-tools", fedora: "libsecret" },
            ),
        ),
    }
}

/// A machine without a keyring is not a broken one: credentials then lie in a file of their own.
pub fn keyring(distro: &Distro, problem: &Option<String>) -> (check: Check)
    ensures
        check@ == keyring_finding(distro.family, *problem),
{
    match problem {
        None => Check::ready_optional(
            "keyring",
            "系统密钥环",
            "可用:凭据可以交给桌面的密钥环保管".to_owned(),
            "零输入地保管 B2 凭据",
        ),
        Some(reason) => Check::degraded(
            "keyring",
            "系统密钥环",
            Level::Optional,
            reason.clone(),
            "凭据改用权限 0600 的明文文件,或者你自己设的主密码文件 —— 两者都是正常状态",
            distro.install(Package::per_distro("libsecret", "libsecret-tools", "libsecret")),
        ),
    }
}

// ---------------------------------------------------------------------------------------------
// The whole report

/// What the machine answered.
pub struct Answers {
    pub gamescope: Ran,
    pub wine: Ran,
    pub rclone: Option<Found>,
    pub kopia: Option<Found>,
    /// What stands in the way of a file dialog.
    pub file_dialog: Option<String>,
    pub kde: bool,
    pub resolution: Option<(u32, u32)>,
    /// What stands in the way of the keyring.
    pub keyring: Option<String>,
}

pub open spec fn rclone_level(engine: SyncEngine) -> Level {
    match engine {
        SyncEngine::Rclone => Level::Required,
        SyncEngine::Kopia => Level::Optional,
    }
}

/// The lines of the report. Starting games and controlling their windows is a matter of other
/// systems than Windows, and there the lines on it are left out altogether.
pub open spec fn report_findings(
    os: Seq<char>,
    family: Family,
    engine: SyncEngine,
    answers: Answers,
) -> Seq<Finding> {
    let rclone = rclone_finding(family, rclone_level(engine), answers.rclone);
    let kopia = kopia_finding(family, answers.kopia);
    let file_dialog = file_dialog_finding(family, answers.file_dialog);
    let resolution = resolution_finding(answers.resolution);
    let keyring = keyring_finding(family, answers.keyring);
    if os == "windows"@ {
        seq![rclone, kopia, file_dialog, resolution, keyring]
    } else {
        seq![
            gamescope_finding(family, answers.gamescope),
            wine_finding(family, answers.wine),
            rclone,
            kopia,
            file_dialog,
            window_control_finding(answers.kde),
            resolution,
            keyring,
        ]
    }
}

pub fn report(os: &str, distro: &Distro, engine: SyncEngine, answers: &Answers) -> (report: Report)
    ensures
        report.platform@ == platform::platform_name(os@),
        report.distro@ == distro.name@,
        platform::findings(report.checks@) == report_findings(
            os@,
            distro.family,
            engine,
            *answers,
        ),
        report.ok == platform::nothing_required_is_missing(
            report_findings(os@, distro.family, engine, *answers),
        ),
{
    let level = match engine {
        SyncEngine::Rclone => Level::Required,
        SyncEngine::Kopia => Level::Optional,
    };
    let windows = same_text(os, "windows");
    let mut checks: Vec<Check> = Vec::new();
    if !windows {
        checks.push(gamescope(distro, &answers.gamescope));
        checks.push(wine(distro, &answers.wine));
    }
    checks.push(rclone(distro, level, &answers.rclone));
    checks.push(kopia(distro, &answers.kopia));
    checks.push(file_dialog(distro, &answers.file_dialog));
    if !windows {
        checks.push(window_control(answers.kde));
    }
    checks.push(resolution(answers.resolution));
    checks.push(keyring(distro, &answers.keyring));
    assert(platform::findings(checks@) =~= report_findings(
        os@,
        distro.family,
        engine,
        *answers,
    ));
    Report::from_checks(os, distro.name.as_str(), checks)
}

/// Where kopia is the way to sync, a machine without rclone is as good as any other.
pub proof fn rclone_is_required_only_where_it_syncs(family: Family, found: Option<Found>)
    ensures
        !platform::is_fatal(rclone_finding(family, rclone_level(SyncEngine::Kopia), found)),
        !platform::is_fatal(kopia_finding(family, found)),
{
}

/// A program that does not answer in time is never called missing.
pub proof fn a_silent_program_is_not_missing(family: Family, level: Level, found: Found)
    requires
        found.ran is Timeout,
    ensures
        gamescope_finding(family, found.ran).state == platform::State::Degraded,
        wine_finding(family, found.ran).state == platform::State::Degraded,
        rclone_finding(family, level, Some(found)).state == platform::State::Degraded,
        kopia_finding(family, Some(found)).state == platform::State::Degraded,
{
}

/// An old gamescope is neither ready nor missing.
pub proof fn an_old_gamescope_is_degraded(family: Family, text: String, major: nat, minor: nat)
    requires
        version::version_from(version::short_line(text@, "已安装"@), 0) == Some((major, minor)),
    ensures
        gamescope_finding(family, Ran::Out(text)).state == if is_too_old(major, minor) {
            platform::State::Degraded
        } else {
            platform::State::Ready
        },
{
}

/// gamescope has to be 3.16 or later.
pub proof fn gamescope_has_to_be_new_enough(major: nat, minor: nat)
    ensures
        is_too_old(major, minor) <==> major < 3 || (major == 3 && minor < 16),
{
}

/// How a program ended decides over its line: what answers is ready, what does not answer in time is
/// not as it should be, and what cannot be started is missing and can be installed.
pub proof fn an_answer_decides(family: Family, level: Level, ran: Ran, place: String)
    ensures
        wine_finding(family, ran).id == "wine"@,
        wine_finding(family, ran).level == Level::Required,
        wine_finding(family, ran).state == platform::State::Ready <==> ran is Out,
        wine_finding(family, ran).state == platform::State::Missing <==> ran is Failed,
        wine_finding(Family::Arch, Ran::Failed).install == "sudo pacman -S "@ + "wine"@,
        gamescope_finding(family, ran).id == "gamescope"@,
        gamescope_finding(family, ran).level == Level::Required,
        gamescope_finding(family, ran).state == platform::State::Missing <==> ran is Failed,
        gamescope_finding(Family::Arch, Ran::Failed).install == "sudo pacman -S "@ + "gamescope"@,
        rclone_finding(family, level, None).state == platform::State::Missing,
        rclone_finding(Family::Arch, level, None).install == "sudo pacman -S "@ + "rclone"@,
        rclone_finding(family, level, Some(Found { path: place, ran })).id == "rclone"@,
        rclone_finding(family, level, Some(Found { path: place, ran })).level == level,
        rclone_finding(family, level, Some(Found { path: place, ran })).state
            == platform::State::Ready <==> ran is Out,
        rclone_finding(family, level, Some(Found { path: place, ran })).state
            == platform::State::Missing <==> ran is Failed,
        kopia_finding(family, None).state == platform::State::Missing,
        kopia_finding(Family::Arch, None).install == "sudo pacman -S "@ + "archlinuxcn/kopia"@,
        kopia_finding(Family::Debian, None).install == "sudo apt install "@ + "kopia"@,
        kopia_finding(family, Some(Found { path: place, ran })).id == "kopia"@,
        kopia_finding(family, Some(Found { path: place, ran })).level == Level::Optional,
        kopia_finding(family, Some(Found { path: place, ran })).state == platform::State::Ready
            <==> ran is Out,
        kopia_finding(family, Some(Found { path: place, ran })).state == platform::State::Missing
            <==> ran is Failed,
{
}

/// What a program said is told, and for those that are looked for also where they were found.
pub proof fn what_was_said_is_told(family: Family, level: Level, text: String, place: String)
    ensures
        wine_finding(family, Ran::Out(text)).detail == version::short_line(text@, "已安装"@),
        rclone_finding(family, level, Some(Found { path: place, ran: Ran::Out(text) })).detail
            == version::short_line(text@, "已安装"@) + "（"@ + place@ + "）"@,
        kopia_finding(family, Some(Found { path: place, ran: Ran::Out(text) })).detail
            == version::short_line(text@, "已安装"@) + "（"@ + place@ + "）"@,
        version::version_from(version::short_line(text@, "已安装"@), 0) is None
            ==> gamescope_finding(family, Ran::Out(text)).state == platform::State::Ready,
{
}

/// What the desktop offers is never required; what stands in the way of it is told in its own
/// words.
pub proof fn the_desktop_is_optional(family: Family, problem: String, kde: bool, size: (u32, u32))
    ensures
        file_dialog_finding(family, None).state == platform::State::Ready,
        file_dialog_finding(family, Some(problem)).state == platform::State::Degraded,
        file_dialog_finding(family, Some(problem)).detail == problem@,
        file_dialog_finding(family, Some(problem)).level == Level::Optional,
        file_dialog_finding(Family::Arch, Some(problem)).install == "sudo pacman -S "@
            + "xdg-desktop-portal"@,
        window_control_finding(kde).state == (if kde {
            platform::State::Ready
        } else {
            platform::State::Degraded
        }),
        window_control_finding(kde).level == Level::Optional,
        resolution_finding(Some(size)).state == platform::State::Ready,
        resolution_finding(Some(size)).detail == "探测到 "@ + number::decimal(size.0 as nat) + "×"@
            + number::decimal(size.1 as nat),
        resolution_finding(None).state == platform::State::Degraded,
        resolution_finding(None).level == Level::Optional,
        keyring_finding(family, None).state == platform::State::Ready,
        keyring_finding(family, Some(problem)).state == platform::State::Degraded,
        keyring_finding(family, Some(problem)).detail == problem@,
        keyring_finding(family, Some(problem)).level == Level::Optional,
        keyring_finding(Family::Debian, Some(problem)).install == "sudo apt install "@
            + "libsecret-tools"@,
        keyring_finding(Family::Arch, Some(problem)).install == "sudo pacman -S "@ + "libsecret"@,
{
}

/// The lines of a report come in a fixed order, each for its own answer. On Windows there are none
/// on gamescope, wine and window control. rclone is required where it is the way to sync.
pub proof fn the_order_of_a_report(os: Seq<char>, family: Family, engine: SyncEngine, answers: Answers)
    ensures
        ({
            let list = report_findings(os, family, engine, answers);
            let level = if engine == SyncEngine::Rclone {
                Level::Required
            } else {
                Level::Optional
            };
            if os == "windows"@ {
                &&& list.len() == 5
                &&& list[0] == rclone_finding(family, level, answers.rclone)
                &&& list[1] == kopia_finding(family, answers.kopia)
                &&& list[2] == file_dialog_finding(family, answers.file_dialog)
                &&& list[3] == resolution_finding(answers.resolution)
                &&& list[4] == keyring_finding(family, answers.keyring)
            } else {
                &&& list.len() == 8
                &&& list[0] == gamescope_finding(family, answers.gamescope)
                &&& list[1] == wine_finding(family, answers.wine)
                &&& list[2] == rclone_finding(family, level, answers.rclone)
                &&& list[3] == kopia_finding(family, answers.kopia)
                &&& list[4] == file_dialog_finding(family, answers.file_dialog)
                &&& list[5] == window_control_finding(answers.kde)
                &&& list[6] == resolution_finding(answers.resolution)
                &&& list[7] == keyring_finding(family, answers.keyring)
            }
        }),
{
}

} // verus!
