//! What is on this machine, and what is lost without it.
//!
//! A check says whether a thing can be used now, and what kotori falls back to without it. It
//! does not stop at "installed": a program that is there and does not answer is neither ready
//! nor missing.

pub mod distro;
pub mod probes;
pub mod version;

use crate::json;
use crate::json::{no_members, text, with, Json, JsonValue};
use crate::text::chars::same_text;
use vstd::prelude::*;

verus! {

/// Whether kotori cannot do without a thing.
#[derive(Debug, Clone, Copy, PartialEq, Eq, Structural)]
pub enum Level {
    Required,
    Optional,
}

#[derive(Debug, Clone, Copy, PartialEq, Eq, Structural)]
pub enum State {
    /// It can be used now.
    Ready,
    /// It can be used, but something about it is not as it should be.
    Degraded,
    /// It is not there.
    Missing,
}

/// One line of the report.
#[derive(Debug)]
pub struct Check {
    pub id: &'static str,
    pub title: String,
    pub level: Level,
    pub state: State,
    /// What is the case now.
    pub detail: String,
    /// What is lost without it.
    pub impact: String,
    /// The command that installs it; empty where there is nothing to install.
    pub install: String,
}

/// What a line of the report says.
#[verifier::ext_equal]
pub struct Finding {
    pub id: Seq<char>,
    pub title: Seq<char>,
    pub level: Level,
    pub state: State,
    pub detail: Seq<char>,
    pub impact: Seq<char>,
    pub install: Seq<char>,
}

impl View for Check {
    type V = Finding;

    open spec fn view(&self) -> Finding {
        Finding {
            id: self.id@,
            title: self.title@,
            level: self.level,
            state: self.state,
            detail: self.detail@,
            impact: self.impact@,
            install: self.install@,
        }
    }
}

/// A line that says that all is well.
pub open spec fn ready_finding(
    id: Seq<char>,
    title: Seq<char>,
    level: Level,
    detail: Seq<char>,
    impact: Seq<char>,
) -> Finding {
    Finding { id, title, level, state: State::Ready, detail, impact, install: Seq::empty() }
}

/// A line that says that something is not as it should be.
pub open spec fn degraded_finding(
    id: Seq<char>,
    title: Seq<char>,
    level: Level,
    detail: Seq<char>,
    impact: Seq<char>,
    install: Seq<char>,
) -> Finding {
    Finding { id, title, level, state: State::Degraded, detail, impact, install }
}

/// A line that says that a thing is not there.
pub open spec fn missing_finding(
    id: Seq<char>,
    title: Seq<char>,
    level: Level,
    impact: Seq<char>,
    install: Seq<char>,
) -> Finding {
    Finding { id, title, level, state: State::Missing, detail: "没找到"@, impact, install }
}

impl Check {
    pub fn ready(id: &'static str, title: &str, detail: String, impact: &str) -> (check: Check)
        ensures
            check@ == ready_finding(id@, title@, Level::Required, detail@, impact@),
    {
        Check::ready_at(id, title, Level::Required, detail, impact)
    }

    pub fn ready_optional(
        id: &'static str,
        title: &str,
        detail: String,
        impact: &str,
    ) -> (check: Check)
        ensures
            check@ == ready_finding(id@, title@, Level::Optional, detail@, impact@),
    {
        Check::ready_at(id, title, Level::Optional, detail, impact)
    }

    pub fn ready_at(
        id: &'static str,
        title: &str,
        level: Level,
        detail: String,
        impact: &str,
    ) -> (check: Check)
        ensures
            check@ == ready_finding(id@, title@, level, detail@, impact@),
    {
        Check {
            id,
            title: title.to_owned(),
            level,
            state: State::Ready,
            detail,
            impact: impact.to_owned(),
            install: String::new(),
        }
    }

    pub fn degraded(
        id: &'static str,
        title: &str,
        level: Level,
        detail: String,
        impact: &str,
        install: String,
    ) -> (check: Check)
        ensures
            check@ == degraded_finding(id@, title@, level, detail@, impact@, install@),
    {
        Check {
            id,
            title: title.to_owned(),
            level,
            state: State::Degraded,
            detail,
            impact: impact.to_owned(),
            install,
        }
    }

    pub fn missing(id: &'static str, title: &str, impact: &str, install: String) -> (check: Check)
        ensures
            check@ == missing_finding(id@, title@, Level::Required, impact@, install@),
    {
        Check::missing_at(id, title, Level::Required, impact, install)
    }

    pub fn missing_optional(
        id: &'static str,
        title: &str,
        impact: &str,
        install: String,
    ) -> (check: Check)
        ensures
            check@ == missing_finding(id@, title@, Level::Optional, impact@, install@),
    {
        Check::missing_at(id, title, Level::Optional, impact, install)
    }

    pub fn missing_at(
        id: &'static str,
        title: &str,
        level: Level,
        impact: &str,
        install: String,
    ) -> (check: Check)
        ensures
            check@ == missing_finding(id@, title@, level, impact@, install@),
    {
        Check {
            id,
            title: title.to_owned(),
            level,
            state: State::Missing,
            detail: "没找到".to_owned(),
            impact: impact.to_owned(),
            install,
        }
    }

    /// A line as the settings page reads it.
    pub fn to_json(&self) -> (out: Json)
        ensures
            out@ == finding_json(self@),
    {
        let level = match self.level {
            Level::Required => "required",
            Level::Optional => "optional",
        };
        let state = match self.state {
            State::Ready => "ready",
            State::Degraded => "degraded",
            State::Missing => "missing",
        };
        let out = with(no_members(), "id", text(self.id));
        let out = with(out, "title", text(self.title.as_str()));
        let out = with(out, "level", text(level));
        let out = with(out, "state", text(state));
        let out = with(out, "detail", text(self.detail.as_str()));
        let out = with(out, "impact", text(self.impact.as_str()));
        let out = with(out, "install", text(self.install.as_str()));
        assert(json::members_view(out@) =~= finding_members(self@));
        Json::Object(out)
    }
}

pub open spec fn level_word(level: Level) -> Seq<char> {
    match level {
        Level::Required => "required"@,
        Level::Optional => "optional"@,
    }
}

pub open spec fn state_word(state: State) -> Seq<char> {
    match state {
        State::Ready => "ready"@,
        State::Degraded => "degraded"@,
        State::Missing => "missing"@,
    }
}

pub open spec fn finding_members(finding: Finding) -> Seq<(Seq<char>, JsonValue)> {
    seq![
        ("id"@, JsonValue::Text(finding.id)),
        ("title"@, JsonValue::Text(finding.title)),
        ("level"@, JsonValue::Text(level_word(finding.level))),
        ("state"@, JsonValue::Text(state_word(finding.state))),
        ("detail"@, JsonValue::Text(finding.detail)),
        ("impact"@, JsonValue::Text(finding.impact)),
        ("install"@, JsonValue::Text(finding.install)),
    ]
}

pub open spec fn finding_json(finding: Finding) -> JsonValue {
    JsonValue::Object(finding_members(finding))
}

// ---------------------------------------------------------------------------------------------
// The report

#[derive(Debug)]
pub struct Report {
    /// `linux`, `windows` or `other`.
    pub platform: &'static str,
    /// The name of the distribution; empty where it is not known.
    pub distro: String,
    /// Everything that is required is there.
    pub ok: bool,
    pub checks: Vec<Check>,
}

pub open spec fn findings(checks: Seq<Check>) -> Seq<Finding> {
    checks.map_values(|check: Check| check@)
}

/// A line that makes the whole report a bad one.
pub open spec fn is_fatal(finding: Finding) -> bool {
    finding.level == Level::Required && finding.state == State::Missing
}

pub open spec fn nothing_required_is_missing(list: Seq<Finding>) -> bool {
    forall|i: int| 0 <= i < list.len() ==> !is_fatal(#[trigger] list[i])
}

pub open spec fn platform_name(os: Seq<char>) -> Seq<char> {
    if os == "windows"@ {
        "windows"@
    } else if os == "linux"@ {
        "linux"@
    } else {
        "other"@
    }
}

/// The name under which the report knows an operating system.
pub fn platform(os: &str) -> (name: &'static str)
    ensures
        name@ == platform_name(os@),
{
    if same_text(os, "windows") {
        "windows"
    } else if same_text(os, "linux") {
        "linux"
    } else {
        "other"
    }
}

impl Report {
    /// The report on a machine. A missing optional thing does not make it a bad one.
    pub fn from_checks(os: &str, distro: &str, checks: Vec<Check>) -> (report: Report)
        ensures
            report.platform@ == platform_name(os@),
            report.distro@ == distro@,
            report.ok == nothing_required_is_missing(findings(checks@)),
            report.checks@ == checks@,
    {
        let mut ok = true;
        let mut i: usize = 0;
        while i < checks.len()
            invariant
                i <= checks@.len(),
                ok == forall|k: int| 0 <= k < i ==> !is_fatal(#[trigger] findings(checks@)[k]),
            decreases checks@.len() - i,
        {
            assert(findings(checks@)[i as int] == checks@[i as int]@);
            if checks[i].level == Level::Required && checks[i].state == State::Missing {
                ok = false;
            }
            i += 1;
        }
        Report { platform: platform(os), distro: distro.to_owned(), ok, checks }
    }

    pub fn to_json(&self) -> (out: Json)
        ensures
            out@ == report_json(
                self.platform@,
                self.distro@,
                self.ok,
                findings(self.checks@),
            ),
    {
        let mut items: Vec<Json> = Vec::new();
        let mut i: usize = 0;
        while i < self.checks.len()
            invariant
                i <= self.checks@.len(),
                items@.len() == i,
                forall|k: int|
                    0 <= k < i ==> (#[trigger] items@[k])@ == finding_json(self.checks@[k]@),
            decreases self.checks@.len() - i,
        {
            items.push(self.checks[i].to_json());
            i += 1;
        }
        proof {
            json::items_view_items(items@);
            assert(json::items_view(items@) =~= findings(self.checks@).map_values(
                |finding: Finding| finding_json(finding),
            ));
        }
        let out = with(no_members(), "platform", text(self.platform));
        let out = with(out, "distro", text(self.distro.as_str()));
        let out = with(out, "ok", Json::Bool(self.ok));
        let out = with(out, "checks", Json::List(items));
        proof {
            assert(json::members_view(out@) =~= report_members(
                self.platform@,
                self.distro@,
                self.ok,
                findings(self.checks@),
            ));
        }
        Json::Object(out)
    }
}

pub open spec fn report_members(
    platform: Seq<char>,
    distro: Seq<char>,
    ok: bool,
    list: Seq<Finding>,
) -> Seq<(Seq<char>, JsonValue)> {
    seq![
        ("platform"@, JsonValue::Text(platform)),
        ("distro"@, JsonValue::Text(distro)),
        ("ok"@, JsonValue::Bool(ok)),
        ("checks"@, JsonValue::List(list.map_values(|finding: Finding| finding_json(finding)))),
    ]
}

pub open spec fn report_json(
    platform: Seq<char>,
    distro: Seq<char>,
    ok: bool,
    list: Seq<Finding>,
) -> JsonValue {
    JsonValue::Object(report_members(platform, distro, ok, list))
}

/// What is optional never decides over the report, and neither does what is there but not as it
/// should be.
pub proof fn only_a_missing_requirement_decides(list: Seq<Finding>, finding: Finding)
    ensures
        nothing_required_is_missing(list.push(finding)) == (nothing_required_is_missing(list)
            && !is_fatal(finding)),
        finding.level == Level::Optional ==> !is_fatal(finding),
        finding.state != State::Missing ==> !is_fatal(finding),
{
    let longer = list.push(finding);
    if nothing_required_is_missing(longer) {
        assert forall|i: int| 0 <= i < list.len() implies !is_fatal(#[trigger] list[i]) by {
            assert(longer[i] == list[i]);
        }
        assert(longer[list.len() as int] == finding);
    }
}

/// Every part of a line of the report is told, each under its name.
pub proof fn a_finding_is_told_in_full(finding: Finding)
    ensures
        json::has_member(finding_json(finding), "id"@, JsonValue::Text(finding.id)),
        json::has_member(finding_json(finding), "title"@, JsonValue::Text(finding.title)),
        json::has_member(finding_json(finding), "level"@, JsonValue::Text(match finding.level {
                Level::Required => "required"@,
                Level::Optional => "optional"@,
            })),
        json::has_member(finding_json(finding), "state"@, JsonValue::Text(match finding.state {
                State::Ready => "ready"@,
                State::Degraded => "degraded"@,
                State::Missing => "missing"@,
            })),
        json::has_member(finding_json(finding), "detail"@, JsonValue::Text(finding.detail)),
        json::has_member(finding_json(finding), "impact"@, JsonValue::Text(finding.impact)),
        json::has_member(finding_json(finding), "install"@, JsonValue::Text(finding.install)),
{
    let members = finding_members(finding);
    assert(members[0] == ("id"@, JsonValue::Text(finding.id)));
    assert(members[1] == ("title"@, JsonValue::Text(finding.title)));
    assert(members[2] == ("level"@, JsonValue::Text(match finding.level {
                Level::Required => "required"@,
                Level::Optional => "optional"@,
            })));
    assert(members[3] == ("state"@, JsonValue::Text(match finding.state {
                State::Ready => "ready"@,
                State::Degraded => "degraded"@,
                State::Missing => "missing"@,
            })));
    assert(members[4] == ("detail"@, JsonValue::Text(finding.detail)));
    assert(members[5] == ("impact"@, JsonValue::Text(finding.impact)));
    assert(members[6] == ("install"@, JsonValue::Text(finding.install)));
}

/// Every part of a report is told, each under its name, and its lines one by one.
pub proof fn a_report_is_told_in_full(platform: Seq<char>, distro: Seq<char>, ok: bool, list: Seq<Finding>, lines: Seq<JsonValue>)
    requires
        lines.len() == list.len(),
        forall|i: int| 0 <= i < lines.len() ==> #[trigger] lines[i] == finding_json(list[i]),
    ensures
        json::has_member(report_json(platform, distro, ok, list), "platform"@, JsonValue::Text(platform)),
        json::has_member(report_json(platform, distro, ok, list), "distro"@, JsonValue::Text(distro)),
        json::has_member(report_json(platform, distro, ok, list), "ok"@, JsonValue::Bool(ok)),
        json::has_member(report_json(platform, distro, ok, list), "checks"@, JsonValue::List(lines)),
{
    assert(lines =~= list.map_values(|finding: Finding| finding_json(finding)));
    let members = report_members(platform, distro, ok, list);
    assert(members[0] == ("platform"@, JsonValue::Text(platform)));
    assert(members[1] == ("distro"@, JsonValue::Text(distro)));
    assert(members[2] == ("ok"@, JsonValue::Bool(ok)));
    assert(members[3] == ("checks"@, JsonValue::List(lines)));
}

/// What the kinds of lines say: one that all is well asks for nothing to be installed, and one on
/// what is missing says so.
pub proof fn what_lines_say(
    id: Seq<char>,
    title: Seq<char>,
    level: Level,
    detail: Seq<char>,
    impact: Seq<char>,
    install: Seq<char>,
)
    ensures
        ready_finding(id, title, level, detail, impact).state == State::Ready,
        ready_finding(id, title, level, detail, impact).id == id,
        ready_finding(id, title, level, detail, impact).title == title,
        ready_finding(id, title, level, detail, impact).level == level,
        ready_finding(id, title, level, detail, impact).detail == detail,
        ready_finding(id, title, level, detail, impact).impact == impact,
        ready_finding(id, title, level, detail, impact).install.len() == 0,
        degraded_finding(id, title, level, detail, impact, install).state == State::Degraded,
        degraded_finding(id, title, level, detail, impact, install).id == id,
        degraded_finding(id, title, level, detail, impact, install).title == title,
        degraded_finding(id, title, level, detail, impact, install).level == level,
        degraded_finding(id, title, level, detail, impact, install).detail == detail,
        degraded_finding(id, title, level, detail, impact, install).impact == impact,
        degraded_finding(id, title, level, detail, impact, install).install == install,
        missing_finding(id, title, level, impact, install).state == State::Missing,
        missing_finding(id, title, level, impact, install).id == id,
        missing_finding(id, title, level, impact, install).title == title,
        missing_finding(id, title, level, impact, install).level == level,
        missing_finding(id, title, level, impact, install).detail == "没找到"@,
        missing_finding(id, title, level, impact, install).impact == impact,
        missing_finding(id, title, level, impact, install).install == install,
{
}

/// A report is a good one exactly where nothing that is required is missing.
pub proof fn a_report_is_good_without_missing_requirements(list: Seq<Finding>)
    ensures
        nothing_required_is_missing(list) <==> forall|i: int|
            0 <= i < list.len() ==> (#[trigger] list[i]).level == Level::Optional || list[i].state
                == State::Ready || list[i].state == State::Degraded,
{
    if forall|i: int|
        0 <= i < list.len() ==> (#[trigger] list[i]).level == Level::Optional || list[i].state
            == State::Ready || list[i].state == State::Degraded {
        assert forall|i: int| 0 <= i < list.len() implies !is_fatal(#[trigger] list[i]) by {}
    }
    if nothing_required_is_missing(list) {
        assert forall|i: int| 0 <= i < list.len() implies (#[trigger] list[i]).level
            == Level::Optional || list[i].state == State::Ready || list[i].state
            == State::Degraded by {
            assert(!is_fatal(list[i]));
        }
    }
}

/// Two systems have names of their own, and every other one is another.
pub proof fn two_systems_are_known(os: Seq<char>)
    ensures
        platform_name("windows"@) == "windows"@,
        platform_name("linux"@) == "linux"@,
        os != "windows"@ && os != "linux"@ ==> platform_name(os) == "other"@,
{
}

} // verus!
