//! Changing the configuration: on a copy first, then in the file, and only then in memory.

use crate::config::model::{Config, Settings};
use crate::json::Json;
use crate::text::glue::glue2;
use vstd::prelude::*;

verus! {

/// What is in memory once a change has started: what is in the file, where it can be read.
pub open spec fn started(memory: Settings, on_disk: Option<Settings>) -> Settings {
    match on_disk {
        Some(config) => config,
        None => memory,
    }
}

/// What is in memory once a change has ended: what was written, where the change was made and
/// the file written.
pub open spec fn finished(memory: Settings, candidate: Settings, done: bool) -> Settings {
    if done {
        candidate
    } else {
        memory
    }
}

pub open spec fn config_view(config: Option<Config>) -> Option<Settings> {
    match config {
        Some(config) => Some(config@),
        None => None,
    }
}

/// Starts a change with the configuration in the file, where one can be read: the file may have
/// changed since the daemon read it. What comes back is the copy to be changed.
pub fn start_change(memory: &mut Config, on_disk: Option<Config>) -> (candidate: Config)
    ensures
        final(memory)@ == started(old(memory)@, config_view(on_disk)),
        candidate@ == final(memory)@,
        old(memory).wf() && (on_disk matches Some(config) ==> config.wf()) ==> final(memory).wf()
            && candidate.wf(),
{
    match on_disk {
        Some(config) => {
            *memory = config;
        },
        None => {},
    }
    memory.copy()
}

/// Ends a change. What is in memory changes only where the change could be made and the file
/// could be written, and then it is what was written.
pub fn finish_change(
    memory: &mut Config,
    candidate: Config,
    change: Result<Json, String>,
    saved: Result<(), String>,
) -> (out: Result<Json, String>)
    ensures
        final(memory)@ == finished(old(memory)@, candidate@, change is Ok && saved is Ok),
        match change {
            Err(message) => out == Err::<Json, String>(message),
            Ok(value) => match saved {
                Err(reason) => out is Err && out->Err_0@ == "保存配置失败: "@ + reason@,
                Ok(_) => out == Ok::<Json, String>(value),
            },
        },
        old(memory).wf() && candidate.wf() ==> final(memory).wf(),
{
    match change {
        Err(message) => Err(message),
        Ok(value) => match saved {
            Err(reason) => Err(glue2("保存配置失败: ", reason.as_str())),
            Ok(_) => {
                *memory = candidate;
                Ok(value)
            },
        },
    }
}

/// A change that fails changes nothing in memory, unless the file has been changed by somebody
/// else in the meantime.
pub proof fn a_failed_change_changes_nothing(
    memory: Settings,
    on_disk: Option<Settings>,
    candidate: Settings,
)
    requires
        on_disk is None || on_disk == Some(memory),
    ensures
        finished(started(memory, on_disk), candidate, false) == memory,
{
}

/// After a change, made or not, memory agrees with the file: a change that is made is in both,
/// and one that fails leaves in both what the file said.
pub proof fn memory_agrees_with_the_file(
    memory: Settings,
    on_disk: Settings,
    candidate: Settings,
    done: bool,
)
    ensures
        finished(started(memory, Some(on_disk)), candidate, done) == if done {
            candidate
        } else {
            on_disk
        },
{
}

} // verus!
