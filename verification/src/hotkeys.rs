//! Global hotkeys for scaling a running game.
//!
//! The desktop owns the keys: it is asked to grant a set of shortcuts, and it reports when one
//! of them is triggered. Nothing here may keep a game from starting; whatever fails leaves the
//! hotkeys out.

use crate::text::chars;
use crate::text::chars::{
    ascii_lowercase, copy_texts, list_has, same_ignoring_ascii_case, same_text,
};
use crate::text::search;
use crate::text::search::{has_text, trimmed};
use vstd::prelude::*;
use vstd::string::StringExecFns;

verus! {

/// How close two activations of one shortcut have to be to count as one press that was
/// delivered twice, in nanoseconds.
pub const DUPLICATE_WINDOW: u64 = 50_000_000;

/// The id under which the desktop knows this application.
pub const APP_ID: &'static str = "io.github.kotori";

/// The variable that keeps the desktop out of the picture.
pub const DISABLE_ENV: &'static str = "KOTORI_NO_HOTKEYS";

/// What is known about the hotkeys.
pub struct State {
    /// The desktop was asked.
    pub requested: bool,
    /// The desktop granted the shortcuts.
    pub granted: bool,
    /// Why the last attempt failed, or why the hotkeys stopped.
    pub error: Option<String>,
    /// The shortcuts that were granted without a key.
    pub unbound: Vec<String>,
}

/// What a user can be told about the hotkeys.
pub struct HotkeyStatus {
    pub requested: bool,
    pub ready: bool,
    pub error: Option<String>,
    /// The shortcuts that were granted without a key.
    pub unbound: Vec<String>,
    /// Where this desktop keeps its shortcut settings.
    pub assign_hint: String,
}

/// A shortcut that the desktop granted, and its words for the key behind it.
pub struct Granted {
    pub id: String,
    pub trigger: String,
}

// ---------------------------------------------------------------------------------------------
// Asking the desktop

/// The variable is set to something that means yes.
pub open spec fn says_disabled(value: Option<Seq<char>>) -> bool {
    match value {
        Some(value) => value.len() > 0 && value != "0"@,
        None => false,
    }
}

pub fn disabled(value: Option<&str>) -> (yes: bool)
    ensures
        yes == says_disabled(
            match value {
                Some(value) => Some(value@),
                None => None,
            },
        ),
{
    match value {
        Some(value) => !value.is_empty() && !same_text(value, "0"),
        None => false,
    }
}

impl State {
    /// What a fresh daemon knows: nothing was asked and nothing was granted.
    pub fn new() -> (state: State)
        ensures
            !state.requested,
            !state.granted,
            state.error is None,
            state.unbound@.len() == 0,
    {
        State { requested: false, granted: false, error: None, unbound: Vec::new() }
    }

    /// An attempt is under way: the desktop was asked and has not refused yet.
    pub open spec fn in_flight(self) -> bool {
        self.requested && self.error is None
    }

    /// An attempt failed, or the hotkeys stopped.
    pub fn set_error(&mut self, message: String)
        ensures
            *final(self) == (State { error: Some(message), ..*old(self) }),
    {
        self.error = Some(message);
    }

    /// The desktop granted the shortcuts. The ones without a key are kept, so that a user can
    /// be told; the ones that were asked for and not granted are given back.
    pub fn grant(&mut self, wanted: &Vec<String>, granted: &Vec<Granted>) -> (missing: Vec<String>)
        ensures
            final(self).granted,
            final(self).requested == old(self).requested,
            final(self).error == old(self).error,
            chars::texts(final(self).unbound@) == ids_without_key(granted@),
            chars::texts(missing@) == not_granted(chars::texts(wanted@), granted@),
    {
        self.granted = true;
        let unbound = without_key(granted);
        self.unbound = unbound;
        missing_ids(wanted, granted)
    }
}

/// The hotkeys are granted.
pub fn ready(state: &State) -> (yes: bool)
    ensures
        yes == state.granted,
{
    state.granted
}

/// Starts an attempt to get the hotkeys, unless they are switched off, granted, or an attempt
/// is under way. An attempt that failed may be repeated. Says whether this call started one.
pub fn request_once(state: &mut State, off: bool) -> (started: bool)
    ensures
        started == (!off && !old(state).granted && !old(state).in_flight()),
        started == (!off && !old(state).granted && (!old(state).requested || old(
            state,
        ).error is Some)),
        started ==> final(state).requested && final(state).error is None
            && final(state).unbound@.len() == 0 && !final(state).granted,
        !started && !off ==> *final(state) == *old(state),
        off ==> final(state).requested == old(state).requested && final(state).granted == old(
            state,
        ).granted && final(state).unbound == old(state).unbound && chars::text_view(final(state).error)
            == Some("运行时缩放热键被 "@ + DISABLE_ENV@ + " 关闭"@),
{
    if off {
        let mut message = "运行时缩放热键被 ".to_owned();
        message.append(DISABLE_ENV);
        message.append(" 关闭");
        state.set_error(message);
        return false;
    }
    if state.granted {
        return false;
    }
    if state.requested && state.error.is_none() {
        return false;
    }
    state.requested = true;
    state.error = None;
    state.unbound = Vec::new();
    true
}

/// What a user can be told about the hotkeys, on a desktop that calls itself `desktop`.
pub fn status(state: &State, desktop: &str) -> (status: HotkeyStatus)
    ensures
        status.requested == state.requested,
        status.ready == state.granted,
        chars::text_view(status.error) == chars::text_view(state.error),
        chars::texts(status.unbound@) == chars::texts(state.unbound@),
        status.assign_hint@ == hint_for(desktop@),
{
    let error = match &state.error {
        Some(message) => Some(message.clone()),
        None => None,
    };
    HotkeyStatus {
        requested: state.requested,
        ready: state.granted,
        error,
        unbound: copy_texts(&state.unbound),
        assign_hint: assign_hint_for(desktop),
    }
}

// ---------------------------------------------------------------------------------------------
// Keys

/// The desktop granted a shortcut without a key: it says nothing of one, or it says `none`.
pub open spec fn has_no_key(trigger: Seq<char>) -> bool {
    search::trim(trigger).len() == 0 || chars::ascii_lower_text(search::trim(trigger))
        == chars::ascii_lower_text("none"@)
}

pub fn looks_unbound(trigger: &str) -> (yes: bool)
    ensures
        yes == has_no_key(trigger@),
{
    let short = trimmed(trigger);
    short.as_str().is_empty() || same_ignoring_ascii_case(short.as_str(), "none")
}

/// The ids of the shortcuts that were granted without a key, in their order.
pub open spec fn ids_without_key(granted: Seq<Granted>) -> Seq<Seq<char>>
    decreases granted.len(),
{
    if granted.len() == 0 {
        Seq::empty()
    } else {
        let before = ids_without_key(granted.drop_last());
        if has_no_key(granted.last().trigger@) {
            before.push(granted.last().id@)
        } else {
            before
        }
    }
}

pub open spec fn is_granted(granted: Seq<Granted>, id: Seq<char>) -> bool {
    exists|i: int| 0 <= i < granted.len() && (#[trigger] granted[i]).id@ == id
}

/// The ids that were asked for and not granted, in their order.
pub open spec fn not_granted(wanted: Seq<Seq<char>>, granted: Seq<Granted>) -> Seq<Seq<char>>
    decreases wanted.len(),
{
    if wanted.len() == 0 {
        Seq::empty()
    } else {
        let before = not_granted(wanted.drop_last(), granted);
        if is_granted(granted, wanted.last()) {
            before
        } else {
            before.push(wanted.last())
        }
    }
}

fn without_key(granted: &Vec<Granted>) -> (ids: Vec<String>)
    ensures
        chars::texts(ids@) == ids_without_key(granted@),
{
    let mut ids: Vec<String> = Vec::new();
    let mut i: usize = 0;
    assert(chars::texts(ids@) =~= ids_without_key(granted@.take(0)));
    while i < granted.len()
        invariant
            i <= granted@.len(),
            chars::texts(ids@) == ids_without_key(granted@.take(i as int)),
        decreases granted@.len() - i,
    {
        assert(granted@.take(i + 1).drop_last() =~= granted@.take(i as int));
        let ghost before = ids@;
        if looks_unbound(granted[i].trigger.as_str()) {
            ids.push(granted[i].id.clone());
            assert(chars::texts(ids@) =~= chars::texts(before).push(ids@.last()@));
        }
        i += 1;
    }
    assert(granted@.take(i as int) =~= granted@);
    ids
}

fn has_grant(granted: &Vec<Granted>, id: &str) -> (yes: bool)
    ensures
        yes == is_granted(granted@, id@),
{
    let mut i: usize = 0;
    while i < granted.len()
        invariant
            i <= granted@.len(),
            forall|k: int| 0 <= k < i ==> (#[trigger] granted@[k]).id@ != id@,
        decreases granted@.len() - i,
    {
        if same_text(granted[i].id.as_str(), id) {
            return true;
        }
        i += 1;
    }
    false
}

fn missing_ids(wanted: &Vec<String>, granted: &Vec<Granted>) -> (missing: Vec<String>)
    ensures
        chars::texts(missing@) == not_granted(chars::texts(wanted@), granted@),
{
    let ghost all = chars::texts(wanted@);
    let mut missing: Vec<String> = Vec::new();
    let mut i: usize = 0;
    assert(chars::texts(missing@) =~= not_granted(all.take(0), granted@));
    while i < wanted.len()
        invariant
            i <= wanted@.len(),
            all == chars::texts(wanted@),
            chars::texts(missing@) == not_granted(all.take(i as int), granted@),
        decreases wanted@.len() - i,
    {
        assert(all.take(i + 1).drop_last() =~= all.take(i as int));
        assert(all.take(i + 1).last() == wanted@[i as int]@);
        let ghost before = missing@;
        if !has_grant(granted, wanted[i].as_str()) {
            missing.push(wanted[i].clone());
            assert(chars::texts(missing@) =~= chars::texts(before).push(missing@.last()@));
        }
        i += 1;
    }
    assert(all.take(i as int) =~= all);
    missing
}

/// Where the user has to go to give a shortcut a key, by the name of the desktop.
pub open spec fn hint_for(desktop: Seq<char>) -> Seq<char> {
    let name = chars::ascii_lower_text(desktop);
    if search::contains(name, "kde"@) {
        "系统设置 → 快捷键 → kotori，给要用的那几条各指定一个按键"@
    } else if search::contains(name, "gnome"@) {
        "设置 → 键盘 → 查看及自定义快捷键，给 kotori 的条目指定按键"@
    } else {
        "在系统的快捷键设置里给 kotori 的条目指定按键"@
    }
}

pub fn assign_hint_for(desktop: &str) -> (hint: String)
    ensures
        hint@ == hint_for(desktop@),
{
    let name = ascii_lowercase(desktop);
    if has_text(name.as_str(), "kde") {
        "系统设置 → 快捷键 → kotori，给要用的那几条各指定一个按键".to_owned()
    } else if has_text(name.as_str(), "gnome") {
        "设置 → 键盘 → 查看及自定义快捷键，给 kotori 的条目指定按键".to_owned()
    } else {
        "在系统的快捷键设置里给 kotori 的条目指定按键".to_owned()
    }
}

// ---------------------------------------------------------------------------------------------
// Activations

/// An activation of the same shortcut within the window before `now`.
pub open spec fn repeats(last: Option<(Seq<char>, u64)>, id: Seq<char>, now: u64) -> bool {
    match last {
        Some((last_id, at)) => last_id == id && now - at < DUPLICATE_WINDOW,
        None => false,
    }
}

pub open spec fn last_view(last: Option<(String, u64)>) -> Option<(Seq<char>, u64)> {
    match last {
        Some((id, at)) => Some((id@, at)),
        None => None,
    }
}

/// Whether an activation was already handled a moment ago. Times are in nanoseconds.
pub fn is_duplicate(last: &Option<(String, u64)>, id: &str, now: u64) -> (yes: bool)
    ensures
        yes == repeats(last_view(*last), id@, now),
{
    match last {
        Some((last_id, at)) => same_text(last_id.as_str(), id) && now.saturating_sub(*at)
            < DUPLICATE_WINDOW,
        None => false,
    }
}

/// What one activation leads to: whether it is acted on, and what is remembered.
pub open spec fn activation(
    known: Seq<Seq<char>>,
    last: Option<(Seq<char>, u64)>,
    id: Seq<char>,
    now: u64,
) -> (bool, Option<(Seq<char>, u64)>) {
    if !known.contains(id) || repeats(last, id, now) {
        (false, last)
    } else {
        (true, Some((id, now)))
    }
}

/// Handles one activation. One of a shortcut that is not known, and one that repeats the one
/// before, are left alone and change nothing.
pub fn activate(
    known: &Vec<String>,
    last: Option<(String, u64)>,
    id: &str,
    now: u64,
) -> (out: (bool, Option<(String, u64)>))
    ensures
        (out.0, last_view(out.1)) == activation(chars::texts(known@), last_view(last), id@, now),
{
    if !list_has(known, id) || is_duplicate(&last, id, now) {
        (false, last)
    } else {
        (true, Some((id.to_owned(), now)))
    }
}

// ---------------------------------------------------------------------------------------------
// What holds of the hotkeys

/// A press that is delivered twice is acted on once: after an activation was acted on, another
/// one of the same shortcut within the window is left alone.
pub proof fn a_press_delivered_twice_counts_once(
    known: Seq<Seq<char>>,
    last: Option<(Seq<char>, u64)>,
    id: Seq<char>,
    first: u64,
    second: u64,
)
    requires
        activation(known, last, id, first).0,
        second - first < DUPLICATE_WINDOW,
    ensures
        activation(known, activation(known, last, id, first).1, id, second) == (
            false,
            Some((id, first)),
        ),
{
}

/// A second press after the window counts, and so does a press of another shortcut at any time.
pub proof fn a_genuine_press_counts(
    known: Seq<Seq<char>>,
    last: Option<(Seq<char>, u64)>,
    id: Seq<char>,
    now: u64,
)
    requires
        known.contains(id),
        match last {
            Some((last_id, at)) => last_id != id || now - at >= DUPLICATE_WINDOW,
            None => true,
        },
    ensures
        activation(known, last, id, now) == (true, Some((id, now))),
{
}

/// Every shortcut that is reported as being without a key was granted without one, and every
/// one that was granted without a key is reported.
pub proof fn exactly_the_keyless_are_reported(granted: Seq<Granted>, id: Seq<char>)
    ensures
        ids_without_key(granted).contains(id) <==> exists|i: int|
            0 <= i < granted.len() && (#[trigger] granted[i]).id@ == id && has_no_key(
                granted[i].trigger@,
            ),
    decreases granted.len(),
{
    if granted.len() > 0 {
        let front = granted.drop_last();
        exactly_the_keyless_are_reported(front, id);
        let before = ids_without_key(front);
        let list = ids_without_key(granted);
        if list.contains(id) {
            let k = list.index_of(id);
            if k < before.len() {
                assert(before[k] == id);
                let i = choose|i: int|
                    0 <= i < front.len() && (#[trigger] front[i]).id@ == id && has_no_key(
                        front[i].trigger@,
                    );
                assert(granted[i] == front[i]);
            } else {
                assert(granted[granted.len() - 1].id@ == id);
            }
        }
        if exists|i: int|
            0 <= i < granted.len() && (#[trigger] granted[i]).id@ == id && has_no_key(
                granted[i].trigger@,
            ) {
            let i = choose|i: int|
                0 <= i < granted.len() && (#[trigger] granted[i]).id@ == id && has_no_key(
                    granted[i].trigger@,
                );
            if i < front.len() {
                assert(front[i] == granted[i]);
                let k = before.index_of(id);
                assert(list[k] == id);
            } else {
                assert(list[list.len() - 1] == id);
            }
        }
    }
}

/// Exactly those that were asked for and not granted are given back.
pub proof fn exactly_the_missing_are_given_back(
    wanted: Seq<Seq<char>>,
    granted: Seq<Granted>,
    id: Seq<char>,
)
    ensures
        not_granted(wanted, granted).contains(id) <==> wanted.contains(id) && forall|i: int|
            0 <= i < granted.len() ==> (#[trigger] granted[i]).id@ != id,
    decreases wanted.len(),
{
    if wanted.len() > 0 {
        let front = wanted.drop_last();
        exactly_the_missing_are_given_back(front, granted, id);
        let before = not_granted(front, granted);
        let all = not_granted(wanted, granted);
        if all.contains(id) {
            let k = all.index_of(id);
            if k < before.len() {
                assert(before[k] == id);
                let j = front.index_of(id);
                assert(wanted[j] == id);
            } else {
                assert(wanted[wanted.len() - 1] == id);
            }
        }
        if wanted.contains(id) && forall|i: int|
            0 <= i < granted.len() ==> (#[trigger] granted[i]).id@ != id {
            let j = wanted.index_of(id);
            if j < front.len() {
                assert(front[j] == id);
                let k = before.index_of(id);
                assert(all[k] == id);
            } else {
                assert(!is_granted(granted, id));
                assert(all[all.len() - 1] == id);
            }
        }
    }
}

/// The variable switches the hotkeys off where it is set to something other than nothing or `0`.
pub proof fn what_switches_the_hotkeys_off(value: Seq<char>)
    ensures
        !says_disabled(None),
        !says_disabled(Some("0"@)),
        !says_disabled(Some(Seq::empty())),
        value.len() > 0 && value != "0"@ ==> says_disabled(Some(value)),
{
}

/// A shortcut is without a key where the desktop says nothing of one, or `none` in whatever case.
pub proof fn what_counts_as_no_key(trigger: Seq<char>)
    ensures
        search::trim(trigger).len() == 0 ==> has_no_key(trigger),
        search::trim(trigger) == "none"@ ==> has_no_key(trigger),
        search::trim(trigger).len() > 0 && search::trim(trigger).len() != "none"@.len()
            ==> !has_no_key(trigger),
        has_no_key(trigger) <==> search::trim(trigger).len() == 0 || chars::ascii_lower_text(
            search::trim(trigger),
        ) == chars::ascii_lower_text("none"@),
{
    chars::lower_case_keeps_the_length(search::trim(trigger));
    chars::lower_case_keeps_the_length("none"@);
}

/// An activation is acted on exactly where the shortcut is known and is not the same one within
/// fifty milliseconds; what is acted on is remembered, and nothing else.
pub proof fn when_a_press_is_acted_on(
    known: Seq<Seq<char>>,
    last: Option<(Seq<char>, u64)>,
    id: Seq<char>,
    now: u64,
)
    ensures
        activation(known, last, id, now).0 <==> known.contains(id) && (last is None
            || last.unwrap().0 != id || now - last.unwrap().1 >= 50_000_000),
        activation(known, last, id, now).1 == if activation(known, last, id, now).0 {
            Some((id, now))
        } else {
            last
        },
{
}

/// The way to the shortcuts is told by the name of the desktop.
pub proof fn desktops_have_their_ways(desktop: Seq<char>)
    ensures
        ({
            let name = chars::ascii_lower_text(desktop);
            &&& search::contains(name, "kde"@) ==> hint_for(desktop)
                == "系统设置 → 快捷键 → kotori，给要用的那几条各指定一个按键"@
            &&& !search::contains(name, "kde"@) && search::contains(name, "gnome"@) ==> hint_for(
                desktop,
            ) == "设置 → 键盘 → 查看及自定义快捷键，给 kotori 的条目指定按键"@
            &&& !search::contains(name, "kde"@) && !search::contains(name, "gnome"@) ==> hint_for(
                desktop,
            ) == "在系统的快捷键设置里给 kotori 的条目指定按键"@
        }),
{
}

} // verus!
