//! The size of the screen, as the desktop reports it.
//!
//! A size that the user gave comes first; then the focused output of Niri, the largest output
//! of Niri, and the primary output of KDE. Each of these may have no answer.

use crate::json;
use crate::json::{Json, JsonValue};
use crate::text::chars;
use crate::text::chars::{chars_of, same_text, text_of_range};
use crate::text::number;
use crate::text::number::{parse_u32, signed_text};
use crate::text::order;
use crate::text::order::comes_before;
use crate::text::search;
use crate::text::search::trimmed;
use vstd::prelude::*;

verus! {

// ---------------------------------------------------------------------------------------------
// A size in words

pub open spec fn is_cross(c: char) -> bool {
    c == 'x' || c == 'X'
}

/// The first `x` or `X` from a position on.
pub open spec fn first_cross(s: Seq<char>, from: int) -> Option<int>
    decreases s.len() - from,
{
    if from < 0 || from >= s.len() {
        None
    } else if is_cross(s[from]) {
        Some(from)
    } else {
        first_cross(s, from + 1)
    }
}

/// The size that `WxH` spells; spaces around the text and its numbers do not matter, and
/// neither number may be zero.
pub open spec fn spelled_size(text: Seq<char>) -> Option<(u32, u32)> {
    let s = search::trim(text);
    match first_cross(s, 0) {
        None => None,
        Some(i) => match (
            number::parse_at_most(search::trim(s.take(i)), u32::MAX as nat),
            number::parse_at_most(search::trim(s.skip(i + 1)), u32::MAX as nat),
        ) {
            (Some(width), Some(height)) => if width == 0 || height == 0 {
                None
            } else {
                Some((width as u32, height as u32))
            },
            _ => None,
        },
    }
}

pub fn parse_resolution_spec(text: &str) -> (size: Option<(u32, u32)>)
    ensures
        size == spelled_size(text@),
{
    let short = trimmed(text);
    let chars = chars_of(short.as_str());
    let ghost s = search::trim(text@);
    let n: usize = chars.len();
    let mut i: usize = 0;
    while i < n && !(chars[i] == 'x' || chars[i] == 'X')
        invariant
            i <= n == chars@.len(),
            chars@ == s,
            first_cross(s, 0) == first_cross(s, i as int),
        decreases n - i,
    {
        i += 1;
    }
    if i >= n {
        return None;
    }
    let left = text_of_range(chars.as_slice(), 0, i);
    let right = text_of_range(chars.as_slice(), i + 1, n);
    assert(s.subrange(0, i as int) =~= s.take(i as int));
    assert(s.subrange(i + 1, n as int) =~= s.skip(i + 1));
    let width = match parse_u32(trimmed(left.as_str()).as_str()) {
        Some(width) => width,
        None => {
            return None;
        },
    };
    let height = match parse_u32(trimmed(right.as_str()).as_str()) {
        Some(height) => height,
        None => {
            return None;
        },
    };
    if width == 0 || height == 0 {
        return None;
    }
    Some((width, height))
}

// ---------------------------------------------------------------------------------------------
// Niri

pub open spec fn as_u32(value: Option<JsonValue>) -> Option<u32> {
    match value {
        Some(JsonValue::Number(n)) => if 0 <= n <= u32::MAX {
            Some(n as u32)
        } else {
            None
        },
        _ => None,
    }
}

/// The size that a mode, or a size of KDE, gives.
pub open spec fn size_in(value: JsonValue) -> Option<(u32, u32)> {
    if !json::is_record(value, 2) {
        None
    } else {
        match (as_u32(json::slot(value, "width"@, 0)), as_u32(json::slot(value, "height"@, 1))) {
            (Some(width), Some(height)) => Some((width, height)),
            _ => None,
        }
    }
}

/// The sizes in a list, if each of its items gives one.
pub open spec fn sizes_in(items: Seq<JsonValue>) -> Option<Seq<(u32, u32)>>
    decreases items.len(),
{
    if items.len() == 0 {
        Some(Seq::empty())
    } else {
        match (sizes_in(items.drop_last()), size_in(items.last())) {
            (Some(before), Some(size)) => Some(before.push(size)),
            _ => None,
        }
    }
}

/// The size of an output of Niri: that of the mode it is in. Where the number of the mode is
/// out of range the first mode counts; the logical size, which the desktop scales, never does.
pub open spec fn niri_size(value: JsonValue) -> Option<(u32, u32)> {
    if !json::is_record(value, 2) {
        None
    } else {
        match (json::slot(value, "modes"@, 0), json::slot(value, "current_mode"@, 1)) {
            (Some(JsonValue::List(items)), Some(JsonValue::Number(current))) => match sizes_in(
                items,
            ) {
                Some(sizes) => if !(0 <= current <= usize::MAX) || sizes.len() == 0 {
                    None
                } else if current < sizes.len() {
                    Some(sizes[current])
                } else {
                    Some(sizes[0])
                },
                None => None,
            },
            _ => None,
        }
    }
}

pub open spec fn area(size: (u32, u32)) -> int {
    size.0 * size.1
}

/// An output, by the rule that picks the largest: a larger area wins, and of two equally large
/// ones the name that comes first.
pub open spec fn larger(a: (Seq<char>, (u32, u32)), b: (Seq<char>, (u32, u32))) -> bool {
    area(a.1) > area(b.1) || (area(a.1) == area(b.1) && order::text_before(a.0, b.0))
}

pub open spec fn largest_output(members: Seq<(Seq<char>, JsonValue)>) -> Option<
    (Seq<char>, (u32, u32)),
>
    decreases members.len(),
{
    if members.len() == 0 {
        None
    } else {
        let best = largest_output(members.drop_last());
        match niri_size(members.last().1) {
            None => best,
            Some(size) => {
                let own = (members.last().0, size);
                match best {
                    None => Some(own),
                    Some(kept) => if larger(own, kept) {
                        Some(own)
                    } else {
                        Some(kept)
                    },
                }
            },
        }
    }
}

pub open spec fn largest_niri_size(value: JsonValue) -> Option<(u32, u32)> {
    match value {
        JsonValue::Object(members) => match largest_output(members) {
            Some(best) => Some(best.1),
            None => None,
        },
        _ => None,
    }
}

fn read_u32(value: Option<&Json>) -> (out: Option<u32>)
    ensures
        out == as_u32(
            match value {
                Some(value) => Some(value@),
                None => None,
            },
        ),
{
    match value {
        Some(value) => match value.as_unsigned() {
            Some(n) => if n <= u32::MAX as u64 {
                Some(n as u32)
            } else {
                None
            },
            None => None,
        },
        None => None,
    }
}

fn read_size(value: &Json) -> (size: Option<(u32, u32)>)
    ensures
        size == size_in(value@),
{
    if !value.is_record(2) {
        return None;
    }
    match (read_u32(value.slot("width", 0)), read_u32(value.slot("height", 1))) {
        (Some(width), Some(height)) => Some((width, height)),
        _ => None,
    }
}

proof fn lemma_sizes_prefix(items: Seq<JsonValue>, i: int)
    requires
        0 <= i <= items.len(),
        sizes_in(items.take(i)) is None,
    ensures
        sizes_in(items) is None,
    decreases items.len() - i,
{
    if i < items.len() {
        assert(items.take(i + 1).drop_last() =~= items.take(i));
        lemma_sizes_prefix(items, i + 1);
    } else {
        assert(items.take(i) =~= items);
    }
}

fn read_sizes(items: &Vec<Json>) -> (sizes: Option<Vec<(u32, u32)>>)
    ensures
        match sizes {
            Some(sizes) => sizes_in(json::items_view(items@)) == Some(sizes@),
            None => sizes_in(json::items_view(items@)) is None,
        },
{
    let ghost all = json::items_view(items@);
    proof {
        json::items_view_items(items@);
    }
    let mut sizes: Vec<(u32, u32)> = Vec::new();
    let mut i: usize = 0;
    while i < items.len()
        invariant
            i <= items@.len() == all.len(),
            all == json::items_view(items@),
            forall|k: int| 0 <= k < all.len() ==> all[k] == (#[trigger] items@[k])@,
            sizes_in(all.take(i as int)) == Some(sizes@),
        decreases items@.len() - i,
    {
        assert(all.take(i + 1).drop_last() =~= all.take(i as int));
        assert(all.take(i + 1).last() == items@[i as int]@);
        match read_size(&items[i]) {
            Some(size) => {
                sizes.push(size);
            },
            None => {
                proof {
                    assert(sizes_in(all.take(i + 1)) is None);
                    lemma_sizes_prefix(all, i + 1);
                }
                return None;
            },
        }
        i += 1;
    }
    assert(all.take(i as int) =~= all);
    Some(sizes)
}

/// The size of an output of Niri.
pub fn resolution_from_output_json(value: &Json) -> (size: Option<(u32, u32)>)
    ensures
        size == niri_size(value@),
{
    if !value.is_record(2) {
        return None;
    }
    let (modes, current) = match (value.slot("modes", 0), value.slot("current_mode", 1)) {
        (Some(modes), Some(current)) => (modes, current),
        _ => {
            return None;
        },
    };
    let items = match modes.as_list() {
        Some(items) => items,
        None => {
            return None;
        },
    };
    let current = match current.as_unsigned() {
        Some(current) => current,
        None => {
            return None;
        },
    };
    let sizes = match read_sizes(items) {
        Some(sizes) => sizes,
        None => {
            return None;
        },
    };
    if current > usize::MAX as u64 || sizes.len() == 0 {
        return None;
    }
    if current < sizes.len() as u64 {
        Some(sizes[current as usize])
    } else {
        Some(sizes[0])
    }
}

proof fn lemma_area(size: (u32, u32))
    ensures
        0 <= area(size) <= u64::MAX,
{
    assert(size.0 * size.1 <= 0xffff_ffff * 0xffff_ffff) by (nonlinear_arith)
        requires
            size.0 <= 0xffff_ffff,
            size.1 <= 0xffff_ffff,
    ;
    assert(0 <= size.0 * size.1) by (nonlinear_arith);
}

fn area_of(size: (u32, u32)) -> (out: u64)
    ensures
        out == area(size),
{
    proof {
        lemma_area(size);
    }
    size.0 as u64 * size.1 as u64
}

/// The largest output of Niri.
pub fn largest_resolution_from_outputs_json(value: &Json) -> (size: Option<(u32, u32)>)
    ensures
        size == largest_niri_size(value@),
{
    let members = match value {
        Json::Object(members) => members,
        _ => {
            return None;
        },
    };
    let ghost all = json::members_view(members@);
    proof {
        json::members_view_members(members@);
    }
    let mut best: Option<(usize, (u32, u32))> = None;
    let mut i: usize = 0;
    while i < members.len()
        invariant
            i <= members@.len() == all.len(),
            forall|k: int|
                0 <= k < all.len() ==> all[k] == ((#[trigger] members@[k]).0@, members@[k].1@),
            match best {
                Some((k, size)) => k < members@.len() && largest_output(all.take(i as int)) == Some(
                    (members@[k as int].0@, size),
                ),
                None => largest_output(all.take(i as int)) is None,
            },
        decreases members@.len() - i,
    {
        assert(all.take(i + 1).drop_last() =~= all.take(i as int));
        assert(all.take(i + 1).last() == (members@[i as int].0@, members@[i as int].1@));
        match resolution_from_output_json(&members[i].1) {
            Some(size) => {
                let better = match best {
                    None => true,
                    Some((k, kept)) => {
                        let own = area_of(size);
                        let other = area_of(kept);
                        own > other || (own == other && comes_before(
                            members[i].0.as_str(),
                            members[k].0.as_str(),
                        ))
                    },
                };
                if better {
                    best = Some((i, size));
                }
            },
            None => {},
        }
        i += 1;
    }
    assert(all.take(i as int) =~= all);
    match best {
        Some((_, size)) => Some(size),
        None => None,
    }
}

// ---------------------------------------------------------------------------------------------
// KDE

/// How a mode is identified: by a text, or by a number in older versions.
pub open spec fn id_text(value: JsonValue) -> Option<Seq<char>> {
    match value {
        JsonValue::Text(text) => Some(text),
        JsonValue::Number(n) => Some(number::signed_decimal(n)),
        JsonValue::Real(text) => Some(text),
        _ => None,
    }
}

/// A mode of KDE: what identifies it, and its size.
pub open spec fn kde_mode(value: JsonValue) -> Option<(Option<Seq<char>>, (u32, u32))> {
    if !json::is_record(value, 2) {
        None
    } else {
        match (json::slot(value, "id"@, 0), json::slot(value, "size"@, 1)) {
            (Some(id), Some(size)) => match size_in(size) {
                Some(size) => Some((id_text(id), size)),
                None => None,
            },
            _ => None,
        }
    }
}

pub open spec fn kde_modes(items: Seq<JsonValue>) -> Option<
    Seq<(Option<Seq<char>>, (u32, u32))>,
>
    decreases items.len(),
{
    if items.len() == 0 {
        Some(Seq::empty())
    } else {
        match (kde_modes(items.drop_last()), kde_mode(items.last())) {
            (Some(before), Some(mode)) => Some(before.push(mode)),
            _ => None,
        }
    }
}

/// What KDE says of an output.
pub struct Screen {
    pub connected: bool,
    pub enabled: bool,
    pub current: Option<Seq<char>>,
    pub modes: Seq<(Option<Seq<char>>, (u32, u32))>,
    pub priority: i64,
    pub name: Seq<char>,
    pub size: Option<(u32, u32)>,
}

/// A flag that counts as set where it is missing.
pub open spec fn flag(value: Option<JsonValue>) -> Option<bool> {
    match value {
        None => Some(true),
        Some(JsonValue::Bool(set)) => Some(set),
        _ => None,
    }
}

pub open spec fn current_id(value: Option<JsonValue>) -> Option<Seq<char>> {
    match value {
        None => None,
        Some(value) => id_text(value),
    }
}

pub open spec fn modes_or_none(value: Option<JsonValue>) -> Option<
    Seq<(Option<Seq<char>>, (u32, u32))>,
> {
    match value {
        None => Some(Seq::empty()),
        Some(JsonValue::List(items)) => kde_modes(items),
        _ => None,
    }
}

pub open spec fn priority_or_zero(value: Option<JsonValue>) -> Option<i64> {
    match value {
        None => Some(0i64),
        Some(value) => json::as_signed(value),
    }
}

pub open spec fn name_or_empty(value: Option<JsonValue>) -> Option<Seq<char>> {
    match value {
        None => Some(Seq::empty()),
        Some(value) => json::as_text(value),
    }
}

/// A size that may be missing: `None` where it is unreadable.
pub open spec fn size_or_none(value: Option<JsonValue>) -> Option<Option<(u32, u32)>> {
    match value {
        None => Some(None),
        Some(JsonValue::Null) => Some(None),
        Some(value) => match size_in(value) {
            Some(size) => Some(Some(size)),
            None => None,
        },
    }
}

/// What KDE says of an output, where it can be read.
pub open spec fn screen_in(value: JsonValue) -> Option<Screen> {
    if !json::is_record(value, 7) {
        None
    } else {
        match (
            flag(json::slot(value, "connected"@, 0)),
            flag(json::slot(value, "enabled"@, 1)),
            modes_or_none(json::slot(value, "modes"@, 3)),
            priority_or_zero(json::slot(value, "priority"@, 4)),
            name_or_empty(json::slot(value, "name"@, 5)),
            size_or_none(json::slot(value, "size"@, 6)),
        ) {
            (
                Some(connected),
                Some(enabled),
                Some(modes),
                Some(priority),
                Some(name),
                Some(size),
            ) => Some(
                Screen {
                    connected,
                    enabled,
                    current: current_id(json::slot(value, "currentModeId"@, 2)),
                    modes,
                    priority,
                    name,
                    size,
                },
            ),
            _ => None,
        }
    }
}

/// The size of the first mode that is identified by a text.
pub open spec fn mode_with(
    modes: Seq<(Option<Seq<char>>, (u32, u32))>,
    id: Seq<char>,
    from: int,
) -> Option<(u32, u32)>
    decreases modes.len() - from,
{
    if from < 0 || from >= modes.len() {
        None
    } else if modes[from].0 == Some(id) {
        Some(modes[from].1)
    } else {
        mode_with(modes, id, from + 1)
    }
}

/// The size an output has now: that of its current mode, else its own size, else that of its
/// first mode. A size with a zero in it is none.
pub open spec fn screen_size(screen: Screen) -> Option<(u32, u32)> {
    let by_id = match screen.current {
        Some(id) => mode_with(screen.modes, id, 0),
        None => None,
    };
    let size = if by_id is Some {
        by_id
    } else if screen.size is Some {
        screen.size
    } else if screen.modes.len() > 0 {
        Some(screen.modes[0].1)
    } else {
        None
    };
    match size {
        Some((width, height)) => if width > 0 && height > 0 {
            size
        } else {
            None
        },
        None => None,
    }
}

pub struct Candidate {
    pub priority: i64,
    pub name: Seq<char>,
    pub size: (u32, u32),
}

/// A screen that is in use and has a size.
pub open spec fn candidate_of(screen: Screen) -> Option<Candidate> {
    if !screen.connected || !screen.enabled {
        None
    } else {
        match screen_size(screen) {
            Some(size) => Some(Candidate { priority: screen.priority, name: screen.name, size }),
            None => None,
        }
    }
}

/// The primary screen wins; without one the larger, and of two equally large ones the name that
/// comes first.
pub open spec fn preferred(a: Candidate, b: Candidate) -> bool {
    a.priority > b.priority || (a.priority == b.priority && larger((a.name, a.size), (b.name, b.size)))
}

/// The screen to take from a list: `None` where one of them cannot be read, `Some(None)` where
/// none is in use.
pub open spec fn preferred_screen(items: Seq<JsonValue>) -> Option<Option<Candidate>>
    decreases items.len(),
{
    if items.len() == 0 {
        Some(None)
    } else {
        match (preferred_screen(items.drop_last()), screen_in(items.last())) {
            (Some(best), Some(screen)) => match (best, candidate_of(screen)) {
                (best, None) => Some(best),
                (None, Some(own)) => Some(Some(own)),
                (Some(kept), Some(own)) => if preferred(own, kept) {
                    Some(Some(own))
                } else {
                    Some(Some(kept))
                },
            },
            _ => None,
        }
    }
}

pub open spec fn kde_size(value: JsonValue) -> Option<(u32, u32)> {
    match json::field(value, "outputs"@) {
        Some(JsonValue::List(items)) => match preferred_screen(items) {
            Some(Some(best)) => Some(best.size),
            _ => None,
        },
        _ => None,
    }
}

fn read_id(value: &Json) -> (id: Option<String>)
    ensures
        match id {
            Some(id) => id_text(value@) == Some(id@),
            None => id_text(value@) is None,
        },
{
    match value {
        Json::Text(text) => Some(text.clone()),
        Json::Real(text) => Some(text.clone()),
        Json::Unsigned(n) => Some(number::number_text(*n)),
        Json::Negative(n) => Some(signed_text(*n)),
        _ => None,
    }
}

/// A mode of KDE.
struct Mode {
    id: Option<String>,
    size: (u32, u32),
}

spec fn mode_view(mode: Mode) -> (Option<Seq<char>>, (u32, u32)) {
    (
        match mode.id {
            Some(id) => Some(id@),
            None => None,
        },
        mode.size,
    )
}

spec fn modes_view(modes: Seq<Mode>) -> Seq<(Option<Seq<char>>, (u32, u32))> {
    modes.map_values(|mode: Mode| mode_view(mode))
}

fn read_mode(value: &Json) -> (mode: Option<Mode>)
    ensures
        match mode {
            Some(mode) => kde_mode(value@) == Some(mode_view(mode)),
            None => kde_mode(value@) is None,
        },
{
    if !value.is_record(2) {
        return None;
    }
    match (value.slot("id", 0), value.slot("size", 1)) {
        (Some(id), Some(size)) => match read_size(size) {
            Some(size) => Some(Mode { id: read_id(id), size }),
            None => None,
        },
        _ => None,
    }
}

proof fn lemma_modes_prefix(items: Seq<JsonValue>, i: int)
    requires
        0 <= i <= items.len(),
        kde_modes(items.take(i)) is None,
    ensures
        kde_modes(items) is None,
    decreases items.len() - i,
{
    if i < items.len() {
        assert(items.take(i + 1).drop_last() =~= items.take(i));
        lemma_modes_prefix(items, i + 1);
    } else {
        assert(items.take(i) =~= items);
    }
}

fn read_modes(items: &Vec<Json>) -> (modes: Option<Vec<Mode>>)
    ensures
        match modes {
            Some(modes) => kde_modes(json::items_view(items@)) == Some(modes_view(modes@)),
            None => kde_modes(json::items_view(items@)) is None,
        },
{
    let ghost all = json::items_view(items@);
    proof {
        json::items_view_items(items@);
    }
    let mut modes: Vec<Mode> = Vec::new();
    let mut i: usize = 0;
    assert(modes_view(modes@) =~= Seq::<(Option<Seq<char>>, (u32, u32))>::empty());
    while i < items.len()
        invariant
            i <= items@.len() == all.len(),
            all == json::items_view(items@),
            forall|k: int| 0 <= k < all.len() ==> all[k] == (#[trigger] items@[k])@,
            kde_modes(all.take(i as int)) == Some(modes_view(modes@)),
        decreases items@.len() - i,
    {
        assert(all.take(i + 1).drop_last() =~= all.take(i as int));
        assert(all.take(i + 1).last() == items@[i as int]@);
        let ghost before = modes@;
        match read_mode(&items[i]) {
            Some(mode) => {
                modes.push(mode);
                assert(modes_view(modes@) =~= modes_view(before).push(mode_view(mode)));
            },
            None => {
                proof {
                    assert(kde_modes(all.take(i + 1)) is None);
                    lemma_modes_prefix(all, i + 1);
                }
                return None;
            },
        }
        i += 1;
    }
    assert(all.take(i as int) =~= all);
    Some(modes)
}

fn find_mode(modes: &Vec<Mode>, id: &str) -> (size: Option<(u32, u32)>)
    ensures
        size == mode_with(modes_view(modes@), id@, 0),
{
    let mut i: usize = 0;
    while i < modes.len()
        invariant
            i <= modes@.len(),
            mode_with(modes_view(modes@), id@, 0) == mode_with(modes_view(modes@), id@, i as int),
        decreases modes@.len() - i,
    {
        assert(modes_view(modes@)[i as int] == mode_view(modes@[i as int]));
        let found = match &modes[i].id {
            Some(own) => same_text(own.as_str(), id),
            None => false,
        };
        if found {
            return Some(modes[i].size);
        }
        i += 1;
    }
    None
}

/// What KDE says of an output.
struct KScreenOutput {
    connected: bool,
    enabled: bool,
    current: Option<String>,
    modes: Vec<Mode>,
    priority: i64,
    name: String,
    size: Option<(u32, u32)>,
}

impl KScreenOutput {
    spec fn screen(self) -> Screen {
        Screen {
            connected: self.connected,
            enabled: self.enabled,
            current: match self.current {
                Some(id) => Some(id@),
                None => None,
            },
            modes: modes_view(self.modes@),
            priority: self.priority,
            name: self.name@,
            size: self.size,
        }
    }

    /// The size of the mode that drives the output now.
    fn current_resolution(&self) -> (size: Option<(u32, u32)>)
        ensures
            size == screen_size(self.screen()),
    {
        let by_id = match &self.current {
            Some(id) => find_mode(&self.modes, id.as_str()),
            None => None,
        };
        let size = match by_id {
            Some(size) => Some(size),
            None => match self.size {
                Some(size) => Some(size),
                None => if self.modes.len() > 0 {
                    assert(modes_view(self.modes@)[0] == mode_view(self.modes@[0]));
                    Some(self.modes[0].size)
                } else {
                    None
                },
            },
        };
        match size {
            Some((width, height)) => if width > 0 && height > 0 {
                Some((width, height))
            } else {
                None
            },
            None => None,
        }
    }

    fn read(value: &Json) -> (output: Option<KScreenOutput>)
        ensures
            match output {
                Some(output) => screen_in(value@) == Some(output.screen()),
                None => screen_in(value@) is None,
            },
    {
        if !value.is_record(7) {
            return None;
        }
        let connected = match value.slot("connected", 0) {
            None => true,
            Some(value) => match value.as_bool() {
                Some(set) => set,
                None => {
                    return None;
                },
            },
        };
        let enabled = match value.slot("enabled", 1) {
            None => true,
            Some(value) => match value.as_bool() {
                Some(set) => set,
                None => {
                    return None;
                },
            },
        };
        let current = match value.slot("currentModeId", 2) {
            None => None,
            Some(value) => read_id(value),
        };
        let modes = match value.slot("modes", 3) {
            None => {
                let none: Vec<Mode> = Vec::new();
                assert(modes_view(none@) =~= Seq::<(Option<Seq<char>>, (u32, u32))>::empty());
                none
            },
            Some(value) => match value.as_list() {
                Some(items) => match read_modes(items) {
                    Some(modes) => modes,
                    None => {
                        return None;
                    },
                },
                None => {
                    return None;
                },
            },
        };
        let priority: i64 = match value.slot("priority", 4) {
            None => 0,
            Some(value) => match value.as_signed() {
                Some(priority) => priority,
                None => {
                    return None;
                },
            },
        };
        let name = match value.slot("name", 5) {
            None => String::new(),
            Some(value) => match value.as_text() {
                Some(name) => name.to_owned(),
                None => {
                    return None;
                },
            },
        };
        let size = match value.slot("size", 6) {
            None => None,
            Some(value) => if value.is_null() {
                None
            } else {
                match read_size(value) {
                    Some(size) => Some(size),
                    None => {
                        return None;
                    },
                }
            },
        };
        Some(KScreenOutput { connected, enabled, current, modes, priority, name, size })
    }
}

proof fn lemma_screens_prefix(items: Seq<JsonValue>, i: int)
    requires
        0 <= i <= items.len(),
        preferred_screen(items.take(i)) is None,
    ensures
        preferred_screen(items) is None,
    decreases items.len() - i,
{
    if i < items.len() {
        assert(items.take(i + 1).drop_last() =~= items.take(i));
        lemma_screens_prefix(items, i + 1);
    } else {
        assert(items.take(i) =~= items);
    }
}

/// The size of the primary output of KDE, or of the largest one in use.
pub fn resolution_from_kscreen_json(value: &Json) -> (size: Option<(u32, u32)>)
    ensures
        size == kde_size(value@),
{
    let items = match value.get("outputs") {
        Some(outputs) => match outputs.as_list() {
            Some(items) => items,
            None => {
                return None;
            },
        },
        None => {
            return None;
        },
    };
    let ghost all = json::items_view(items@);
    proof {
        json::items_view_items(items@);
    }
    let mut best: Option<(i64, String, (u32, u32))> = None;
    let mut i: usize = 0;
    while i < items.len()
        invariant
            i <= items@.len() == all.len(),
            json::field(value@, "outputs"@) == Some(JsonValue::List(all)),
            forall|k: int| 0 <= k < all.len() ==> all[k] == (#[trigger] items@[k])@,
            preferred_screen(all.take(i as int)) == Some(
                match best {
                    Some((priority, name, size)) => Some(Candidate { priority, name: name@, size }),
                    None => None,
                },
            ),
        decreases items@.len() - i,
    {
        assert(all.take(i + 1).drop_last() =~= all.take(i as int));
        assert(all.take(i + 1).last() == items@[i as int]@);
        let output = match KScreenOutput::read(&items[i]) {
            Some(output) => output,
            None => {
                proof {
                    assert(preferred_screen(all.take(i + 1)) is None);
                    lemma_screens_prefix(all, i + 1);
                }
                return None;
            },
        };
        if output.connected && output.enabled {
            match output.current_resolution() {
                Some(size) => {
                    let better = match &best {
                        None => true,
                        Some((priority, name, kept)) => {
                            let own = area_of(size);
                            let other = area_of(*kept);
                            output.priority > *priority || (output.priority == *priority && (own
                                > other || (own == other && comes_before(
                                output.name.as_str(),
                                name.as_str(),
                            ))))
                        },
                    };
                    if better {
                        best = Some((output.priority, output.name.clone(), size));
                    }
                },
                None => {},
            }
        }
        i += 1;
    }
    assert(all.take(i as int) =~= all);
    match best {
        Some((_, _, size)) => Some(size),
        None => None,
    }
}

// ---------------------------------------------------------------------------------------------
// Which answer counts

/// A question to the desktop. Its answer is what the program prints, if it answers at all.
#[derive(Clone, Copy, PartialEq, Eq, Structural)]
pub enum Probe {
    /// `niri msg --json focused-output`
    FocusedOutput,
    /// `niri msg --json outputs`
    Outputs,
    /// `kscreen-doctor -j`
    KScreen,
}

/// The size that an answer gives.
pub open spec fn answered_size(probe: Probe, answer: Option<Seq<char>>) -> Option<(u32, u32)> {
    match answer {
        None => None,
        Some(text) => match json::read_json(text) {
            None => None,
            Some(value) => match probe {
                Probe::FocusedOutput => niri_size(value),
                Probe::Outputs => largest_niri_size(value),
                Probe::KScreen => kde_size(value),
            },
        },
    }
}

/// The size that an answer to a question gives.
pub fn size_in_answer(probe: Probe, answer: &Option<String>) -> (size: Option<(u32, u32)>)
    ensures
        size == answered_size(probe, chars::text_view(*answer)),
{
    match answer {
        None => None,
        Some(text) => match Json::parse(text.as_str()) {
            None => None,
            Some(value) => match probe {
                Probe::FocusedOutput => resolution_from_output_json(&value),
                Probe::Outputs => largest_resolution_from_outputs_json(&value),
                Probe::KScreen => resolution_from_kscreen_json(&value),
            },
        },
    }
}

/// The size that a user gave, where it is one.
pub open spec fn given_size(given: Option<Seq<char>>) -> Option<(u32, u32)> {
    match given {
        Some(text) => spelled_size(text),
        None => None,
    }
}

/// `size` is what the answers of `ask` settle, with the questions in their order: the next one
/// is asked only where the one before gave no size.
pub open spec fn settled<F: Fn(Probe) -> Option<String>>(
    given: Option<Seq<char>>,
    ask: F,
    size: Option<(u32, u32)>,
) -> bool {
    match given_size(given) {
        Some(own) => size == Some(own),
        None => exists|first: Option<String>| #[trigger]
            ask.ensures((Probe::FocusedOutput,), first) && match answered_size(
                Probe::FocusedOutput,
                chars::text_view(first),
            ) {
                Some(own) => size == Some(own),
                None => settled_by_outputs(ask, size),
            },
    }
}

pub open spec fn settled_by_outputs<F: Fn(Probe) -> Option<String>>(
    ask: F,
    size: Option<(u32, u32)>,
) -> bool {
    exists|second: Option<String>| #[trigger]
        ask.ensures((Probe::Outputs,), second) && match answered_size(
            Probe::Outputs,
            chars::text_view(second),
        ) {
            Some(own) => size == Some(own),
            None => settled_by_kscreen(ask, size),
        }
}

pub open spec fn settled_by_kscreen<F: Fn(Probe) -> Option<String>>(
    ask: F,
    size: Option<(u32, u32)>,
) -> bool {
    exists|third: Option<String>| #[trigger]
        ask.ensures((Probe::KScreen,), third) && size == answered_size(
            Probe::KScreen,
            chars::text_view(third),
        )
}

/// The size of the screen: what the user gave, else the first size that an answer gives.
pub fn primary_resolution<F: Fn(Probe) -> Option<String>>(given: Option<&str>, ask: F) -> (size:
    Option<(u32, u32)>)
    requires
        forall|probe: Probe| #[trigger] ask.requires((probe,)),
    ensures
        settled(chars::str_view(given), ask, size),
{
    match given {
        Some(text) => match parse_resolution_spec(text) {
            Some(size) => {
                return Some(size);
            },
            None => {},
        },
        None => {},
    }
    let first = ask(Probe::FocusedOutput);
    match size_in_answer(Probe::FocusedOutput, &first) {
        Some(size) => {
            return Some(size);
        },
        None => {},
    }
    let second = ask(Probe::Outputs);
    match size_in_answer(Probe::Outputs, &second) {
        Some(size) => {
            assert(settled_by_outputs(ask, Some(size)));
            return Some(size);
        },
        None => {},
    }
    let third = ask(Probe::KScreen);
    let size = size_in_answer(Probe::KScreen, &third);
    assert(settled_by_kscreen(ask, size));
    assert(settled_by_outputs(ask, size));
    size
}

/// The size of the screen, or a size to fall back on.
pub fn primary_resolution_or<F: Fn(Probe) -> Option<String>>(
    given: Option<&str>,
    ask: F,
    fallback: (u32, u32),
) -> (size: (u32, u32))
    requires
        forall|probe: Probe| #[trigger] ask.requires((probe,)),
    ensures
        exists|found: Option<(u32, u32)>| #[trigger]
            settled(chars::str_view(given), ask, found) && size == match found {
                Some(found) => found,
                None => fallback,
            },
{
    match primary_resolution(given, ask) {
        Some(size) => size,
        None => fallback,
    }
}

// ---------------------------------------------------------------------------------------------
// What holds of the choice

/// A size that is taken from a screen of KDE has no zero in it.
pub proof fn a_kde_size_is_never_zero(value: JsonValue)
    ensures
        match kde_size(value) {
            Some(size) => size.0 > 0 && size.1 > 0,
            None => true,
        },
{
    match json::field(value, "outputs"@) {
        Some(JsonValue::List(items)) => lemma_preferred_has_size(items),
        _ => {},
    }
}

proof fn lemma_preferred_has_size(items: Seq<JsonValue>)
    ensures
        match preferred_screen(items) {
            Some(Some(best)) => best.size.0 > 0 && best.size.1 > 0,
            _ => true,
        },
    decreases items.len(),
{
    if items.len() > 0 {
        lemma_preferred_has_size(items.drop_last());
    }
}

/// A screen that is unplugged or switched off never decides, whatever its size or its priority.
pub proof fn an_unused_screen_never_decides(before: Seq<JsonValue>, value: JsonValue)
    requires
        match screen_in(value) {
            Some(screen) => !screen.connected || !screen.enabled,
            None => false,
        },
    ensures
        preferred_screen(before.push(value)) == preferred_screen(before),
{
    assert(before.push(value).drop_last() =~= before);
}

/// No screen in use is preferred to the one that was taken: in particular none has a higher
/// priority.
pub proof fn the_primary_screen_is_taken(items: Seq<JsonValue>, i: int)
    requires
        preferred_screen(items) is Some,
        0 <= i < items.len(),
        screen_in(items[i]) is Some,
        candidate_of(screen_in(items[i]).unwrap()) is Some,
    ensures
        match preferred_screen(items).unwrap() {
            Some(best) => {
                let own = candidate_of(screen_in(items[i]).unwrap()).unwrap();
                &&& own.priority <= best.priority
                &&& own.priority == best.priority ==> area(own.size) <= area(best.size)
            },
            None => false,
        },
    decreases items.len(),
{
    let front = items.drop_last();
    if i < items.len() - 1 {
        assert(front[i] == items[i]);
        the_primary_screen_is_taken(front, i);
    }
}

proof fn lemma_first_cross(s: Seq<char>, from: int)
    requires
        0 <= from,
    ensures
        match first_cross(s, from) {
            Some(i) => from <= i < s.len() && is_cross(s[i]) && forall|k: int|
                from <= k < i ==> !is_cross(#[trigger] s[k]),
            None => forall|k: int| from <= k < s.len() ==> !is_cross(#[trigger] s[k]),
        },
    decreases s.len() - from,
{
    if from < s.len() && !is_cross(s[from]) {
        lemma_first_cross(s, from + 1);
    }
}

/// A size that is written as its width, an `x` in either case and its height is read back, unless
/// a side is zero; a text without an `x` is no size.
pub proof fn a_written_size_is_read_back(width: u32, height: u32, cross: char, other: Seq<char>)
    requires
        cross == 'x' || cross == 'X',
    ensures
        width > 0 && height > 0 ==> spelled_size(
            number::decimal(width as nat).push(cross) + number::decimal(height as nat),
        ) == Some((width, height)),
        width == 0 || height == 0 ==> spelled_size(
            number::decimal(width as nat).push(cross) + number::decimal(height as nat),
        ) is None,
        !search::trim(other).contains('x') && !search::trim(other).contains('X') ==> spelled_size(
            other,
        ) is None,
{
    let (w, h) = (number::decimal(width as nat), number::decimal(height as nat));
    number::a_written_number_is_read_back(width as nat, u32::MAX as nat);
    number::a_written_number_is_read_back(height as nat, u32::MAX as nat);
    let text = w.push(cross) + h;
    lemma_no_space_to_trim(w);
    lemma_no_space_to_trim(h);
    assert(forall|i: int| 0 <= i < w.len() ==> !chars::is_space(#[trigger] w[i]));
    assert forall|i: int| 0 <= i < text.len() implies !chars::is_space(#[trigger] text[i]) by {
        if i < w.len() {
            assert(text[i] == w[i]);
        } else if i > w.len() {
            assert(text[i] == h[i - w.len() - 1]);
        }
    }
    lemma_no_space_to_trim(text);
    lemma_first_cross(text, 0);
    let at = first_cross(text, 0).unwrap();
    assert(text[w.len() as int] == cross);
    assert(first_cross(text, 0) is Some);
    assert(at == w.len()) by {
        if at < w.len() {
            assert(text[at] == w[at]);
            assert(chars::is_digit(w[at]));
        }
    }
    assert(text.take(at) =~= w);
    assert(text.skip(at + 1) =~= h);
    lemma_first_cross(search::trim(other), 0);
    let short = search::trim(other);
    if !short.contains('x') && !short.contains('X') {
        match first_cross(short, 0) {
            Some(i) => {
                assert(short.contains(short[i]));
            },
            None => {},
        }
    }
}

proof fn lemma_no_space_to_trim(s: Seq<char>)
    requires
        forall|i: int| 0 <= i < s.len() ==> !chars::is_space(#[trigger] s[i]),
    ensures
        search::trim(s) == s,
{
    if s.len() > 0 {
        assert(!chars::is_space(s[0]));
        assert(!chars::is_space(s[s.len() - 1]));
    }
}

/// A size is its width and its height, each under its own name.
pub proof fn a_size_has_two_sides(width: u32, height: u32)
    ensures
        size_in(
            JsonValue::Object(
                seq![
                    ("width"@, JsonValue::Number(width as int)),
                    ("height"@, JsonValue::Number(height as int)),
                ],
            ),
        ) == Some((width, height)),
        size_in(
            JsonValue::Object(
                seq![
                    ("height"@, JsonValue::Number(height as int)),
                    ("width"@, JsonValue::Number(width as int)),
                ],
            ),
        ) == Some((width, height)),
        size_in(
            JsonValue::List(seq![JsonValue::Number(width as int), JsonValue::Number(height as int)]),
        ) == Some((width, height)),
        size_in(JsonValue::Null) is None,
{
    reveal_strlit("width");
    reveal_strlit("height");
    assert("width"@.len() == 5 && "height"@.len() == 6);
    let a = ("width"@, JsonValue::Number(width as int));
    let b = ("height"@, JsonValue::Number(height as int));
    assert(seq![a, b].skip(1) =~= seq![b]);
    assert(seq![b, a].skip(1) =~= seq![a]);
    assert(json::member(seq![a], "width"@) == Some(a.1));
    assert(json::member(seq![b], "height"@) == Some(b.1));
    assert(json::member(seq![a, b], "height"@) == Some(b.1));
    assert(json::member(seq![b, a], "width"@) == Some(a.1));
}

/// The sizes in a list are those of its items, in their order, and there are none where one item
/// is no size.
pub proof fn every_item_of_a_list_is_a_size(items: Seq<JsonValue>)
    ensures
        match sizes_in(items) {
            Some(sizes) => sizes.len() == items.len() && forall|i: int|
                0 <= i < items.len() ==> size_in(#[trigger] items[i]) == Some(sizes[i]),
            None => exists|i: int| 0 <= i < items.len() && size_in(#[trigger] items[i]) is None,
        },
    decreases items.len(),
{
    if items.len() > 0 {
        let front = items.drop_last();
        every_item_of_a_list_is_a_size(front);
        assert(items[items.len() - 1] == items.last());
        match sizes_in(front) {
            Some(before) => {
                if size_in(items.last()) is Some {
                    assert forall|i: int| 0 <= i < items.len() implies size_in(#[trigger] items[i])
                        == Some(sizes_in(items).unwrap()[i]) by {
                        if i < front.len() {
                            assert(front[i] == items[i]);
                        }
                    }
                }
            },
            None => {
                let i = choose|i: int| 0 <= i < front.len() && size_in(#[trigger] front[i]) is None;
                assert(items[i] == front[i]);
            },
        }
    }
}

/// The size of an output is that of the mode it is in, and of the first one where the number of
/// its mode leads nowhere; an output in no mode has none.
pub proof fn the_current_mode_counts(
    value: JsonValue,
    items: Seq<JsonValue>,
    sizes: Seq<(u32, u32)>,
    current: int,
)
    requires
        value is Object,
        json::field(value, "modes"@) == Some(JsonValue::List(items)),
        sizes_in(items) == Some(sizes),
    ensures
        json::field(value, "current_mode"@) == Some(JsonValue::Number(current)) && 0 <= current
            < sizes.len() && current <= usize::MAX ==> niri_size(value) == Some(sizes[current]),
        json::field(value, "current_mode"@) == Some(JsonValue::Number(current)) && sizes.len()
            <= current <= usize::MAX && sizes.len() > 0 ==> niri_size(value) == Some(sizes[0]),
        json::field(value, "current_mode"@) == Some(JsonValue::Null) ==> niri_size(value) is None,
        json::field(value, "current_mode"@) is None ==> niri_size(value) is None,
{
}

/// The largest output of those that have a size is taken: no other one has more pixels, and of
/// those with as many none has a name that comes first.
pub proof fn the_largest_output_is_taken(members: Seq<(Seq<char>, JsonValue)>)
    ensures
        match largest_output(members) {
            Some((name, size)) => (exists|i: int|
                0 <= i < members.len() && (#[trigger] members[i]).0 == name && niri_size(
                    members[i].1,
                ) == Some(size)) && forall|i: int|
                0 <= i < members.len() && niri_size((#[trigger] members[i]).1) is Some ==> {
                    let other = niri_size(members[i].1).unwrap();
                    &&& other.0 * other.1 <= size.0 * size.1
                    &&& other.0 * other.1 == size.0 * size.1 ==> !order::text_before(
                        members[i].0,
                        name,
                    )
                },
            None => forall|i: int|
                0 <= i < members.len() ==> niri_size((#[trigger] members[i]).1) is None,
        },
    decreases members.len(),
{
    if members.len() > 0 {
        let front = members.drop_last();
        the_largest_output_is_taken(front);
        assert(members[members.len() - 1] == members.last());
        match largest_output(members) {
            Some((name, size)) => {
                let own = members.last();
                order::text_order_is_total(own.0, own.0);
                match largest_output(front) {
                    Some((kept, kept_size)) => {
                        let i = choose|i: int|
                            0 <= i < front.len() && (#[trigger] front[i]).0 == kept && niri_size(
                                front[i].1,
                            ) == Some(kept_size);
                        assert(members[i] == front[i]);
                    },
                    None => {},
                }
                assert forall|i: int|
                    0 <= i < members.len() && niri_size((#[trigger] members[i]).1) is Some implies {
                    let other = niri_size(members[i].1).unwrap();
                    &&& other.0 * other.1 <= size.0 * size.1
                    &&& other.0 * other.1 == size.0 * size.1 ==> !order::text_before(
                        members[i].0,
                        name,
                    )
                } by {
                    if i < front.len() {
                        assert(front[i] == members[i]);
                        let (kept, _) = largest_output(front).unwrap();
                        order::text_order_is_total(own.0, kept);
                        if order::text_before(members[i].0, own.0) && order::text_before(
                            own.0,
                            kept,
                        ) {
                            order::text_order_is_transitive(members[i].0, own.0, kept);
                        }
                    }
                }
            },
            None => {
                assert forall|i: int| 0 <= i < members.len() implies niri_size(
                    (#[trigger] members[i]).1,
                ) is None by {
                    if i < front.len() {
                        assert(front[i] == members[i]);
                    }
                }
            },
        }
    }
}

proof fn lemma_mode_with(
    modes: Seq<(Option<Seq<char>>, (u32, u32))>,
    id: Seq<char>,
    i: int,
    from: int,
)
    requires
        0 <= from <= i < modes.len(),
        modes[i].0 == Some(id),
        forall|k: int| 0 <= k < i ==> (#[trigger] modes[k]).0 != Some(id),
    ensures
        mode_with(modes, id, from) == Some(modes[i].1),
    decreases i - from,
{
    if from < i {
        assert(modes[from].0 != Some(id));
        lemma_mode_with(modes, id, i, from + 1);
    }
}

/// A screen of KDE has the size of the mode it is in. A screen in no mode has its own size, and
/// else that of its first mode. A size with a zero in it is none.
pub proof fn a_screen_has_the_size_of_its_mode(screen: Screen, i: int, id: Seq<char>)
    ensures
        0 <= i < screen.modes.len() && screen.current == Some(id) && screen.modes[i].0 == Some(id)
            && (forall|k: int| 0 <= k < i ==> (#[trigger] screen.modes[k]).0 != Some(id))
            && screen.modes[i].1.0 > 0 && screen.modes[i].1.1 > 0 ==> screen_size(screen) == Some(
            screen.modes[i].1,
        ),
        screen.current is None && screen.size is Some && screen.size.unwrap().0 > 0
            && screen.size.unwrap().1 > 0 ==> screen_size(screen) == screen.size,
        screen.current is None && screen.size is None && screen.modes.len() > 0
            && screen.modes[0].1.0 > 0 && screen.modes[0].1.1 > 0 ==> screen_size(screen) == Some(
            screen.modes[0].1,
        ),
        screen.current is None && screen.size is None && screen.modes.len() == 0 ==> screen_size(
            screen,
        ) is None,
{
    if 0 <= i < screen.modes.len() && screen.current == Some(id) && screen.modes[i].0 == Some(id)
        && (forall|k: int| 0 <= k < i ==> (#[trigger] screen.modes[k]).0 != Some(id)) {
        lemma_mode_with(screen.modes, id, i, 0);
    }
}

/// A screen counts exactly where it is plugged in, switched on and has a size.
pub proof fn which_screens_count(screen: Screen)
    ensures
        candidate_of(screen) is Some <==> screen.connected && screen.enabled && screen_size(
            screen,
        ) is Some,
        candidate_of(screen) is Some ==> candidate_of(screen).unwrap() == (Candidate {
            priority: screen.priority,
            name: screen.name,
            size: screen_size(screen).unwrap(),
        }),
{
}

/// A screen in use that is listed behind others is taken where its priority is higher than theirs,
/// and where it is as high, where it is larger.
pub proof fn priority_comes_before_size(before: Seq<JsonValue>, value: JsonValue)
    requires
        preferred_screen(before) is Some,
        screen_in(value) is Some,
        candidate_of(screen_in(value).unwrap()) is Some,
    ensures
        ({
            let own = candidate_of(screen_in(value).unwrap()).unwrap();
            let after = preferred_screen(before.push(value));
            match preferred_screen(before).unwrap() {
                None => after == Some(Some(own)),
                Some(kept) => {
                    &&& own.priority > kept.priority ==> after == Some(Some(own))
                    &&& own.priority < kept.priority ==> after == Some(Some(kept))
                    &&& own.priority == kept.priority && own.size.0 * own.size.1 > kept.size.0
                        * kept.size.1 ==> after == Some(Some(own))
                    &&& own.priority == kept.priority && own.size.0 * own.size.1 < kept.size.0
                        * kept.size.1 ==> after == Some(Some(kept))
                    &&& own.priority == kept.priority && own.size.0 * own.size.1 == kept.size.0
                        * kept.size.1 ==> after == Some(
                        Some(
                            if order::text_before(own.name, kept.name) {
                                own
                            } else {
                                kept
                            },
                        ),
                    )
                },
            }
        }),
{
    assert(before.push(value).drop_last() =~= before);
}

/// A size that the user gave counts where it is one, and each question is answered in its own way.
pub proof fn answers_are_read_in_their_own_way(text: Seq<char>, given: Seq<char>)
    ensures
        given_size(Some(given)) == spelled_size(given),
        given_size(None) is None,
        answered_size(Probe::FocusedOutput, None) is None,
        json::read_json(text) is Some ==> {
            let value = json::read_json(text).unwrap();
            &&& answered_size(Probe::FocusedOutput, Some(text)) == niri_size(value)
            &&& answered_size(Probe::Outputs, Some(text)) == largest_niri_size(value)
            &&& answered_size(Probe::KScreen, Some(text)) == kde_size(value)
        },
{
}

proof fn lemma_kde_modes(items: Seq<JsonValue>)
    ensures
        match kde_modes(items) {
            Some(modes) => modes.len() == items.len() && forall|i: int|
                0 <= i < items.len() ==> kde_mode(#[trigger] items[i]) == Some(modes[i]),
            None => exists|i: int| 0 <= i < items.len() && kde_mode(#[trigger] items[i]) is None,
        },
    decreases items.len(),
{
    if items.len() > 0 {
        let front = items.drop_last();
        lemma_kde_modes(front);
        assert(items[items.len() - 1] == items.last());
        match kde_modes(front) {
            Some(before) => {
                if kde_mode(items.last()) is Some {
                    assert forall|i: int| 0 <= i < items.len() implies kde_mode(#[trigger] items[i])
                        == Some(kde_modes(items).unwrap()[i]) by {
                        if i < front.len() {
                            assert(front[i] == items[i]);
                        }
                    }
                }
            },
            None => {
                let i = choose|i: int| 0 <= i < front.len() && kde_mode(#[trigger] front[i]) is None;
                assert(items[i] == front[i]);
            },
        }
    }
}

/// What KDE says of a screen, name by name. A screen counts as plugged in and switched on where
/// nothing is said of it; without a priority it has the lowest one of zero.
pub proof fn what_kde_says_of_a_screen(value: JsonValue, screen: Screen, text: Seq<char>, n: int)
    requires
        value is Object,
        screen_in(value) == Some(screen),
    ensures
        screen.connected <==> json::field(value, "connected"@) is None || json::field(
            value,
            "connected"@,
        ) == Some(JsonValue::Bool(true)),
        screen.enabled <==> json::field(value, "enabled"@) is None || json::field(value, "enabled"@)
            == Some(JsonValue::Bool(true)),
        json::field(value, "currentModeId"@) == Some(JsonValue::Text(text)) ==> screen.current
            == Some(text),
        json::field(value, "currentModeId"@) == Some(JsonValue::Number(n)) ==> screen.current
            == Some(number::signed_decimal(n)),
        json::field(value, "currentModeId"@) is None ==> screen.current is None,
        json::field(value, "priority"@) is None ==> screen.priority == 0,
        json::field(value, "priority"@) == Some(JsonValue::Number(n)) ==> screen.priority == n,
        json::field(value, "name"@) is None ==> screen.name.len() == 0,
        json::field(value, "name"@) == Some(JsonValue::Text(text)) ==> screen.name == text,
        json::field(value, "size"@) is None ==> screen.size is None,
        json::field(value, "size"@) is Some && !(json::field(value, "size"@).unwrap() is Null)
            ==> screen.size == size_in(json::field(value, "size"@).unwrap()) && screen.size is Some,
        json::field(value, "modes"@) is None ==> screen.modes.len() == 0,
        forall|items: Seq<JsonValue>, i: int|
            json::field(value, "modes"@) == Some(JsonValue::List(items)) && 0 <= i < items.len()
                ==> screen.modes.len() == items.len() && kde_mode(#[trigger] items[i]) == Some(
                screen.modes[i],
            ),
{
    if json::field(value, "modes"@) is Some {
        match json::field(value, "modes"@).unwrap() {
            JsonValue::List(items) => {
                lemma_kde_modes(items);
            },
            _ => {},
        }
    }
}

/// A mode of KDE is its id, which is a text or a number, and its size.
pub proof fn what_a_mode_of_kde_is(
    value: JsonValue,
    size: JsonValue,
    sides: (u32, u32),
    text: Seq<char>,
    n: int,
)
    requires
        value is Object,
        json::field(value, "size"@) == Some(size),
        size_in(size) == Some(sides),
    ensures
        json::field(value, "id"@) == Some(JsonValue::Text(text)) ==> kde_mode(value) == Some(
            (Some(text), sides),
        ),
        json::field(value, "id"@) == Some(JsonValue::Number(n)) ==> kde_mode(value) == Some(
            (Some(number::signed_decimal(n)), sides),
        ),
        json::field(value, "id"@) is None ==> kde_mode(value) is None,
{
}

/// The size that KDE gives is that of the screen it prefers, and there is none where no screen is
/// in use or one of them cannot be read.
pub proof fn the_preferred_screen_counts(value: JsonValue, items: Seq<JsonValue>, one: JsonValue)
    requires
        json::field(value, "outputs"@) == Some(JsonValue::List(items)),
    ensures
        match preferred_screen(items) {
            Some(Some(best)) => kde_size(value) == Some(best.size),
            _ => kde_size(value) is None,
        },
        preferred_screen(Seq::empty()) == Some(None::<Candidate>),
        screen_in(one) is None ==> preferred_screen(items.push(one)) is None,
        screen_in(one) is Some && candidate_of(screen_in(one).unwrap()) is None
            ==> preferred_screen(items.push(one)) == preferred_screen(items),
{
    assert(items.push(one).drop_last() =~= items);
}

/// The size of the screen is the one that the user gave. Else it is the size that the focused output
/// gives, else that of the largest output, and else whatever KDE says.
pub proof fn the_first_size_counts<F: Fn(Probe) -> Option<String>>(
    given: Option<Seq<char>>,
    ask: F,
    size: Option<(u32, u32)>,
    focused: Option<Seq<char>>,
    outputs: Option<Seq<char>>,
    kde: Option<Seq<char>>,
)
    requires
        settled(given, ask, size),
        forall|answer: Option<String>| #[trigger]
            ask.ensures((Probe::FocusedOutput,), answer) ==> chars::text_view(answer) == focused,
        forall|answer: Option<String>| #[trigger]
            ask.ensures((Probe::Outputs,), answer) ==> chars::text_view(answer) == outputs,
        forall|answer: Option<String>| #[trigger]
            ask.ensures((Probe::KScreen,), answer) ==> chars::text_view(answer) == kde,
    ensures
        size == if given_size(given) is Some {
            given_size(given)
        } else if answered_size(Probe::FocusedOutput, focused) is Some {
            answered_size(Probe::FocusedOutput, focused)
        } else if answered_size(Probe::Outputs, outputs) is Some {
            answered_size(Probe::Outputs, outputs)
        } else {
            answered_size(Probe::KScreen, kde)
        },
{
}

} // verus!
