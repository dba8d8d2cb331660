//! The scaling profile: what a game is drawn at, and how it is scaled up.

use crate::config::ratio;
use crate::config::ratio::{check_product, scale, Ratio};
use crate::text::chars;
use crate::text::chars::{copy_texts, list_has, same_text};
use crate::text::number;
use crate::text::number::number_text;
use vstd::prelude::*;
use vstd::string::StringExecFns;

verus! {

/// The size gamescope draws at when nobody says another.
pub const GAMESCOPE_DEFAULT_WIDTH: u32 = 1280;

pub const GAMESCOPE_DEFAULT_HEIGHT: u32 = 720;

/// The size of the screen where none can be found out.
pub const FALLBACK_OUTPUT_WIDTH: u32 = 1920;

pub const FALLBACK_OUTPUT_HEIGHT: u32 = 1080;

/// The largest size of anything.
pub const MAX_RESOLUTION: u32 = 16384;

/// The largest frame rate.
pub const MAX_FRAMERATE: u32 = 1000;

/// The largest sharpness; 0 is the softest.
pub const MAX_SHARPNESS: u32 = 5;

/// The sharpness of a profile that nobody has set.
pub const DEFAULT_SHARPNESS: u32 = 2;

/// How a game is scaled up.
#[derive(Clone, Copy, Debug, PartialEq, Eq, Structural)]
pub enum ScaleAlgorithm {
    Fsr { sharpness: u32 },
    Nis { sharpness: u32 },
    Integer,
    Bilinear,
}

pub open spec fn clamped(sharpness: u32) -> u32 {
    if sharpness < MAX_SHARPNESS {
        sharpness
    } else {
        MAX_SHARPNESS
    }
}

/// The name under which a user knows an algorithm.
pub open spec fn label_of(algorithm: ScaleAlgorithm) -> Seq<char> {
    match algorithm {
        ScaleAlgorithm::Fsr { .. } => "Fsr"@,
        ScaleAlgorithm::Nis { .. } => "Nis"@,
        ScaleAlgorithm::Integer => "Integer"@,
        ScaleAlgorithm::Bilinear => "Bilinear"@,
    }
}

/// The algorithm with another sharpness, where it has one.
pub open spec fn sharpened(algorithm: ScaleAlgorithm, sharpness: u32) -> ScaleAlgorithm {
    match algorithm {
        ScaleAlgorithm::Fsr { .. } => ScaleAlgorithm::Fsr { sharpness: clamped(sharpness) },
        ScaleAlgorithm::Nis { .. } => ScaleAlgorithm::Nis { sharpness: clamped(sharpness) },
        other => other,
    }
}

/// The algorithm with its sharpness in range.
pub open spec fn in_range(algorithm: ScaleAlgorithm) -> ScaleAlgorithm {
    match algorithm {
        ScaleAlgorithm::Fsr { sharpness } => ScaleAlgorithm::Fsr { sharpness: clamped(sharpness) },
        ScaleAlgorithm::Nis { sharpness } => ScaleAlgorithm::Nis { sharpness: clamped(sharpness) },
        other => other,
    }
}

/// The algorithm that a name stands for.
pub open spec fn algorithm_named(label: Seq<char>) -> Option<ScaleAlgorithm> {
    if label == "Fsr"@ {
        Some(ScaleAlgorithm::Fsr { sharpness: DEFAULT_SHARPNESS })
    } else if label == "Nis"@ {
        Some(ScaleAlgorithm::Nis { sharpness: DEFAULT_SHARPNESS })
    } else if label == "Integer"@ {
        Some(ScaleAlgorithm::Integer)
    } else if label == "Bilinear"@ {
        Some(ScaleAlgorithm::Bilinear)
    } else {
        None
    }
}

impl ScaleAlgorithm {
    /// The names of the algorithms.
    pub fn all() -> (labels: Vec<&'static str>)
        ensures
            labels@.len() == 4,
            labels@[0]@ == "Fsr"@,
            labels@[1]@ == "Nis"@,
            labels@[2]@ == "Integer"@,
            labels@[3]@ == "Bilinear"@,
    {
        let mut labels: Vec<&'static str> = Vec::new();
        labels.push("Fsr");
        labels.push("Nis");
        labels.push("Integer");
        labels.push("Bilinear");
        labels
    }

    pub fn label(&self) -> (label: &'static str)
        ensures
            label@ == label_of(*self),
    {
        match self {
            ScaleAlgorithm::Fsr { .. } => "Fsr",
            ScaleAlgorithm::Nis { .. } => "Nis",
            ScaleAlgorithm::Integer => "Integer",
            ScaleAlgorithm::Bilinear => "Bilinear",
        }
    }

    /// The sharpness of the algorithms that have one, in its range.
    pub fn sharpness(&self) -> (sharpness: Option<u32>)
        ensures
            sharpness == match *self {
                ScaleAlgorithm::Fsr { sharpness } => Some(clamped(sharpness)),
                ScaleAlgorithm::Nis { sharpness } => Some(clamped(sharpness)),
                _ => None,
            },
    {
        match self {
            ScaleAlgorithm::Fsr { sharpness } => Some(clamp_sharpness(*sharpness)),
            ScaleAlgorithm::Nis { sharpness } => Some(clamp_sharpness(*sharpness)),
            _ => None,
        }
    }

    /// The algorithm with another sharpness; one without a sharpness stays as it is.
    pub fn with_sharpness(self, sharpness: u32) -> (out: ScaleAlgorithm)
        ensures
            out == sharpened(self, sharpness),
    {
        match self {
            ScaleAlgorithm::Fsr { .. } => ScaleAlgorithm::Fsr {
                sharpness: clamp_sharpness(sharpness),
            },
            ScaleAlgorithm::Nis { .. } => ScaleAlgorithm::Nis {
                sharpness: clamp_sharpness(sharpness),
            },
            other => other,
        }
    }

    /// The algorithm that a name stands for.
    pub fn from_label(label: &str) -> (out: Option<ScaleAlgorithm>)
        ensures
            out == algorithm_named(label@),
    {
        if same_text(label, "Fsr") {
            Some(ScaleAlgorithm::Fsr { sharpness: DEFAULT_SHARPNESS })
        } else if same_text(label, "Nis") {
            Some(ScaleAlgorithm::Nis { sharpness: DEFAULT_SHARPNESS })
        } else if same_text(label, "Integer") {
            Some(ScaleAlgorithm::Integer)
        } else if same_text(label, "Bilinear") {
            Some(ScaleAlgorithm::Bilinear)
        } else {
            None
        }
    }
}

fn clamp_sharpness(sharpness: u32) -> (out: u32)
    ensures
        out == clamped(sharpness),
{
    if sharpness < MAX_SHARPNESS {
        sharpness
    } else {
        MAX_SHARPNESS
    }
}

// ---------------------------------------------------------------------------------------------
// Profiles

/// How a game is scaled.
pub struct ScaleProfile {
    pub name: String,
    pub algorithm: ScaleAlgorithm,
    /// The size the game draws at. Empty by default: gamescope then takes its own.
    pub internal_width: Option<u32>,
    pub internal_height: Option<u32>,
    /// The size of the window. Empty by default: the window opens at the size of the screen.
    pub output_width: Option<u32>,
    pub output_height: Option<u32>,
    /// The size of the window as a multiple of the size the game draws at. It comes before
    /// the size of the window.
    pub scale_ratio: Option<Ratio>,
    pub framerate_limit: Option<u32>,
    /// Pins the window to the whole screen. Off by default.
    pub force_fullscreen: bool,
    /// The arguments of gamescope, written by the user. Where there are any, they take the
    /// place of everything above.
    pub gamescope_args: Vec<String>,
}

/// A pair of sizes counts only where both are there and neither is zero: half a size is no
/// size.
pub open spec fn whole_size(width: Option<u32>, height: Option<u32>) -> Option<(u32, u32)> {
    match (width, height) {
        (Some(width), Some(height)) => if width > 0 && height > 0 {
            Some((width, height))
        } else {
            None
        },
        _ => None,
    }
}

pub open spec fn drawn_size(width: Option<u32>, height: Option<u32>) -> (u32, u32) {
    match whole_size(width, height) {
        Some(size) => size,
        None => (GAMESCOPE_DEFAULT_WIDTH, GAMESCOPE_DEFAULT_HEIGHT),
    }
}

/// The bits of a ratio that can be used.
pub open spec fn usable_ratio(scale_ratio: Option<(u32, Seq<char>, Seq<char>)>) -> Option<u32> {
    match scale_ratio {
        Some((bits, _, _)) => if ratio::is_usable(bits) {
            Some(bits)
        } else {
            None
        },
        None => None,
    }
}

/// The size of the window that a profile asks for: by its ratio, else by its own size.
pub open spec fn asked_size(profile: Profile) -> Option<(u32, u32)> {
    let (width, height) = drawn_size(profile.internal_width, profile.internal_height);
    match usable_ratio(profile.scale_ratio) {
        Some(bits) => Some(
            (
                ratio::scaled(width, bits, MAX_RESOLUTION),
                ratio::scaled(height, bits, MAX_RESOLUTION),
            ),
        ),
        None => whole_size(profile.output_width, profile.output_height),
    }
}

/// A size is given and is not between 1 and the largest.
pub open spec fn is_bad_size(value: Option<u32>) -> bool {
    match value {
        Some(value) => value == 0 || value > MAX_RESOLUTION,
        None => false,
    }
}

pub open spec fn size_complaint(label: Seq<char>, value: u32) -> Seq<char> {
    label + " 必须在 1..="@ + number::decimal(MAX_RESOLUTION as nat) + " 之间（当前 "@
        + number::decimal(value as nat) + "）"@
}

/// What is wrong with the ratio of a profile.
pub open spec fn ratio_complaint(profile: Profile) -> Option<Seq<char>> {
    match profile.scale_ratio {
        None => None,
        Some((bits, shown, _)) => {
            let (width, height) = drawn_size(profile.internal_width, profile.internal_height);
            if !ratio::is_in_range(bits) {
                Some("缩放比例必须在 0.25..=8 之间（当前 "@ + shown + "）"@)
            } else if ratio::exceeds(width, bits, MAX_RESOLUTION) || ratio::exceeds(
                height,
                bits,
                MAX_RESOLUTION,
            ) {
                Some(
                    "缩放比例 "@ + shown + " 会把输出分辨率变成 "@ + number::decimal(
                        ratio::nearest_product(width, bits),
                    ) + "x"@ + number::decimal(ratio::nearest_product(height, bits))
                        + "，超过上限 "@ + number::decimal(MAX_RESOLUTION as nat),
                )
            } else {
                None
            }
        },
    }
}

/// What is wrong with a profile: the first thing, in the order in which they are looked at.
pub open spec fn profile_complaint(profile: Profile) -> Option<Seq<char>> {
    if is_bad_size(profile.internal_width) {
        Some(size_complaint("游戏分辨率宽"@, profile.internal_width.unwrap()))
    } else if is_bad_size(profile.internal_height) {
        Some(size_complaint("游戏分辨率高"@, profile.internal_height.unwrap()))
    } else if is_bad_size(profile.output_width) {
        Some(size_complaint("输出分辨率宽"@, profile.output_width.unwrap()))
    } else if is_bad_size(profile.output_height) {
        Some(size_complaint("输出分辨率高"@, profile.output_height.unwrap()))
    } else if profile.framerate_limit is Some && (profile.framerate_limit.unwrap() == 0
        || profile.framerate_limit.unwrap() > MAX_FRAMERATE) {
        Some(
            "帧率限制必须在 1..="@ + number::decimal(MAX_FRAMERATE as nat) + " 之间（当前 "@
                + number::decimal(profile.framerate_limit.unwrap() as nat) + "）"@,
        )
    } else if ratio_complaint(profile) is Some {
        ratio_complaint(profile)
    } else if profile.gamescope_args.contains("--"@) {
        Some("gamescope 参数里不要写 `--`：kotori 自己会在游戏命令前放一个"@)
    } else {
        None
    }
}

/// What a profile says.
pub struct Profile {
    pub name: Seq<char>,
    pub algorithm: ScaleAlgorithm,
    pub internal_width: Option<u32>,
    pub internal_height: Option<u32>,
    pub output_width: Option<u32>,
    pub output_height: Option<u32>,
    pub scale_ratio: Option<(u32, Seq<char>, Seq<char>)>,
    pub framerate_limit: Option<u32>,
    pub force_fullscreen: bool,
    pub gamescope_args: Seq<Seq<char>>,
}

impl View for ScaleProfile {
    type V = Profile;

    open spec fn view(&self) -> Profile {
        Profile {
            name: self.name@,
            algorithm: self.algorithm,
            internal_width: self.internal_width,
            internal_height: self.internal_height,
            output_width: self.output_width,
            output_height: self.output_height,
            scale_ratio: ratio_view(self.scale_ratio),
            framerate_limit: self.framerate_limit,
            force_fullscreen: self.force_fullscreen,
            gamescope_args: chars::texts(self.gamescope_args@),
        }
    }
}

/// The profile of a new game.
pub open spec fn default_profile() -> Profile {
    Profile {
        name: "默认"@,
        algorithm: ScaleAlgorithm::Fsr { sharpness: DEFAULT_SHARPNESS },
        internal_width: None,
        internal_height: None,
        output_width: None,
        output_height: None,
        scale_ratio: None,
        framerate_limit: None,
        force_fullscreen: false,
        gamescope_args: Seq::empty(),
    }
}

pub open spec fn ratio_view(scale_ratio: Option<Ratio>) -> Option<(u32, Seq<char>, Seq<char>)> {
    match scale_ratio {
        Some(own) => Some((own.bits, own.shown@, own.wide@)),
        None => None,
    }
}

fn size_message(label: &str, value: u32) -> (message: String)
    ensures
        message@ == size_complaint(label@, value),
{
    let mut message = label.to_owned();
    message.append(" 必须在 1..=");
    message.append(number_text(MAX_RESOLUTION as u64).as_str());
    message.append(" 之间（当前 ");
    message.append(number_text(value as u64).as_str());
    message.append("）");
    message
}

fn bad_size(value: Option<u32>) -> (bad: Option<u32>)
    ensures
        bad is Some == is_bad_size(value),
        bad is Some ==> bad == value,
{
    match value {
        Some(value) => if value == 0 || value > MAX_RESOLUTION {
            Some(value)
        } else {
            None
        },
        None => None,
    }
}

fn whole(width: Option<u32>, height: Option<u32>) -> (size: Option<(u32, u32)>)
    ensures
        size == whole_size(width, height),
{
    match (width, height) {
        (Some(width), Some(height)) => if width > 0 && height > 0 {
            Some((width, height))
        } else {
            None
        },
        _ => None,
    }
}

impl ScaleProfile {
    /// The profile of a new game. It names no size: the window is made to fit the screen that
    /// the game lands on.
    pub fn default_for() -> (profile: ScaleProfile)
        ensures
            profile@ == default_profile(),
    {
        let profile = ScaleProfile {
            name: "默认".to_owned(),
            algorithm: ScaleAlgorithm::Fsr { sharpness: DEFAULT_SHARPNESS },
            internal_width: None,
            internal_height: None,
            output_width: None,
            output_height: None,
            scale_ratio: None,
            framerate_limit: None,
            force_fullscreen: false,
            gamescope_args: Vec::new(),
        };
        assert(profile@.gamescope_args =~= Seq::<Seq<char>>::empty());
        profile
    }

    /// The arguments of gamescope are the user's own. Scaling at run time is off then.
    pub fn free_form(&self) -> (yes: bool)
        ensures
            yes == (self.gamescope_args@.len() > 0),
    {
        self.gamescope_args.len() > 0
    }

    /// The size to draw at, where the profile names one.
    pub fn explicit_internal_size(&self) -> (size: Option<(u32, u32)>)
        ensures
            size == whole_size(self.internal_width, self.internal_height),
    {
        whole(self.internal_width, self.internal_height)
    }

    /// The size to draw at; gamescope's own where the profile names none. Never zero.
    pub fn internal_size(&self) -> (size: (u32, u32))
        ensures
            size == drawn_size(self.internal_width, self.internal_height),
            size.0 > 0,
            size.1 > 0,
    {
        match self.explicit_internal_size() {
            Some(size) => size,
            None => (GAMESCOPE_DEFAULT_WIDTH, GAMESCOPE_DEFAULT_HEIGHT),
        }
    }

    /// The size of the window that the profile asks for.
    pub fn explicit_output_size(&self) -> (size: Option<(u32, u32)>)
        ensures
            size == asked_size(self@),
    {
        match &self.scale_ratio {
            Some(own) => if 0 < own.bits && own.bits < ratio::INFINITE {
                let (width, height) = self.internal_size();
                return Some(
                    (
                        scale(width, own.bits, MAX_RESOLUTION),
                        scale(height, own.bits, MAX_RESOLUTION),
                    ),
                );
            },
            None => {},
        }
        whole(self.output_width, self.output_height)
    }

    /// The size the window opens at: what the profile asks for, else that of the screen.
    pub fn output_size_for(&self, screen: (u32, u32)) -> (size: (u32, u32))
        ensures
            size == match asked_size(self@) {
                Some(size) => size,
                None => screen,
            },
    {
        match self.explicit_output_size() {
            Some(size) => size,
            None => screen,
        }
    }

    /// Brings the sharpness into its range; nothing else changes.
    pub fn normalize(&mut self)
        ensures
            *final(self) == (ScaleProfile {
                algorithm: in_range(old(self).algorithm),
                ..*old(self)
            }),
    {
        match self.algorithm {
            ScaleAlgorithm::Fsr { sharpness } => {
                self.algorithm = ScaleAlgorithm::Fsr { sharpness: clamp_sharpness(sharpness) };
            },
            ScaleAlgorithm::Nis { sharpness } => {
                self.algorithm = ScaleAlgorithm::Nis { sharpness: clamp_sharpness(sharpness) };
            },
            _ => {},
        }
    }

    /// Refuses a profile that cannot work, with words for the user.
    pub fn validate(&self) -> (outcome: Result<(), String>)
        ensures
            match outcome {
                Ok(_) => profile_complaint(self@) is None,
                Err(message) => profile_complaint(self@) == Some(message@),
            },
    {
        match bad_size(self.internal_width) {
            Some(value) => {
                return Err(size_message("游戏分辨率宽", value));
            },
            None => {},
        }
        match bad_size(self.internal_height) {
            Some(value) => {
                return Err(size_message("游戏分辨率高", value));
            },
            None => {},
        }
        match bad_size(self.output_width) {
            Some(value) => {
                return Err(size_message("输出分辨率宽", value));
            },
            None => {},
        }
        match bad_size(self.output_height) {
            Some(value) => {
                return Err(size_message("输出分辨率高", value));
            },
            None => {},
        }
        match self.framerate_limit {
            Some(limit) => if limit == 0 || limit > MAX_FRAMERATE {
                let mut message = "帧率限制必须在 1..=".to_owned();
                message.append(number_text(MAX_FRAMERATE as u64).as_str());
                message.append(" 之间（当前 ");
                message.append(number_text(limit as u64).as_str());
                message.append("）");
                return Err(message);
            },
            None => {},
        }
        match &self.scale_ratio {
            Some(own) => {
                if own.bits < ratio::QUARTER || own.bits > ratio::EIGHT {
                    let mut message = "缩放比例必须在 0.25..=8 之间（当前 ".to_owned();
                    message.append(own.shown.as_str());
                    message.append("）");
                    return Err(message);
                }
                let (width, height) = self.internal_size();
                let wide = check_product(width, own.bits, MAX_RESOLUTION);
                let high = check_product(height, own.bits, MAX_RESOLUTION);
                if wide.0 || high.0 {
                    let mut message = "缩放比例 ".to_owned();
                    message.append(own.shown.as_str());
                    message.append(" 会把输出分辨率变成 ");
                    message.append(number_text(wide.1).as_str());
                    message.append("x");
                    message.append(number_text(high.1).as_str());
                    message.append("，超过上限 ");
                    message.append(number_text(MAX_RESOLUTION as u64).as_str());
                    return Err(message);
                }
            },
            None => {},
        }
        if list_has(&self.gamescope_args, "--") {
            return Err(
                "gamescope 参数里不要写 `--`：kotori 自己会在游戏命令前放一个".to_owned(),
            );
        }
        Ok(())
    }

    /// The same profile again.
    pub fn copy(&self) -> (copy: ScaleProfile)
        ensures
            copy@ == self@,
    {
        let scale_ratio = match &self.scale_ratio {
            Some(own) => Some(
                Ratio { bits: own.bits, shown: own.shown.clone(), wide: own.wide.clone() },
            ),
            None => None,
        };
        ScaleProfile {
            name: self.name.clone(),
            algorithm: self.algorithm,
            internal_width: self.internal_width,
            internal_height: self.internal_height,
            output_width: self.output_width,
            output_height: self.output_height,
            scale_ratio,
            framerate_limit: self.framerate_limit,
            force_fullscreen: self.force_fullscreen,
            gamescope_args: copy_texts(&self.gamescope_args),
        }
    }
}

// ---------------------------------------------------------------------------------------------
// What holds of profiles

/// The name of an algorithm leads back to that algorithm, up to its sharpness.
pub proof fn labels_lead_back(algorithm: ScaleAlgorithm)
    ensures
        match algorithm_named(label_of(algorithm)) {
            Some(found) => label_of(found) == label_of(algorithm) && sharpened(found, 0)
                == sharpened(algorithm, 0),
            None => false,
        },
{
    reveal_strlit("Fsr");
    reveal_strlit("Nis");
    reveal_strlit("Integer");
    reveal_strlit("Bilinear");
    assert("Fsr"@[0] != "Nis"@[0]);
    assert("Fsr"@.len() == 3 && "Integer"@.len() == 7 && "Bilinear"@.len() == 8);
}

/// Setting the sharpness twice is setting it the second time, and it never leaves its range.
pub proof fn sharpness_is_set_last(algorithm: ScaleAlgorithm, first: u32, second: u32)
    ensures
        sharpened(sharpened(algorithm, first), second) == sharpened(algorithm, second),
        in_range(sharpened(algorithm, first)) == sharpened(algorithm, first),
{
}

/// Bringing a profile into range a second time changes nothing.
pub proof fn normalizing_twice_is_normalizing(algorithm: ScaleAlgorithm)
    ensures
        in_range(in_range(algorithm)) == in_range(algorithm),
{
}

/// A profile that asks for no size opens at the size of the screen, whatever the screen.
pub proof fn an_empty_profile_gets_the_screen(profile: Profile)
    requires
        usable_ratio(profile.scale_ratio) is None,
        whole_size(profile.output_width, profile.output_height) is None,
    ensures
        asked_size(profile) is None,
{
}

/// A size that a profile asks for is never zero, and one that comes from a ratio is never
/// beyond the largest.
pub proof fn an_asked_size_is_never_zero(profile: Profile)
    ensures
        match asked_size(profile) {
            Some(size) => size.0 > 0 && size.1 > 0 && (usable_ratio(profile.scale_ratio) is Some
                ==> size.0 <= MAX_RESOLUTION && size.1 <= MAX_RESOLUTION),
            None => true,
        },
{
}

/// With a ratio that can be used the window is as wide as the game draws times the ratio, and as
/// high as the game draws times the ratio: each side by itself. A size that is named only half,
/// or with a zero, counts for nothing, and gamescope's own 1280x720 is what is drawn.
pub proof fn a_ratio_scales_each_side(profile: Profile, bits: u32, width: u32, height: u32)
    requires
        profile.scale_ratio is Some,
        profile.scale_ratio.unwrap().0 == bits,
        0 < bits < 0x7f80_0000,
    ensures
        width > 0 && height > 0 && profile.internal_width == Some(width) && profile.internal_height
            == Some(height) ==> asked_size(profile) == Some(
            (ratio::scaled(width, bits, 16384), ratio::scaled(height, bits, 16384)),
        ),
        profile.internal_width is None || profile.internal_height is None || profile.internal_width
            == Some(0u32) || profile.internal_height == Some(0u32) ==> asked_size(profile) == Some(
            (ratio::scaled(1280, bits, 16384), ratio::scaled(720, bits, 16384)),
        ),
{
}

/// Another width of what is drawn leaves the height of the window as it is, and another height
/// leaves its width.
pub proof fn the_sides_of_the_window_are_independent(
    profile: Profile,
    width: u32,
    height: u32,
    other: u32,
)
    requires
        width > 0,
        height > 0,
        other > 0,
        usable_ratio(profile.scale_ratio) is Some,
    ensures
        ({
            let of = |w: u32, h: u32|
                asked_size(
                    Profile { internal_width: Some(w), internal_height: Some(h), ..profile },
                ).unwrap();
            &&& of(width, height).1 == of(other, height).1
            &&& of(width, height).0 == of(width, other).0
            &&& of(width, height).0 == of(height, width).1
        }),
{
}

/// A window that is asked for by a ratio from a quarter to eight has the sizes of what is drawn
/// times that ratio, but for the rounding and the largest size.
pub proof fn a_window_is_what_is_drawn_times_the_ratio(profile: Profile, width: u32, height: u32)
    requires
        profile.scale_ratio is Some,
        ratio::is_in_range(profile.scale_ratio.unwrap().0),
        profile.internal_width == Some(width),
        profile.internal_height == Some(height),
        1 <= width <= 16384,
        1 <= height <= 16384,
    ensures
        ({
            let bits = profile.scale_ratio.unwrap().0;
            let one = vstd::arithmetic::power2::pow2((-ratio::exponent(bits)) as nat);
            let size = asked_size(profile).unwrap();
            &&& asked_size(profile) is Some
            &&& 1 <= size.0 <= 16384 && 1 <= size.1 <= 16384
            &&& size.0 > 1 ==> 2 * (size.0 * one) <= 2 * (width * ratio::mantissa(bits)) + one
                + 16384
            &&& size.0 < 16384 ==> 2 * (width * ratio::mantissa(bits)) <= 2 * (size.0 * one) + one
                + 16384
            &&& size.1 > 1 ==> 2 * (size.1 * one) <= 2 * (height * ratio::mantissa(bits)) + one
                + 16384
            &&& size.1 < 16384 ==> 2 * (height * ratio::mantissa(bits)) <= 2 * (size.1 * one) + one
                + 16384
        }),
{
    let bits = profile.scale_ratio.unwrap().0;
    ratio::a_scaled_size_is_near_the_product(width, bits, 16384);
    ratio::a_scaled_size_is_near_the_product(height, bits, 16384);
    a_ratio_scales_each_side(profile, bits, width, height);
}

/// A ratio of two asks for a window that is exactly twice as wide and twice as high.
pub proof fn a_ratio_of_two_doubles_both_sides(profile: Profile, width: u32, height: u32)
    requires
        profile.scale_ratio is Some,
        profile.scale_ratio.unwrap().0 == 0x4000_0000,
        profile.internal_width == Some(width),
        profile.internal_height == Some(height),
        1 <= width <= 8192,
        1 <= height <= 8192,
    ensures
        asked_size(profile) == Some(((2 * width) as u32, (2 * height) as u32)),
{
    ratio::twice_is_twice(width, 16384);
    ratio::twice_is_twice(height, 16384);
}

/// Without a ratio that can be used the window has the size that the profile names, as long as it
/// names both sides and neither is zero. The size that is drawn does not matter then.
pub proof fn without_a_ratio_the_named_size_counts(profile: Profile, width: u32, height: u32)
    requires
        profile.scale_ratio is None || profile.scale_ratio.unwrap().0 == 0
            || profile.scale_ratio.unwrap().0 >= 0x7f80_0000,
    ensures
        width > 0 && height > 0 && profile.output_width == Some(width) && profile.output_height
            == Some(height) ==> asked_size(profile) == Some((width, height)),
        profile.output_width is None || profile.output_height is None || profile.output_width
            == Some(0u32) || profile.output_height == Some(0u32) ==> asked_size(profile) is None,
{
}

/// A profile is accepted exactly where every size that it names is from 1 to 16384, the frame rate
/// from 1 to 1000, the ratio from a quarter to eight and not too large for what is drawn, and no
/// argument of its own is `--`.
pub proof fn what_makes_a_profile_good(profile: Profile)
    ensures
        profile_complaint(profile) is None <==> {
            let good = |size: Option<u32>| size is None || 1 <= size.unwrap() <= 16384;
            let drawn = if profile.internal_width is Some && profile.internal_height is Some
                && profile.internal_width.unwrap() > 0 && profile.internal_height.unwrap() > 0 {
                (profile.internal_width.unwrap(), profile.internal_height.unwrap())
            } else {
                (1280u32, 720u32)
            };
            &&& good(profile.internal_width) && good(profile.internal_height)
            &&& good(profile.output_width) && good(profile.output_height)
            &&& profile.framerate_limit is None || 1 <= profile.framerate_limit.unwrap() <= 1000
            &&& profile.scale_ratio is None || {
                let bits = profile.scale_ratio.unwrap().0;
                &&& ratio::is_in_range(bits)
                &&& !ratio::exceeds(drawn.0, bits, 16384)
                &&& !ratio::exceeds(drawn.1, bits, 16384)
            }
            &&& !profile.gamescope_args.contains("--"@)
        },
{
}

/// The first size that is wrong is named with its value.
pub proof fn a_bad_size_is_named(profile: Profile)
    ensures
        profile.internal_width is Some && !(1 <= profile.internal_width.unwrap() <= 16384)
            ==> profile_complaint(profile) == Some(
            "游戏分辨率宽"@ + " 必须在 1..="@ + number::decimal(16384) + " 之间（当前 "@
                + number::decimal(profile.internal_width.unwrap() as nat) + "）"@,
        ),
        profile.internal_width is None && profile.internal_height is Some && !(1
            <= profile.internal_height.unwrap() <= 16384) ==> profile_complaint(profile) == Some(
            "游戏分辨率高"@ + " 必须在 1..="@ + number::decimal(16384) + " 之间（当前 "@
                + number::decimal(profile.internal_height.unwrap() as nat) + "）"@,
        ),
        profile.internal_width is None && profile.internal_height is None && profile.output_width
            is Some && !(1 <= profile.output_width.unwrap() <= 16384) ==> profile_complaint(profile)
            == Some(
            "输出分辨率宽"@ + " 必须在 1..="@ + number::decimal(16384) + " 之间（当前 "@
                + number::decimal(profile.output_width.unwrap() as nat) + "）"@,
        ),
        profile.internal_width is None && profile.internal_height is None && profile.output_width
            is None && profile.output_height is Some && !(1 <= profile.output_height.unwrap()
            <= 16384) ==> profile_complaint(profile) == Some(
            "输出分辨率高"@ + " 必须在 1..="@ + number::decimal(16384) + " 之间（当前 "@
                + number::decimal(profile.output_height.unwrap() as nat) + "）"@,
        ),
{
}

/// The sharpness that is set is the one that is used, up to five; other algorithms have none and
/// stay what they are.
pub proof fn sharpness_goes_up_to_five(before: u32, sharpness: u32)
    ensures
        ({
            let most = if sharpness <= 5 {
                sharpness
            } else {
                5
            };
            &&& sharpened(ScaleAlgorithm::Fsr { sharpness: before }, sharpness)
                == ScaleAlgorithm::Fsr { sharpness: most }
            &&& sharpened(ScaleAlgorithm::Nis { sharpness: before }, sharpness)
                == ScaleAlgorithm::Nis { sharpness: most }
            &&& in_range(ScaleAlgorithm::Fsr { sharpness }) == ScaleAlgorithm::Fsr {
                sharpness: most,
            }
            &&& in_range(ScaleAlgorithm::Nis { sharpness }) == ScaleAlgorithm::Nis {
                sharpness: most,
            }
        }),
        sharpened(ScaleAlgorithm::Integer, sharpness) == ScaleAlgorithm::Integer,
        sharpened(ScaleAlgorithm::Bilinear, sharpness) == ScaleAlgorithm::Bilinear,
        in_range(ScaleAlgorithm::Integer) == ScaleAlgorithm::Integer,
        in_range(ScaleAlgorithm::Bilinear) == ScaleAlgorithm::Bilinear,
{
}

/// A new game is scaled with FSR at a sharpness of two, and no size, ratio, frame rate or argument
/// is set for it: its window opens at the size of the screen.
pub proof fn a_new_profile_asks_for_nothing()
    ensures
        ({
            let profile = default_profile();
            &&& profile.algorithm == (ScaleAlgorithm::Fsr { sharpness: 2 })
            &&& asked_size(profile) is None
            &&& profile.internal_width is None && profile.internal_height is None
            &&& profile.scale_ratio is None && profile.framerate_limit is None
            &&& !profile.force_fullscreen && profile.gamescope_args.len() == 0
            &&& profile_complaint(profile) is None
        }),
{
}

/// Only the four names stand for algorithms, and those with a sharpness start at two.
pub proof fn four_names_stand_for_algorithms(label: Seq<char>)
    ensures
        algorithm_named("Fsr"@) == Some(ScaleAlgorithm::Fsr { sharpness: 2 }),
        algorithm_named("Nis"@) == Some(ScaleAlgorithm::Nis { sharpness: 2 }),
        algorithm_named("Integer"@) == Some(ScaleAlgorithm::Integer),
        algorithm_named("Bilinear"@) == Some(ScaleAlgorithm::Bilinear),
        label != "Fsr"@ && label != "Nis"@ && label != "Integer"@ && label != "Bilinear"@
            ==> algorithm_named(label) is None,
{
    reveal_strlit("Fsr");
    reveal_strlit("Nis");
    reveal_strlit("Integer");
    reveal_strlit("Bilinear");
    assert("Fsr"@[0] != "Nis"@[0]);
    assert("Fsr"@.len() == 3 && "Integer"@.len() == 7 && "Bilinear"@.len() == 8);
}

/// What is wrong with a profile is said with the value that it has.
pub proof fn a_bad_value_is_named(profile: Profile, bits: u32, shown: Seq<char>, wide: Seq<char>)
    requires
        profile.internal_width is None,
        profile.internal_height is None,
        profile.output_width is None,
        profile.output_height is None,
    ensures
        profile.framerate_limit is Some && (profile.framerate_limit.unwrap() == 0
            || profile.framerate_limit.unwrap() > MAX_FRAMERATE) ==> profile_complaint(profile)
            == Some(
            "帧率限制必须在 1..="@ + number::decimal(MAX_FRAMERATE as nat) + " 之间（当前 "@
                + number::decimal(profile.framerate_limit.unwrap() as nat) + "）"@,
        ),
        profile.framerate_limit is None && profile.scale_ratio == Some((bits, shown, wide))
            && !ratio::is_in_range(bits) ==> profile_complaint(profile) == Some(
            "缩放比例必须在 0.25..=8 之间（当前 "@ + shown + "）"@,
        ),
        profile.framerate_limit is None && profile.scale_ratio is None
            && profile.gamescope_args.contains("--"@) ==> profile_complaint(profile) == Some(
            "gamescope 参数里不要写 `--`：kotori 自己会在游戏命令前放一个"@,
        ),
        profile.framerate_limit is None && profile.scale_ratio is None
            && !profile.gamescope_args.contains("--"@) ==> profile_complaint(profile) is None,
{
}

/// A ratio that makes the window too large is named, with the window that it would make.
pub proof fn a_window_that_is_too_large_is_named(
    profile: Profile,
    bits: u32,
    shown: Seq<char>,
    wide: Seq<char>,
    width: u32,
    height: u32,
)
    requires
        profile.internal_width == Some(width),
        profile.internal_height == Some(height),
        width > 0,
        height > 0,
        profile.scale_ratio == Some((bits, shown, wide)),
        ratio::is_in_range(bits),
        ratio::exceeds(width, bits, MAX_RESOLUTION) || ratio::exceeds(height, bits, MAX_RESOLUTION),
    ensures
        ratio_complaint(profile) == Some(
            "缩放比例 "@ + shown + " 会把输出分辨率变成 "@ + number::decimal(
                ratio::nearest_product(width, bits),
            ) + "x"@ + number::decimal(ratio::nearest_product(height, bits)) + "，超过上限 "@
                + number::decimal(MAX_RESOLUTION as nat),
        ),
{
}

/// The profile of a new game has a name, and FSR with a sharpness of two.
pub proof fn what_a_new_profile_is()
    ensures
        default_profile().name == "默认"@,
        default_profile().algorithm == (ScaleAlgorithm::Fsr { sharpness: DEFAULT_SHARPNESS }),
{
}

} // verus!
