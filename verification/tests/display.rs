//! The size of the screen, as the desktops tell it.

use kotori::display::{
    largest_resolution_from_outputs_json, parse_resolution_spec, primary_resolution,
    primary_resolution_or, resolution_from_kscreen_json, resolution_from_output_json,
    size_in_answer, Probe,
};
use kotori::json::Json;

fn read(text: &str) -> Json {
    Json::parse(text).unwrap()
}

const FOCUSED_OUTPUT: &str = r#"{
        "name": "DP-3",
        "modes": [
            {"width": 2560, "height": 1440, "refresh_rate": 60000, "is_preferred": true},
            {"width": 2560, "height": 1440, "refresh_rate": 144000, "is_preferred": false},
            {"width": 1920, "height": 1080, "refresh_rate": 60000, "is_preferred": false}
        ],
        "current_mode": 1,
        "logical": {"x": 0, "y": 0, "width": 2048, "height": 1152, "scale": 1.25}
    }"#;

const ALL_OUTPUTS: &str = r#"{
        "eDP-1": {
            "name": "eDP-1",
            "modes": [
                {"width": 2560, "height": 1600, "refresh_rate": 60000},
                {"width": 2560, "height": 1600, "refresh_rate": 165000}
            ],
            "current_mode": 1
        },
        "DP-3": {
            "name": "DP-3",
            "modes": [
                {"width": 2560, "height": 1440, "refresh_rate": 144000},
                {"width": 1920, "height": 1080, "refresh_rate": 60000}
            ],
            "current_mode": 0
        }
    }"#;

const KSCREEN_LAPTOP: &str = r#"{
        "features": 255,
        "outputs": [
            {
                "brightness": 0.85,
                "connected": true,
                "currentModeId": "2",
                "enabled": true,
                "id": 1,
                "modes": [
                    {"id": "1", "name": "2560x1600@60", "refreshRate": 60,
                     "size": {"height": 1600, "width": 2560}},
                    {"id": "2", "name": "2560x1600@165", "refreshRate": 165,
                     "size": {"height": 1600, "width": 2560}},
                    {"id": "3", "name": "1280x800@60", "refreshRate": 60,
                     "size": {"height": 800, "width": 1280}}
                ],
                "name": "eDP-1",
                "pos": {"x": 0, "y": 0},
                "priority": 0,
                "rotation": 1,
                "scale": 1.5,
                "size": {"height": 1600, "width": 2560},
                "type": 7
            }
        ],
        "screen": {"currentSize": {"height": 1067, "width": 1707}}
    }"#;

#[test]
fn display_uses_current_mode_not_logical_size() {
    let value = read(FOCUSED_OUTPUT);
    // logical is 2048x1152 (scale 1.25); the physical mode is 2560x1440.
    assert_eq!(resolution_from_output_json(&value), Some((2560, 1440)));
}

#[test]
fn display_picks_largest_output_deterministically() {
    let value = read(ALL_OUTPUTS);
    // eDP-1 2560x1600 beats DP-3 2560x1440.
    assert_eq!(
        largest_resolution_from_outputs_json(&value),
        Some((2560, 1600))
    );
}

#[test]
fn display_output_without_modes_is_skipped() {
    let value = read(r#"{"HDMI-A-1":{"name":"HDMI-A-1"}}"#);
    assert_eq!(largest_resolution_from_outputs_json(&value), None);
}

#[test]
fn display_out_of_range_current_mode_falls_back_to_first() {
    let value = read(r#"{"modes":[{"width":1280,"height":720}],"current_mode":9}"#);
    assert_eq!(resolution_from_output_json(&value), Some((1280, 720)));
}

#[test]
fn display_parses_resolution_specs() {
    assert_eq!(parse_resolution_spec("2560x1440"), Some((2560, 1440)));
    assert_eq!(parse_resolution_spec(" 1920X1080 "), Some((1920, 1080)));
    assert_eq!(parse_resolution_spec("2560"), None);
    assert_eq!(parse_resolution_spec("0x1440"), None);
    assert_eq!(parse_resolution_spec("axb"), None);
}

#[test]
fn display_kde_uses_device_pixels_not_logical_size() {
    let value = read(KSCREEN_LAPTOP);
    // logical screen size is 1707x1067 (scale 1.5) and must be ignored.
    assert_eq!(resolution_from_kscreen_json(&value), Some((2560, 1600)));
}

#[test]
fn display_kde_follows_current_mode_id() {
    let value = read(r#"{"outputs":[{"connected":true,"enabled":true,"currentModeId":"2","name":"eDP-1",
            "size":{"width":1280,"height":800},
            "modes":[{"id":"1","size":{"width":2560,"height":1600}},
                     {"id":"2","size":{"width":1280,"height":800}}]}]}"#);
    // The active mode is the 1280x800 one, not the first (or the largest).
    assert_eq!(resolution_from_kscreen_json(&value), Some((1280, 800)));
}

#[test]
fn display_kde_prefers_primary_and_skips_unusable_outputs() {
    let value = read(r#"{"outputs":[
            {"connected":true,"enabled":true,"currentModeId":"1","name":"DP-3","priority":0,
             "modes":[{"id":"1","size":{"width":2560,"height":1440}}]},
            {"connected":true,"enabled":true,"currentModeId":"1","name":"HDMI-A-1","priority":1,
             "modes":[{"id":"1","size":{"width":1920,"height":1080}}]},
            {"connected":true,"enabled":false,"currentModeId":"1","name":"DP-1","priority":9,
             "modes":[{"id":"1","size":{"width":3840,"height":2160}}]},
            {"connected":false,"enabled":true,"currentModeId":"1","name":"DP-2","priority":9,
             "modes":[{"id":"1","size":{"width":3840,"height":2160}}]}
        ]}"#);
    // The disabled 4K and the unplugged 4K must not win, and the primary
    // (priority 1) beats the bigger DP-3.
    assert_eq!(resolution_from_kscreen_json(&value), Some((1920, 1080)));
}

#[test]
fn display_kde_without_priority_falls_back_to_largest() {
    let value = read(r#"{"outputs":[
            {"connected":true,"enabled":true,"currentModeId":"1","name":"DP-3","priority":0,
             "modes":[{"id":"1","size":{"width":2560,"height":1440}}]},
            {"connected":true,"enabled":true,"currentModeId":"1","name":"eDP-1","priority":0,
             "modes":[{"id":"1","size":{"width":2560,"height":1600}}]}
        ]}"#);
    // KScreen leaves priority at 0 on single-output setups and when the user
    // never picked a primary, so fall back to the same rule as Niri.
    assert_eq!(resolution_from_kscreen_json(&value), Some((2560, 1600)));
}

#[test]
fn display_kde_unknown_mode_id_falls_back_to_output_size() {
    let value = read(r#"{"outputs":[{"connected":true,"enabled":true,"currentModeId":"99","name":"eDP-1",
            "size":{"width":2560,"height":1600},
            "modes":[{"id":"1","size":{"width":1280,"height":720}}]}]}"#);
    assert_eq!(resolution_from_kscreen_json(&value), Some((2560, 1600)));
}

#[test]
fn display_kde_numeric_mode_ids_and_missing_keys_are_tolerated() {
    // Older KScreen serialised ids as numbers, and a payload with no
    // `connected`/`enabled` keys should be treated as usable.
    let value = read(r#"{"outputs":[{"currentModeId":2,"name":"eDP-1",
            "modes":[{"id":1,"size":{"width":3840,"height":2160}},
                     {"id":2,"size":{"width":2560,"height":1600}}]}]}"#);
    assert_eq!(resolution_from_kscreen_json(&value), Some((2560, 1600)));
}

#[test]
fn display_kde_without_outputs_returns_none() {
    assert_eq!(resolution_from_kscreen_json(&read("{}")), None);
    assert_eq!(
        resolution_from_kscreen_json(&read(r#"{"outputs": []}"#)),
        None
    );
    let all_unplugged = read(r#"{"outputs":[{"connected":false,"enabled":false,"currentModeId":"1","name":"DP-1",
            "modes":[{"id":"1","size":{"width":3840,"height":2160}}]}]}"#);
    assert_eq!(resolution_from_kscreen_json(&all_unplugged), None);
}

#[test]
fn tests_uses_current_mode_not_logical_size() {
    let value = read(FOCUSED_OUTPUT);
    // logical is 2048x1152 (scale 1.25); the physical mode is 2560x1440.
    assert_eq!(resolution_from_output_json(&value), Some((2560, 1440)));
}

#[test]
fn tests_picks_largest_output_deterministically() {
    let value = read(ALL_OUTPUTS);
    // eDP-1 2560x1600 beats DP-3 2560x1440.
    assert_eq!(
        largest_resolution_from_outputs_json(&value),
        Some((2560, 1600))
    );
}

#[test]
fn tests_output_without_modes_is_skipped() {
    let value = read(r#"{"HDMI-A-1":{"name":"HDMI-A-1"}}"#);
    assert_eq!(largest_resolution_from_outputs_json(&value), None);
}

#[test]
fn tests_out_of_range_current_mode_falls_back_to_first() {
    let value = read(r#"{"modes":[{"width":1280,"height":720}],"current_mode":9}"#);
    assert_eq!(resolution_from_output_json(&value), Some((1280, 720)));
}

#[test]
fn tests_parses_resolution_specs() {
    assert_eq!(parse_resolution_spec("2560x1440"), Some((2560, 1440)));
    assert_eq!(parse_resolution_spec(" 1920X1080 "), Some((1920, 1080)));
    assert_eq!(parse_resolution_spec("2560"), None);
    assert_eq!(parse_resolution_spec("0x1440"), None);
    assert_eq!(parse_resolution_spec("axb"), None);
}

#[test]
fn tests_kde_uses_device_pixels_not_logical_size() {
    let value = read(KSCREEN_LAPTOP);
    // logical screen size is 1707x1067 (scale 1.5) and must be ignored.
    assert_eq!(resolution_from_kscreen_json(&value), Some((2560, 1600)));
}

#[test]
fn tests_kde_follows_current_mode_id() {
    let value = read(r#"{"outputs":[{"connected":true,"enabled":true,"currentModeId":"2","name":"eDP-1",
            "size":{"width":1280,"height":800},
            "modes":[{"id":"1","size":{"width":2560,"height":1600}},
                     {"id":"2","size":{"width":1280,"height":800}}]}]}"#);
    // The active mode is the 1280x800 one, not the first (or the largest).
    assert_eq!(resolution_from_kscreen_json(&value), Some((1280, 800)));
}

#[test]
fn tests_kde_prefers_primary_and_skips_unusable_outputs() {
    let value = read(r#"{"outputs":[
            {"connected":true,"enabled":true,"currentModeId":"1","name":"DP-3","priority":0,
             "modes":[{"id":"1","size":{"width":2560,"height":1440}}]},
            {"connected":true,"enabled":true,"currentModeId":"1","name":"HDMI-A-1","priority":1,
             "modes":[{"id":"1","size":{"width":1920,"height":1080}}]},
            {"connected":true,"enabled":false,"currentModeId":"1","name":"DP-1","priority":9,
             "modes":[{"id":"1","size":{"width":3840,"height":2160}}]},
            {"connected":false,"enabled":true,"currentModeId":"1","name":"DP-2","priority":9,
             "modes":[{"id":"1","size":{"width":3840,"height":2160}}]}
        ]}"#);
    // The disabled 4K and the unplugged 4K must not win, and the primary
    // (priority 1) beats the bigger DP-3.
    assert_eq!(resolution_from_kscreen_json(&value), Some((1920, 1080)));
}

#[test]
fn tests_kde_without_priority_falls_back_to_largest() {
    let value = read(r#"{"outputs":[
            {"connected":true,"enabled":true,"currentModeId":"1","name":"DP-3","priority":0,
             "modes":[{"id":"1","size":{"width":2560,"height":1440}}]},
            {"connected":true,"enabled":true,"currentModeId":"1","name":"eDP-1","priority":0,
             "modes":[{"id":"1","size":{"width":2560,"height":1600}}]}
        ]}"#);
    // KScreen leaves priority at 0 on single-output setups and when the user
    // never picked a primary, so fall back to the same rule as Niri.
    assert_eq!(resolution_from_kscreen_json(&value), Some((2560, 1600)));
}

#[test]
fn tests_kde_unknown_mode_id_falls_back_to_output_size() {
    let value = read(r#"{"outputs":[{"connected":true,"enabled":true,"currentModeId":"99","name":"eDP-1",
            "size":{"width":2560,"height":1600},
            "modes":[{"id":"1","size":{"width":1280,"height":720}}]}]}"#);
    assert_eq!(resolution_from_kscreen_json(&value), Some((2560, 1600)));
}

#[test]
fn tests_kde_numeric_mode_ids_and_missing_keys_are_tolerated() {
    // Older KScreen serialised ids as numbers, and a payload with no
    // `connected`/`enabled` keys should be treated as usable.
    let value = read(r#"{"outputs":[{"currentModeId":2,"name":"eDP-1",
            "modes":[{"id":1,"size":{"width":3840,"height":2160}},
                     {"id":2,"size":{"width":2560,"height":1600}}]}]}"#);
    assert_eq!(resolution_from_kscreen_json(&value), Some((2560, 1600)));
}

#[test]
fn tests_kde_without_outputs_returns_none() {
    assert_eq!(resolution_from_kscreen_json(&read("{}")), None);
    assert_eq!(
        resolution_from_kscreen_json(&read(r#"{"outputs": []}"#)),
        None
    );
    let all_unplugged = read(r#"{"outputs":[{"connected":false,"enabled":false,"currentModeId":"1","name":"DP-1",
            "modes":[{"id":"1","size":{"width":3840,"height":2160}}]}]}"#);
    assert_eq!(resolution_from_kscreen_json(&all_unplugged), None);
}

#[test]
fn the_size_that_the_user_gives_comes_first() {
    let asked = |_probe: Probe| -> Option<String> { None };
    assert_eq!(primary_resolution(Some("800x600"), asked), Some((800, 600)));
    assert_eq!(primary_resolution(Some("nonsense"), asked), None);
    assert_eq!(primary_resolution_or(None, asked, (1920, 1080)), (1920, 1080));
}

#[test]
fn the_desktops_are_asked_in_turn() {
    let niri = |probe: Probe| match probe {
        Probe::FocusedOutput => Some(FOCUSED_OUTPUT.to_string()),
        _ => None,
    };
    assert_eq!(primary_resolution(None, niri), Some((2560, 1440)));
    let outputs = |probe: Probe| match probe {
        Probe::FocusedOutput => Some("null".to_string()),
        Probe::Outputs => Some(ALL_OUTPUTS.to_string()),
        Probe::KScreen => Some(KSCREEN_LAPTOP.to_string()),
    };
    assert_eq!(primary_resolution(None, outputs), Some((2560, 1600)));
    let kde = |probe: Probe| match probe {
        Probe::KScreen => Some(KSCREEN_LAPTOP.to_string()),
        _ => Some("not json".to_string()),
    };
    assert_eq!(primary_resolution(None, kde), Some((2560, 1600)));
    assert_eq!(size_in_answer(Probe::KScreen, &Some("[".to_string())), None);
    assert_eq!(size_in_answer(Probe::Outputs, &None), None);
}
