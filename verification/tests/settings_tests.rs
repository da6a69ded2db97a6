use fps_enhancer::game_settings::{
    apply_resolution_settings, find_user_folder, last_known_user, plan_resolution_replacements,
};
use fps_enhancer::strutil::split_lines;

#[test]
fn resolution_lines_take_the_target_values() {
    let content = String::from(
        "bShouldLetterbox=True\n\
ResolutionSizeX=2560\n\
ResolutionSizeY=1440\n\
bUseVSync=True\n\
FullscreenMode=1\n\
UnrelatedKey=7\n",
    );
    let out = apply_resolution_settings(content, 1280, 960).unwrap();
    assert_eq!(
        out,
        "bShouldLetterbox=False\n\
ResolutionSizeX=1280\n\
ResolutionSizeY=960\n\
bUseVSync=False\n\
FullscreenMode=2\n\
UnrelatedKey=7"
    );
}

#[test]
fn missing_fullscreen_mode_line_is_inserted_after_the_first_line() {
    let content = String::from("ResolutionSizeX=800\nResolutionSizeY=600\nEnd=1\n");
    let out = apply_resolution_settings(content, 1024, 768).unwrap();
    assert_eq!(
        out,
        "ResolutionSizeX=1024\nFullscreenMode=2\nResolutionSizeY=768\nEnd=1"
    );
}

#[test]
fn confirmed_and_preferred_keys_are_rewritten_too() {
    let content = String::from(
        "LastUserConfirmedResolutionSizeX=2560\n\
LastUserConfirmedResolutionSizeY=1440\n\
LastConfirmedFullscreenMode=1\n\
PreferredFullscreenMode=0\n\
bLastConfirmedShouldLetterbox=True\n\
bUseDynamicResolution=True\n\
tail\n",
    );
    let out = apply_resolution_settings(content, 1920, 1080).unwrap();
    // no surviving FullscreenMode line: one is inserted after the first line
    assert_eq!(
        out,
        "LastUserConfirmedResolutionSizeX=1920\n\
FullscreenMode=2\n\
LastUserConfirmedResolutionSizeY=1080\n\
LastConfirmedFullscreenMode=2\n\
PreferredFullscreenMode=2\n\
bLastConfirmedShouldLetterbox=False\n\
bUseDynamicResolution=False\n\
tail"
    );
}

#[test]
fn rewrite_of_a_final_settings_line_is_out_of_bounds() {
    // the rewriter can only replace a line that another line follows
    let content = String::from("header\nResolutionSizeX=2560");
    let err = apply_resolution_settings(content, 1280, 960).unwrap_err();
    assert_eq!(err, "Line number 2 out of bounds");
}

#[test]
fn plan_numbers_lines_from_one() {
    let lines = split_lines("skip\nbUseVSync=True\nskip\nResolutionSizeX=1\n");
    let plan = plan_resolution_replacements(&lines, 640, 480);
    assert_eq!(plan.len(), 2);
    assert_eq!(plan[0], (2, String::from("bUseVSync=False")));
    assert_eq!(plan[1], (4, String::from("ResolutionSizeX=640")));
}

#[test]
fn last_known_user_is_read_from_its_line() {
    let ini = "Version=1\nLastKnownUser=player01\nOther=2\n";
    assert_eq!(last_known_user(ini).unwrap(), "player01");
}

#[test]
fn missing_last_known_user_is_reported() {
    let err = last_known_user("Version=1\nOther=2\n").unwrap_err();
    assert_eq!(err, "LastKnownUser not found");
}

#[test]
fn user_folder_is_the_first_entry_holding_the_name() {
    let entries = vec![
        String::from("WindowsClient"),
        String::from("player01-eu1"),
        String::from("player01-na1"),
    ];
    assert_eq!(
        find_user_folder(&entries, "player01").unwrap(),
        "player01-eu1"
    );
    assert!(find_user_folder(&entries, "nobody").is_none());
}
