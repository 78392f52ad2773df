use audio_hub::console::{truncate, volume_bar};

#[test]
fn volume_bar_lights_the_given_cells() {
    assert_eq!(volume_bar(0), "[░░░░░░░░░░]");
    assert_eq!(volume_bar(7), "[███████░░░]");
    assert_eq!(volume_bar(10), "[██████████]");
}

#[test]
fn truncate_cuts_on_character_boundaries() {
    assert_eq!(truncate("abcdef", 3), "abc");
    assert_eq!(truncate("abc", 3), "abc");
    assert_eq!(truncate("音频会话名称", 2), "音频");
    assert_eq!(truncate("", 0), "");
}
