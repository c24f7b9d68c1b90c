use rust_trail::formatting::{format_date, format_money};
use rust_trail::scene::{
    asset_path, button_label, button_step, game_step, sprite_row, title_action, AssetType,
    ButtonAction, ButtonState, GameState, TitleAction, TitleInput,
};

#[test]
fn money_is_dollar_sign_and_digits() {
    assert_eq!(format_money(1600), "$1600");
    assert_eq!(format_money(0), "$0");
    assert_eq!(format_money(u32::MAX), "$4294967295");
}

#[test]
fn dates_are_written_out() {
    assert_eq!(format_date(3, 1, 1848), "March 1, 1848");
    assert_eq!(format_date(12, 31, 1849), "December 31, 1849");
    assert_eq!(format_date(0, 5, 1850), "January 5, 1850");
    assert_eq!(format_date(13, 2, 7), "January 2, 7");
    assert_eq!(format_date(255, 9, 65535), "March 9, 65535");
}

#[test]
fn asset_paths() {
    assert_eq!(asset_path("assets", AssetType::Image, "TITLE.png"), "assets/images/TITLE.png");
    assert_eq!(asset_path("a", AssetType::Sound, "x.wav"), "a/audio/sounds/x.wav");
    assert_eq!(asset_path("a", AssetType::Music, "m"), "a/audio/music/m");
    assert_eq!(asset_path("a", AssetType::Text, "t"), "a/text/t");
    assert_eq!(asset_path("a", AssetType::Animation, "n"), "a/animations/n");
    assert_eq!(asset_path("a", AssetType::Font, "f"), "a/fonts/f");
}

#[test]
fn title_screen_transitions() {
    let t = GameState::TitleScreen;
    assert_eq!(game_step(t, Some(TitleAction::StartGame), false, false), (GameState::MainMenu, false));
    assert_eq!(game_step(t, Some(TitleAction::Introduction), false, false), (GameState::Introduction, false));
    assert_eq!(game_step(t, Some(TitleAction::Options), false, false), (GameState::Options, false));
    assert_eq!(game_step(t, Some(TitleAction::Quit), false, false), (t, true));
    assert_eq!(game_step(t, None, true, true), (t, false));
}

#[test]
fn other_screen_transitions() {
    assert_eq!(game_step(GameState::Introduction, None, true, false), (GameState::TitleScreen, false));
    assert_eq!(game_step(GameState::Options, None, false, false), (GameState::Options, false));
    assert_eq!(game_step(GameState::MainMenu, None, true, false), (GameState::MainMenu, false));
    assert_eq!(game_step(GameState::MainMenu, None, false, true), (GameState::TitleScreen, false));
    assert_eq!(game_step(GameState::Travel, None, false, true), (GameState::TitleScreen, false));
}

fn input(clicked: Option<ButtonAction>) -> TitleInput {
    TitleInput { start_key: false, intro_key: false, options_key: false, quit_key: false, clicked }
}

#[test]
fn title_keys_take_priority_over_clicks() {
    let mut i = input(Some(ButtonAction::Quit));
    i.intro_key = true;
    i.quit_key = true;
    assert_eq!(title_action(i), Some(TitleAction::Introduction));
    i.start_key = true;
    assert_eq!(title_action(i), Some(TitleAction::StartGame));
    assert_eq!(title_action(input(Some(ButtonAction::Quit))), Some(TitleAction::Quit));
    assert_eq!(title_action(input(Some(ButtonAction::TravelTrail))), Some(TitleAction::StartGame));
    assert_eq!(title_action(input(Some(ButtonAction::Options))), Some(TitleAction::Options));
    assert_eq!(title_action(input(None)), None);
}

#[test]
fn button_press_fires_after_hold() {
    let (s, fired) = button_step(ButtonState::Normal, true, false, false);
    assert_eq!((s, fired), (ButtonState::Hover, false));
    let (s, fired) = button_step(s, true, true, false);
    assert_eq!((s, fired), (ButtonState::Clicked, false));
    let (s, fired) = button_step(s, false, false, false);
    assert_eq!((s, fired), (ButtonState::Clicked, false));
    let (s, fired) = button_step(s, false, false, true);
    assert_eq!((s, fired), (ButtonState::Normal, true));
    assert_eq!(button_step(ButtonState::Hover, false, true, false), (ButtonState::Normal, false));
}

#[test]
fn button_rows_and_labels() {
    assert_eq!(sprite_row(ButtonAction::Introduction), 0);
    assert_eq!(sprite_row(ButtonAction::Options), 1);
    assert_eq!(sprite_row(ButtonAction::Quit), 2);
    assert_eq!(sprite_row(ButtonAction::TravelTrail), 3);
    assert_eq!(button_label(ButtonAction::TravelTrail), "Travel the Trail");
    assert_eq!(button_label(ButtonAction::Quit), "Quit");
}
