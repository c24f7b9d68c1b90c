use vstd::prelude::*;

verus! {

/// Kinds of game assets, each kept in a folder of its own.
#[derive(Debug, Clone, Copy, PartialEq, Eq, Hash, Structural)]
pub enum AssetType {
    Image,
    Sound,
    Music,
    Text,
    Animation,
    Font,
}

/// Folder, under the asset root, that holds assets of kind `t`.
pub open spec fn asset_folder(t: AssetType) -> Seq<char> {
    match t {
        AssetType::Image => "images"@,
        AssetType::Sound => "audio/sounds"@,
        AssetType::Music => "audio/music"@,
        AssetType::Text => "text"@,
        AssetType::Animation => "animations"@,
        AssetType::Font => "fonts"@,
    }
}

fn asset_folder_str(t: AssetType) -> (r: &'static str)
    ensures
        r@ == asset_folder(t),
{
    match t {
        AssetType::Image => "images",
        AssetType::Sound => "audio/sounds",
        AssetType::Music => "audio/music",
        AssetType::Text => "text",
        AssetType::Animation => "animations",
        AssetType::Font => "fonts",
    }
}

/// Path of the asset `name` of kind `t` under the root `base`:
/// `<base>/<folder>/<name>`.
pub fn asset_path(base: &str, t: AssetType, name: &str) -> (r: String)
    ensures
        r@ == base@ + seq!['/'] + asset_folder(t) + seq!['/'] + name@,
{
    let mut s = String::from_str(base);
    s.append("/");
    s.append(asset_folder_str(t));
    s.append("/");
    s.append(name);
    proof {
        reveal_strlit("/");
    }
    s
}

/// The screens the game moves between.
#[derive(Debug, Clone, Copy, PartialEq, Eq, Structural)]
pub enum GameState {
    TitleScreen,
    Introduction,
    Options,
    MainMenu,
    Setup,
    Travel,
    Hunting,
    RiverCrossing,
    Trading,
    Event,
    Landmark,
    GameOver,
}

/// Choices made on the title screen.
#[derive(Debug, Clone, Copy, PartialEq, Eq, Structural)]
pub enum TitleAction {
    StartGame,
    Introduction,
    Options,
    Quit,
}

/// Screen after one frame, and whether the game asks to exit. On the title
/// screen the chosen action decides; on the introduction and options screens
/// `dismiss` (space, escape or a click) returns to the title; elsewhere
/// `escape` does.
pub open spec fn next_screen(
    state: GameState,
    action: Option<TitleAction>,
    dismiss: bool,
    escape: bool,
) -> (GameState, bool) {
    match state {
        GameState::TitleScreen => match action {
            Some(TitleAction::StartGame) => (GameState::MainMenu, false),
            Some(TitleAction::Introduction) => (GameState::Introduction, false),
            Some(TitleAction::Options) => (GameState::Options, false),
            Some(TitleAction::Quit) => (state, true),
            None => (state, false),
        },
        GameState::Introduction | GameState::Options => if dismiss {
            (GameState::TitleScreen, false)
        } else {
            (state, false)
        },
        _ => if escape {
            (GameState::TitleScreen, false)
        } else {
            (state, false)
        },
    }
}

/// Decides the screen for the next frame from this frame's input; see
/// `next_screen`.
pub fn game_step(state: GameState, action: Option<TitleAction>, dismiss: bool, escape: bool) -> (r: (
    GameState,
    bool,
))
    ensures
        r == next_screen(state, action, dismiss, escape),
{
    match state {
        GameState::TitleScreen => match action {
            Some(TitleAction::StartGame) => (GameState::MainMenu, false),
            Some(TitleAction::Introduction) => (GameState::Introduction, false),
            Some(TitleAction::Options) => (GameState::Options, false),
            Some(TitleAction::Quit) => (state, true),
            None => (state, false),
        },
        GameState::Introduction | GameState::Options => {
            if dismiss {
                (GameState::TitleScreen, false)
            } else {
                (state, false)
            }
        },
        _ => {
            if escape {
                (GameState::TitleScreen, false)
            } else {
                (state, false)
            }
        },
    }
}

/// Keys and click seen on the title screen in one frame.
#[derive(Debug, Clone, Copy, PartialEq, Eq, Structural)]
pub struct TitleInput {
    /// Space or Enter.
    pub start_key: bool,
    /// The `I` key.
    pub intro_key: bool,
    /// The `O` key.
    pub options_key: bool,
    /// Escape or `Q`.
    pub quit_key: bool,
    /// The title-screen button under a left click, if any.
    pub clicked: Option<ButtonAction>,
}

/// The title-screen choice for one frame: keys first, in the order start,
/// introduction, options, quit; then the clicked button.
pub open spec fn title_choice(input: TitleInput) -> Option<TitleAction> {
    if input.start_key {
        Some(TitleAction::StartGame)
    } else if input.intro_key {
        Some(TitleAction::Introduction)
    } else if input.options_key {
        Some(TitleAction::Options)
    } else if input.quit_key {
        Some(TitleAction::Quit)
    } else {
        match input.clicked {
            Some(ButtonAction::TravelTrail) => Some(TitleAction::StartGame),
            Some(ButtonAction::Introduction) => Some(TitleAction::Introduction),
            Some(ButtonAction::Options) => Some(TitleAction::Options),
            Some(ButtonAction::Quit) => Some(TitleAction::Quit),
            None => None,
        }
    }
}

/// Decides the title-screen choice for one frame; see `title_choice`.
pub fn title_action(input: TitleInput) -> (r: Option<TitleAction>)
    ensures
        r == title_choice(input),
{
    if input.start_key {
        Some(TitleAction::StartGame)
    } else if input.intro_key {
        Some(TitleAction::Introduction)
    } else if input.options_key {
        Some(TitleAction::Options)
    } else if input.quit_key {
        Some(TitleAction::Quit)
    } else {
        match input.clicked {
            Some(ButtonAction::TravelTrail) => Some(TitleAction::StartGame),
            Some(ButtonAction::Introduction) => Some(TitleAction::Introduction),
            Some(ButtonAction::Options) => Some(TitleAction::Options),
            Some(ButtonAction::Quit) => Some(TitleAction::Quit),
            None => None,
        }
    }
}

/// Look of a button.
#[derive(Debug, Clone, Copy, PartialEq, Eq, Structural)]
pub enum ButtonState {
    Normal,
    Hover,
    Clicked,
}

/// What a button does when triggered.
#[derive(Debug, Clone, Copy, PartialEq, Eq, Structural)]
pub enum ButtonAction {
    Introduction,
    Options,
    Quit,
    TravelTrail,
}

/// Button state after one frame. A clicked button stays clicked until its
/// hold time is over, then returns to normal; otherwise a press while
/// hovering clicks it, hovering alone highlights it, and anything else leaves
/// it normal.
pub open spec fn next_button_state(
    state: ButtonState,
    hovering: bool,
    pressed: bool,
    hold_over: bool,
) -> ButtonState {
    if state == ButtonState::Clicked {
        if hold_over {
            ButtonState::Normal
        } else {
            ButtonState::Clicked
        }
    } else if hovering {
        if pressed {
            ButtonState::Clicked
        } else {
            ButtonState::Hover
        }
    } else {
        ButtonState::Normal
    }
}

/// Advances a button by one frame: the new state, and whether the button
/// fires, which it does exactly when it leaves the clicked state.
pub fn button_step(state: ButtonState, hovering: bool, pressed: bool, hold_over: bool) -> (r: (
    ButtonState,
    bool,
))
    ensures
        r.0 == next_button_state(state, hovering, pressed, hold_over),
        r.1 == (state == ButtonState::Clicked && r.0 != ButtonState::Clicked),
{
    let next = if state == ButtonState::Clicked {
        if hold_over {
            ButtonState::Normal
        } else {
            ButtonState::Clicked
        }
    } else if hovering {
        if pressed {
            ButtonState::Clicked
        } else {
            ButtonState::Hover
        }
    } else {
        ButtonState::Normal
    };
    let was_clicked = state == ButtonState::Clicked;
    (next, was_clicked && next != ButtonState::Clicked)
}

/// Row of the button's image in the sprite sheet.
pub fn sprite_row(action: ButtonAction) -> (r: usize)
    ensures
        r == match action {
            ButtonAction::Introduction => 0usize,
            ButtonAction::Options => 1usize,
            ButtonAction::Quit => 2usize,
            ButtonAction::TravelTrail => 3usize,
        },
{
    match action {
        ButtonAction::Introduction => 0,
        ButtonAction::Options => 1,
        ButtonAction::Quit => 2,
        ButtonAction::TravelTrail => 3,
    }
}

/// Caption drawn on a button when its sprite is missing.
pub open spec fn label_of(action: ButtonAction) -> Seq<char> {
    match action {
        ButtonAction::Introduction => "Introduction"@,
        ButtonAction::Options => "Options"@,
        ButtonAction::Quit => "Quit"@,
        ButtonAction::TravelTrail => "Travel the Trail"@,
    }
}

/// Caption drawn on a button when its sprite is missing.
pub fn button_label(action: ButtonAction) -> (r: String)
    ensures
        r@ == label_of(action),
{
    let s = match action {
        ButtonAction::Introduction => "Introduction",
        ButtonAction::Options => "Options",
        ButtonAction::Quit => "Quit",
        ButtonAction::TravelTrail => "Travel the Trail",
    };
    String::from_str(s)
}

} // verus!
