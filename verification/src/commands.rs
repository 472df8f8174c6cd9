use vstd::prelude::*;

use crate::data::{
    entity_type_id, is_summonable_entity_type, spec_non_summonable, spec_protocol_registry_index,
    DataTables, Version,
};
use crate::text::{decimal, decimal_chars};

verus! {

/// What `/title` does with its text: `clear` and `reset` hide the title,
/// anything else is shown.
#[derive(Debug, Clone, Copy, PartialEq, Eq, Structural)]
pub enum TitleAction {
    Clear,
    Reset,
    Show,
}

pub open spec fn spec_title_action(title: Seq<char>) -> TitleAction {
    if title == "clear"@ {
        TitleAction::Clear
    } else if title == "reset"@ {
        TitleAction::Reset
    } else {
        TitleAction::Show
    }
}

pub open spec fn title_reply_chars(title: Seq<char>) -> Seq<char> {
    match spec_title_action(title) {
        TitleAction::Clear => "Title cleared."@,
        TitleAction::Reset => "Title cleared and times reset."@,
        TitleAction::Show => "Title '"@ + title + "' sent."@,
    }
}

/// What `/title` does with `title`, and what it answers.
pub fn title_action(title: &str) -> (r: (TitleAction, String))
    ensures
        r.0 == spec_title_action(title@),
        r.1@ == title_reply_chars(title@),
{
    let t = title.to_owned();
    if t == "clear".to_owned() {
        (TitleAction::Clear, String::from_str("Title cleared."))
    } else if t == "reset".to_owned() {
        (TitleAction::Reset, String::from_str("Title cleared and times reset."))
    } else {
        (TitleAction::Show, String::from_str("Title '").concat(title).concat("' sent."))
    }
}

/// The frame of an advancement toast.
#[derive(Debug, Clone, Copy, PartialEq, Eq, Structural)]
pub enum ToastFrame {
    Task,
    Goal,
    Challenge,
}

pub open spec fn spec_frame(name: Seq<char>) -> Option<ToastFrame> {
    if name == "task"@ {
        Some(ToastFrame::Task)
    } else if name == "goal"@ {
        Some(ToastFrame::Goal)
    } else if name == "challenge"@ {
        Some(ToastFrame::Challenge)
    } else {
        None
    }
}

/// The toast frame a `/toast` argument names.
pub fn parse_frame(name: &str) -> (frame: Option<ToastFrame>)
    ensures
        frame == spec_frame(name@),
{
    let n = name.to_owned();
    if n == "task".to_owned() {
        Some(ToastFrame::Task)
    } else if n == "goal".to_owned() {
        Some(ToastFrame::Goal)
    } else if n == "challenge".to_owned() {
        Some(ToastFrame::Challenge)
    } else {
        None
    }
}

/// How long a status effect lasts.
#[derive(Debug, Clone, Copy, PartialEq, Eq, Structural)]
pub enum EffectDuration {
    Seconds(u32),
    Infinite,
}

/// What `/effect` asks for.
#[derive(Debug, Clone, PartialEq, Eq)]
pub enum EffectRequest {
    /// Clear every effect.
    Clear,
    /// Remove the named effect.
    Remove(String),
    /// Give the named effect at this amplifier for this long.
    Apply { effect: String, amplifier: u8, duration: EffectDuration },
}

/// An effect name with its namespace: names without one are Minecraft's.
pub open spec fn qualified_chars(name: Seq<char>) -> Seq<char> {
    if name.contains(':') {
        name
    } else {
        "minecraft:"@ + name
    }
}

fn has_colon(name: &str) -> (r: bool)
    ensures
        r == name@.contains(':'),
{
    let n = name.unicode_len();
    let mut i: usize = 0;
    while i < n
        invariant
            n == name@.len(),
            i <= n,
            forall|j: int| 0 <= j < i ==> name@[j] != ':',
        decreases n - i,
    {
        if name.get_char(i) == ':' {
            return true;
        }
        i += 1;
    }
    false
}

/// The effect an `/effect` name stands for.
pub fn qualified_effect(name: &str) -> (q: String)
    ensures
        q@ == qualified_chars(name@),
{
    if has_colon(name) {
        name.to_owned()
    } else {
        String::from_str("minecraft:").concat(name)
    }
}

/// What `/effect name [seconds] [amplifier]` asks for: `clear` clears
/// every effect; otherwise the effect is removed for zero seconds, given for
/// the seconds asked, or for ever without them, at the amplifier asked or
/// zero.
pub fn effect_request(name: &str, seconds: Option<i32>, amplifier: Option<i32>) -> (r: EffectRequest)
    requires
        seconds matches Some(s) ==> 0 <= s <= 1_000_000,
        amplifier matches Some(a) ==> 0 <= a <= 255,
    ensures
        name@ == "clear"@ ==> r == EffectRequest::Clear,
        name@ != "clear"@ ==> match r {
            EffectRequest::Clear => false,
            EffectRequest::Remove(effect) => effect@ == qualified_chars(name@) && seconds == Some(0i32),
            EffectRequest::Apply { effect, amplifier: amp, duration } => {
                &&& effect@ == qualified_chars(name@)
                &&& amp == (match amplifier {
                    Some(a) => a as u8,
                    None => 0u8,
                })
                &&& duration == (match seconds {
                    Some(s) => EffectDuration::Seconds(s as u32),
                    None => EffectDuration::Infinite,
                })
                &&& seconds != Some(0i32)
            },
        },
{
    if name.to_owned() == "clear".to_owned() {
        return EffectRequest::Clear;
    }
    let effect = qualified_effect(name);
    let duration = match seconds {
        Some(s) => if s > 0 {
            EffectDuration::Seconds(s as u32)
        } else {
            return EffectRequest::Remove(effect);
        },
        None => EffectDuration::Infinite,
    };
    let amplifier = match amplifier {
        Some(a) => a as u8,
        None => 0,
    };
    EffectRequest::Apply { effect, amplifier, duration }
}

/// How long an effect lasts, as `/effect` tells it.
pub fn duration_text(duration: EffectDuration) -> (text: String)
    ensures
        text@ == match duration {
            EffectDuration::Seconds(s) => decimal_chars(s as nat) + "s"@,
            EffectDuration::Infinite => "ever"@,
        },
{
    match duration {
        EffectDuration::Seconds(s) => decimal(s as u64).concat("s"),
        EffectDuration::Infinite => String::from_str("ever"),
    }
}

/// The entity `/circle` summons when none is named.
pub const DEFAULT_CIRCLE_ENTITY: &'static str = "minecraft:pig";

/// Why `/circle` refuses an entity type.
#[derive(Debug, Clone, PartialEq, Eq)]
pub enum CircleRefusal {
    Unknown(String),
    NotSummonable(String),
}

impl CircleRefusal {
    /// The error `/circle` answers with.
    pub fn message(&self) -> (m: String)
        ensures
            m@ == match self {
                CircleRefusal::Unknown(name) => "Unknown entity type '"@ + name@ + "'."@,
                CircleRefusal::NotSummonable(name) => "Entity type is not summonable: "@ + name@,
            },
    {
        match self {
            CircleRefusal::Unknown(name) => String::from_str("Unknown entity type '").concat(name.as_str()).concat("'."),
            CircleRefusal::NotSummonable(name) => String::from_str("Entity type is not summonable: ").concat(
                name.as_str(),
            ),
        }
    }
}

/// The entity type `/circle` summons: the one named, or a pig; it must be a
/// known entity type that may be summoned. On success, its protocol id.
pub fn circle_entity(data: &DataTables, entity: Option<&str>) -> (r: Result<i32, CircleRefusal>)
    ensures
        ({
            let name = match entity {
                Some(e) => e@,
                None => DEFAULT_CIRCLE_ENTITY@,
            };
            let id = spec_protocol_registry_index(*data, Version::V26_1_2, "minecraft:entity_type"@, name);
            let excluded = exists|i: int|
                0 <= i < spec_non_summonable(*data, Version::V26_1_2).len() && #[trigger] spec_non_summonable(
                    *data,
                    Version::V26_1_2,
                )[i]@ == name;
            match r {
                Ok(type_id) => id == Some(type_id) && !excluded,
                Err(CircleRefusal::Unknown(n)) => n@ == name && id is None,
                Err(CircleRefusal::NotSummonable(n)) => n@ == name && id is Some && excluded,
            }
        }),
{
    let name = match entity {
        Some(e) => e,
        None => DEFAULT_CIRCLE_ENTITY,
    };
    let id = match entity_type_id(data, Version::V26_1_2, name) {
        Some(id) => id,
        None => return Err(CircleRefusal::Unknown(name.to_owned())),
    };
    if !is_summonable_entity_type(data, Version::V26_1_2, name) {
        return Err(CircleRefusal::NotSummonable(name.to_owned()));
    }
    Ok(id)
}

/// What `/circle` answers once the ring is summoned: around the caller, the
/// player named, or the target.
pub fn circle_reply(around_caller: bool, player: Option<&str>) -> (text: String)
    ensures
        text@ == "36 entities now orbit around "@ + (if around_caller {
            "you"@
        } else {
            match player {
                Some(p) => p@,
                None => "the target"@,
            }
        }) + ". Use /circle --stop to dismiss them."@,
{
    let label = if around_caller {
        "you"
    } else {
        match player {
            Some(p) => p,
            None => "the target",
        }
    };
    String::from_str("36 entities now orbit around ").concat(label).concat(
        ". Use /circle --stop to dismiss them.",
    )
}

/// What `/circle --stop` answers.
pub fn dismiss_reply(had_circle: bool) -> (text: &'static str)
    ensures
        text@ == (if had_circle {
            "Your circle has dispersed."@
        } else {
            "You have no active circle."@
        }),
{
    if had_circle {
        "Your circle has dispersed."
    } else {
        "You have no active circle."
    }
}

/// What `/border` does, from the flag, whether the demo border is shown and
/// whether a diameter was given.
#[derive(Debug, Clone, Copy, PartialEq, Eq, Structural)]
pub enum BorderAction {
    Remove,
    NothingToRemove,
    /// Resize the shown border, at once or over the seconds given.
    Resize,
    AlreadyShown,
    /// Show a new border, of the diameter given or 512 blocks.
    Show,
}

pub open spec fn border_reply_chars(action: BorderAction) -> Seq<char> {
    match action {
        BorderAction::Remove => "Border removed."@,
        BorderAction::NothingToRemove => "There is no demo border."@,
        BorderAction::Resize => "Border resized."@,
        BorderAction::AlreadyShown => "The demo border is already shown."@,
        BorderAction::Show => "Border shown to everyone. Try /border 64 120 and /border --remove."@,
    }
}

/// What `/border` does, and what it answers.
pub fn border_action(remove: bool, shown: bool, diameter: bool) -> (r: (BorderAction, &'static str))
    ensures
        r.0 == (if remove {
            if shown {
                BorderAction::Remove
            } else {
                BorderAction::NothingToRemove
            }
        } else if shown {
            if diameter {
                BorderAction::Resize
            } else {
                BorderAction::AlreadyShown
            }
        } else {
            BorderAction::Show
        }),
        r.1@ == border_reply_chars(r.0),
{
    let action = if remove {
        if shown {
            BorderAction::Remove
        } else {
            BorderAction::NothingToRemove
        }
    } else if shown {
        if diameter {
            BorderAction::Resize
        } else {
            BorderAction::AlreadyShown
        }
    } else {
        BorderAction::Show
    };
    let reply = match action {
        BorderAction::Remove => "Border removed.",
        BorderAction::NothingToRemove => "There is no demo border.",
        BorderAction::Resize => "Border resized.",
        BorderAction::AlreadyShown => "The demo border is already shown.",
        BorderAction::Show => "Border shown to everyone. Try /border 64 120 and /border --remove.",
    };
    (action, reply)
}

/// The weather `/weather` sets.
#[derive(Debug, Clone, Copy, PartialEq, Eq, Structural)]
pub enum WeatherChoice {
    Clear,
    /// Rain at full strength.
    Rain,
    /// Rain and thunder at full strength.
    Thunder,
}

/// What `/weather` answers when it is not given a weather it knows.
pub const WEATHER_USAGE: &'static str = "Usage: /weather <clear|rain|thunder> [transition]";

/// The weather a `/weather` argument names.
pub fn weather_choice(kind: Option<&str>) -> (w: Option<WeatherChoice>)
    ensures
        w == match kind {
            Some(k) => if k@ == "clear"@ {
                Some(WeatherChoice::Clear)
            } else if k@ == "rain"@ {
                Some(WeatherChoice::Rain)
            } else if k@ == "thunder"@ {
                Some(WeatherChoice::Thunder)
            } else {
                None
            },
            None => None,
        },
{
    match kind {
        Some(k) => {
            let k = k.to_owned();
            if k == "clear".to_owned() {
                Some(WeatherChoice::Clear)
            } else if k == "rain".to_owned() {
                Some(WeatherChoice::Rain)
            } else if k == "thunder".to_owned() {
                Some(WeatherChoice::Thunder)
            } else {
                None
            }
        },
        None => None,
    }
}

/// What a command that shows one demo element (a boss bar, the tab list
/// header) does, from its removal flag and whether the element is shown.
#[derive(Debug, Clone, Copy, PartialEq, Eq, Structural)]
pub enum Toggle {
    Remove,
    NothingToRemove,
    Update,
    Show,
}

pub open spec fn spec_toggle(remove: bool, shown: bool) -> Toggle {
    if remove {
        if shown {
            Toggle::Remove
        } else {
            Toggle::NothingToRemove
        }
    } else if shown {
        Toggle::Update
    } else {
        Toggle::Show
    }
}

fn toggle(remove: bool, shown: bool) -> (t: Toggle)
    ensures
        t == spec_toggle(remove, shown),
{
    if remove {
        if shown {
            Toggle::Remove
        } else {
            Toggle::NothingToRemove
        }
    } else if shown {
        Toggle::Update
    } else {
        Toggle::Show
    }
}

pub open spec fn bossbar_reply_chars(t: Toggle) -> Seq<char> {
    match t {
        Toggle::Remove => "Boss bar removed."@,
        Toggle::NothingToRemove => "You have no boss bar."@,
        Toggle::Update => "Boss bar updated."@,
        Toggle::Show => "Boss bar shown. Try /bossbar 0.5 and /bossbar --remove."@,
    }
}

/// What `/bossbar` does with the caller's boss bar, and what it answers.
pub fn bossbar_action(remove: bool, shown: bool) -> (r: (Toggle, &'static str))
    ensures
        r.0 == spec_toggle(remove, shown),
        r.1@ == bossbar_reply_chars(r.0),
{
    let t = toggle(remove, shown);
    let reply = match t {
        Toggle::Remove => "Boss bar removed.",
        Toggle::NothingToRemove => "You have no boss bar.",
        Toggle::Update => "Boss bar updated.",
        Toggle::Show => "Boss bar shown. Try /bossbar 0.5 and /bossbar --remove.",
    };
    (t, reply)
}

pub open spec fn tablist_reply_chars(t: Toggle) -> Seq<char> {
    match t {
        Toggle::Remove => "Tab list header and footer removed."@,
        Toggle::NothingToRemove => "No header or footer set."@,
        Toggle::Update => "Tab list updated."@,
        Toggle::Show => "Tab list set. Try /tablist --clear."@,
    }
}

/// What `/tablist` does with the tab list header and footer, and what it
/// answers.
pub fn tablist_action(clear: bool, shown: bool) -> (r: (Toggle, &'static str))
    ensures
        r.0 == spec_toggle(clear, shown),
        r.1@ == tablist_reply_chars(r.0),
{
    let t = toggle(clear, shown);
    let reply = match t {
        Toggle::Remove => "Tab list header and footer removed.",
        Toggle::NothingToRemove => "No header or footer set.",
        Toggle::Update => "Tab list updated.",
        Toggle::Show => "Tab list set. Try /tablist --clear.",
    };
    (t, reply)
}

/// Where a click in a menu landed.
#[derive(Debug, Clone, Copy, PartialEq, Eq, Structural)]
pub enum MenuSlot {
    Menu(usize),
    Inventory(usize),
    Outside,
}

/// What a click in the `/menu` shop does.
#[derive(Debug, Clone, PartialEq, Eq)]
pub enum MenuClick {
    Close,
    Reply(String),
    Nothing,
}

/// The labels of the shop's wares, slot by slot; the last is the close
/// button.
pub open spec fn ware_label(index: nat) -> Seq<char> {
    if index == 0 {
        "a sword"@
    } else if index == 1 {
        "an apple"@
    } else if index == 2 {
        "a pearl"@
    } else {
        "the close button"@
    }
}

/// Wares in the shop.
pub const WARES: usize = 4;

/// What a click does: the close button closes the menu, a ware is named
/// with its slot, an empty slot or a slot of the player's own inventory is
/// said to be so, and a click outside does nothing.
pub fn menu_click(slot: MenuSlot) -> (c: MenuClick)
    ensures
        match slot {
            MenuSlot::Menu(i) => if i == WARES - 1 {
                c == MenuClick::Close
            } else if i < WARES {
                c matches MenuClick::Reply(t) && t@ == "You clicked "@ + ware_label(i as nat)
                    + " (slot "@ + decimal_chars(i as nat) + ")."@
            } else {
                c matches MenuClick::Reply(t) && t@ == "Nothing here."@
            },
            MenuSlot::Inventory(i) => c matches MenuClick::Reply(t) && t@ == "That is your own inventory slot "@
                + decimal_chars(i as nat) + "."@,
            MenuSlot::Outside => c == MenuClick::Nothing,
        },
{
    match slot {
        MenuSlot::Menu(i) => {
            if i == WARES - 1 {
                MenuClick::Close
            } else if i < WARES {
                let label = if i == 0 {
                    "a sword"
                } else if i == 1 {
                    "an apple"
                } else {
                    "a pearl"
                };
                MenuClick::Reply(
                    String::from_str("You clicked ").concat(label).concat(" (slot ").concat(
                        decimal(i as u64).as_str(),
                    ).concat(")."),
                )
            } else {
                MenuClick::Reply(String::from_str("Nothing here."))
            }
        },
        MenuSlot::Inventory(i) => MenuClick::Reply(
            String::from_str("That is your own inventory slot ").concat(decimal(i as u64).as_str()).concat(
                ".",
            ),
        ),
        MenuSlot::Outside => MenuClick::Nothing,
    }
}

/// What `/nick` does to the caller's tab list entry.
#[derive(Debug, Clone, PartialEq, Eq)]
pub enum NickChange {
    /// The caller has no entry yet.
    NoEntry,
    /// The entry goes back to the player's real name, listed.
    Reset,
    /// The entry is listed unless hidden, and shows the name given, if any,
    /// in aqua.
    Update { name: Option<String>, listed: bool },
}

/// What `/nick` does, from whether the caller has an entry, its flags and
/// the name given.
pub fn nick_change(has_entry: bool, reset: bool, hide: bool, name: Option<String>) -> (c: NickChange)
    ensures
        c == (if !has_entry {
            NickChange::NoEntry
        } else if reset {
            NickChange::Reset
        } else {
            NickChange::Update { name, listed: !hide }
        }),
{
    if !has_entry {
        NickChange::NoEntry
    } else if reset {
        NickChange::Reset
    } else {
        NickChange::Update { name, listed: !hide }
    }
}

/// What `/nick` answers.
pub fn nick_reply(change: &NickChange) -> (text: &'static str)
    ensures
        text@ == match change {
            NickChange::NoEntry => "You have no tab list entry yet."@,
            NickChange::Reset => "Tab list entry reset."@,
            NickChange::Update { .. } => "Tab list entry updated."@,
        },
{
    match change {
        NickChange::NoEntry => "You have no tab list entry yet.",
        NickChange::Reset => "Tab list entry reset.",
        NickChange::Update { .. } => "Tab list entry updated.",
    }
}

/// What `/display` does.
#[derive(Debug, Clone, Copy, PartialEq, Eq, Structural)]
pub enum DisplayAction {
    /// A ring of glass segments around the caller.
    Shield,
    /// A text display above the caller.
    Sign,
    /// An item display.
    Item,
    /// A chicken riding a pig.
    Ride,
    /// Hide every display of the caller.
    Hide,
    /// Show every display of the caller again.
    Show,
    /// Remove every display of the caller.
    Clear,
    /// Unknown mode: the usage is answered.
    Usage,
}

/// What `/display` does for `mode`: `hide` hides the caller's displays when
/// some of them is visible, and shows them all otherwise.
pub open spec fn spec_display_action(mode: Seq<char>, any_visible: bool) -> (DisplayAction, Seq<char>) {
    if mode == "shield"@ {
        (DisplayAction::Shield, "Shield raised. /display clear removes it."@)
    } else if mode == "sign"@ {
        (DisplayAction::Sign, "Sign placed above you."@)
    } else if mode == "item"@ {
        (DisplayAction::Item, "Item display placed."@)
    } else if mode == "ride"@ {
        (DisplayAction::Ride, "A chicken now rides a pig."@)
    } else if mode == "hide"@ {
        if any_visible {
            (DisplayAction::Hide, "Your displays are hidden. /display hide shows them again."@)
        } else {
            (DisplayAction::Show, "Your displays are visible again."@)
        }
    } else if mode == "clear"@ {
        (DisplayAction::Clear, "Your displays are gone."@)
    } else {
        (DisplayAction::Usage, "Usage: /display <shield|sign|item|ride|hide|clear> [text]"@)
    }
}

/// What `/display` does, and what it answers.
pub fn display_action(mode: &str, any_visible: bool) -> (r: (DisplayAction, &'static str))
    ensures
        (r.0, r.1@) == spec_display_action(mode@, any_visible),
{
    let m = mode.to_owned();
    if m == "shield".to_owned() {
        (DisplayAction::Shield, "Shield raised. /display clear removes it.")
    } else if m == "sign".to_owned() {
        (DisplayAction::Sign, "Sign placed above you.")
    } else if m == "item".to_owned() {
        (DisplayAction::Item, "Item display placed.")
    } else if m == "ride".to_owned() {
        (DisplayAction::Ride, "A chicken now rides a pig.")
    } else if m == "hide".to_owned() {
        if any_visible {
            (DisplayAction::Hide, "Your displays are hidden. /display hide shows them again.")
        } else {
            (DisplayAction::Show, "Your displays are visible again.")
        }
    } else if m == "clear".to_owned() {
        (DisplayAction::Clear, "Your displays are gone.")
    } else {
        (DisplayAction::Usage, "Usage: /display <shield|sign|item|ride|hide|clear> [text]")
    }
}

/// The text a `/display sign` shows: the text given, or a greeting.
pub fn display_sign_text(text: Option<String>) -> (t: String)
    ensures
        t@ == match text {
            Some(s) => s@,
            None => "Hello from void"@,
        },
{
    match text {
        Some(s) => s,
        None => String::from_str("Hello from void"),
    }
}

/// What `/circle` answers when the player it names is not online.
pub fn not_online_message(player: &str) -> (m: String)
    ensures
        m@ == "Player '"@ + player@ + "' is not online."@,
{
    String::from_str("Player '").concat(player).concat("' is not online.")
}

} // verus!
