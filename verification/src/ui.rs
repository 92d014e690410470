//! The state of the device manager screen and how keys, clicks and finished
//! background work change it. Drawing, the terminal and the background work itself
//! stay with the caller, which performs the `Effect` that each change asks for.

use vstd::prelude::*;
use crate::collections::texts;
use crate::config::{
    covers, lemma_state_views, with_disabled, with_state_for, AppConfig, ConfigView, SavedState,
    StateView,
};
use crate::openrgb::{device_key, device_profile_key, OpenRgbDevice};
use crate::picker::{
    find_palette_hit, fits_u16, hex_digit, inside, is_hex_digit, is_inside, palette_color,
    palette_hex, palette_hit, Rect,
    PALETTE_LEN,
};
use crate::summary::{join_texts, joined, result_view, DeviceActionSummary};
use crate::text::{chars_of, decimal, decimal_string_usize, string_of, text_eq};

verus! {

/// The keys of `requested` that are also in `succeeded`, in the order of `requested`.
pub open spec fn kept_keys(requested: Seq<Seq<char>>, succeeded: Seq<Seq<char>>) -> Seq<Seq<char>>
    decreases requested.len(),
{
    if requested.len() == 0 {
        Seq::empty()
    } else if succeeded.contains(requested.last()) {
        kept_keys(requested.drop_last(), succeeded).push(requested.last())
    } else {
        kept_keys(requested.drop_last(), succeeded)
    }
}

fn contains_text(v: &[String], s: &str) -> (b: bool)
    ensures
        b == texts(v@).contains(s@),
{
    let mut i: usize = 0;
    while i < v.len()
        invariant
            i <= v.len(),
            forall|k: int| 0 <= k < i ==> v@[k]@ != s@,
        decreases v.len() - i,
    {
        if text_eq(v[i].as_str(), s) {
            assert(texts(v@)[i as int] == s@);
            return true;
        }
        i = i + 1;
    }
    assert(!texts(v@).contains(s@));
    false
}

/// The keys of `requested` that are also in `succeeded`, in the order of `requested`.
pub fn filter_device_keys(requested: &[String], succeeded: &[String]) -> (r: Vec<String>)
    ensures
        texts(r@) == kept_keys(texts(requested@), texts(succeeded@)),
{
    let mut r: Vec<String> = Vec::new();
    let mut i: usize = 0;
    assert(texts(requested@.take(0)) =~= Seq::<Seq<char>>::empty());
    while i < requested.len()
        invariant
            i <= requested.len(),
            texts(r@) == kept_keys(texts(requested@.take(i as int)), texts(succeeded@)),
        decreases requested.len() - i,
    {
        assert(texts(requested@.take(i + 1)).drop_last() =~= texts(requested@.take(i as int)));
        assert(texts(requested@.take(i + 1)).last() == requested@[i as int]@);
        if contains_text(succeeded, requested[i].as_str()) {
            let ghost before = r@;
            r.push(requested[i].clone());
            assert(texts(r@) =~= texts(before).push(requested@[i as int]@));
        }
        i = i + 1;
    }
    assert(requested@.take(requested.len() as int) =~= requested@);
    r
}

/// `n device`, or `n devices` for any count but one.
pub open spec fn sync_scope_text(count: nat) -> Seq<char> {
    decimal(count) + " device"@ + if count == 1 {
        ""@
    } else {
        "s"@
    }
}

pub fn format_sync_scope(count: usize) -> (r: String)
    ensures
        r@ == sync_scope_text(count as nat),
{
    let n = decimal_string_usize(count);
    let r = n.concat(" device");
    if count == 1 {
        r.concat("")
    } else {
        r.concat("s")
    }
}

/// Which screen has the keyboard.
#[derive(Clone, Copy, Debug, PartialEq, Eq, Structural)]
pub enum AppMode {
    Normal,
    ColorPicker,
}

/// A key press, as far as the screen tells keys apart.
#[derive(Clone, Copy, Debug, PartialEq, Eq, Structural)]
pub enum Key {
    Char(char),
    Up,
    Down,
    Left,
    Right,
    Enter,
    Esc,
    Backspace,
    Other,
}

/// Background work that has finished.
pub enum AppEvent {
    DevicesReloaded(Result<Vec<OpenRgbDevice>, String>),
    SyncComplete(Result<(), String>),
    ColorSetComplete(DeviceActionSummary),
    OffComplete(DeviceActionSummary),
    RainbowComplete(DeviceActionSummary),
    Tick,
}

/// A finished piece of background work as plain values; a summary is its
/// succeeded keys and its failure messages.
pub enum EventView {
    DevicesReloaded(Result<Seq<OpenRgbDevice>, Seq<char>>),
    SyncComplete(Result<(), Seq<char>>),
    ColorSetComplete(Seq<Seq<char>>, Seq<Seq<char>>),
    OffComplete(Seq<Seq<char>>, Seq<Seq<char>>),
    RainbowComplete(Seq<Seq<char>>, Seq<Seq<char>>),
    Tick,
}

impl View for AppEvent {
    type V = EventView;

    open spec fn view(&self) -> EventView {
        match self {
            AppEvent::DevicesReloaded(Ok(ds)) => EventView::DevicesReloaded(Ok(ds@)),
            AppEvent::DevicesReloaded(Err(e)) => EventView::DevicesReloaded(Err(e@)),
            AppEvent::SyncComplete(Ok(())) => EventView::SyncComplete(Ok(())),
            AppEvent::SyncComplete(Err(e)) => EventView::SyncComplete(Err(e@)),
            AppEvent::ColorSetComplete(s) => EventView::ColorSetComplete(
                texts(s.succeeded_keys@),
                texts(s.failed_devices@),
            ),
            AppEvent::OffComplete(s) => EventView::OffComplete(
                texts(s.succeeded_keys@),
                texts(s.failed_devices@),
            ),
            AppEvent::RainbowComplete(s) => EventView::RainbowComplete(
                texts(s.succeeded_keys@),
                texts(s.failed_devices@),
            ),
            AppEvent::Tick => EventView::Tick,
        }
    }
}

/// What the caller is asked to do after a change of the screen's state.
pub enum Effect {
    Nothing,
    Quit,
    /// Write the settings to disk.
    SaveConfig,
    /// Install the theme hook, then report with `toggle_sync`.
    InstallSyncHook,
    /// Remove the theme hook, then report with `toggle_sync`.
    RemoveSyncHook,
    /// Install the login autostart entry, then report with `toggle_restore_on_startup`.
    InstallAutostart,
    /// Remove the login autostart entry, then report with `toggle_restore_on_startup`.
    RemoveAutostart,
    /// List the devices again and report `DevicesReloaded`.
    Rescan,
    /// Apply the theme colour to the synced devices and report `SyncComplete`.
    Sync,
    /// Read the theme colour again and report with `theme_loaded`.
    ReloadTheme,
    /// Apply `color` to `devices` and report `ColorSetComplete`.
    ApplyColor { devices: Vec<OpenRgbDevice>, color: String },
    /// Switch `devices` off and report `OffComplete`.
    TurnOff { devices: Vec<OpenRgbDevice> },
    /// Put `devices` in rainbow mode and report `RainbowComplete`.
    Rainbow { devices: Vec<OpenRgbDevice> },
}

/// An effect as plain values.
pub enum EffectView {
    Nothing,
    Quit,
    SaveConfig,
    InstallSyncHook,
    RemoveSyncHook,
    InstallAutostart,
    RemoveAutostart,
    Rescan,
    Sync,
    ReloadTheme,
    ApplyColor(Seq<OpenRgbDevice>, Seq<char>),
    TurnOff(Seq<OpenRgbDevice>),
    Rainbow(Seq<OpenRgbDevice>),
}

impl View for Effect {
    type V = EffectView;

    open spec fn view(&self) -> EffectView {
        match self {
            Effect::Nothing => EffectView::Nothing,
            Effect::Quit => EffectView::Quit,
            Effect::SaveConfig => EffectView::SaveConfig,
            Effect::InstallSyncHook => EffectView::InstallSyncHook,
            Effect::RemoveSyncHook => EffectView::RemoveSyncHook,
            Effect::InstallAutostart => EffectView::InstallAutostart,
            Effect::RemoveAutostart => EffectView::RemoveAutostart,
            Effect::Rescan => EffectView::Rescan,
            Effect::Sync => EffectView::Sync,
            Effect::ReloadTheme => EffectView::ReloadTheme,
            Effect::ApplyColor { devices, color } => EffectView::ApplyColor(devices@, color@),
            Effect::TurnOff { devices } => EffectView::TurnOff(devices@),
            Effect::Rainbow { devices } => EffectView::Rainbow(devices@),
        }
    }
}

/// The state to remember for the devices of an action once it reports back.
struct PendingStateUpdate {
    device_keys: Vec<String>,
    state: SavedState,
}

/// The device manager screen.
pub struct App {
    config: AppConfig,
    devices: Vec<OpenRgbDevice>,
    selected_index: usize,
    status_msg: String,
    theme_color: String,
    is_syncing: bool,
    mode: AppMode,
    selected_color_index: usize,
    custom_hex_input: String,
    input_active: bool,
    is_omarchy: bool,
    pending_state_update: Option<PendingStateUpdate>,
}

/// The screen's state as plain values.
#[verifier::ext_equal]
pub struct AppView {
    pub config: ConfigView,
    pub devices: Seq<OpenRgbDevice>,
    pub selected: int,
    pub status: Seq<char>,
    pub theme_color: Seq<char>,
    pub syncing: bool,
    pub mode: AppMode,
    pub color_index: int,
    pub custom_hex: Seq<char>,
    pub input_active: bool,
    pub omarchy: bool,
    pub pending: Option<(Seq<Seq<char>>, StateView)>,
}

impl View for App {
    type V = AppView;

    closed spec fn view(&self) -> AppView {
        AppView {
            config: self.config@,
            devices: self.devices@,
            selected: self.selected_index as int,
            status: self.status_msg@,
            theme_color: self.theme_color@,
            syncing: self.is_syncing,
            mode: self.mode,
            color_index: self.selected_color_index as int,
            custom_hex: self.custom_hex_input@,
            input_active: self.input_active,
            omarchy: self.is_omarchy,
            pending: match self.pending_state_update {
                Some(p) => Some((texts(p.device_keys@), p.state@)),
                None => None,
            },
        }
    }
}

/// What holds of every state of the screen: the selection points at a device
/// (or is 0 when there is none), the palette selection at a colour, and the typed
/// colour has at most six hexadecimal digits.
pub open spec fn view_ok(v: AppView) -> bool {
    &&& 0 <= v.selected
    &&& (v.devices.len() > 0 ==> v.selected < v.devices.len())
    &&& (v.devices.len() == 0 ==> v.selected == 0)
    &&& 0 <= v.color_index < PALETTE_LEN
    &&& v.custom_hex.len() <= 6
    &&& forall|i: int| 0 <= i < v.custom_hex.len() ==> hex_digit(#[trigger] v.custom_hex[i])
}

/// Whether a device is switched on under these switched-off entries.
pub open spec fn is_enabled(disabled: Set<Seq<char>>, d: OpenRgbDevice) -> bool {
    !covers(disabled, device_key(d), d.name@)
}

/// The devices of `ds` that are switched on, in their order.
pub open spec fn enabled_of(disabled: Set<Seq<char>>, ds: Seq<OpenRgbDevice>) -> Seq<OpenRgbDevice>
    decreases ds.len(),
{
    if ds.len() == 0 {
        Seq::empty()
    } else if is_enabled(disabled, ds.last()) {
        enabled_of(disabled, ds.drop_last()).push(ds.last())
    } else {
        enabled_of(disabled, ds.drop_last())
    }
}

/// The settings keys of some devices.
pub open spec fn keys_of(ds: Seq<OpenRgbDevice>) -> Seq<Seq<char>> {
    ds.map_values(|d: OpenRgbDevice| device_key(d))
}

/// The switched-on devices of the screen.
pub open spec fn enabled(v: AppView) -> Seq<OpenRgbDevice> {
    enabled_of(v.config.disabled, v.devices)
}

/// The screen with another status line.
pub open spec fn with_status(v: AppView, s: Seq<char>) -> AppView {
    AppView { status: s, ..v }
}

/// The status line of a screen that has just opened.
pub open spec fn welcome(omarchy: bool) -> Seq<char> {
    if omarchy {
        "Press 'a' toggle startup restore for the whole remembered setup, 's' toggle Sync, 'Enter'/'Space' toggle Device, 'c' set color for all enabled, 't' Force sync all enabled, 'R' rescan, 'r' rainbow, 'o' off, 'q' quit."@
    } else {
        "Press 'a' toggle startup restore for the whole remembered setup, 'Enter'/'Space' toggle Device, 'c' set color for all enabled, 'R' rescan, 'r' rainbow, 'o' off, 'q' quit."@
    }
}

/// The theme colour used when the theme gives none.
pub open spec fn fallback_theme_color() -> Seq<char> {
    "7aa2f7"@
}

/// The selection moved one device down, wrapping to the first.
pub open spec fn next_view(v: AppView) -> AppView {
    if v.devices.len() > 0 {
        AppView { selected: (v.selected + 1) % (v.devices.len() as int), ..v }
    } else {
        v
    }
}

/// The selection moved one device up, wrapping to the last.
pub open spec fn previous_view(v: AppView) -> AppView {
    if v.devices.len() > 0 {
        AppView {
            selected: if v.selected > 0 {
                v.selected - 1
            } else {
                v.devices.len() - 1
            },
            ..v
        }
    } else {
        v
    }
}

/// Switching the selected device on or off, and the message that says which.
pub open spec fn toggle_view(v: AppView) -> (AppView, EffectView) {
    if v.devices.len() == 0 {
        (v, EffectView::Nothing)
    } else {
        let d = v.devices[v.selected];
        let off = covers(v.config.disabled, device_key(d), d.name@);
        (
            AppView {
                config: ConfigView {
                    disabled: with_disabled(v.config.disabled, device_key(d), d.name@, !off),
                    ..v.config
                },
                status: if off {
                    "Enabled "@ + d.name@
                } else {
                    "Disabled "@ + d.name@
                },
                ..v
            },
            EffectView::SaveConfig,
        )
    }
}

/// The hook work that switching theme sync asks for.
pub open spec fn sync_request(v: AppView) -> EffectView {
    if v.config.sync_enabled {
        EffectView::RemoveSyncHook
    } else {
        EffectView::InstallSyncHook
    }
}

/// Theme sync switched once the hook work has reported: switching it on scopes it to
/// the devices switched on now; switching it off forgets the scope.
pub open spec fn toggle_sync_view(v: AppView, res: Result<(), Seq<char>>) -> (AppView, EffectView) {
    if !v.config.sync_enabled {
        match res {
            Err(e) => (with_status(v, "Error installing hook: "@ + e), EffectView::Nothing),
            Ok(_) => {
                let keys = keys_of(enabled(v));
                (
                    AppView {
                        config: ConfigView {
                            sync_enabled: true,
                            sync_devices: keys.to_set(),
                            ..v.config
                        },
                        status: "Omarchy Sync Hook Installed for "@ + sync_scope_text(keys.len())
                            + "!"@,
                        ..v
                    },
                    EffectView::SaveConfig,
                )
            },
        }
    } else {
        match res {
            Err(e) => (with_status(v, "Error removing hook: "@ + e), EffectView::Nothing),
            Ok(_) => (
                AppView {
                    config: ConfigView {
                        sync_enabled: false,
                        sync_devices: Set::empty(),
                        ..v.config
                    },
                    status: "Omarchy Sync Hook Removed!"@,
                    ..v
                },
                EffectView::SaveConfig,
            ),
        }
    }
}

/// The autostart work that switching startup restore asks for.
pub open spec fn autostart_request(v: AppView) -> EffectView {
    if v.config.restore_on_startup {
        EffectView::RemoveAutostart
    } else {
        EffectView::InstallAutostart
    }
}

/// Startup restore switched once the autostart work has reported.
pub open spec fn toggle_restore_view(v: AppView, res: Result<(), Seq<char>>) -> (AppView, EffectView) {
    if !v.config.restore_on_startup {
        match res {
            Err(e) => (with_status(v, "Error installing autostart: "@ + e), EffectView::Nothing),
            Ok(_) => (
                AppView {
                    config: ConfigView { restore_on_startup: true, ..v.config },
                    status: "Startup restore enabled via XDG autostart."@,
                    ..v
                },
                EffectView::SaveConfig,
            ),
        }
    } else {
        match res {
            Err(e) => (with_status(v, "Error removing autostart: "@ + e), EffectView::Nothing),
            Ok(_) => (
                AppView {
                    config: ConfigView { restore_on_startup: false, ..v.config },
                    status: "Startup restore disabled."@,
                    ..v
                },
                EffectView::SaveConfig,
            ),
        }
    }
}

/// The message shown when a manual colour finds every device switched off.
pub open spec fn all_disabled_for_color() -> Seq<char> {
    "All devices are disabled. Enable at least one device before manual color."@
}

/// The message shown when off or rainbow finds every device switched off.
pub open spec fn all_disabled() -> Seq<char> {
    "All devices are disabled. Enable at least one device first."@
}

/// The colour picker opened, when there is a switched-on device to colour.
pub open spec fn picker_view(v: AppView) -> AppView {
    if v.devices.len() == 0 {
        with_status(v, "No devices to apply color to."@)
    } else if enabled(v).len() == 0 {
        with_status(v, all_disabled_for_color())
    } else {
        AppView {
            mode: AppMode::ColorPicker,
            color_index: 0,
            custom_hex: Seq::empty(),
            input_active: false,
            status: "Pick a color for all enabled devices or press 'i' to type HEX. Esc to cancel."@,
            ..v
        }
    }
}

/// A rescan asked for.
pub open spec fn rescan_view(v: AppView) -> (AppView, EffectView) {
    (with_status(v, "Rescanning OpenRGB devices..."@), EffectView::Rescan)
}

/// The position of the first device of `ds` with settings key `k`.
pub open spec fn first_key_index(ds: Seq<OpenRgbDevice>, k: Seq<char>) -> Option<int>
    decreases ds.len(),
{
    if ds.len() == 0 {
        None
    } else {
        match first_key_index(ds.drop_last(), k) {
            Some(i) => Some(i),
            None => if device_key(ds.last()) == k {
                Some(ds.len() - 1)
            } else {
                None
            },
        }
    }
}

/// The devices replaced by a fresh list; the selection follows the selected device
/// when the list still has one with its key, and goes to the first otherwise.
pub open spec fn reloaded_view(v: AppView, ds: Seq<OpenRgbDevice>) -> AppView {
    let sel = if v.devices.len() > 0 {
        match first_key_index(ds, device_key(v.devices[v.selected])) {
            Some(i) => i,
            None => 0,
        }
    } else {
        0
    };
    if ds.len() == 0 {
        AppView {
            devices: ds,
            selected: 0,
            status: "Device rescan complete, but no OpenRGB devices were found."@,
            ..v
        }
    } else {
        AppView {
            devices: ds,
            selected: sel,
            status: "Device rescan complete: "@ + decimal(ds.len()) + " device(s) found."@,
            ..v
        }
    }
}

/// A theme sync asked for, unless one is running.
pub open spec fn force_sync_view(v: AppView) -> (AppView, EffectView) {
    if !v.syncing {
        (
            AppView { syncing: true, status: "Syncing devices... please wait."@, ..v },
            EffectView::Sync,
        )
    } else {
        (v, EffectView::Nothing)
    }
}

proof fn lemma_first_key_prefix(ds: Seq<OpenRgbDevice>, k: Seq<char>, n: int)
    requires
        0 <= n <= ds.len(),
        first_key_index(ds.take(n), k) is Some,
    ensures
        first_key_index(ds, k) == first_key_index(ds.take(n), k),
    decreases ds.len() - n,
{
    if n == ds.len() {
        assert(ds.take(n) =~= ds);
    } else {
        assert(ds.take(n + 1).drop_last() =~= ds.take(n));
        lemma_first_key_prefix(ds, k, n + 1);
    }
}

proof fn lemma_first_key_bound(ds: Seq<OpenRgbDevice>, k: Seq<char>)
    ensures
        first_key_index(ds, k) matches Some(i) ==> 0 <= i < ds.len(),
    decreases ds.len(),
{
    if ds.len() > 0 {
        lemma_first_key_bound(ds.drop_last(), k);
    }
}

fn position_of_key(ds: &Vec<OpenRgbDevice>, k: &str) -> (r: Option<usize>)
    ensures
        r matches Some(i) ==> first_key_index(ds@, k@) == Some(i as int),
        r is None ==> first_key_index(ds@, k@) is None,
{
    let mut i: usize = 0;
    while i < ds.len()
        invariant
            i <= ds.len(),
            first_key_index(ds@.take(i as int), k@) is None,
        decreases ds.len() - i,
    {
        assert(ds@.take(i + 1).drop_last() =~= ds@.take(i as int));
        let key = device_profile_key(&ds[i]);
        if text_eq(key.as_str(), k) {
            proof {
                lemma_first_key_prefix(ds@, k@, i + 1);
            }
            return Some(i);
        }
        i = i + 1;
    }
    assert(ds@.take(ds.len() as int) =~= ds@);
    None
}

/// A colour asked for on every switched-on device; `custom` tells the typed colour
/// from a palette colour in the message.
pub open spec fn color_request_view(v: AppView, color: Seq<char>, custom: bool) -> (AppView, EffectView) {
    let ds = enabled(v);
    if ds.len() == 0 {
        (AppView { status: all_disabled_for_color(), mode: AppMode::Normal, ..v }, EffectView::Nothing)
    } else {
        (
            AppView {
                status: (if custom {
                    "Applying custom color #"@
                } else {
                    "Applying color #"@
                }) + color + " to all enabled devices..."@,
                pending: Some((keys_of(ds), StateView::Color(color))),
                mode: AppMode::Normal,
                ..v
            },
            EffectView::ApplyColor(ds, color),
        )
    }
}

/// The selected palette colour asked for on every switched-on device.
pub open spec fn palette_view(v: AppView) -> (AppView, EffectView) {
    if v.devices.len() == 0 {
        (v, EffectView::Nothing)
    } else {
        color_request_view(v, palette_hex(v.color_index), false)
    }
}

/// The typed colour asked for on every switched-on device, once it has six digits.
pub open spec fn custom_view(v: AppView) -> (AppView, EffectView) {
    if v.devices.len() == 0 {
        (v, EffectView::Nothing)
    } else if v.custom_hex.len() == 6 {
        color_request_view(v, v.custom_hex, true)
    } else {
        (with_status(v, "HEX code must be 6 characters!"@), EffectView::Nothing)
    }
}

/// Rainbow mode asked for on every switched-on device.
pub open spec fn rainbow_view(v: AppView) -> (AppView, EffectView) {
    let ds = enabled(v);
    if ds.len() == 0 {
        (with_status(v, all_disabled()), EffectView::Nothing)
    } else {
        (
            AppView {
                status: "Setting Rainbow mode..."@,
                pending: Some((keys_of(ds), StateView::Rainbow)),
                ..v
            },
            EffectView::Rainbow(ds),
        )
    }
}

/// Every switched-on device asked to go dark.
pub open spec fn off_view(v: AppView) -> (AppView, EffectView) {
    let ds = enabled(v);
    if ds.len() == 0 {
        (with_status(v, all_disabled()), EffectView::Nothing)
    } else {
        (
            AppView {
                status: "Turning off lights..."@,
                pending: Some((keys_of(ds), StateView::Off)),
                ..v
            },
            EffectView::TurnOff(ds),
        )
    }
}

/// A key pressed on the device list.
pub open spec fn normal_key_view(v: AppView, k: Key) -> (AppView, EffectView) {
    if k == Key::Char('q') || k == Key::Esc {
        (v, EffectView::Quit)
    } else if k == Key::Down || k == Key::Char('j') {
        (next_view(v), EffectView::Nothing)
    } else if k == Key::Up || k == Key::Char('k') {
        (previous_view(v), EffectView::Nothing)
    } else if k == Key::Enter || k == Key::Char(' ') {
        toggle_view(v)
    } else if k == Key::Char('a') {
        (v, autostart_request(v))
    } else if k == Key::Char('s') && v.omarchy {
        (v, sync_request(v))
    } else if k == Key::Char('c') {
        (picker_view(v), EffectView::Nothing)
    } else if k == Key::Char('t') && v.omarchy {
        force_sync_view(v)
    } else if k == Key::Char('R') {
        rescan_view(v)
    } else if k == Key::Char('o') {
        off_view(v)
    } else if k == Key::Char('r') {
        rainbow_view(v)
    } else {
        (v, EffectView::Nothing)
    }
}

/// A key pressed while a colour is being typed.
pub open spec fn typing_key_view(v: AppView, k: Key) -> (AppView, EffectView) {
    match k {
        Key::Esc => (AppView { input_active: false, ..v }, EffectView::Nothing),
        Key::Enter => custom_view(v),
        Key::Backspace => (
            AppView {
                custom_hex: if v.custom_hex.len() > 0 {
                    v.custom_hex.drop_last()
                } else {
                    v.custom_hex
                },
                ..v
            },
            EffectView::Nothing,
        ),
        Key::Char(c) => if hex_digit(c) && v.custom_hex.len() < 6 {
            (AppView { custom_hex: v.custom_hex.push(c), ..v }, EffectView::Nothing)
        } else {
            (v, EffectView::Nothing)
        },
        _ => (v, EffectView::Nothing),
    }
}

/// The palette selection after a move key; it stays in its row and column bounds.
pub open spec fn moved_color(i: int, k: Key) -> int {
    if k == Key::Left || k == Key::Char('h') {
        if i % 6 > 0 {
            i - 1
        } else {
            i
        }
    } else if k == Key::Right || k == Key::Char('l') {
        if i % 6 < 5 {
            i + 1
        } else {
            i
        }
    } else if k == Key::Up || k == Key::Char('k') {
        if i >= 6 {
            i - 6
        } else {
            i
        }
    } else if i + 6 < PALETTE_LEN {
        i + 6
    } else {
        i
    }
}

/// Whether a key moves the palette selection.
pub open spec fn is_move_key(k: Key) -> bool {
    ||| k == Key::Left || k == Key::Char('h')
    ||| k == Key::Right || k == Key::Char('l')
    ||| k == Key::Up || k == Key::Char('k')
    ||| k == Key::Down || k == Key::Char('j')
}

/// A key pressed on the palette.
pub open spec fn palette_key_view(v: AppView, k: Key) -> (AppView, EffectView) {
    if k == Key::Esc || k == Key::Char('q') {
        (
            AppView { mode: AppMode::Normal, status: "Color picker cancelled."@, ..v },
            EffectView::Nothing,
        )
    } else if is_move_key(k) {
        (AppView { color_index: moved_color(v.color_index, k), ..v }, EffectView::Nothing)
    } else if k == Key::Enter || k == Key::Char(' ') {
        palette_view(v)
    } else if k == Key::Char('i') {
        (AppView { input_active: true, custom_hex: Seq::empty(), ..v }, EffectView::Nothing)
    } else {
        (v, EffectView::Nothing)
    }
}

/// A key pressed anywhere.
pub open spec fn key_view(v: AppView, k: Key) -> (AppView, EffectView) {
    match v.mode {
        AppMode::Normal => normal_key_view(v, k),
        AppMode::ColorPicker => if v.input_active {
            typing_key_view(v, k)
        } else {
            palette_key_view(v, k)
        },
    }
}

/// The pending state recorded for the devices of `ok` that it names, which leave the
/// theme-synced devices.
pub open spec fn recorded_view(v: AppView, ok: Seq<Seq<char>>) -> (AppView, EffectView) {
    match v.pending {
        Some((keys, st)) => {
            let kept = kept_keys(keys, ok);
            (
                AppView {
                    config: ConfigView {
                        states: with_state_for(v.config.states, kept, st),
                        last_state: None,
                        sync_devices: v.config.sync_devices.difference(kept.to_set()),
                        ..v.config
                    },
                    pending: None,
                    ..v
                },
                EffectView::SaveConfig,
            )
        },
        None => (v, EffectView::Nothing),
    }
}

/// The message for a finished action that succeeded somewhere: `all` when nothing
/// failed, else `partial`, the count, and the failures.
pub open spec fn done_message(
    ok: Seq<Seq<char>>,
    failed: Seq<Seq<char>>,
    all: Seq<char>,
    partial: Seq<char>,
) -> Seq<char> {
    if failed.len() == 0 {
        all
    } else {
        partial + decimal(ok.len()) + " device(s); some failed: "@ + joined(failed, " | "@)
    }
}

/// A finished colour, off or rainbow action: on any success the pending state is
/// recorded; otherwise it is dropped.
pub open spec fn finished_view(
    v: AppView,
    ok: Seq<Seq<char>>,
    failed: Seq<Seq<char>>,
    all: Seq<char>,
    partial: Seq<char>,
    failure: Seq<char>,
    back_to_list: bool,
) -> (AppView, EffectView) {
    if ok.len() > 0 {
        let (w, e) = recorded_view(v, ok);
        (with_status(w, done_message(ok, failed, all, partial)), e)
    } else {
        (
            AppView {
                pending: None,
                status: failure + joined(failed, " | "@),
                mode: if back_to_list {
                    AppMode::Normal
                } else {
                    v.mode
                },
                ..v
            },
            EffectView::Nothing,
        )
    }
}

/// A finished piece of background work.
pub open spec fn event_view(v: AppView, e: EventView) -> (AppView, EffectView) {
    match e {
        EventView::DevicesReloaded(Ok(ds)) => (reloaded_view(v, ds), EffectView::Nothing),
        EventView::DevicesReloaded(Err(m)) => (
            with_status(v, "Device rescan failed: "@ + m),
            EffectView::Nothing,
        ),
        EventView::SyncComplete(Ok(_)) => (
            AppView { syncing: false, status: "Sync complete!"@, ..v },
            EffectView::ReloadTheme,
        ),
        EventView::SyncComplete(Err(m)) => (
            AppView { syncing: false, status: "Sync failed: "@ + m, ..v },
            EffectView::Nothing,
        ),
        EventView::ColorSetComplete(ok, failed) => finished_view(
            v,
            ok,
            failed,
            "Color applied successfully!"@,
            "Color applied to "@,
            "Failed to apply color: "@,
            true,
        ),
        EventView::OffComplete(ok, failed) => finished_view(
            v,
            ok,
            failed,
            "Lights turned off!"@,
            "Lights turned off on "@,
            "Failed to turn off lights: "@,
            false,
        ),
        EventView::RainbowComplete(ok, failed) => finished_view(
            v,
            ok,
            failed,
            "Rainbow mode command sent!"@,
            "Rainbow set on "@,
            "Failed to set rainbow mode: "@,
            false,
        ),
        EventView::Tick => (v, EffectView::Nothing),
    }
}

/// A device's line on the list: a checked box when it is switched on, its name, and
/// its type in brackets.
pub open spec fn device_line_text(enabled: bool, name: Seq<char>, device_type: Seq<char>) -> Seq<char> {
    " "@ + (if enabled {
        "[X]"@
    } else {
        "[ ]"@
    }) + " "@ + name + " ("@ + device_type + ")"@
}

/// A device's line on the list.
pub fn device_line(enabled: bool, device: &OpenRgbDevice) -> (r: String)
    ensures
        r@ == device_line_text(enabled, device.name@, device.device_type@),
{
    let b = if enabled {
        " [X] "
    } else {
        " [ ] "
    };
    proof {
        reveal_strlit(" [X] ");
        reveal_strlit(" [ ] ");
        reveal_strlit(" ");
        reveal_strlit("[X]");
        reveal_strlit("[ ]");
    }
    let r = String::from_str(b).concat(device.name.as_str()).concat(" (").concat(
        device.device_type.as_str(),
    ).concat(")");
    assert(r@ =~= device_line_text(enabled, device.name@, device.device_type@));
    r
}

/// The settings line that says how far theme sync reaches.
pub open spec fn sync_scope_line_text(count: nat) -> Seq<char> {
    "Sync scope locked to "@ + sync_scope_text(count)
        + ". Manual color/off/rainbow removes only affected devices, and removed devices stay out until you re-enable sync."@
}

/// The settings line that says how far theme sync reaches.
pub fn sync_scope_line(count: usize) -> (r: String)
    ensures
        r@ == sync_scope_line_text(count as nat),
{
    String::from_str("Sync scope locked to ").concat(format_sync_scope(count).as_str()).concat(
        ". Manual color/off/rainbow removes only affected devices, and removed devices stay out until you re-enable sync.",
    )
}

/// A click in the colour picker, given where its palette and its typed-colour box
/// lie: a palette cell picks its colour and applies it; the typed-colour box starts
/// typing. Clicks elsewhere, or outside the picker, do nothing.
pub open spec fn click_view(v: AppView, col: u16, row: u16, palette: Rect, input: Rect) -> (
    AppView,
    EffectView,
) {
    if v.mode != AppMode::ColorPicker {
        (v, EffectView::Nothing)
    } else {
        match palette_hit(palette, col, row) {
            Some(i) => palette_view(AppView { color_index: i, input_active: false, ..v }),
            None => if fits_u16(input) && inside(input, col, row) {
                (AppView { input_active: true, custom_hex: Seq::empty(), ..v }, EffectView::Nothing)
            } else {
                (v, EffectView::Nothing)
            },
        }
    }
}

impl App {
    /// The screen as it opens, with the settings, the devices found, whether the
    /// Omarchy theme tools are present, and the theme colour that was read.
    pub fn new(
        config: AppConfig,
        devices: Vec<OpenRgbDevice>,
        is_omarchy: bool,
        theme: Result<String, String>,
    ) -> (r: App)
        ensures
            view_ok(r@),
            r@.config == config@,
            r@.devices == devices@,
            r@.selected == 0,
            r@.status == welcome(is_omarchy),
            r@.theme_color == (match theme {
                Ok(c) => c@,
                Err(_) => fallback_theme_color(),
            }),
            !r@.syncing,
            r@.mode == AppMode::Normal,
            r@.color_index == 0,
            r@.custom_hex == Seq::<char>::empty(),
            !r@.input_active,
            r@.omarchy == is_omarchy,
            r@.pending is None,
    {
        let status_msg = if is_omarchy {
            String::from_str(
                "Press 'a' toggle startup restore for the whole remembered setup, 's' toggle Sync, 'Enter'/'Space' toggle Device, 'c' set color for all enabled, 't' Force sync all enabled, 'R' rescan, 'r' rainbow, 'o' off, 'q' quit.",
            )
        } else {
            String::from_str(
                "Press 'a' toggle startup restore for the whole remembered setup, 'Enter'/'Space' toggle Device, 'c' set color for all enabled, 'R' rescan, 'r' rainbow, 'o' off, 'q' quit.",
            )
        };
        let theme_color = match theme {
            Ok(c) => c,
            Err(_) => String::from_str("7aa2f7"),
        };
        App {
            config,
            devices,
            selected_index: 0,
            status_msg,
            theme_color,
            is_syncing: false,
            mode: AppMode::Normal,
            selected_color_index: 0,
            custom_hex_input: String::new(),
            input_active: false,
            is_omarchy,
            pending_state_update: None,
        }
    }

    fn set_status(&mut self, s: String)
        ensures
            final(self)@ == with_status(old(self)@, s@),
    {
        self.status_msg = s;
    }

    /// Moves the selection one device down, wrapping to the first.
    pub fn next(&mut self)
        requires
            view_ok(old(self)@),
        ensures
            view_ok(final(self)@),
            final(self)@ == next_view(old(self)@),
    {
        if self.devices.len() > 0 {
            self.selected_index = (self.selected_index + 1) % self.devices.len();
        }
    }

    /// Moves the selection one device up, wrapping to the last.
    pub fn previous(&mut self)
        requires
            view_ok(old(self)@),
        ensures
            view_ok(final(self)@),
            final(self)@ == previous_view(old(self)@),
    {
        if self.devices.len() > 0 {
            if self.selected_index > 0 {
                self.selected_index = self.selected_index - 1;
            } else {
                self.selected_index = self.devices.len() - 1;
            }
        }
    }

    /// Whether any device is switched on.
    pub fn has_enabled_devices(&self) -> (b: bool)
        ensures
            b == (enabled(self@).len() > 0),
    {
        let ds = self.enabled_devices();
        ds.len() > 0
    }

    /// The devices that are switched on, in their order.
    pub fn enabled_devices(&self) -> (r: Vec<OpenRgbDevice>)
        ensures
            r@ == enabled(self@),
    {
        let mut r: Vec<OpenRgbDevice> = Vec::new();
        let mut i: usize = 0;
        while i < self.devices.len()
            invariant
                i <= self.devices.len(),
                r@ == enabled_of(self.config.disabled_devices@, self.devices@.take(i as int)),
            decreases self.devices.len() - i,
        {
            assert(self.devices@.take(i + 1).drop_last() =~= self.devices@.take(i as int));
            let d = &self.devices[i];
            let key = device_profile_key(d);
            if !self.config.is_device_disabled(key.as_str(), d.name.as_str()) {
                r.push(d.clone());
            }
            i = i + 1;
        }
        assert(self.devices@.take(self.devices.len() as int) =~= self.devices@);
        r
    }

    /// The settings keys of the devices that are switched on.
    pub fn enabled_device_keys(&self) -> (r: Vec<String>)
        ensures
            texts(r@) == keys_of(enabled(self@)),
    {
        let ds = self.enabled_devices();
        let mut r: Vec<String> = Vec::new();
        let mut i: usize = 0;
        while i < ds.len()
            invariant
                i <= ds.len(),
                texts(r@) == keys_of(ds@.take(i as int)),
            decreases ds.len() - i,
        {
            let ghost before = r@;
            r.push(device_profile_key(&ds[i]));
            assert(texts(r@) =~= texts(before).push(device_key(ds@[i as int])));
            assert(keys_of(ds@.take(i + 1)) =~= keys_of(ds@.take(i as int)).push(
                device_key(ds@[i as int]),
            ));
            i = i + 1;
        }
        assert(ds@.take(ds.len() as int) =~= ds@);
        r
    }

    /// Switches the selected device on or off and says which.
    pub fn toggle_current(&mut self) -> (r: Effect)
        requires
            view_ok(old(self)@),
        ensures
            view_ok(final(self)@),
            final(self)@ == toggle_view(old(self)@).0,
            r@ == toggle_view(old(self)@).1,
    {
        if self.devices.len() == 0 {
            return Effect::Nothing;
        }
        let device = self.devices[self.selected_index].clone();
        let key = device_profile_key(&device);
        if self.config.is_device_disabled(key.as_str(), device.name.as_str()) {
            self.config.set_device_disabled(key.as_str(), device.name.as_str(), false);
            self.set_status(String::from_str("Enabled ").concat(device.name.as_str()));
        } else {
            self.config.set_device_disabled(key.as_str(), device.name.as_str(), true);
            self.set_status(String::from_str("Disabled ").concat(device.name.as_str()));
        }
        assert(self@.config =~= toggle_view(old(self)@).0.config);
        Effect::SaveConfig
    }

    /// Whether theme sync is on.
    pub fn sync_enabled(&self) -> (b: bool)
        ensures
            b == self@.config.sync_enabled,
    {
        self.config.omarchy_sync_enabled
    }

    /// Whether startup restore is on.
    pub fn restore_on_startup(&self) -> (b: bool)
        ensures
            b == self@.config.restore_on_startup,
    {
        self.config.restore_on_startup
    }

    /// Switches theme sync once the hook work that `sync_request` asked for has
    /// reported.
    pub fn toggle_sync(&mut self, hook_result: Result<(), String>) -> (r: Effect)
        requires
            view_ok(old(self)@),
        ensures
            view_ok(final(self)@),
            final(self)@ == toggle_sync_view(old(self)@, result_view(hook_result)).0,
            r@ == toggle_sync_view(old(self)@, result_view(hook_result)).1,
    {
        if !self.config.omarchy_sync_enabled {
            match hook_result {
                Err(e) => {
                    self.set_status(String::from_str("Error installing hook: ").concat(e.as_str()));
                    Effect::Nothing
                },
                Ok(()) => {
                    let sync_devices = self.enabled_device_keys();
                    self.config.omarchy_sync_enabled = true;
                    self.config.set_omarchy_sync_devices(sync_devices.as_slice());
                    let msg = String::from_str("Omarchy Sync Hook Installed for ").concat(
                        format_sync_scope(sync_devices.len()).as_str(),
                    ).concat("!");
                    self.set_status(msg);
                    assert(self@.config =~= toggle_sync_view(old(self)@, result_view(hook_result)).0.config);
                    Effect::SaveConfig
                },
            }
        } else {
            match hook_result {
                Err(e) => {
                    self.set_status(String::from_str("Error removing hook: ").concat(e.as_str()));
                    Effect::Nothing
                },
                Ok(()) => {
                    self.config.omarchy_sync_enabled = false;
                    self.config.omarchy_sync_devices.clear();
                    self.set_status(String::from_str("Omarchy Sync Hook Removed!"));
                    assert(self@.config =~= toggle_sync_view(old(self)@, result_view(hook_result)).0.config);
                    Effect::SaveConfig
                },
            }
        }
    }

    /// Switches startup restore once the autostart work that `autostart_request`
    /// asked for has reported.
    pub fn toggle_restore_on_startup(&mut self, autostart_result: Result<(), String>) -> (r: Effect)
        requires
            view_ok(old(self)@),
        ensures
            view_ok(final(self)@),
            final(self)@ == toggle_restore_view(old(self)@, result_view(autostart_result)).0,
            r@ == toggle_restore_view(old(self)@, result_view(autostart_result)).1,
    {
        if !self.config.restore_on_startup {
            match autostart_result {
                Err(e) => {
                    self.set_status(String::from_str("Error installing autostart: ").concat(e.as_str()));
                    Effect::Nothing
                },
                Ok(()) => {
                    self.config.restore_on_startup = true;
                    self.set_status(String::from_str("Startup restore enabled via XDG autostart."));
                    Effect::SaveConfig
                },
            }
        } else {
            match autostart_result {
                Err(e) => {
                    self.set_status(String::from_str("Error removing autostart: ").concat(e.as_str()));
                    Effect::Nothing
                },
                Ok(()) => {
                    self.config.restore_on_startup = false;
                    self.set_status(String::from_str("Startup restore disabled."));
                    Effect::SaveConfig
                },
            }
        }
    }

    /// Opens the colour picker when there is a switched-on device to colour.
    pub fn open_color_picker(&mut self)
        requires
            view_ok(old(self)@),
        ensures
            view_ok(final(self)@),
            final(self)@ == picker_view(old(self)@),
    {
        if self.devices.len() == 0 {
            self.set_status(String::from_str("No devices to apply color to."));
            return;
        }
        if !self.has_enabled_devices() {
            self.set_status(
                String::from_str(
                    "All devices are disabled. Enable at least one device before manual color.",
                ),
            );
            return;
        }
        self.mode = AppMode::ColorPicker;
        self.selected_color_index = 0;
        self.custom_hex_input = String::new();
        self.input_active = false;
        self.set_status(
            String::from_str(
                "Pick a color for all enabled devices or press 'i' to type HEX. Esc to cancel.",
            ),
        );
    }

    /// Asks for the devices to be listed again.
    pub fn reload_devices(&mut self) -> (r: Effect)
        requires
            view_ok(old(self)@),
        ensures
            view_ok(final(self)@),
            final(self)@ == rescan_view(old(self)@).0,
            r@ == rescan_view(old(self)@).1,
    {
        self.set_status(String::from_str("Rescanning OpenRGB devices..."));
        Effect::Rescan
    }

    /// Takes a fresh device list; the selection follows the selected device.
    pub fn finish_reload_devices(&mut self, devices: Vec<OpenRgbDevice>)
        requires
            view_ok(old(self)@),
        ensures
            view_ok(final(self)@),
            final(self)@ == reloaded_view(old(self)@, devices@),
    {
        let mut sel: usize = 0;
        if self.selected_index < self.devices.len() {
            let previous_key = device_profile_key(&self.devices[self.selected_index]);
            match position_of_key(&devices, previous_key.as_str()) {
                Some(i) => {
                    sel = i;
                },
                None => {},
            }
        }
        proof {
            if self.devices.len() > 0 {
                lemma_first_key_bound(devices@, device_key(self.devices@[self.selected_index as int]));
            }
        }
        self.devices = devices;
        if self.devices.len() == 0 {
            self.selected_index = 0;
            self.set_status(
                String::from_str("Device rescan complete, but no OpenRGB devices were found."),
            );
        } else {
            self.selected_index = sel;
            let msg = String::from_str("Device rescan complete: ").concat(
                decimal_string_usize(self.devices.len()).as_str(),
            ).concat(" device(s) found.");
            self.set_status(msg);
        }
    }

    /// Asks for a theme sync, unless one is running.
    pub fn force_sync(&mut self) -> (r: Effect)
        requires
            view_ok(old(self)@),
        ensures
            view_ok(final(self)@),
            final(self)@ == force_sync_view(old(self)@).0,
            r@ == force_sync_view(old(self)@).1,
    {
        if !self.is_syncing {
            self.is_syncing = true;
            self.set_status(String::from_str("Syncing devices... please wait."));
            Effect::Sync
        } else {
            Effect::Nothing
        }
    }

    /// Asks for `color` on every switched-on device and remembers what to record
    /// when the work reports back.
    fn request_color(&mut self, color: String, custom: bool) -> (r: Effect)
        requires
            view_ok(old(self)@),
        ensures
            view_ok(final(self)@),
            final(self)@ == color_request_view(old(self)@, color@, custom).0,
            r@ == color_request_view(old(self)@, color@, custom).1,
    {
        let devices = self.enabled_devices();
        if devices.len() == 0 {
            self.set_status(
                String::from_str(
                    "All devices are disabled. Enable at least one device before manual color.",
                ),
            );
            self.mode = AppMode::Normal;
            return Effect::Nothing;
        }
        let lead = if custom {
            String::from_str("Applying custom color #")
        } else {
            String::from_str("Applying color #")
        };
        self.set_status(lead.concat(color.as_str()).concat(" to all enabled devices..."));
        let device_keys = self.enabled_device_keys();
        self.pending_state_update = Some(
            PendingStateUpdate { device_keys, state: SavedState::Color { hex: color.clone() } },
        );
        self.mode = AppMode::Normal;
        Effect::ApplyColor { devices, color }
    }

    /// Asks for the selected palette colour on every switched-on device.
    pub fn apply_palette_color(&mut self) -> (r: Effect)
        requires
            view_ok(old(self)@),
        ensures
            view_ok(final(self)@),
            final(self)@ == palette_view(old(self)@).0,
            r@ == palette_view(old(self)@).1,
    {
        if self.devices.len() == 0 {
            return Effect::Nothing;
        }
        let color = String::from_str(palette_color(self.selected_color_index));
        self.request_color(color, false)
    }

    /// Asks for the typed colour on every switched-on device, once it has six digits.
    pub fn apply_custom_color(&mut self) -> (r: Effect)
        requires
            view_ok(old(self)@),
        ensures
            view_ok(final(self)@),
            final(self)@ == custom_view(old(self)@).0,
            r@ == custom_view(old(self)@).1,
    {
        if self.devices.len() == 0 {
            return Effect::Nothing;
        }
        if chars_of(self.custom_hex_input.as_str()).len() == 6 {
            let color = self.custom_hex_input.clone();
            self.request_color(color, true)
        } else {
            self.set_status(String::from_str("HEX code must be 6 characters!"));
            Effect::Nothing
        }
    }

    /// Asks for rainbow mode on every switched-on device.
    pub fn force_rainbow(&mut self) -> (r: Effect)
        requires
            view_ok(old(self)@),
        ensures
            view_ok(final(self)@),
            final(self)@ == rainbow_view(old(self)@).0,
            r@ == rainbow_view(old(self)@).1,
    {
        let devices = self.enabled_devices();
        if devices.len() == 0 {
            self.set_status(
                String::from_str("All devices are disabled. Enable at least one device first."),
            );
            return Effect::Nothing;
        }
        self.set_status(String::from_str("Setting Rainbow mode..."));
        let device_keys = self.enabled_device_keys();
        self.pending_state_update = Some(
            PendingStateUpdate { device_keys, state: SavedState::Rainbow },
        );
        Effect::Rainbow { devices }
    }

    /// Asks for every switched-on device to go dark.
    pub fn force_off(&mut self) -> (r: Effect)
        requires
            view_ok(old(self)@),
        ensures
            view_ok(final(self)@),
            final(self)@ == off_view(old(self)@).0,
            r@ == off_view(old(self)@).1,
    {
        let devices = self.enabled_devices();
        if devices.len() == 0 {
            self.set_status(
                String::from_str("All devices are disabled. Enable at least one device first."),
            );
            return Effect::Nothing;
        }
        self.set_status(String::from_str("Turning off lights..."));
        let device_keys = self.enabled_device_keys();
        self.pending_state_update = Some(PendingStateUpdate { device_keys, state: SavedState::Off });
        Effect::TurnOff { devices }
    }

    fn normal_key(&mut self, key: Key) -> (r: Effect)
        requires
            view_ok(old(self)@),
        ensures
            view_ok(final(self)@),
            final(self)@ == normal_key_view(old(self)@, key).0,
            r@ == normal_key_view(old(self)@, key).1,
    {
        if key == Key::Char('q') || key == Key::Esc {
            Effect::Quit
        } else if key == Key::Down || key == Key::Char('j') {
            self.next();
            Effect::Nothing
        } else if key == Key::Up || key == Key::Char('k') {
            self.previous();
            Effect::Nothing
        } else if key == Key::Enter || key == Key::Char(' ') {
            self.toggle_current()
        } else if key == Key::Char('a') {
            if self.config.restore_on_startup {
                Effect::RemoveAutostart
            } else {
                Effect::InstallAutostart
            }
        } else if key == Key::Char('s') && self.is_omarchy {
            if self.config.omarchy_sync_enabled {
                Effect::RemoveSyncHook
            } else {
                Effect::InstallSyncHook
            }
        } else if key == Key::Char('c') {
            self.open_color_picker();
            Effect::Nothing
        } else if key == Key::Char('t') && self.is_omarchy {
            self.force_sync()
        } else if key == Key::Char('R') {
            self.reload_devices()
        } else if key == Key::Char('o') {
            self.force_off()
        } else if key == Key::Char('r') {
            self.force_rainbow()
        } else {
            Effect::Nothing
        }
    }

    fn typing_key(&mut self, key: Key) -> (r: Effect)
        requires
            view_ok(old(self)@),
        ensures
            view_ok(final(self)@),
            final(self)@ == typing_key_view(old(self)@, key).0,
            r@ == typing_key_view(old(self)@, key).1,
    {
        match key {
            Key::Esc => {
                self.input_active = false;
                Effect::Nothing
            },
            Key::Enter => self.apply_custom_color(),
            Key::Backspace => {
                let mut cs = chars_of(self.custom_hex_input.as_str());
                if cs.len() > 0 {
                    cs.pop();
                }
                self.custom_hex_input = string_of(cs.as_slice());
                Effect::Nothing
            },
            Key::Char(c) => {
                let mut cs = chars_of(self.custom_hex_input.as_str());
                if is_hex_digit(c) && cs.len() < 6 {
                    cs.push(c);
                    self.custom_hex_input = string_of(cs.as_slice());
                }
                Effect::Nothing
            },
            _ => Effect::Nothing,
        }
    }

    fn palette_key(&mut self, key: Key) -> (r: Effect)
        requires
            view_ok(old(self)@),
        ensures
            view_ok(final(self)@),
            final(self)@ == palette_key_view(old(self)@, key).0,
            r@ == palette_key_view(old(self)@, key).1,
    {
        let i = self.selected_color_index;
        if key == Key::Esc || key == Key::Char('q') {
            self.mode = AppMode::Normal;
            self.set_status(String::from_str("Color picker cancelled."));
            Effect::Nothing
        } else if key == Key::Left || key == Key::Char('h') {
            if i % 6 > 0 {
                self.selected_color_index = i - 1;
            }
            Effect::Nothing
        } else if key == Key::Right || key == Key::Char('l') {
            if i % 6 < 5 {
                self.selected_color_index = i + 1;
            }
            Effect::Nothing
        } else if key == Key::Up || key == Key::Char('k') {
            if i >= 6 {
                self.selected_color_index = i - 6;
            }
            Effect::Nothing
        } else if key == Key::Down || key == Key::Char('j') {
            if i + 6 < PALETTE_LEN {
                self.selected_color_index = i + 6;
            }
            Effect::Nothing
        } else if key == Key::Enter || key == Key::Char(' ') {
            self.apply_palette_color()
        } else if key == Key::Char('i') {
            self.input_active = true;
            self.custom_hex_input = String::new();
            Effect::Nothing
        } else {
            Effect::Nothing
        }
    }

    /// Handles a key press and says what the caller is to do next.
    pub fn handle_key(&mut self, key: Key) -> (r: Effect)
        requires
            view_ok(old(self)@),
        ensures
            view_ok(final(self)@),
            final(self)@ == key_view(old(self)@, key).0,
            r@ == key_view(old(self)@, key).1,
    {
        match self.mode {
            AppMode::Normal => self.normal_key(key),
            AppMode::ColorPicker => if self.input_active {
                self.typing_key(key)
            } else {
                self.palette_key(key)
            },
        }
    }

    fn record_pending(&mut self, ok: &Vec<String>) -> (r: Effect)
        requires
            view_ok(old(self)@),
        ensures
            view_ok(final(self)@),
            final(self)@ == recorded_view(old(self)@, texts(ok@)).0,
            r@ == recorded_view(old(self)@, texts(ok@)).1,
    {
        let mut pending: Option<PendingStateUpdate> = None;
        std::mem::swap(&mut pending, &mut self.pending_state_update);
        match pending {
            Some(update) => {
                let successful_keys = filter_device_keys(update.device_keys.as_slice(), ok.as_slice());
                let ghost states = self.config.saved_device_states@;
                proof {
                    lemma_state_views(states, texts(successful_keys@), update.state);
                }
                self.config.set_saved_state_for_devices(successful_keys.as_slice(), update.state);
                self.config.remove_omarchy_sync_devices(successful_keys.as_slice());
                assert(self@.config =~= recorded_view(old(self)@, texts(ok@)).0.config);
                Effect::SaveConfig
            },
            None => Effect::Nothing,
        }
    }

    fn finish_action(
        &mut self,
        summary: DeviceActionSummary,
        all: &str,
        partial: &str,
        failure: &str,
        back_to_list: bool,
    ) -> (r: Effect)
        requires
            view_ok(old(self)@),
        ensures
            view_ok(final(self)@),
            final(self)@ == finished_view(
                old(self)@,
                texts(summary.succeeded_keys@),
                texts(summary.failed_devices@),
                all@,
                partial@,
                failure@,
                back_to_list,
            ).0,
            r@ == finished_view(
                old(self)@,
                texts(summary.succeeded_keys@),
                texts(summary.failed_devices@),
                all@,
                partial@,
                failure@,
                back_to_list,
            ).1,
    {
        let failures = join_texts(summary.failed_devices.as_slice(), " | ");
        if summary.is_any_success() {
            let e = self.record_pending(&summary.succeeded_keys);
            let msg = if summary.failed_devices.len() == 0 {
                String::from_str(all)
            } else {
                String::from_str(partial).concat(
                    decimal_string_usize(summary.succeeded_keys.len()).as_str(),
                ).concat(" device(s); some failed: ").concat(failures.as_str())
            };
            self.set_status(msg);
            e
        } else {
            self.pending_state_update = None;
            self.set_status(String::from_str(failure).concat(failures.as_str()));
            if back_to_list {
                self.mode = AppMode::Normal;
            }
            Effect::Nothing
        }
    }

    /// Takes the report of a finished piece of background work and says what the
    /// caller is to do next.
    pub fn handle_event(&mut self, event: AppEvent) -> (r: Effect)
        requires
            view_ok(old(self)@),
        ensures
            view_ok(final(self)@),
            final(self)@ == event_view(old(self)@, event@).0,
            r@ == event_view(old(self)@, event@).1,
    {
        match event {
            AppEvent::DevicesReloaded(Ok(devices)) => {
                self.finish_reload_devices(devices);
                Effect::Nothing
            },
            AppEvent::DevicesReloaded(Err(e)) => {
                self.set_status(String::from_str("Device rescan failed: ").concat(e.as_str()));
                Effect::Nothing
            },
            AppEvent::SyncComplete(Ok(())) => {
                self.is_syncing = false;
                self.set_status(String::from_str("Sync complete!"));
                Effect::ReloadTheme
            },
            AppEvent::SyncComplete(Err(e)) => {
                self.is_syncing = false;
                self.set_status(String::from_str("Sync failed: ").concat(e.as_str()));
                Effect::Nothing
            },
            AppEvent::ColorSetComplete(summary) => self.finish_action(
                summary,
                "Color applied successfully!",
                "Color applied to ",
                "Failed to apply color: ",
                true,
            ),
            AppEvent::OffComplete(summary) => self.finish_action(
                summary,
                "Lights turned off!",
                "Lights turned off on ",
                "Failed to turn off lights: ",
                false,
            ),
            AppEvent::RainbowComplete(summary) => self.finish_action(
                summary,
                "Rainbow mode command sent!",
                "Rainbow set on ",
                "Failed to set rainbow mode: ",
                false,
            ),
            AppEvent::Tick => Effect::Nothing,
        }
    }

    /// Takes the theme colour read again after a sync; a failed read keeps the old one.
    pub fn theme_loaded(&mut self, theme: Result<String, String>)
        requires
            view_ok(old(self)@),
        ensures
            view_ok(final(self)@),
            final(self)@ == (match theme {
                Ok(c) => AppView { theme_color: c@, ..old(self)@ },
                Err(_) => old(self)@,
            }),
    {
        match theme {
            Ok(c) => {
                self.theme_color = c;
            },
            Err(_) => {},
        }
    }

    /// Handles a left click at column `col`, row `row`, given where the colour
    /// picker's palette and typed-colour box lie (`picker_click_areas`).
    pub fn handle_mouse_click(&mut self, col: u16, row: u16, palette_area: Rect, input_area: Rect) -> (r: Effect)
        requires
            view_ok(old(self)@),
        ensures
            view_ok(final(self)@),
            final(self)@ == click_view(old(self)@, col, row, palette_area, input_area).0,
            r@ == click_view(old(self)@, col, row, palette_area, input_area).1,
    {
        if self.mode != AppMode::ColorPicker {
            return Effect::Nothing;
        }
        match find_palette_hit(palette_area, col, row) {
            Some(i) => {
                self.selected_color_index = i;
                self.input_active = false;
                return self.apply_palette_color();
            },
            None => {},
        }
        let input = input_area;
        if input.x <= u16::MAX - input.width && input.y <= u16::MAX - input.height && is_inside(
            input,
            col,
            row,
        ) {
            self.input_active = true;
            self.custom_hex_input = String::new();
        }
        Effect::Nothing
    }

    /// The status line.
    pub fn status_message(&self) -> (r: &str)
        ensures
            r@ == self@.status,
    {
        self.status_msg.as_str()
    }

    /// The position of the selected device.
    pub fn selected_index(&self) -> (r: usize)
        ensures
            r == self@.selected,
    {
        self.selected_index
    }

    /// The devices on the list.
    pub fn devices(&self) -> (r: &Vec<OpenRgbDevice>)
        ensures
            r@ == self@.devices,
    {
        &self.devices
    }

    /// The settings.
    pub fn config(&self) -> (r: &AppConfig)
        ensures
            r@ == self@.config,
    {
        &self.config
    }

    /// Whether a device is switched on under the settings.
    pub fn is_device_enabled(&self, device: &OpenRgbDevice) -> (b: bool)
        ensures
            b == is_enabled(self@.config.disabled, *device),
    {
        let key = device_profile_key(device);
        !self.config.is_device_disabled(key.as_str(), device.name.as_str())
    }

    /// The theme colour.
    pub fn theme_color(&self) -> (r: &str)
        ensures
            r@ == self@.theme_color,
    {
        self.theme_color.as_str()
    }

    /// Which screen has the keyboard.
    pub fn mode(&self) -> (r: AppMode)
        ensures
            r == self@.mode,
    {
        self.mode
    }

    /// The position of the selected palette colour.
    pub fn selected_color_index(&self) -> (r: usize)
        ensures
            r == self@.color_index,
    {
        self.selected_color_index
    }

    /// The colour typed so far.
    pub fn custom_hex_input(&self) -> (r: &str)
        ensures
            r@ == self@.custom_hex,
    {
        self.custom_hex_input.as_str()
    }

    /// Whether a colour is being typed.
    pub fn input_active(&self) -> (b: bool)
        ensures
            b == self@.input_active,
    {
        self.input_active
    }

    /// Whether the Omarchy theme tools are present.
    pub fn is_omarchy(&self) -> (b: bool)
        ensures
            b == self@.omarchy,
    {
        self.is_omarchy
    }

    /// Whether a theme sync is running.
    pub fn is_syncing(&self) -> (b: bool)
        ensures
            b == self@.syncing,
    {
        self.is_syncing
    }
}

/// Every device that `enabled_of` keeps is switched on, and it keeps every
/// switched-on device.
proof fn lemma_enabled_of(disabled: Set<Seq<char>>, ds: Seq<OpenRgbDevice>)
    ensures
        forall|i: int|
            0 <= i < enabled_of(disabled, ds).len() ==> is_enabled(
                disabled,
                #[trigger] enabled_of(disabled, ds)[i],
            ) && ds.contains(enabled_of(disabled, ds)[i]),
        forall|d: OpenRgbDevice| ds.contains(d) && is_enabled(disabled, d) ==> #[trigger] enabled_of(
            disabled,
            ds,
        ).contains(d),
    decreases ds.len(),
{
    if ds.len() > 0 {
        let rest = ds.drop_last();
        lemma_enabled_of(disabled, rest);
        if is_enabled(disabled, ds.last()) {
            assert(enabled_of(disabled, ds) == enabled_of(disabled, rest).push(ds.last()));
        } else {
            assert(enabled_of(disabled, ds) == enabled_of(disabled, rest));
        }
        assert forall|i: int| 0 <= i < enabled_of(disabled, ds).len() implies is_enabled(
            disabled,
            #[trigger] enabled_of(disabled, ds)[i],
        ) && ds.contains(enabled_of(disabled, ds)[i]) by {
            let e = enabled_of(disabled, ds)[i];
            if i < enabled_of(disabled, rest).len() {
                assert(e == enabled_of(disabled, rest)[i]);
                let j = choose|j: int| 0 <= j < rest.len() && rest[j] == e;
                assert(ds[j] == e);
            } else {
                assert(e == ds.last());
                assert(ds[ds.len() - 1] == e);
            }
        }
        assert forall|d: OpenRgbDevice| ds.contains(d) && is_enabled(disabled, d) implies #[trigger] enabled_of(
            disabled,
            ds,
        ).contains(d) by {
            let j = choose|j: int| 0 <= j < ds.len() && ds[j] == d;
            if j < ds.len() - 1 {
                assert(rest[j] == d);
                assert(rest.contains(d));
                assert(enabled_of(disabled, rest).contains(d));
                let k = choose|k: int| 0 <= k < enabled_of(disabled, rest).len() && enabled_of(disabled, rest)[k] == d;
                assert(enabled_of(disabled, ds)[k] == d);
            } else {
                assert(d == ds.last());
                let n = enabled_of(disabled, rest).len() as int;
                assert(enabled_of(disabled, ds)[n] == d);
            }
        }
    }
}

/// The devices that a key asks to colour, switch off or put in rainbow mode are
/// exactly the switched-on devices of the list, in their order: a switched-off
/// device is never touched.
pub proof fn law_actions_touch_only_enabled_devices(v: AppView, k: Key)
    ensures
        ({
            let e = key_view(v, k).1;
            &&& e matches EffectView::ApplyColor(ds, _) ==> ds == enabled(v)
            &&& e matches EffectView::TurnOff(ds) ==> ds == enabled(v)
            &&& e matches EffectView::Rainbow(ds) ==> ds == enabled(v)
        }),
        forall|i: int|
            0 <= i < enabled(v).len() ==> is_enabled(v.config.disabled, #[trigger] enabled(v)[i])
                && v.devices.contains(enabled(v)[i]),
        forall|d: OpenRgbDevice|
            v.devices.contains(d) && is_enabled(v.config.disabled, d) ==> #[trigger] enabled(
                v,
            ).contains(d),
{
    lemma_enabled_of(v.config.disabled, v.devices);
}

/// The same holds of a click in the colour picker.
pub proof fn law_clicks_touch_only_enabled_devices(v: AppView, col: u16, row: u16, palette: Rect, input: Rect)
    ensures
        click_view(v, col, row, palette, input).1 matches EffectView::ApplyColor(ds, _) ==> ds == enabled(v),
{
}

/// The keys of `kept_keys(requested, succeeded)` are those both requested and succeeded.
pub proof fn law_kept_keys(requested: Seq<Seq<char>>, succeeded: Seq<Seq<char>>, k: Seq<char>)
    ensures
        kept_keys(requested, succeeded).contains(k) <==> requested.contains(k) && succeeded.contains(k),
    decreases requested.len(),
{
    if requested.len() > 0 {
        let rest = requested.drop_last();
        law_kept_keys(rest, succeeded, k);
        if kept_keys(requested, succeeded).contains(k) {
            let i = choose|i: int| 0 <= i < kept_keys(requested, succeeded).len() && kept_keys(requested, succeeded)[i] == k;
            if i < kept_keys(rest, succeeded).len() {
                assert(kept_keys(rest, succeeded)[i] == k);
                let j = choose|j: int| 0 <= j < rest.len() && rest[j] == k;
                assert(requested[j] == k);
            } else {
                assert(requested[requested.len() - 1] == k);
            }
        }
        if requested.contains(k) && succeeded.contains(k) {
            let j = choose|j: int| 0 <= j < requested.len() && requested[j] == k;
            if j < requested.len() - 1 {
                assert(rest[j] == k);
                let i = choose|i: int| 0 <= i < kept_keys(rest, succeeded).len() && kept_keys(rest, succeeded)[i] == k;
                assert(kept_keys(requested, succeeded)[i] == k);
            } else {
                let n = kept_keys(rest, succeeded).len() as int;
                assert(kept_keys(requested, succeeded)[n] == k);
            }
        }
    }
}

/// When a colour, off or rainbow action reports back, a device's remembered state
/// and its place in the theme-synced devices change only when the action asked for it
/// and succeeded on it; then it remembers what was asked and leaves the synced devices.
pub proof fn law_only_successes_are_recorded(
    v: AppView,
    ok: Seq<Seq<char>>,
    failed: Seq<Seq<char>>,
    all: Seq<char>,
    partial: Seq<char>,
    failure: Seq<char>,
    back_to_list: bool,
    k: Seq<char>,
)
    ensures
        ({
            let w = finished_view(v, ok, failed, all, partial, failure, back_to_list).0;
            match v.pending {
                Some((keys, st)) => if ok.len() > 0 && keys.contains(k) && ok.contains(k) {
                    &&& w.config.states.contains_key(k)
                    &&& w.config.states[k] == st
                    &&& !w.config.sync_devices.contains(k)
                } else {
                    &&& w.config.states.contains_key(k) == v.config.states.contains_key(k)
                    &&& v.config.states.contains_key(k) ==> w.config.states[k] == v.config.states[k]
                    &&& w.config.sync_devices.contains(k) == v.config.sync_devices.contains(k)
                },
                None => w.config == v.config,
            }
        }),
        finished_view(v, ok, failed, all, partial, failure, back_to_list).0.pending is None,
{
    match v.pending {
        Some((keys, st)) => {
            law_kept_keys(keys, ok, k);
        },
        None => {},
    }
}

/// Switching the selected device twice leaves it as it was, on or off.
pub proof fn law_toggle_twice(v: AppView)
    requires
        view_ok(v),
        v.devices.len() > 0,
    ensures
        ({
            let d = v.devices[v.selected];
            let w = toggle_view(toggle_view(v).0).0;
            &&& w.devices == v.devices
            &&& w.selected == v.selected
            &&& is_enabled(w.config.disabled, d) == is_enabled(v.config.disabled, d)
        }),
{
}

proof fn lemma_first_key_found(ds: Seq<OpenRgbDevice>, k: Seq<char>, i: int)
    requires
        0 <= i < ds.len(),
        device_key(ds[i]) == k,
    ensures
        first_key_index(ds, k) matches Some(j) && 0 <= j <= i && device_key(ds[j]) == k,
    decreases ds.len(),
{
    if i < ds.len() - 1 {
        lemma_first_key_found(ds.drop_last(), k, i);
    } else {
        let rest = ds.drop_last();
        if first_key_index(rest, k) is Some {
            lemma_first_key_match(rest, k);
        }
    }
}

proof fn lemma_first_key_match(ds: Seq<OpenRgbDevice>, k: Seq<char>)
    ensures
        first_key_index(ds, k) matches Some(j) ==> 0 <= j < ds.len() && device_key(ds[j]) == k,
    decreases ds.len(),
{
    if ds.len() > 0 {
        lemma_first_key_match(ds.drop_last(), k);
    }
}

/// A rescan keeps the selection on the device that was selected: when the fresh list
/// holds a device with its settings key, the selected device afterwards has that key.
pub proof fn law_rescan_keeps_selection(v: AppView, ds: Seq<OpenRgbDevice>, i: int)
    requires
        view_ok(v),
        v.devices.len() > 0,
        0 <= i < ds.len(),
        device_key(ds[i]) == device_key(v.devices[v.selected]),
    ensures
        ({
            let w = reloaded_view(v, ds);
            &&& view_ok(w)
            &&& device_key(w.devices[w.selected]) == device_key(v.devices[v.selected])
        }),
{
    lemma_first_key_found(ds, device_key(v.devices[v.selected]), i);
    lemma_first_key_bound(ds, device_key(v.devices[v.selected]));
}

} // verus!
