//! The persisted settings: which devices are switched off, which follow the theme,
//! and the lighting state remembered for each device.

use vstd::prelude::*;
use crate::collections::{texts, StringSet, TextMap};

verus! {

/// The pause before a startup restore, in milliseconds, when no setting names one.
pub const DEFAULT_STARTUP_DELAY_MS: u64 = 1500;

/// The lighting state remembered for a device.
#[derive(Debug, PartialEq, Eq)]
pub enum SavedState {
    Color { hex: String },
    Off,
    Rainbow,
}

/// A remembered lighting state as a plain value.
pub enum StateView {
    Color(Seq<char>),
    Off,
    Rainbow,
}

impl View for SavedState {
    type V = StateView;

    open spec fn view(&self) -> StateView {
        match self {
            SavedState::Color { hex } => StateView::Color(hex@),
            SavedState::Off => StateView::Off,
            SavedState::Rainbow => StateView::Rainbow,
        }
    }
}

impl Clone for SavedState {
    fn clone(&self) -> (r: Self)
        ensures
            r == *self,
    {
        match self {
            SavedState::Color { hex } => SavedState::Color { hex: hex.clone() },
            SavedState::Off => SavedState::Off,
            SavedState::Rainbow => SavedState::Rainbow,
        }
    }
}

/// The application's settings.
#[derive(Debug)]
pub struct AppConfig {
    pub omarchy_sync_enabled: bool,
    pub omarchy_sync_devices: StringSet,
    pub restore_on_startup: bool,
    pub startup_delay_ms: u64,
    pub disabled_devices: StringSet,
    pub saved_device_states: TextMap<SavedState>,
    pub last_state: Option<SavedState>,
}

impl Default for AppConfig {
    fn default() -> (r: Self)
        ensures
            !r.omarchy_sync_enabled,
            r.omarchy_sync_devices@ == Set::<Seq<char>>::empty(),
            !r.restore_on_startup,
            r.startup_delay_ms == DEFAULT_STARTUP_DELAY_MS,
            r.disabled_devices@ == Set::<Seq<char>>::empty(),
            r.saved_device_states@ == Map::<Seq<char>, SavedState>::empty(),
            r.last_state is None,
    {
        AppConfig {
            omarchy_sync_enabled: false,
            omarchy_sync_devices: StringSet::new(),
            restore_on_startup: false,
            startup_delay_ms: DEFAULT_STARTUP_DELAY_MS,
            disabled_devices: StringSet::new(),
            saved_device_states: TextMap::new(),
            last_state: None,
        }
    }
}

/// The settings as plain values.
#[verifier::ext_equal]
pub struct ConfigView {
    pub sync_enabled: bool,
    pub sync_devices: Set<Seq<char>>,
    pub restore_on_startup: bool,
    pub startup_delay_ms: u64,
    pub disabled: Set<Seq<char>>,
    pub states: Map<Seq<char>, StateView>,
    pub last_state: Option<SavedState>,
}

impl View for AppConfig {
    type V = ConfigView;

    open spec fn view(&self) -> ConfigView {
        ConfigView {
            sync_enabled: self.omarchy_sync_enabled,
            sync_devices: self.omarchy_sync_devices@,
            restore_on_startup: self.restore_on_startup,
            startup_delay_ms: self.startup_delay_ms,
            disabled: self.disabled_devices@,
            states: self.saved_device_states@.map_values(|st: SavedState| st@),
            last_state: self.last_state,
        }
    }
}

/// Whether a set of switched-off entries covers a device, by its key or by its name.
pub open spec fn covers(disabled: Set<Seq<char>>, key: Seq<char>, name: Seq<char>) -> bool {
    disabled.contains(key) || disabled.contains(name)
}

/// The switched-off entries after a device is switched off or on: both its name and
/// its key leave, and its key comes back when it is switched off.
pub open spec fn with_disabled(
    disabled: Set<Seq<char>>,
    key: Seq<char>,
    name: Seq<char>,
    off: bool,
) -> Set<Seq<char>> {
    let cleared = disabled.remove(name).remove(key);
    if off {
        cleared.insert(key)
    } else {
        cleared
    }
}

/// Remembered states after `state` is recorded for every key of `keys`.
pub open spec fn with_state_for<S>(
    states: Map<Seq<char>, S>,
    keys: Seq<Seq<char>>,
    state: S,
) -> Map<Seq<char>, S> {
    Map::new(
        |k: Seq<char>| states.contains_key(k) || keys.contains(k),
        |k: Seq<char>|
            if keys.contains(k) {
                state
            } else {
                states[k]
            },
    )
}

/// `a` and `b` agree on every setting but the switched-off devices.
pub open spec fn same_but_disabled(a: AppConfig, b: AppConfig) -> bool {
    &&& a.omarchy_sync_enabled == b.omarchy_sync_enabled
    &&& a.omarchy_sync_devices == b.omarchy_sync_devices
    &&& a.restore_on_startup == b.restore_on_startup
    &&& a.startup_delay_ms == b.startup_delay_ms
    &&& a.saved_device_states == b.saved_device_states
    &&& a.last_state == b.last_state
}

/// `a` and `b` agree on every setting but the synced devices.
pub open spec fn same_but_sync_scope(a: AppConfig, b: AppConfig) -> bool {
    &&& a.omarchy_sync_enabled == b.omarchy_sync_enabled
    &&& a.disabled_devices == b.disabled_devices
    &&& a.restore_on_startup == b.restore_on_startup
    &&& a.startup_delay_ms == b.startup_delay_ms
    &&& a.saved_device_states == b.saved_device_states
    &&& a.last_state == b.last_state
}

impl AppConfig {
    /// Whether the device is switched off, by its key or by its name.
    pub fn is_device_disabled(&self, device_key: &str, device_name: &str) -> (b: bool)
        ensures
            b == covers(self.disabled_devices@, device_key@, device_name@),
    {
        self.disabled_devices.contains(device_key) || self.disabled_devices.contains(device_name)
    }

    /// Switches a device off (`disabled`) or on; an entry under its name goes
    /// either way, and it is then recorded by its key alone.
    pub fn set_device_disabled(&mut self, device_key: &str, device_name: &str, disabled: bool)
        ensures
            final(self).disabled_devices@ == with_disabled(
                old(self).disabled_devices@,
                device_key@,
                device_name@,
                disabled,
            ),
            same_but_disabled(*final(self), *old(self)),
    {
        self.disabled_devices.remove(device_name);
        self.disabled_devices.remove(device_key);
        if disabled {
            self.disabled_devices.insert(String::from_str(device_key));
        }
    }

    /// Records `state` for every key of `device_keys` and forgets the state that
    /// older settings kept for all devices at once.
    pub fn set_saved_state_for_devices(&mut self, device_keys: &[String], state: SavedState)
        ensures
            final(self).saved_device_states@ == with_state_for(
                old(self).saved_device_states@,
                texts(device_keys@),
                state,
            ),
            final(self).last_state is None,
            final(self).omarchy_sync_enabled == old(self).omarchy_sync_enabled,
            final(self).omarchy_sync_devices == old(self).omarchy_sync_devices,
            final(self).restore_on_startup == old(self).restore_on_startup,
            final(self).startup_delay_ms == old(self).startup_delay_ms,
            final(self).disabled_devices == old(self).disabled_devices,
    {
        let ghost start = self.saved_device_states@;
        let mut i: usize = 0;
        assert(start =~= with_state_for(start, texts(device_keys@.take(0)), state));
        while i < device_keys.len()
            invariant
                i <= device_keys.len(),
                self.saved_device_states@ == with_state_for(
                    start,
                    texts(device_keys@.take(i as int)),
                    state,
                ),
                self.omarchy_sync_enabled == old(self).omarchy_sync_enabled,
                self.omarchy_sync_devices == old(self).omarchy_sync_devices,
                self.restore_on_startup == old(self).restore_on_startup,
                self.startup_delay_ms == old(self).startup_delay_ms,
                self.disabled_devices == old(self).disabled_devices,
                start == old(self).saved_device_states@,
            decreases device_keys.len() - i,
        {
            let ghost before = self.saved_device_states@;
            self.saved_device_states.insert(device_keys[i].clone(), state.clone());
            let ghost ks = texts(device_keys@.take(i + 1));
            assert(ks =~= texts(device_keys@.take(i as int)).push(device_keys@[i as int]@));
            assert(self.saved_device_states@ =~= with_state_for(start, ks, state)) by {
                broadcast use vstd::seq_lib::lemma_seq_contains_after_push;

            }
            i = i + 1;
        }
        assert(device_keys@.take(device_keys.len() as int) =~= device_keys@);
        self.last_state = None;
    }

    /// The state remembered for the device with this key.
    pub fn get_saved_state_for_device(&self, device_key: &str) -> (r: Option<&SavedState>)
        ensures
            match r {
                Some(s) => self.saved_device_states@.contains_key(device_key@) && *s
                    == self.saved_device_states@[device_key@],
                None => !self.saved_device_states@.contains_key(device_key@),
            },
    {
        self.saved_device_states.get(device_key)
    }

    /// Makes the theme-synced devices exactly those of `device_keys`.
    pub fn set_omarchy_sync_devices(&mut self, device_keys: &[String])
        ensures
            final(self).omarchy_sync_devices@ == texts(device_keys@).to_set(),
            same_but_sync_scope(*final(self), *old(self)),
    {
        self.omarchy_sync_devices = StringSet::from_keys(device_keys);
    }

    /// Takes the devices of `device_keys` out of the theme-synced devices.
    pub fn remove_omarchy_sync_devices(&mut self, device_keys: &[String])
        ensures
            final(self).omarchy_sync_devices@ == old(self).omarchy_sync_devices@.difference(
                texts(device_keys@).to_set(),
            ),
            same_but_sync_scope(*final(self), *old(self)),
    {
        let ghost start = self.omarchy_sync_devices@;
        let mut i: usize = 0;
        assert(start =~= start.difference(texts(device_keys@.take(0)).to_set()));
        while i < device_keys.len()
            invariant
                i <= device_keys.len(),
                self.omarchy_sync_devices@ == start.difference(
                    texts(device_keys@.take(i as int)).to_set(),
                ),
                same_but_sync_scope(*self, *old(self)),
                start == old(self).omarchy_sync_devices@,
            decreases device_keys.len() - i,
        {
            self.omarchy_sync_devices.remove(device_keys[i].as_str());
            let ghost ks = texts(device_keys@.take(i + 1));
            assert(ks =~= texts(device_keys@.take(i as int)).push(device_keys@[i as int]@));
            proof {
                texts(device_keys@.take(i as int)).lemma_push_to_set_commute(
                    device_keys@[i as int]@,
                );
            }
            assert(self.omarchy_sync_devices@ =~= start.difference(ks.to_set()));
            i = i + 1;
        }
        assert(device_keys@.take(device_keys.len() as int) =~= device_keys@);
    }
}

/// Recording states commutes with taking their plain values.
pub proof fn lemma_state_views(
    states: Map<Seq<char>, SavedState>,
    keys: Seq<Seq<char>>,
    state: SavedState,
)
    ensures
        with_state_for(states, keys, state).map_values(|st: SavedState| st@) == with_state_for(
            states.map_values(|st: SavedState| st@),
            keys,
            state@,
        ),
{
    assert(with_state_for(states, keys, state).map_values(|st: SavedState| st@) =~= with_state_for(
        states.map_values(|st: SavedState| st@),
        keys,
        state@,
    ));
}

/// Switching a device off and then asking whether it is off answers yes; switching
/// it on and asking answers no.
pub proof fn law_disabled_reads_back(
    disabled: Set<Seq<char>>,
    key: Seq<char>,
    name: Seq<char>,
    off: bool,
)
    ensures
        covers(with_disabled(disabled, key, name, off), key, name) == off,
{
}

/// After recording a state for some devices, each of them reads back that state,
/// and every other device keeps what it had.
pub proof fn law_saved_state_reads_back(
    states: Map<Seq<char>, SavedState>,
    keys: Seq<Seq<char>>,
    state: SavedState,
    k: Seq<char>,
)
    ensures
        keys.contains(k) ==> with_state_for(states, keys, state).contains_key(k) && with_state_for(
            states,
            keys,
            state,
        )[k] == state,
        !keys.contains(k) ==> (with_state_for(states, keys, state).contains_key(k)
            == states.contains_key(k)) && (states.contains_key(k) ==> with_state_for(
            states,
            keys,
            state,
        )[k] == states[k]),
{
}

/// Setting the sync scope and then taking keys out of it leaves exactly the keys that
/// were set and not taken out.
pub proof fn law_sync_scope_set_then_removed(set: Seq<Seq<char>>, removed: Seq<Seq<char>>, k: Seq<char>)
    ensures
        set.to_set().difference(removed.to_set()).contains(k) <==> set.contains(k) && !removed.contains(k),
{
}

} // verus!
