//! OpenRGB devices, the keys under which their settings are kept, and the order
//! in which colour strategies are tried on them.

use vstd::prelude::*;
use crate::text::{
    chars_of, contains_chars, contains_text, is_ws, lemma_trim_lower, lemma_trim_padded, string_of,
    to_ascii_lower, to_ascii_lower_chars, trim, trim_chars,
};

verus! {

/// A device as `openrgb --list-devices` reports it.
#[derive(Debug)]
pub struct OpenRgbDevice {
    pub id: u32,
    pub name: String,
    pub device_type: String,
}

impl Clone for OpenRgbDevice {
    fn clone(&self) -> (r: Self)
        ensures
            r == *self,
    {
        OpenRgbDevice { id: self.id, name: self.name.clone(), device_type: self.device_type.clone() }
    }
}

impl Default for OpenRgbDevice {
    fn default() -> (r: Self)
        ensures
            r.id == 0,
            r.name@ == Seq::<char>::empty(),
            r.device_type@ == Seq::<char>::empty(),
    {
        OpenRgbDevice { id: 0, name: String::new(), device_type: String::new() }
    }
}

/// What a successful colour application asks of the caller.
#[derive(Debug, Clone, Copy, PartialEq, Eq, Structural)]
pub struct ApplyResult {
    pub needs_retry: bool,
}

/// One part of a device's settings key: no surrounding whitespace, ASCII in lower case.
pub open spec fn key_part(s: Seq<char>) -> Seq<char> {
    to_ascii_lower(trim(s))
}

/// The key under which a device's settings are kept: `name::type`, each part
/// normalized, so that case and surrounding spaces do not matter.
pub open spec fn profile_key(name: Seq<char>, device_type: Seq<char>) -> Seq<char> {
    key_part(name) + "::"@ + key_part(device_type)
}

pub open spec fn device_key(d: OpenRgbDevice) -> Seq<char> {
    profile_key(d.name@, d.device_type@)
}

fn normalize_key_part(value: &str) -> (r: Vec<char>)
    ensures
        r@ == key_part(value@),
{
    let v = chars_of(value);
    let t = trim_chars(v.as_slice());
    to_ascii_lower_chars(t.as_slice())
}

/// The settings key of a device.
pub fn device_profile_key(device: &OpenRgbDevice) -> (r: String)
    ensures
        r@ == device_key(*device),
{
    let mut out = normalize_key_part(device.name.as_str());
    let sep = chars_of("::");
    let mut i: usize = 0;
    let ghost start = out@;
    while i < sep.len()
        invariant
            i <= sep.len(),
            out@ == start + sep@.take(i as int),
        decreases sep.len() - i,
    {
        out.push(sep[i]);
        assert(sep@.take(i + 1) =~= sep@.take(i as int).push(sep@[i as int]));
        i = i + 1;
    }
    assert(sep@.take(sep.len() as int) =~= sep@);
    let tail = normalize_key_part(device.device_type.as_str());
    let mut j: usize = 0;
    let ghost mid = out@;
    while j < tail.len()
        invariant
            j <= tail.len(),
            out@ == mid + tail@.take(j as int),
        decreases tail.len() - j,
    {
        out.push(tail[j]);
        assert(tail@.take(j + 1) =~= tail@.take(j as int).push(tail@[j as int]));
        j = j + 1;
    }
    assert(tail@.take(tail.len() as int) =~= tail@);
    assert(out@ =~= key_part(device.name@) + "::"@ + key_part(device.device_type@));
    string_of(out.as_slice())
}

/// A way of putting a colour on a device.
#[derive(Debug, Clone, Copy, PartialEq, Eq, Structural)]
pub enum StrategyKind {
    ColorOnly,
    DirectThenColor,
    StaticThenColor,
    ZoneResizeThenColor,
    FullFallback,
}

/// A strategy to try, and whether success by it still calls for a second pass.
#[derive(Debug, Clone, Copy, PartialEq, Eq, Structural)]
pub struct StrategyAttempt {
    pub kind: StrategyKind,
    pub needs_retry: bool,
}

pub open spec fn attempt(kind: StrategyKind, needs_retry: bool) -> StrategyAttempt {
    StrategyAttempt { kind, needs_retry }
}

/// Motherboards, MSI devices and LED strips: names that say `msi`, types that say
/// `motherboard`, `mainboard` or `ledstrip`, in any case.
pub open spec fn board_like(name: Seq<char>, device_type: Seq<char>) -> bool {
    let n = to_ascii_lower(name);
    let t = to_ascii_lower(device_type);
    contains_text(n, "msi"@) || contains_text(t, "motherboard"@) || contains_text(t, "mainboard"@)
        || contains_text(t, "ledstrip"@)
}

/// Mice: a type or a name that says `mouse`, in any case.
pub open spec fn mouse_like(name: Seq<char>, device_type: Seq<char>) -> bool {
    contains_text(to_ascii_lower(device_type), "mouse"@) || contains_text(
        to_ascii_lower(name),
        "mouse"@,
    )
}

/// The strategies to try on a device, in order.
pub open spec fn attempts_for(name: Seq<char>, device_type: Seq<char>) -> Seq<StrategyAttempt> {
    if board_like(name, device_type) {
        seq![
            attempt(StrategyKind::FullFallback, true),
            attempt(StrategyKind::ZoneResizeThenColor, true),
            attempt(StrategyKind::DirectThenColor, true),
            attempt(StrategyKind::ColorOnly, true),
            attempt(StrategyKind::StaticThenColor, true),
        ]
    } else if mouse_like(name, device_type) {
        seq![
            attempt(StrategyKind::StaticThenColor, false),
            attempt(StrategyKind::FullFallback, true),
            attempt(StrategyKind::ColorOnly, false),
            attempt(StrategyKind::DirectThenColor, false),
        ]
    } else {
        seq![
            attempt(StrategyKind::ColorOnly, false),
            attempt(StrategyKind::DirectThenColor, false),
            attempt(StrategyKind::StaticThenColor, false),
            attempt(StrategyKind::FullFallback, true),
        ]
    }
}

fn lower_contains(lowered: &Vec<char>, word: &str) -> (b: bool)
    ensures
        b == contains_text(lowered@, word@),
{
    let w = chars_of(word);
    contains_chars(lowered.as_slice(), w.as_slice())
}

/// The strategies to try on `device`, in order.
pub fn strategy_attempts_for_device(device: &OpenRgbDevice) -> (r: Vec<StrategyAttempt>)
    ensures
        r@ == attempts_for(device.name@, device.device_type@),
{
    let name = to_ascii_lower_chars(chars_of(device.name.as_str()).as_slice());
    let device_type = to_ascii_lower_chars(chars_of(device.device_type.as_str()).as_slice());
    let board_like = lower_contains(&name, "msi") || lower_contains(&device_type, "motherboard")
        || lower_contains(&device_type, "mainboard") || lower_contains(&device_type, "ledstrip");
    let mouse_like = lower_contains(&device_type, "mouse") || lower_contains(&name, "mouse");
    let r = if board_like {
        vec![
            StrategyAttempt { kind: StrategyKind::FullFallback, needs_retry: true },
            StrategyAttempt { kind: StrategyKind::ZoneResizeThenColor, needs_retry: true },
            StrategyAttempt { kind: StrategyKind::DirectThenColor, needs_retry: true },
            StrategyAttempt { kind: StrategyKind::ColorOnly, needs_retry: true },
            StrategyAttempt { kind: StrategyKind::StaticThenColor, needs_retry: true },
        ]
    } else if mouse_like {
        vec![
            StrategyAttempt { kind: StrategyKind::StaticThenColor, needs_retry: false },
            StrategyAttempt { kind: StrategyKind::FullFallback, needs_retry: true },
            StrategyAttempt { kind: StrategyKind::ColorOnly, needs_retry: false },
            StrategyAttempt { kind: StrategyKind::DirectThenColor, needs_retry: false },
        ]
    } else {
        vec![
            StrategyAttempt { kind: StrategyKind::ColorOnly, needs_retry: false },
            StrategyAttempt { kind: StrategyKind::DirectThenColor, needs_retry: false },
            StrategyAttempt { kind: StrategyKind::StaticThenColor, needs_retry: false },
            StrategyAttempt { kind: StrategyKind::FullFallback, needs_retry: true },
        ]
    };
    assert(r@ =~= attempts_for(device.name@, device.device_type@));
    r
}

/// A device's settings key stays the same when its name or type gains or loses
/// surrounding whitespace.
pub proof fn law_key_ignores_surrounding_whitespace(
    name: Seq<char>,
    device_type: Seq<char>,
    w1: Seq<char>,
    w2: Seq<char>,
    w3: Seq<char>,
    w4: Seq<char>,
)
    requires
        forall|i: int| 0 <= i < w1.len() ==> is_ws(#[trigger] w1[i]),
        forall|i: int| 0 <= i < w2.len() ==> is_ws(#[trigger] w2[i]),
        forall|i: int| 0 <= i < w3.len() ==> is_ws(#[trigger] w3[i]),
        forall|i: int| 0 <= i < w4.len() ==> is_ws(#[trigger] w4[i]),
    ensures
        profile_key(w1 + name + w2, w3 + device_type + w4) == profile_key(name, device_type),
{
    lemma_trim_padded(w1, name, w2);
    lemma_trim_padded(w3, device_type, w4);
}

/// A device's settings key stays the same when ASCII letters of its name or type
/// change case.
pub proof fn law_key_ignores_ascii_case(name1: Seq<char>, name2: Seq<char>, type1: Seq<char>, type2: Seq<char>)
    requires
        to_ascii_lower(name1) == to_ascii_lower(name2),
        to_ascii_lower(type1) == to_ascii_lower(type2),
    ensures
        profile_key(name1, type1) == profile_key(name2, type2),
{
    lemma_trim_lower(name1);
    lemma_trim_lower(name2);
    lemma_trim_lower(type1);
    lemma_trim_lower(type2);
}

/// A device whose name says `msi`, or whose type says `motherboard`, `mainboard` or
/// `ledstrip`, in any ASCII case, gets the board strategies: the full fallback
/// first, then zone resize, Direct mode, colour alone and Static mode, each followed
/// by a second pass.
pub proof fn law_board_devices_start_with_full_fallback(name: Seq<char>, device_type: Seq<char>)
    requires
        contains_text(to_ascii_lower(name), "msi"@) || contains_text(
            to_ascii_lower(device_type),
            "motherboard"@,
        ) || contains_text(to_ascii_lower(device_type), "mainboard"@) || contains_text(
            to_ascii_lower(device_type),
            "ledstrip"@,
        ),
    ensures
        attempts_for(name, device_type) == seq![
            StrategyAttempt { kind: StrategyKind::FullFallback, needs_retry: true },
            StrategyAttempt { kind: StrategyKind::ZoneResizeThenColor, needs_retry: true },
            StrategyAttempt { kind: StrategyKind::DirectThenColor, needs_retry: true },
            StrategyAttempt { kind: StrategyKind::ColorOnly, needs_retry: true },
            StrategyAttempt { kind: StrategyKind::StaticThenColor, needs_retry: true },
        ],
{
}

/// A device that is not board-like and whose name or type says `mouse`, in any ASCII
/// case, gets Static mode first, with the full fallback second.
pub proof fn law_mice_start_with_static_mode(name: Seq<char>, device_type: Seq<char>)
    requires
        !contains_text(to_ascii_lower(name), "msi"@),
        !contains_text(to_ascii_lower(device_type), "motherboard"@),
        !contains_text(to_ascii_lower(device_type), "mainboard"@),
        !contains_text(to_ascii_lower(device_type), "ledstrip"@),
        contains_text(to_ascii_lower(name), "mouse"@) || contains_text(
            to_ascii_lower(device_type),
            "mouse"@,
        ),
    ensures
        attempts_for(name, device_type) == seq![
            StrategyAttempt { kind: StrategyKind::StaticThenColor, needs_retry: false },
            StrategyAttempt { kind: StrategyKind::FullFallback, needs_retry: true },
            StrategyAttempt { kind: StrategyKind::ColorOnly, needs_retry: false },
            StrategyAttempt { kind: StrategyKind::DirectThenColor, needs_retry: false },
        ],
{
}

} // verus!
