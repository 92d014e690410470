//! Theme sync: which devices follow the theme, and a sync run from the theme colour
//! to the remembered states.

use vstd::prelude::*;
use crate::collections::texts;
use crate::config::{covers, AppConfig, SavedState};
use crate::devices::{apply_color_to_devices_summary, copy_devices, copy_listing, devices_color_flow};
use crate::flow::{fits, pending, step_matches, Cursor, Flow, Pending, Replies, Req, Request, Step};
use crate::listing::{refresh_device_ids, refreshed};
use crate::openrgb::{device_key, device_profile_key, OpenRgbDevice};
use crate::restore::{with_listed, with_themes};
use crate::summary::{result_view, summary_result, DeviceActionSummary};
use crate::theme::{parse_theme_color, theme_color};

verus! {

/// Whether a sync run gives the theme colour to a device: with sync on, exactly the
/// devices in the sync scope; with sync off (a forced run), the devices not switched off.
pub open spec fn sync_target(conf: AppConfig, d: OpenRgbDevice) -> bool {
    let key = device_key(d);
    if conf.omarchy_sync_enabled {
        conf.omarchy_sync_devices@.contains(key)
    } else {
        !covers(conf.disabled_devices@, key, d.name@)
    }
}

pub fn sync_target_contains(conf: &AppConfig, device: &OpenRgbDevice) -> (b: bool)
    ensures
        b == sync_target(*conf, *device),
{
    let profile_key = device_profile_key(device);
    if conf.omarchy_sync_enabled {
        conf.omarchy_sync_devices.contains(profile_key.as_str())
    } else {
        !conf.is_device_disabled(profile_key.as_str(), device.name.as_str())
    }
}

/// The devices of `devs` that a sync run colours, in order.
pub open spec fn sync_targets(conf: AppConfig, devs: Seq<OpenRgbDevice>) -> Seq<OpenRgbDevice>
    decreases devs.len(),
{
    if devs.len() == 0 {
        Seq::empty()
    } else if sync_target(conf, devs.last()) {
        sync_targets(conf, devs.drop_last()).push(devs.last())
    } else {
        sync_targets(conf, devs.drop_last())
    }
}

/// The theme colour of a `colors.toml` text, or why there is none.
pub fn theme_color_from_text(content: &str) -> (r: Result<String, String>)
    ensures
        match r {
            Ok(c) => theme_color(content@) == Some(c@),
            Err(m) => theme_color(content@) is None && m@ == "No color found in theme"@,
        },
{
    match parse_theme_color(content) {
        Some(c) => Ok(c),
        None => Err("No color found in theme".to_string()),
    }
}

/// What a sync run came to, and the state to remember for the devices it coloured.
pub struct SyncOutcome {
    pub result: Result<(), String>,
    pub record: Option<(Vec<String>, SavedState)>,
}

pub open spec fn sync_view(o: SyncOutcome) -> (Result<(), Seq<char>>, Option<(Seq<Seq<char>>, SavedState)>) {
    (
        result_view(o.result),
        match o.record {
            Some((keys, st)) => Some((texts(keys@), st)),
            None => None,
        },
    )
}

/// A sync run: nothing when sync is off and the run is not forced; else read the
/// theme colour, list the devices, list them again to bring the list up to date,
/// colour the sync targets, and remember the colour for the devices that took it.
pub open spec fn perform_sync_flow(conf: AppConfig, force: bool, p: Pending) -> Flow<
    (Result<(), Seq<char>>, Option<(Seq<Seq<char>>, SavedState)>),
> {
    if !conf.omarchy_sync_enabled && !force {
        Flow::Done((Ok(()), None), p)
    } else if p.themes.len() == 0 {
        Flow::Ask(Req::LoadTheme)
    } else {
        let p1 = with_themes(p, p.themes.drop_first());
        match p.themes[0] {
            Err(e) => Flow::Done((Err(e@), None), p1),
            Ok(hex) => if p1.listed.len() == 0 {
                Flow::Ask(Req::List(0))
            } else {
                match p1.listed[0] {
                    Err(e) => Flow::Done((Err(e@), None), with_listed(p1, p1.listed.drop_first())),
                    Ok(first) => if p1.listed.len() < 2 {
                        Flow::Ask(Req::List(0))
                    } else {
                        let devs = match p1.listed[1] {
                            Ok(latest) => first@.map_values(|d: OpenRgbDevice| refreshed(d, latest@)),
                            Err(_) => first@,
                        };
                        match devices_color_flow(
                            sync_targets(conf, devs),
                            hex@,
                            true,
                            with_listed(p1, p1.listed.skip(2)),
                        ) {
                            Flow::Ask(q) => Flow::Ask(q),
                            Flow::Done((ok, failed), p3) => Flow::Done(
                                (
                                    summary_result(ok, failed),
                                    if ok.len() > 0 {
                                        Some((ok, SavedState::Color { hex }))
                                    } else {
                                        None
                                    },
                                ),
                                p3,
                            ),
                        }
                    },
                }
            },
        }
    }
}

fn targets_of(conf: &AppConfig, devices: &Vec<OpenRgbDevice>) -> (r: Vec<OpenRgbDevice>)
    ensures
        r@ == sync_targets(*conf, devices@),
{
    let mut r: Vec<OpenRgbDevice> = Vec::new();
    let mut i: usize = 0;
    assert(devices@.take(0) =~= Seq::<OpenRgbDevice>::empty());
    while i < devices.len()
        invariant
            i <= devices.len(),
            r@ == sync_targets(*conf, devices@.take(i as int)),
        decreases devices.len() - i,
    {
        assert(devices@.take(i + 1).drop_last() =~= devices@.take(i as int));
        assert(devices@.take(i + 1).last() == devices@[i as int]);
        if sync_target_contains(conf, &devices[i]) {
            r.push(devices[i].clone());
        }
        i = i + 1;
    }
    assert(devices@.take(devices.len() as int) =~= devices@);
    r
}

/// The next step of a sync run, given the replies from `at` on.
pub fn perform_sync(conf: &AppConfig, force: bool, r: &Replies, at: Cursor) -> (s: Step<SyncOutcome>)
    requires
        fits(*r, at),
    ensures
        step_matches(s, *r, perform_sync_flow(*conf, force, pending(*r, at)), |x: SyncOutcome| sync_view(x)),
{
    if !conf.omarchy_sync_enabled && !force {
        return Step::Done(SyncOutcome { result: Ok(()), record: None }, at);
    }
    if at.themes >= r.themes.len() {
        return Step::Ask(Request::LoadTheme);
    }
    let ghost p = pending(*r, at);
    assert(p.themes[0] == r.themes@[at.themes as int]);
    let c1 = Cursor { ran: at.ran, rainbow: at.rainbow, listed: at.listed, themes: at.themes + 1 };
    assert(p.themes.drop_first() =~= r.themes@.skip(c1.themes as int));
    assert(pending(*r, c1) == with_themes(p, p.themes.drop_first()));
    let hex = match &r.themes[at.themes] {
        Err(e) => return Step::Done(SyncOutcome { result: Err(e.clone()), record: None }, c1),
        Ok(hex) => hex,
    };
    if c1.listed >= r.listed.len() {
        return Step::Ask(Request::List { pause_ms: 0 });
    }
    let ghost p1 = pending(*r, c1);
    assert(p1.listed[0] == r.listed@[c1.listed as int]);
    let c2 = Cursor { ran: c1.ran, rainbow: c1.rainbow, listed: c1.listed + 1, themes: c1.themes };
    assert(p1.listed.drop_first() =~= r.listed@.skip(c2.listed as int));
    let first = match &r.listed[c1.listed] {
        Err(e) => return Step::Done(SyncOutcome { result: Err(e.clone()), record: None }, c2),
        Ok(first) => first,
    };
    if c1.listed + 1 >= r.listed.len() {
        return Step::Ask(Request::List { pause_ms: 0 });
    }
    assert(p1.listed[1] == r.listed@[c1.listed + 1]);
    let mut devices = copy_devices(first);
    let _ = refresh_device_ids(&mut devices, copy_listing(&r.listed[c1.listed + 1]));
    let c3 = Cursor { ran: c1.ran, rainbow: c1.rainbow, listed: c1.listed + 2, themes: c1.themes };
    assert(p1.listed.skip(2) =~= r.listed@.skip(c3.listed as int));
    assert(pending(*r, c3) == with_listed(p1, p1.listed.skip(2)));
    let targets = targets_of(conf, &devices);
    match apply_color_to_devices_summary(targets.as_slice(), hex.as_str(), true, r, c3) {
        Step::Ask(q) => Step::Ask(q),
        Step::Done(summary, next) => {
            let record = if summary.is_any_success() {
                let mut keys: Vec<String> = Vec::new();
                let mut i: usize = 0;
                while i < summary.succeeded_keys.len()
                    invariant
                        i <= summary.succeeded_keys.len(),
                        keys@ == summary.succeeded_keys@.take(i as int),
                    decreases summary.succeeded_keys.len() - i,
                {
                    keys.push(summary.succeeded_keys[i].clone());
                    assert(summary.succeeded_keys@.take(i + 1) =~= summary.succeeded_keys@.take(i as int).push(
                        summary.succeeded_keys@[i as int],
                    ));
                    i = i + 1;
                }
                assert(summary.succeeded_keys@.take(summary.succeeded_keys.len() as int) =~= summary.succeeded_keys@);
                Some((keys, SavedState::Color { hex: hex.clone() }))
            } else {
                None
            };
            Step::Done(SyncOutcome { result: summary.into_result(), record }, next)
        },
    }
}

/// A sync run colours sync targets only, and every sync target of the list: with
/// sync on exactly the devices in the sync scope, with sync off the devices not
/// switched off.
pub proof fn law_sync_colours_exactly_its_targets(conf: AppConfig, devs: Seq<OpenRgbDevice>)
    ensures
        forall|i: int|
            0 <= i < sync_targets(conf, devs).len() ==> sync_target(conf, #[trigger] sync_targets(conf, devs)[i])
                && devs.contains(sync_targets(conf, devs)[i]),
        forall|d: OpenRgbDevice| devs.contains(d) && sync_target(conf, d) ==> #[trigger] sync_targets(
            conf,
            devs,
        ).contains(d),
    decreases devs.len(),
{
    if devs.len() > 0 {
        let rest = devs.drop_last();
        law_sync_colours_exactly_its_targets(conf, rest);
        if sync_target(conf, devs.last()) {
            assert(sync_targets(conf, devs) == sync_targets(conf, rest).push(devs.last()));
        } else {
            assert(sync_targets(conf, devs) == sync_targets(conf, rest));
        }
        assert forall|i: int| 0 <= i < sync_targets(conf, devs).len() implies sync_target(
            conf,
            #[trigger] sync_targets(conf, devs)[i],
        ) && devs.contains(sync_targets(conf, devs)[i]) by {
            let e = sync_targets(conf, devs)[i];
            if i < sync_targets(conf, rest).len() {
                assert(e == sync_targets(conf, rest)[i]);
                let j = choose|j: int| 0 <= j < rest.len() && rest[j] == e;
                assert(devs[j] == e);
            } else {
                assert(devs[devs.len() - 1] == e);
            }
        }
        assert forall|d: OpenRgbDevice| devs.contains(d) && sync_target(conf, d) implies #[trigger] sync_targets(
            conf,
            devs,
        ).contains(d) by {
            let j = choose|j: int| 0 <= j < devs.len() && devs[j] == d;
            if j < devs.len() - 1 {
                assert(rest[j] == d);
                assert(sync_targets(conf, rest).contains(d));
                let k = choose|k: int| 0 <= k < sync_targets(conf, rest).len() && sync_targets(conf, rest)[k] == d;
                assert(sync_targets(conf, devs)[k] == d);
            } else {
                let n = sync_targets(conf, rest).len() as int;
                assert(sync_targets(conf, devs)[n] == d);
            }
        }
    }
}

/// A sync run colours, of the listed devices: with sync on, exactly those whose
/// settings key is in the sync scope; with sync off (a forced run), exactly those of
/// which neither the settings key nor the name is switched off.
pub proof fn law_sync_skips_what_is_out_of_scope(conf: AppConfig, devs: Seq<OpenRgbDevice>, d: OpenRgbDevice)
    ensures
        devs.contains(d) ==> (sync_targets(conf, devs).contains(d) <==> if conf.omarchy_sync_enabled {
            conf.omarchy_sync_devices@.contains(device_key(d))
        } else {
            !conf.disabled_devices@.contains(device_key(d)) && !conf.disabled_devices@.contains(d.name@)
        }),
        sync_targets(conf, devs).contains(d) ==> devs.contains(d) && if conf.omarchy_sync_enabled {
            conf.omarchy_sync_devices@.contains(device_key(d))
        } else {
            !conf.disabled_devices@.contains(device_key(d)) && !conf.disabled_devices@.contains(d.name@)
        },
{
    law_sync_colours_exactly_its_targets(conf, devs);
    if sync_targets(conf, devs).contains(d) {
        let i = choose|i: int| 0 <= i < sync_targets(conf, devs).len() && sync_targets(conf, devs)[i] == d;
        assert(sync_target(conf, sync_targets(conf, devs)[i]));
    }
}

} // verus!
