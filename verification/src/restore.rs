//! Restoring the remembered lighting at startup: which state each device gets back,
//! grouped by state, and the order of the work.

use vstd::prelude::*;
use crate::collections::texts;
use crate::config::{covers, AppConfig, SavedState};
use crate::devices::{
    apply_color_to_devices_summary, copy_devices, copy_listing, devices_color_flow, devices_rainbow_flow,
    set_rainbow_for_devices_summary, summary_view,
};
use crate::flow::{fits, pending, step_matches, Cursor, Flow, Pending, Replies, Req, Request, Step};
use crate::listing::{refresh_device_ids, refreshed};
use crate::openrgb::{device_key, device_profile_key, OpenRgbDevice};
use crate::summary::{join_texts, joined, result_view};
use crate::text::text_eq;

verus! {

/// Whether there is anything that a startup restore could restore.
pub open spec fn restorable(conf: AppConfig) -> bool {
    conf.omarchy_sync_enabled || conf.saved_device_states@ != Map::<Seq<char>, SavedState>::empty()
        || conf.last_state is Some
}

/// A startup restore needs theme sync on, or some remembered state.
pub fn validate_restore_config(conf: &AppConfig) -> (r: Result<(), String>)
    ensures
        r is Ok <==> restorable(*conf),
        r matches Err(m) ==> m@ == "No saved RGB state to restore yet. Set a manual color or turn lights off once before using startup restore."@,
{
    if conf.omarchy_sync_enabled || !conf.saved_device_states.is_empty() || conf.last_state.is_some() {
        Ok(())
    } else {
        Err(
            "No saved RGB state to restore yet. Set a manual color or turn lights off once before using startup restore.".to_string(),
        )
    }
}

/// The state a device gets back: the one remembered for its key; without one, none
/// for a switched-off device, else the state that older settings kept for all.
pub open spec fn state_for(conf: AppConfig, d: OpenRgbDevice) -> Option<SavedState> {
    let key = device_key(d);
    if conf.saved_device_states@.contains_key(key) {
        Some(conf.saved_device_states@[key])
    } else if covers(conf.disabled_devices@, key, d.name@) {
        None
    } else {
        conf.last_state
    }
}

/// Devices by colour, each colour once, in the order of their first device.
pub type Groups = Seq<(Seq<char>, Seq<OpenRgbDevice>)>;

/// `d` added to the group of colour `hex`, which starts last when there is none yet.
pub open spec fn add_to_group(gs: Groups, hex: Seq<char>, d: OpenRgbDevice) -> Groups
    decreases gs.len(),
{
    if gs.len() == 0 {
        seq![(hex, seq![d])]
    } else if gs[0].0 == hex {
        gs.update(0, (hex, gs[0].1.push(d)))
    } else {
        seq![gs[0]] + add_to_group(gs.drop_first(), hex, d)
    }
}

/// The restore plan: devices grouped by colour, devices to switch off, devices to
/// put in rainbow mode; devices with nothing to restore are left out.
pub type Plan = (Groups, Seq<OpenRgbDevice>, Seq<OpenRgbDevice>);

pub open spec fn plan_for(conf: AppConfig, devs: Seq<OpenRgbDevice>) -> Plan
    decreases devs.len(),
{
    if devs.len() == 0 {
        (Seq::empty(), Seq::empty(), Seq::empty())
    } else {
        let (gs, off, rainbow) = plan_for(conf, devs.drop_last());
        let d = devs.last();
        match state_for(conf, d) {
            Some(SavedState::Color { hex }) => (add_to_group(gs, hex@, d), off, rainbow),
            Some(SavedState::Off) => (gs, off.push(d), rainbow),
            Some(SavedState::Rainbow) => (gs, off, rainbow.push(d)),
            None => (gs, off, rainbow),
        }
    }
}

/// A restore plan.
pub struct RestorePlan {
    pub color_groups: Vec<(String, Vec<OpenRgbDevice>)>,
    pub off: Vec<OpenRgbDevice>,
    pub rainbow: Vec<OpenRgbDevice>,
}

pub open spec fn groups_view(gs: Seq<(String, Vec<OpenRgbDevice>)>) -> Groups {
    gs.map_values(|g: (String, Vec<OpenRgbDevice>)| (g.0@, g.1@))
}

pub open spec fn plan_view(p: RestorePlan) -> Plan {
    (groups_view(p.color_groups@), p.off@, p.rainbow@)
}

proof fn lemma_add_found(gs: Groups, hex: Seq<char>, d: OpenRgbDevice, i: int)
    requires
        0 <= i < gs.len(),
        gs[i].0 == hex,
        forall|j: int| 0 <= j < i ==> gs[j].0 != hex,
    ensures
        add_to_group(gs, hex, d) == gs.update(i, (hex, gs[i].1.push(d))),
    decreases gs.len(),
{
    if i > 0 {
        lemma_add_found(gs.drop_first(), hex, d, i - 1);
        assert(add_to_group(gs, hex, d) =~= gs.update(i, (hex, gs[i].1.push(d))));
    }
}

proof fn lemma_add_new(gs: Groups, hex: Seq<char>, d: OpenRgbDevice)
    requires
        forall|j: int| 0 <= j < gs.len() ==> gs[j].0 != hex,
    ensures
        add_to_group(gs, hex, d) == gs.push((hex, seq![d])),
    decreases gs.len(),
{
    if gs.len() > 0 {
        lemma_add_new(gs.drop_first(), hex, d);
        assert(add_to_group(gs, hex, d) =~= gs.push((hex, seq![d])));
    }
}


fn state_of(conf: &AppConfig, d: &OpenRgbDevice) -> (r: Option<SavedState>)
    ensures
        r == state_for(*conf, *d),
{
    let key = device_profile_key(d);
    match conf.get_saved_state_for_device(key.as_str()) {
        Some(s) => Some(s.clone()),
        None => if conf.is_device_disabled(key.as_str(), d.name.as_str()) {
            None
        } else {
            match &conf.last_state {
                Some(s) => Some(s.clone()),
                None => None,
            }
        },
    }
}

fn add_device_to_group(groups: &mut Vec<(String, Vec<OpenRgbDevice>)>, hex: &String, d: OpenRgbDevice)
    ensures
        groups_view(final(groups)@) == add_to_group(groups_view(old(groups)@), hex@, d),
{
    let ghost gs = groups_view(groups@);
    let mut i: usize = 0;
    while i < groups.len()
        invariant
            i <= groups.len(),
            gs == groups_view(groups@),
            gs == groups_view(old(groups)@),
            forall|j: int| 0 <= j < i ==> gs[j].0 != hex@,
        decreases groups.len() - i,
    {
        if text_eq(groups[i].0.as_str(), hex.as_str()) {
            proof {
                lemma_add_found(gs, hex@, d, i as int);
            }
            let mut devs = copy_devices(&groups[i].1);
            let ghost dd = d;
            devs.push(d);
            assert(devs@ == gs[i as int].1.push(dd));
            let h = hex.clone();
            assert(h@ == hex@);
            groups.set(i, (h, devs));
            assert(groups_view(groups@) =~= gs.update(i as int, (hex@, gs[i as int].1.push(dd))));
            assert(groups_view(groups@) == add_to_group(gs, hex@, dd));
            return;
        }
        i = i + 1;
    }
    proof {
        lemma_add_new(gs, hex@, d);
    }
    let ghost dd = d;
    let mut one: Vec<OpenRgbDevice> = Vec::new();
    one.push(d);
    assert(one@ =~= seq![dd]);
    groups.push((hex.clone(), one));
    assert(groups_view(groups@) =~= gs.push((hex@, seq![dd])));
}

/// Which devices get which state back.
pub fn restore_plan(conf: &AppConfig, devices: &[OpenRgbDevice]) -> (r: RestorePlan)
    ensures
        plan_view(r) == plan_for(*conf, devices@),
{
    let mut plan = RestorePlan { color_groups: Vec::new(), off: Vec::new(), rainbow: Vec::new() };
    let mut i: usize = 0;
    assert(plan_view(plan) =~= plan_for(*conf, devices@.take(0)));
    while i < devices.len()
        invariant
            i <= devices.len(),
            plan_view(plan) == plan_for(*conf, devices@.take(i as int)),
        decreases devices.len() - i,
    {
        let d = devices[i].clone();
        assert(devices@.take(i + 1).drop_last() =~= devices@.take(i as int));
        assert(devices@.take(i + 1).last() == d);
        match state_of(conf, &d) {
            Some(SavedState::Color { hex }) => add_device_to_group(&mut plan.color_groups, &hex, d),
            Some(SavedState::Off) => plan.off.push(d),
            Some(SavedState::Rainbow) => plan.rainbow.push(d),
            None => {},
        }
        i = i + 1;
    }
    assert(devices@.take(devices.len() as int) =~= devices@);
    plan
}

/// A failed group's failures, joined, go on the list of failures.
pub open spec fn push_if_failed(failures: Seq<Seq<char>>, failed: Seq<Seq<char>>) -> Seq<Seq<char>> {
    if failed.len() > 0 {
        failures.push(joined(failed, " | "@))
    } else {
        failures
    }
}

/// Success without failures, else the failures joined by ` | `.
pub open spec fn outcome_of(failures: Seq<Seq<char>>) -> Result<(), Seq<char>> {
    if failures.len() == 0 {
        Ok(())
    } else {
        Err(joined(failures, " | "@))
    }
}

/// Each colour group gets its colour, in order.
pub open spec fn groups_flow(gs: Groups, p: Pending, failures: Seq<Seq<char>>) -> Flow<Seq<Seq<char>>>
    decreases gs.len(),
{
    if gs.len() == 0 {
        Flow::Done(failures, p)
    } else {
        match devices_color_flow(gs[0].1, gs[0].0, false, p) {
            Flow::Ask(q) => Flow::Ask(q),
            Flow::Done(sm, p2) => groups_flow(gs.drop_first(), p2, push_if_failed(failures, sm.1)),
        }
    }
}

/// The devices to switch off get colour `000000`.
pub open spec fn off_flow(off: Seq<OpenRgbDevice>, p: Pending, failures: Seq<Seq<char>>) -> Flow<Seq<Seq<char>>> {
    if off.len() == 0 {
        Flow::Done(failures, p)
    } else {
        match devices_color_flow(off, "000000"@, false, p) {
            Flow::Ask(q) => Flow::Ask(q),
            Flow::Done(sm, p2) => Flow::Done(push_if_failed(failures, sm.1), p2),
        }
    }
}

/// The devices for rainbow mode get it.
pub open spec fn rainbow_group_flow(rb: Seq<OpenRgbDevice>, p: Pending, failures: Seq<Seq<char>>) -> Flow<Seq<Seq<char>>> {
    if rb.len() == 0 {
        Flow::Done(failures, p)
    } else {
        match devices_rainbow_flow(rb, false, p) {
            Flow::Ask(q) => Flow::Ask(q),
            Flow::Done(sm, p2) => Flow::Done(push_if_failed(failures, sm.1), p2),
        }
    }
}

/// Restoring the remembered states: the colour groups in order, then the devices to
/// switch off, then rainbow mode; success when no group failed.
pub open spec fn saved_states_flow(conf: AppConfig, devs: Seq<OpenRgbDevice>, p: Pending) -> Flow<Result<(), Seq<char>>> {
    let (gs, off, rb) = plan_for(conf, devs);
    match groups_flow(gs, p, Seq::empty()) {
        Flow::Ask(q) => Flow::Ask(q),
        Flow::Done(f1, p1) => match off_flow(off, p1, f1) {
            Flow::Ask(q) => Flow::Ask(q),
            Flow::Done(f2, p2) => match rainbow_group_flow(rb, p2, f2) {
                Flow::Ask(q) => Flow::Ask(q),
                Flow::Done(f3, p3) => Flow::Done(outcome_of(f3), p3),
            },
        },
    }
}

fn push_failures(failures: &mut Vec<String>, failed: &Vec<String>)
    ensures
        texts(final(failures)@) == push_if_failed(texts(old(failures)@), texts(failed@)),
{
    if failed.len() > 0 {
        let ghost before = failures@;
        let joined_text = join_texts(failed.as_slice(), " | ");
        failures.push(joined_text);
        assert(texts(failures@) =~= texts(before).push(joined(texts(failed@), " | "@)));
    }
}

fn outcome(failures: &Vec<String>) -> (r: Result<(), String>)
    ensures
        result_view(r) == outcome_of(texts(failures@)),
{
    if failures.len() == 0 {
        Ok(())
    } else {
        Err(join_texts(failures.as_slice(), " | "))
    }
}

/// The next step of restoring the remembered state of `devices`.
pub fn restore_saved_device_states(conf: &AppConfig, devices: &[OpenRgbDevice], r: &Replies, at: Cursor) -> (s: Step<
    Result<(), String>,
>)
    requires
        fits(*r, at),
    ensures
        step_matches(s, *r, saved_states_flow(*conf, devices@, pending(*r, at)), |x: Result<(), String>| result_view(x)),
{
    let plan = restore_plan(conf, devices);
    let ghost whole = saved_states_flow(*conf, devices@, pending(*r, at));
    let ghost gs = groups_view(plan.color_groups@);
    let mut failures: Vec<String> = Vec::new();
    let mut cur = at;
    let mut k: usize = 0;
    assert(gs.skip(0) =~= gs);
    assert(texts(failures@) =~= Seq::<Seq<char>>::empty());
    while k < plan.color_groups.len()
        invariant
            k <= plan.color_groups.len(),
            fits(*r, cur),
            gs == groups_view(plan.color_groups@),
            plan_view(plan) == plan_for(*conf, devices@),
            whole == saved_states_flow(*conf, devices@, pending(*r, at)),
            groups_flow(gs, pending(*r, at), Seq::empty()) == groups_flow(
                gs.skip(k as int),
                pending(*r, cur),
                texts(failures@),
            ),
        decreases plan.color_groups.len() - k,
    {
        let (hex, group) = &plan.color_groups[k];
        assert(gs.skip(k as int)[0] == (hex@, group@));
        assert(gs.skip(k as int).drop_first() =~= gs.skip(k + 1));
        match apply_color_to_devices_summary(group.as_slice(), hex.as_str(), false, r, cur) {
            Step::Ask(q) => return Step::Ask(q),
            Step::Done(summary, next) => {
                push_failures(&mut failures, &summary.failed_devices);
                cur = next;
            },
        }
        k = k + 1;
    }
    assert(gs.skip(plan.color_groups.len() as int) =~= Seq::<(Seq<char>, Seq<OpenRgbDevice>)>::empty());
    if plan.off.len() > 0 {
        match apply_color_to_devices_summary(plan.off.as_slice(), "000000", false, r, cur) {
            Step::Ask(q) => return Step::Ask(q),
            Step::Done(summary, next) => {
                push_failures(&mut failures, &summary.failed_devices);
                cur = next;
            },
        }
    }
    if plan.rainbow.len() > 0 {
        match set_rainbow_for_devices_summary(plan.rainbow.as_slice(), false, r, cur) {
            Step::Ask(q) => return Step::Ask(q),
            Step::Done(summary, next) => {
                push_failures(&mut failures, &summary.failed_devices);
                cur = next;
            },
        }
    }
    Step::Done(outcome(&failures), cur)
}

pub open spec fn with_themes(p: Pending, themes: Seq<Result<String, String>>) -> Pending {
    Pending { ran: p.ran, rainbow: p.rainbow, listed: p.listed, themes }
}

/// Restoring the theme colour: with no devices, success at once; else read it, then
/// give it to the devices; success when no device failed.
pub open spec fn theme_flow(devs: Seq<OpenRgbDevice>, p: Pending) -> Flow<Result<(), Seq<char>>> {
    if devs.len() == 0 {
        Flow::Done(Ok(()), p)
    } else if p.themes.len() == 0 {
        Flow::Ask(Req::LoadTheme)
    } else {
        let p1 = with_themes(p, p.themes.drop_first());
        match p.themes[0] {
            Err(e) => Flow::Done(Err(e@), p1),
            Ok(hex) => match devices_color_flow(devs, hex@, false, p1) {
                Flow::Ask(q) => Flow::Ask(q),
                Flow::Done(sm, p2) => Flow::Done(
                    if sm.1.len() == 0 {
                        Ok(())
                    } else {
                        Err(joined(sm.1, " | "@))
                    },
                    p2,
                ),
            },
        }
    }
}

/// The next step of giving `devices` the colour of the current theme.
pub fn restore_theme_to_devices(devices: &[OpenRgbDevice], r: &Replies, at: Cursor) -> (s: Step<Result<(), String>>)
    requires
        fits(*r, at),
    ensures
        step_matches(s, *r, theme_flow(devices@, pending(*r, at)), |x: Result<(), String>| result_view(x)),
{
    if devices.len() == 0 {
        return Step::Done(Ok(()), at);
    }
    if at.themes >= r.themes.len() {
        return Step::Ask(Request::LoadTheme);
    }
    let next = Cursor { ran: at.ran, rainbow: at.rainbow, listed: at.listed, themes: at.themes + 1 };
    assert(r.themes@.skip(at.themes as int).drop_first() =~= r.themes@.skip(next.themes as int));
    assert(pending(*r, at).themes[0] == r.themes@[at.themes as int]);
    match &r.themes[at.themes] {
        Err(e) => Step::Done(Err(e.clone()), next),
        Ok(hex) => match apply_color_to_devices_summary(devices, hex.as_str(), false, r, next) {
            Step::Ask(q) => Step::Ask(q),
            Step::Done(summary, after) => {
                if summary.failed_devices.len() == 0 {
                    Step::Done(Ok(()), after)
                } else {
                    Step::Done(Err(join_texts(summary.failed_devices.as_slice(), " | ")), after)
                }
            },
        },
    }
}

/// A device that follows the theme: sync is on and its key is in the sync scope.
pub open spec fn in_sync_scope(conf: AppConfig, d: OpenRgbDevice) -> bool {
    conf.omarchy_sync_enabled && conf.omarchy_sync_devices@.contains(device_key(d))
}

/// The devices that follow the theme, and the others, each in their order.
pub open spec fn split_scope(conf: AppConfig, devs: Seq<OpenRgbDevice>) -> (Seq<OpenRgbDevice>, Seq<OpenRgbDevice>)
    decreases devs.len(),
{
    if devs.len() == 0 {
        (Seq::empty(), Seq::empty())
    } else {
        let (synced, rest) = split_scope(conf, devs.drop_last());
        if in_sync_scope(conf, devs.last()) {
            (synced.push(devs.last()), rest)
        } else {
            (synced, rest.push(devs.last()))
        }
    }
}

pub open spec fn with_listed(p: Pending, listed: Seq<Result<Vec<OpenRgbDevice>, String>>) -> Pending {
    Pending { ran: p.ran, rainbow: p.rainbow, listed, themes: p.themes }
}

/// The theme part of a restore: the devices that follow the theme get its colour, when
/// sync is on and there are any.
pub open spec fn theme_part(conf: AppConfig, synced: Seq<OpenRgbDevice>, p: Pending) -> Flow<Seq<Seq<char>>> {
    if conf.omarchy_sync_enabled && synced.len() > 0 {
        match theme_flow(synced, p) {
            Flow::Ask(q) => Flow::Ask(q),
            Flow::Done(res, p2) => Flow::Done(
                match res {
                    Ok(_) => Seq::empty(),
                    Err(m) => seq![m],
                },
                p2,
            ),
        }
    } else {
        Flow::Done(Seq::empty(), p)
    }
}

/// The other devices get their remembered states.
pub open spec fn saved_part(
    conf: AppConfig,
    rest: Seq<OpenRgbDevice>,
    p: Pending,
    failures: Seq<Seq<char>>,
) -> Flow<Seq<Seq<char>>> {
    match saved_states_flow(conf, rest, p) {
        Flow::Ask(q) => Flow::Ask(q),
        Flow::Done(res, p2) => Flow::Done(
            match res {
                Ok(_) => failures,
                Err(m) => failures.push(m),
            },
            p2,
        ),
    }
}

/// One restore attempt: list the devices after a pause (none listed is a failure),
/// list them again to bring the first listing up to date, then restore the theme to
/// the devices that follow it and the remembered states to the others.
pub open spec fn restore_once_flow(conf: AppConfig, pause_ms: u64, p: Pending) -> Flow<Result<(), Seq<char>>> {
    if p.listed.len() == 0 {
        Flow::Ask(Req::List(pause_ms))
    } else {
        match p.listed[0] {
            Err(e) => Flow::Done(Err(e@), with_listed(p, p.listed.drop_first())),
            Ok(first) => if first@.len() == 0 {
                Flow::Done(
                    Err("No OpenRGB devices available for startup restore"@),
                    with_listed(p, p.listed.drop_first()),
                )
            } else if p.listed.len() < 2 {
                Flow::Ask(Req::List(0))
            } else {
                let devs = match p.listed[1] {
                    Ok(latest) => first@.map_values(|d: OpenRgbDevice| refreshed(d, latest@)),
                    Err(_) => first@,
                };
                let (synced, rest) = split_scope(conf, devs);
                match theme_part(conf, synced, with_listed(p, p.listed.skip(2))) {
                    Flow::Ask(q) => Flow::Ask(q),
                    Flow::Done(f1, p2) => match saved_part(conf, rest, p2, f1) {
                        Flow::Ask(q) => Flow::Ask(q),
                        Flow::Done(f2, p3) => Flow::Done(outcome_of(f2), p3),
                    },
                }
            },
        }
    }
}

fn split_devices(conf: &AppConfig, devices: &Vec<OpenRgbDevice>) -> (r: (Vec<OpenRgbDevice>, Vec<OpenRgbDevice>))
    ensures
        (r.0@, r.1@) == split_scope(*conf, devices@),
{
    let mut synced: Vec<OpenRgbDevice> = Vec::new();
    let mut rest: Vec<OpenRgbDevice> = Vec::new();
    let mut i: usize = 0;
    assert(devices@.take(0) =~= Seq::<OpenRgbDevice>::empty());
    while i < devices.len()
        invariant
            i <= devices.len(),
            (synced@, rest@) == split_scope(*conf, devices@.take(i as int)),
        decreases devices.len() - i,
    {
        let d = devices[i].clone();
        assert(devices@.take(i + 1).drop_last() =~= devices@.take(i as int));
        assert(devices@.take(i + 1).last() == d);
        let key = device_profile_key(&d);
        if conf.omarchy_sync_enabled && conf.omarchy_sync_devices.contains(key.as_str()) {
            synced.push(d);
        } else {
            rest.push(d);
        }
        i = i + 1;
    }
    assert(devices@.take(devices.len() as int) =~= devices@);
    (synced, rest)
}


/// The next step of one restore attempt, whose first listing waits `pause_ms`.
pub fn restore_once(conf: &AppConfig, pause_ms: u64, r: &Replies, at: Cursor) -> (s: Step<Result<(), String>>)
    requires
        fits(*r, at),
    ensures
        step_matches(s, *r, restore_once_flow(*conf, pause_ms, pending(*r, at)), |x: Result<(), String>| result_view(x)),
{
    if at.listed >= r.listed.len() {
        return Step::Ask(Request::List { pause_ms });
    }
    let ghost p = pending(*r, at);
    assert(p.listed[0] == r.listed@[at.listed as int]);
    let one = Cursor { ran: at.ran, rainbow: at.rainbow, listed: at.listed + 1, themes: at.themes };
    assert(p.listed.drop_first() =~= r.listed@.skip(one.listed as int));
    let first = match &r.listed[at.listed] {
        Err(e) => return Step::Done(Err(e.clone()), one),
        Ok(first) => first,
    };
    if first.len() == 0 {
        return Step::Done(Err("No OpenRGB devices available for startup restore".to_string()), one);
    }
    if at.listed + 1 >= r.listed.len() {
        return Step::Ask(Request::List { pause_ms: 0 });
    }
    assert(p.listed[1] == r.listed@[at.listed + 1]);
    let mut devices = copy_devices(first);
    let _ = refresh_device_ids(&mut devices, copy_listing(&r.listed[at.listed + 1]));
    let two = Cursor { ran: at.ran, rainbow: at.rainbow, listed: at.listed + 2, themes: at.themes };
    assert(p.listed.skip(2) =~= r.listed@.skip(two.listed as int));
    assert(pending(*r, two) == with_listed(p, p.listed.skip(2)));
    let (synced, rest) = split_devices(conf, &devices);
    let mut failures: Vec<String> = Vec::new();
    let mut cur = two;
    if conf.omarchy_sync_enabled && synced.len() > 0 {
        match restore_theme_to_devices(synced.as_slice(), r, cur) {
            Step::Ask(q) => return Step::Ask(q),
            Step::Done(res, next) => {
                if let Err(m) = res {
                    failures.push(m);
                }
                cur = next;
            },
        }
    }
    assert(texts(failures@) =~= match theme_part(*conf, synced@, pending(*r, two)) {
        Flow::Done(f1, _) => f1,
        Flow::Ask(_) => Seq::empty(),
    });
    match restore_saved_device_states(conf, rest.as_slice(), r, cur) {
        Step::Ask(q) => Step::Ask(q),
        Step::Done(res, next) => {
            let ghost before = failures@;
            if let Err(m) = res {
                failures.push(m);
                assert(texts(failures@) =~= texts(before).push(m@));
            }
            Step::Done(outcome(&failures), next)
        },
    }
}

/// A startup restore: nothing unless it is switched on; refused when there is nothing
/// to restore; else one attempt after the configured pause, and when it fails, a
/// second after a second, whose result stands.
pub open spec fn perform_restore_flow(conf: AppConfig, p: Pending) -> Flow<Result<(), Seq<char>>> {
    if !conf.restore_on_startup {
        Flow::Done(Ok(()), p)
    } else if !restorable(conf) {
        Flow::Done(
            Err("No saved RGB state to restore yet. Set a manual color or turn lights off once before using startup restore."@),
            p,
        )
    } else {
        match restore_once_flow(conf, conf.startup_delay_ms, p) {
            Flow::Ask(q) => Flow::Ask(q),
            Flow::Done(res, p2) => match res {
                Ok(()) => Flow::Done(Ok(()), p2),
                Err(_) => restore_once_flow(conf, 1000, p2),
            },
        }
    }
}

/// The next step of a startup restore.
pub fn perform_restore(conf: &AppConfig, r: &Replies, at: Cursor) -> (s: Step<Result<(), String>>)
    requires
        fits(*r, at),
    ensures
        step_matches(s, *r, perform_restore_flow(*conf, pending(*r, at)), |x: Result<(), String>| result_view(x)),
{
    if !conf.restore_on_startup {
        return Step::Done(Ok(()), at);
    }
    if let Err(m) = validate_restore_config(conf) {
        return Step::Done(Err(m), at);
    }
    match restore_once(conf, conf.startup_delay_ms, r, at) {
        Step::Ask(q) => Step::Ask(q),
        Step::Done(Ok(()), next) => Step::Done(Ok(()), next),
        Step::Done(Err(_), next) => restore_once(conf, 1000, r, next),
    }
}

/// A restore routes every listed device one way: to the theme colour exactly the
/// devices whose settings key is in the sync scope while sync is on, to the
/// remembered states every other device; none is dropped and none goes both ways.
pub proof fn law_restore_routes_each_device_once(conf: AppConfig, devs: Seq<OpenRgbDevice>)
    ensures
        split_scope(conf, devs).0.len() + split_scope(conf, devs).1.len() == devs.len(),
        split_scope(conf, devs).0.len() > 0 ==> conf.omarchy_sync_enabled,
        forall|i: int|
            0 <= i < split_scope(conf, devs).0.len() ==> conf.omarchy_sync_devices@.contains(
                device_key(#[trigger] split_scope(conf, devs).0[i]),
            ) && devs.contains(split_scope(conf, devs).0[i]),
        forall|i: int|
            0 <= i < split_scope(conf, devs).1.len() ==> !(conf.omarchy_sync_enabled
                && conf.omarchy_sync_devices@.contains(device_key(#[trigger] split_scope(conf, devs).1[i])))
                && devs.contains(split_scope(conf, devs).1[i]),
    decreases devs.len(),
{
    if devs.len() > 0 {
        let prev = devs.drop_last();
        law_restore_routes_each_device_once(conf, prev);
        let synced = split_scope(conf, prev).0;
        let rest = split_scope(conf, prev).1;
        let last = devs.last();
        assert(devs[devs.len() - 1] == last);
        if in_sync_scope(conf, last) {
            assert(split_scope(conf, devs).0 == synced.push(last) && split_scope(conf, devs).1 == rest);
        } else {
            assert(split_scope(conf, devs).0 == synced && split_scope(conf, devs).1 == rest.push(last));
        }
        assert forall|i: int| 0 <= i < split_scope(conf, devs).0.len() implies conf.omarchy_sync_enabled
            && conf.omarchy_sync_devices@.contains(device_key(#[trigger] split_scope(conf, devs).0[i]))
            && devs.contains(split_scope(conf, devs).0[i]) by {
            let e = split_scope(conf, devs).0[i];
            if i < synced.len() {
                assert(e == synced[i]);
                assert(conf.omarchy_sync_devices@.contains(device_key(synced[i])));
                let j = choose|j: int| 0 <= j < prev.len() && prev[j] == synced[i];
                assert(devs[j] == e);
            } else {
                assert(e == last);
                assert(in_sync_scope(conf, last));
                assert(devs[devs.len() - 1] == e);
            }
        }
        if split_scope(conf, devs).0.len() > 0 {
            let e0 = split_scope(conf, devs).0[0];
            assert(conf.omarchy_sync_enabled && conf.omarchy_sync_devices@.contains(device_key(e0)));
        }
        assert forall|i: int| 0 <= i < split_scope(conf, devs).1.len() implies !(conf.omarchy_sync_enabled
            && conf.omarchy_sync_devices@.contains(device_key(#[trigger] split_scope(conf, devs).1[i])))
            && devs.contains(split_scope(conf, devs).1[i]) by {
            let e = split_scope(conf, devs).1[i];
            if i < rest.len() {
                assert(e == rest[i]);
                assert(!(conf.omarchy_sync_enabled && conf.omarchy_sync_devices@.contains(device_key(rest[i]))));
                let j = choose|j: int| 0 <= j < prev.len() && prev[j] == rest[i];
                assert(devs[j] == e);
            } else {
                assert(e == last);
                assert(!in_sync_scope(conf, last));
                assert(devs[devs.len() - 1] == e);
            }
        }
    } else {
        assert(split_scope(conf, devs).0.len() == 0 && split_scope(conf, devs).1.len() == 0);
    }
}

} // verus!
