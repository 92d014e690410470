//! Putting a colour, or rainbow mode, on a group of devices, with a second pass for
//! devices that need one, and the summary of what came of it.

use vstd::prelude::*;
use crate::collections::{texts, StringSet, TextMap};
use crate::flow::{
    color_flow, color_step, fits, pending, step_matches, Cursor, Flow, Pending, Replies, Req, Request,
    Step,
};
use crate::listing::{refresh_device_ids, refreshed};
use crate::openrgb::{device_key, device_profile_key, OpenRgbDevice};
use crate::summary::DeviceActionSummary;

verus! {

/// How a device fared: its name, whether the action succeeded, and why not.
#[derive(Debug)]
pub struct DeviceApplyStatus {
    pub name: String,
    pub success: bool,
    pub failure: Option<String>,
}

pub open spec fn ok_status(name: String) -> DeviceApplyStatus {
    DeviceApplyStatus { name, success: true, failure: None }
}

pub open spec fn fail_status(name: String, err: String) -> DeviceApplyStatus {
    DeviceApplyStatus { name, success: false, failure: Some(err) }
}

/// Device statuses by settings key, with the keys in the order of first recording.
pub type Table = (Seq<Seq<char>>, Map<Seq<char>, DeviceApplyStatus>);

pub open spec fn empty_table() -> Table {
    (Seq::empty(), Map::empty())
}

/// A status recorded under `k`: a new key goes last, a known one keeps its place.
pub open spec fn upsert(t: Table, k: Seq<char>, v: DeviceApplyStatus) -> Table {
    (if t.1.contains_key(k) { t.0 } else { t.0.push(k) }, t.1.insert(k, v))
}

pub open spec fn table_of(m: TextMap<DeviceApplyStatus>) -> Table {
    (m.ordered_keys(), m@)
}

/// The first pass: each device in order gets the colour; success is recorded, and
/// so is failure with its reason; devices that failed, or whose strategy asks for it,
/// are marked for a second pass.
pub open spec fn first_pass(
    devs: Seq<OpenRgbDevice>,
    hex: Seq<char>,
    p: Pending,
    t: Table,
    retry: Set<Seq<char>>,
) -> Flow<(Table, Set<Seq<char>>)>
    decreases devs.len(),
{
    if devs.len() == 0 {
        Flow::Done((t, retry), p)
    } else {
        let d = devs[0];
        let key = device_key(d);
        match color_flow(d, hex, p) {
            Flow::Ask(q) => Flow::Ask(q),
            Flow::Done(res, p2) => match res {
                Ok(a) => first_pass(
                    devs.drop_first(),
                    hex,
                    p2,
                    upsert(t, key, ok_status(d.name)),
                    if a.needs_retry {
                        retry.insert(key)
                    } else {
                        retry
                    },
                ),
                Err(e) => first_pass(
                    devs.drop_first(),
                    hex,
                    p2,
                    upsert(t, key, fail_status(d.name, e)),
                    retry.insert(key),
                ),
            },
        }
    }
}

/// The second pass over the devices of a fresh listing: each device marked for it gets
/// the colour again, and success replaces what the first pass recorded.
pub open spec fn retry_pass(
    devs: Seq<OpenRgbDevice>,
    hex: Seq<char>,
    p: Pending,
    t: Table,
    retry: Set<Seq<char>>,
) -> Flow<Table>
    decreases devs.len(),
{
    if devs.len() == 0 {
        Flow::Done(t, p)
    } else {
        let d = devs[0];
        let key = device_key(d);
        if !retry.contains(key) {
            retry_pass(devs.drop_first(), hex, p, t, retry)
        } else {
            match color_flow(d, hex, p) {
                Flow::Ask(q) => Flow::Ask(q),
                Flow::Done(res, p2) => retry_pass(
                    devs.drop_first(),
                    hex,
                    p2,
                    if res is Ok {
                        upsert(t, key, ok_status(d.name))
                    } else {
                        t
                    },
                    retry,
                ),
            }
        }
    }
}

pub open spec fn with_listed(p: Pending, listed: Seq<Result<Vec<OpenRgbDevice>, String>>) -> Pending {
    Pending { ran: p.ran, rainbow: p.rainbow, listed, themes: p.themes }
}

/// The milliseconds to wait before the second pass lists the devices again.
pub open spec fn retry_pause_ms() -> u64 {
    1500
}

/// The second pass, when any device is marked for it: after a pause, list the devices;
/// when that fails there is no second pass; else list them once more to bring the
/// first listing up to date, and give the colour again.
pub open spec fn retry_flow(hex: Seq<char>, p: Pending, t: Table, retry: Set<Seq<char>>) -> Flow<
    Table,
> {
    if retry == Set::<Seq<char>>::empty() {
        Flow::Done(t, p)
    } else if p.listed.len() == 0 {
        Flow::Ask(Req::List(retry_pause_ms()))
    } else {
        match p.listed[0] {
            Err(_) => Flow::Done(t, with_listed(p, p.listed.drop_first())),
            Ok(first) => if p.listed.len() < 2 {
                Flow::Ask(Req::List(0))
            } else {
                let devs = match p.listed[1] {
                    Ok(latest) => first@.map_values(|d: OpenRgbDevice| refreshed(d, latest@)),
                    Err(_) => first@,
                };
                retry_pass(devs, hex, with_listed(p, p.listed.skip(2)), t, retry)
            },
        }
    }
}

/// The message for a device that failed: its name, `: `, and the reason.
pub open spec fn failure_message(s: DeviceApplyStatus) -> Seq<char> {
    s.name@ + ": "@ + s.failure->0@
}

/// The keys of the devices that succeeded, and a message for each that failed
/// with a reason, in the order of the keys.
pub open spec fn summarized(keys: Seq<Seq<char>>, m: Map<Seq<char>, DeviceApplyStatus>) -> (
    Seq<Seq<char>>,
    Seq<Seq<char>>,
)
    decreases keys.len(),
{
    if keys.len() == 0 {
        (Seq::empty(), Seq::empty())
    } else {
        let (ok, failed) = summarized(keys.drop_last(), m);
        let s = m[keys.last()];
        if s.success {
            (ok.push(keys.last()), failed)
        } else if s.failure is Some {
            (ok, failed.push(failure_message(s)))
        } else {
            (ok, failed)
        }
    }
}

pub open spec fn summary_view(s: DeviceActionSummary) -> (Seq<Seq<char>>, Seq<Seq<char>>) {
    (texts(s.succeeded_keys@), texts(s.failed_devices@))
}

/// The summary once the second pass is through.
pub open spec fn summary_after(f: Flow<Table>) -> Flow<(Seq<Seq<char>>, Seq<Seq<char>>)> {
    match f {
        Flow::Ask(q) => Flow::Ask(q),
        Flow::Done(t2, p3) => Flow::Done(summarized(t2.0, t2.1), p3),
    }
}

/// Putting colour `hex` on `devices`: the first pass, the second pass, and the
/// summary. Whether partial failure should fail makes no difference to it.
pub open spec fn devices_color_flow(
    devices: Seq<OpenRgbDevice>,
    hex: Seq<char>,
    fail_on_partial: bool,
    p: Pending,
) -> Flow<(Seq<Seq<char>>, Seq<Seq<char>>)> {
    match first_pass(devices, hex, p, empty_table(), Set::empty()) {
        Flow::Ask(q) => Flow::Ask(q),
        Flow::Done((t, retry), p2) => summary_after(retry_flow(hex, p2, t, retry)),
    }
}

/// A copy of a list of devices.
pub(crate) fn copy_devices(v: &Vec<OpenRgbDevice>) -> (r: Vec<OpenRgbDevice>)
    ensures
        r@ == v@,
{
    let mut r: Vec<OpenRgbDevice> = Vec::new();
    let mut i: usize = 0;
    while i < v.len()
        invariant
            i <= v.len(),
            r@ == v@.take(i as int),
        decreases v.len() - i,
    {
        r.push(v[i].clone());
        assert(v@.take(i + 1) =~= v@.take(i as int).push(v@[i as int]));
        i = i + 1;
    }
    assert(v@.take(v.len() as int) =~= v@);
    r
}

/// A copy of a listing.
pub(crate) fn copy_listing(l: &Result<Vec<OpenRgbDevice>, String>) -> (r: Result<Vec<OpenRgbDevice>, String>)
    ensures
        match (r, *l) {
            (Ok(a), Ok(b)) => a@ == b@,
            (Err(a), Err(b)) => a == b,
            _ => false,
        },
{
    match l {
        Ok(v) => Ok(copy_devices(v)),
        Err(e) => Err(e.clone()),
    }
}

fn summarize(table: &TextMap<DeviceApplyStatus>) -> (r: DeviceActionSummary)
    ensures
        summary_view(r) == summarized(table.ordered_keys(), table@),
{
    table.key_facts();
    let entries = table.entries();
    let ghost keys = table.ordered_keys();
    let mut succeeded_keys: Vec<String> = Vec::new();
    let mut failures: Vec<String> = Vec::new();
    let mut i: usize = 0;
    proof {
        crate::collections::lemma_map_of_dom(entries@);
    }
    while i < entries.len()
        invariant
            i <= entries.len(),
            keys == table.ordered_keys(),
            keys == crate::collections::entry_keys(entries@),
            keys.no_duplicates(),
            crate::collections::map_of(entries@) == table@,
            (texts(succeeded_keys@), texts(failures@)) == summarized(keys.take(i as int), table@),
        decreases entries.len() - i,
    {
        let (key, status) = &entries[i];
        proof {
            crate::collections::lemma_map_of_at(entries@, i as int);
        }
        assert(keys.take(i + 1).drop_last() =~= keys.take(i as int));
        assert(keys.take(i + 1).last() == key@);
        if status.success {
            let ghost before = succeeded_keys@;
            succeeded_keys.push(key.clone());
            assert(texts(succeeded_keys@) =~= texts(before).push(key@));
        } else if let Some(err) = &status.failure {
            let ghost before = failures@;
            let message = status.name.clone().concat(": ").concat(err.as_str());
            failures.push(message);
            assert(texts(failures@) =~= texts(before).push(failure_message(*status)));
        }
        i = i + 1;
    }
    assert(keys.take(entries.len() as int) =~= keys);
    DeviceActionSummary::from_counts(succeeded_keys, failures)
}

fn record_status(table: &mut TextMap<DeviceApplyStatus>, key: String, status: DeviceApplyStatus)
    ensures
        table_of(*final(table)) == upsert(table_of(*old(table)), key@, status),
{
    table.insert(key, status);
}

/// The next step of putting colour `color` on `devices`, given the replies from `at`
/// on: a command to run or a listing to take, or the summary.
pub fn apply_color_to_devices_summary(
    devices: &[OpenRgbDevice],
    color: &str,
    fail_on_partial: bool,
    r: &Replies,
    at: Cursor,
) -> (s: Step<DeviceActionSummary>)
    requires
        fits(*r, at),
    ensures
        step_matches(
            s,
            *r,
            devices_color_flow(devices@, color@, fail_on_partial, pending(*r, at)),
            |x: DeviceActionSummary| summary_view(x),
        ),
{
    let mut table: TextMap<DeviceApplyStatus> = TextMap::new();
    let mut retry = StringSet::new();
    let mut cur = at;
    let mut i: usize = 0;
    let ghost whole = first_pass(devices@, color@, pending(*r, at), empty_table(), Set::empty());
    assert(devices@.skip(0) =~= devices@);
    assert(table_of(table) =~= empty_table());
    while i < devices.len()
        invariant
            i <= devices.len(),
            fits(*r, cur),
            whole == first_pass(devices@, color@, pending(*r, at), empty_table(), Set::empty()),
            whole == first_pass(devices@.skip(i as int), color@, pending(*r, cur), table_of(table), retry@),
        decreases devices.len() - i,
    {
        let device = &devices[i];
        assert(devices@.skip(i as int)[0] == *device);
        assert(devices@.skip(i as int).drop_first() =~= devices@.skip(i + 1));
        match color_step(device, color, r, cur) {
            Step::Ask(q) => return Step::Ask(q),
            Step::Done(result, next) => {
                let key = device_profile_key(device);
                match result {
                    Ok(applied) => {
                        record_status(
                            &mut table,
                            key.clone(),
                            DeviceApplyStatus { name: device.name.clone(), success: true, failure: None },
                        );
                        if applied.needs_retry {
                            retry.insert(key);
                        }
                    },
                    Err(err) => {
                        record_status(
                            &mut table,
                            key.clone(),
                            DeviceApplyStatus { name: device.name.clone(), success: false, failure: Some(err) },
                        );
                        retry.insert(key);
                    },
                }
                cur = next;
            },
        }
        i = i + 1;
    }
    assert(devices@.skip(devices.len() as int) =~= Seq::<OpenRgbDevice>::empty());
    let ghost t1 = table_of(table);
    let ghost p2 = pending(*r, cur);
    let ghost second = retry_flow(color@, p2, t1, retry@);
    let ghost total = devices_color_flow(devices@, color@, fail_on_partial, pending(*r, at));
    assert(total == summary_after(second));
    if !retry.is_empty() {
        if cur.listed >= r.listed.len() {
            return Step::Ask(Request::List { pause_ms: 1500 });
        }
        assert(p2.listed[0] == r.listed@[cur.listed as int]);
        match &r.listed[cur.listed] {
            Err(_) => {
                cur.listed = cur.listed + 1;
                assert(p2.listed.drop_first() =~= r.listed@.skip(cur.listed as int));
            },
            Ok(first) => {
                if cur.listed + 1 >= r.listed.len() {
                    return Step::Ask(Request::List { pause_ms: 0 });
                }
                assert(p2.listed[1] == r.listed@[cur.listed + 1]);
                let mut devs = copy_devices(first);
                let latest = copy_listing(&r.listed[cur.listed + 1]);
                let _ = refresh_device_ids(&mut devs, latest);
                let ghost devs0 = devs@;
                cur.listed = cur.listed + 2;
                assert(p2.listed.skip(2) =~= r.listed@.skip(cur.listed as int));
                assert(pending(*r, cur) == crate::devices::with_listed(p2, p2.listed.skip(2)));
                let mut j: usize = 0;
                assert(devs@.skip(0) =~= devs@);
                while j < devs.len()
                    invariant
                        j <= devs.len(),
                        devs@ == devs0,
                        fits(*r, cur),
                        total == summary_after(second),
                        total == devices_color_flow(devices@, color@, fail_on_partial, pending(*r, at)),
                        second == retry_pass(devs@.skip(j as int), color@, pending(*r, cur), table_of(table), retry@),
                    decreases devs.len() - j,
                {
                    let device = &devs[j];
                    assert(devs@.skip(j as int)[0] == *device);
                    assert(devs@.skip(j as int).drop_first() =~= devs@.skip(j + 1));
                    let key = device_profile_key(device);
                    if retry.contains(key.as_str()) {
                        match color_step(device, color, r, cur) {
                            Step::Ask(q) => return Step::Ask(q),
                            Step::Done(result, next) => {
                                if result.is_ok() {
                                    record_status(
                                        &mut table,
                                        key,
                                        DeviceApplyStatus { name: device.name.clone(), success: true, failure: None },
                                    );
                                }
                                cur = next;
                            },
                        }
                    }
                    j = j + 1;
                }
                assert(devs@.skip(devs.len() as int) =~= Seq::<OpenRgbDevice>::empty());
            },
        }
    }
    let summary = summarize(&table);
    if fail_on_partial && summary.failed_devices.len() > 0 && summary.succeeded_keys.len() == 0 {
        let none: Vec<String> = Vec::new();
        assert(none@ =~= summary.succeeded_keys@);
        return Step::Done(DeviceActionSummary::from_counts(none, summary.failed_devices), cur);
    }
    Step::Done(summary, cur)
}

pub open spec fn with_rainbow(p: Pending, rainbow: Seq<Result<(), String>>) -> Pending {
    Pending { ran: p.ran, rainbow, listed: p.listed, themes: p.themes }
}

/// Rainbow mode for each device in order: the key of each device where it worked,
/// the reason where it did not.
pub open spec fn rainbow_pass(
    devs: Seq<OpenRgbDevice>,
    p: Pending,
    ok: Seq<Seq<char>>,
    failed: Seq<Seq<char>>,
) -> Flow<(Seq<Seq<char>>, Seq<Seq<char>>)>
    decreases devs.len(),
{
    if devs.len() == 0 {
        Flow::Done((ok, failed), p)
    } else if p.rainbow.len() == 0 {
        Flow::Ask(Req::Rainbow(devs[0]))
    } else {
        let rest = with_rainbow(p, p.rainbow.drop_first());
        match p.rainbow[0] {
            Ok(()) => rainbow_pass(devs.drop_first(), rest, ok.push(device_key(devs[0])), failed),
            Err(e) => rainbow_pass(devs.drop_first(), rest, ok, failed.push(e@)),
        }
    }
}

/// Rainbow mode on `devices`, summarized. Whether partial failure should fail makes
/// no difference to it.
pub open spec fn devices_rainbow_flow(devices: Seq<OpenRgbDevice>, fail_on_partial: bool, p: Pending) -> Flow<
    (Seq<Seq<char>>, Seq<Seq<char>>),
> {
    rainbow_pass(devices, p, Seq::empty(), Seq::empty())
}

/// The next step of putting `devices` in rainbow mode, given the replies from `at` on.
pub fn set_rainbow_for_devices_summary(
    devices: &[OpenRgbDevice],
    fail_on_partial: bool,
    r: &Replies,
    at: Cursor,
) -> (s: Step<DeviceActionSummary>)
    requires
        fits(*r, at),
    ensures
        step_matches(
            s,
            *r,
            devices_rainbow_flow(devices@, fail_on_partial, pending(*r, at)),
            |x: DeviceActionSummary| summary_view(x),
        ),
{
    let mut failures: Vec<String> = Vec::new();
    let mut succeeded_keys: Vec<String> = Vec::new();
    let mut cur = at;
    let mut i: usize = 0;
    let ghost whole = devices_rainbow_flow(devices@, fail_on_partial, pending(*r, at));
    assert(devices@.skip(0) =~= devices@);
    assert(texts(succeeded_keys@) =~= Seq::<Seq<char>>::empty());
    assert(texts(failures@) =~= Seq::<Seq<char>>::empty());
    while i < devices.len()
        invariant
            i <= devices.len(),
            fits(*r, cur),
            whole == devices_rainbow_flow(devices@, fail_on_partial, pending(*r, at)),
            whole == rainbow_pass(
                devices@.skip(i as int),
                pending(*r, cur),
                texts(succeeded_keys@),
                texts(failures@),
            ),
        decreases devices.len() - i,
    {
        let device = &devices[i];
        assert(devices@.skip(i as int)[0] == *device);
        assert(devices@.skip(i as int).drop_first() =~= devices@.skip(i + 1));
        if cur.rainbow >= r.rainbow.len() {
            return Step::Ask(Request::Rainbow(device.clone()));
        }
        let key = device_profile_key(device);
        assert(pending(*r, cur).rainbow[0] == r.rainbow@[cur.rainbow as int]);
        match &r.rainbow[cur.rainbow] {
            Ok(()) => {
                let ghost before = succeeded_keys@;
                succeeded_keys.push(key);
                assert(texts(succeeded_keys@) =~= texts(before).push(device_key(*device)));
            },
            Err(err) => {
                let ghost before = failures@;
                failures.push(err.clone());
                assert(texts(failures@) =~= texts(before).push(err@));
            },
        }
        cur.rainbow = cur.rainbow + 1;
        assert(r.rainbow@.skip(cur.rainbow - 1).drop_first() =~= r.rainbow@.skip(cur.rainbow as int));
        i = i + 1;
    }
    assert(devices@.skip(devices.len() as int) =~= Seq::<OpenRgbDevice>::empty());
    if fail_on_partial && failures.len() > 0 && succeeded_keys.len() == 0 {
        let none: Vec<String> = Vec::new();
        assert(none@ =~= succeeded_keys@);
        return Step::Done(DeviceActionSummary::from_counts(none, failures), cur);
    }
    Step::Done(DeviceActionSummary::from_counts(succeeded_keys, failures), cur)
}

/// Whether partial failure should fail makes no difference to what colouring a group
/// of devices does or reports.
pub proof fn law_partial_failure_flag_changes_nothing(devices: Seq<OpenRgbDevice>, hex: Seq<char>, p: Pending)
    ensures
        devices_color_flow(devices, hex, true, p) == devices_color_flow(devices, hex, false, p),
        devices_rainbow_flow(devices, true, p) == devices_rainbow_flow(devices, false, p),
{
}

/// Whether `k` is the key of one of `devs` whose rainbow reply in `p` is a success.
pub open spec fn key_of_ok_reply(devs: Seq<OpenRgbDevice>, p: Pending, k: Seq<char>) -> bool {
    exists|i: int| 0 <= i < devs.len() && #[trigger] p.rainbow[i] is Ok && k == device_key(devs[i])
}

/// Whether `m` is the message of a rainbow reply in `p` for one of `devs` that failed.
pub open spec fn message_of_failed_reply(devs: Seq<OpenRgbDevice>, p: Pending, m: Seq<char>) -> bool {
    exists|i: int| 0 <= i < devs.len() && #[trigger] p.rainbow[i] is Err && m == p.rainbow[i]->Err_0@
}

/// The succeeded keys that a rainbow pass comes to.
pub open spec fn rainbow_ok(devs: Seq<OpenRgbDevice>, p: Pending, ok0: Seq<Seq<char>>, failed0: Seq<Seq<char>>) -> Seq<Seq<char>> {
    rainbow_pass(devs, p, ok0, failed0)->Done_0.0
}

/// The failures that a rainbow pass comes to.
pub open spec fn rainbow_failed(devs: Seq<OpenRgbDevice>, p: Pending, ok0: Seq<Seq<char>>, failed0: Seq<Seq<char>>) -> Seq<Seq<char>> {
    rainbow_pass(devs, p, ok0, failed0)->Done_0.1
}

#[verifier::spinoff_prover]
#[verifier::rlimit(40)]
proof fn lemma_rainbow_pass(
    devs: Seq<OpenRgbDevice>,
    p: Pending,
    ok0: Seq<Seq<char>>,
    failed0: Seq<Seq<char>>,
)
    requires
        p.rainbow.len() >= devs.len(),
    ensures
        rainbow_pass(devs, p, ok0, failed0) is Done,
        rainbow_pass(devs, p, ok0, failed0)->Done_1.rainbow == p.rainbow.skip(devs.len() as int),
        rainbow_ok(devs, p, ok0, failed0).len() + rainbow_failed(devs, p, ok0, failed0).len() == ok0.len()
            + failed0.len() + devs.len(),
        rainbow_ok(devs, p, ok0, failed0).len() >= ok0.len(),
        rainbow_failed(devs, p, ok0, failed0).len() >= failed0.len(),
        rainbow_ok(devs, p, ok0, failed0).take(ok0.len() as int) == ok0,
        rainbow_failed(devs, p, ok0, failed0).take(failed0.len() as int) == failed0,
        forall|i: int|
            0 <= i < devs.len() && #[trigger] p.rainbow[i] is Ok ==> rainbow_ok(devs, p, ok0, failed0).contains(
                device_key(devs[i]),
            ),
        forall|i: int|
            0 <= i < devs.len() && #[trigger] p.rainbow[i] is Err ==> rainbow_failed(
                devs,
                p,
                ok0,
                failed0,
            ).contains(p.rainbow[i]->Err_0@),
        forall|j: int|
            #![trigger rainbow_ok(devs, p, ok0, failed0)[j]]
            ok0.len() <= j < rainbow_ok(devs, p, ok0, failed0).len() ==> key_of_ok_reply(
                devs,
                p,
                rainbow_ok(devs, p, ok0, failed0)[j],
            ),
        forall|j: int|
            #![trigger rainbow_failed(devs, p, ok0, failed0)[j]]
            failed0.len() <= j < rainbow_failed(devs, p, ok0, failed0).len() ==> message_of_failed_reply(
                devs,
                p,
                rainbow_failed(devs, p, ok0, failed0)[j],
            ),
    decreases devs.len(),
{
    if devs.len() == 0 {
        assert(ok0.take(ok0.len() as int) =~= ok0);
        assert(failed0.take(failed0.len() as int) =~= failed0);
        assert(p.rainbow.skip(0) =~= p.rainbow);
        assert(rainbow_ok(devs, p, ok0, failed0) == ok0);
        assert(rainbow_failed(devs, p, ok0, failed0) == failed0);
    } else {
        let rest = with_rainbow(p, p.rainbow.drop_first());
        let d = devs[0];
        let tail = devs.drop_first();
        let (ok1, failed1) = match p.rainbow[0] {
            Ok(()) => (ok0.push(device_key(d)), failed0),
            Err(e) => (ok0, failed0.push(e@)),
        };
        lemma_rainbow_pass(tail, rest, ok1, failed1);
        let (ok, failed) = rainbow_pass(tail, rest, ok1, failed1)->Done_0;
        let p2 = rainbow_pass(tail, rest, ok1, failed1)->Done_1;
        assert(rainbow_pass(devs, p, ok0, failed0) == rainbow_pass(tail, rest, ok1, failed1));
        assert(rainbow_ok(devs, p, ok0, failed0) == ok);
        assert(rainbow_failed(devs, p, ok0, failed0) == failed);
        assert(ok == rainbow_ok(tail, rest, ok1, failed1));
        assert(failed == rainbow_failed(tail, rest, ok1, failed1));
        assert(p2.rainbow == p.rainbow.skip(devs.len() as int)) by {
            assert(p.rainbow.drop_first().skip(tail.len() as int) =~= p.rainbow.skip(devs.len() as int));
        }
        assert(ok.take(ok0.len() as int) == ok0) by {
            assert(ok.take(ok0.len() as int) =~= ok.take(ok1.len() as int).take(ok0.len() as int));
        }
        assert(failed.take(failed0.len() as int) == failed0) by {
            assert(failed.take(failed0.len() as int) =~= failed.take(failed1.len() as int).take(
                failed0.len() as int,
            ));
        }
        assert forall|i: int| 0 <= i < devs.len() && #[trigger] p.rainbow[i] is Ok implies ok.contains(
            device_key(devs[i]),
        ) by {
            if i == 0 {
                assert(ok.take(ok1.len() as int) == ok1);
                assert(ok[ok0.len() as int] == ok1[ok0.len() as int]);
            } else {
                assert(rest.rainbow[i - 1] == p.rainbow[i]);
                assert(tail[i - 1] == devs[i]);
            }
        }
        assert forall|i: int| 0 <= i < devs.len() && #[trigger] p.rainbow[i] is Err implies failed.contains(
            p.rainbow[i]->Err_0@,
        ) by {
            if i == 0 {
                assert(failed.take(failed1.len() as int) == failed1);
                assert(failed[failed0.len() as int] == failed1[failed0.len() as int]);
            } else {
                assert(rest.rainbow[i - 1] == p.rainbow[i]);
            }
        }
        assert forall|j: int| #![trigger ok[j]] ok0.len() <= j < ok.len() implies key_of_ok_reply(devs, p, ok[j]) by {
            if j < ok1.len() {
                assert(ok.take(ok1.len() as int) == ok1);
                assert(ok[j] == ok1[j]);
                assert(p.rainbow[0] is Ok && ok[j] == device_key(devs[0]));
            } else {
                assert(key_of_ok_reply(tail, rest, ok[j]));
                let i1 = choose|i1: int|
                    0 <= i1 < tail.len() && #[trigger] rest.rainbow[i1] is Ok && ok[j] == device_key(
                        tail[i1],
                    );
                assert(rest.rainbow[i1] == p.rainbow[i1 + 1]);
                assert(tail[i1] == devs[i1 + 1]);
                assert(p.rainbow[i1 + 1] is Ok);
            }
        }
        assert forall|j: int| #![trigger failed[j]] failed0.len() <= j < failed.len() implies message_of_failed_reply(devs, p, failed[j]) by {
            if j < failed1.len() {
                assert(failed.take(failed1.len() as int) == failed1);
                assert(failed[j] == failed1[j]);
                assert(p.rainbow[0] is Err);
            } else {
                assert(message_of_failed_reply(tail, rest, failed[j]));
                let i1 = choose|i1: int|
                    0 <= i1 < tail.len() && #[trigger] rest.rainbow[i1] is Err && failed[j]
                        == rest.rainbow[i1]->Err_0@;
                assert(rest.rainbow[i1] == p.rainbow[i1 + 1]);
                assert(p.rainbow[i1 + 1] is Err);
            }
        }
    }
}

/// Rainbow mode on a group of devices reports each reply: it finishes with the
/// succeeded keys `rainbow_ok` and the failures `rainbow_failed`; the key of every
/// device whose reply is a success is among the succeeded keys, the message of every
/// failed reply is among the failures, every succeeded key is the key of a device
/// whose reply is a success, every failure is the message of a failed reply, and
/// there are as many of both together as devices.
pub proof fn law_rainbow_reports_each_reply(devices: Seq<OpenRgbDevice>, fail_on_partial: bool, p: Pending)
    requires
        p.rainbow.len() >= devices.len(),
    ensures
        ({
            let e = Seq::<Seq<char>>::empty();
            devices_rainbow_flow(devices, fail_on_partial, p) == Flow::Done(
                (rainbow_ok(devices, p, e, e), rainbow_failed(devices, p, e, e)),
                rainbow_pass(devices, p, e, e)->Done_1,
            )
        }),
        rainbow_ok(devices, p, Seq::empty(), Seq::empty()).len() + rainbow_failed(
            devices,
            p,
            Seq::empty(),
            Seq::empty(),
        ).len() == devices.len(),
        forall|i: int|
            0 <= i < devices.len() && #[trigger] p.rainbow[i] is Ok ==> rainbow_ok(
                devices,
                p,
                Seq::empty(),
                Seq::empty(),
            ).contains(device_key(devices[i])),
        forall|i: int|
            0 <= i < devices.len() && #[trigger] p.rainbow[i] is Err ==> rainbow_failed(
                devices,
                p,
                Seq::empty(),
                Seq::empty(),
            ).contains(p.rainbow[i]->Err_0@),
        forall|j: int|
            #![trigger rainbow_ok(devices, p, Seq::empty(), Seq::empty())[j]]
            0 <= j < rainbow_ok(devices, p, Seq::empty(), Seq::empty()).len() ==> key_of_ok_reply(
                devices,
                p,
                rainbow_ok(devices, p, Seq::empty(), Seq::empty())[j],
            ),
        forall|j: int|
            #![trigger rainbow_failed(devices, p, Seq::empty(), Seq::empty())[j]]
            0 <= j < rainbow_failed(devices, p, Seq::empty(), Seq::empty()).len()
                ==> message_of_failed_reply(
                devices,
                p,
                rainbow_failed(devices, p, Seq::empty(), Seq::empty())[j],
            ),
{
    lemma_rainbow_pass(devices, p, Seq::empty(), Seq::empty());
    assert forall|j: int|
        #![trigger rainbow_ok(devices, p, Seq::empty(), Seq::empty())[j]]
        0 <= j < rainbow_ok(devices, p, Seq::empty(), Seq::empty()).len() implies key_of_ok_reply(
            devices,
            p,
            rainbow_ok(devices, p, Seq::empty(), Seq::empty())[j],
        ) by {
        assert(Seq::<Seq<char>>::empty().len() <= j);
    }
    assert forall|j: int|
        #![trigger rainbow_failed(devices, p, Seq::empty(), Seq::empty())[j]]
        0 <= j < rainbow_failed(devices, p, Seq::empty(), Seq::empty()).len() implies message_of_failed_reply(
            devices,
            p,
            rainbow_failed(devices, p, Seq::empty(), Seq::empty())[j],
        ) by {
        assert(Seq::<Seq<char>>::empty().len() <= j);
    }
}

/// Whether `msg` is the failure message of one of `keys` whose status in `m` is not
/// a success.
pub open spec fn message_of_failed_key(keys: Seq<Seq<char>>, m: Map<Seq<char>, DeviceApplyStatus>, msg: Seq<char>) -> bool {
    exists|i: int| 0 <= i < keys.len() && !(#[trigger] m[keys[i]]).success && msg == failure_message(m[keys[i]])
}

proof fn lemma_retry_pass_keeps_success(
    devs: Seq<OpenRgbDevice>,
    hex: Seq<char>,
    p: Pending,
    t: Table,
    retry: Set<Seq<char>>,
    k: Seq<char>,
)
    requires
        t.1.contains_key(k),
        t.1[k].success,
        t.1[k].failure is None,
        t.0.contains(k),
    ensures
        retry_pass(devs, hex, p, t, retry) is Done ==> retry_pass(devs, hex, p, t, retry)->Done_0.1.contains_key(k),
        retry_pass(devs, hex, p, t, retry) is Done ==> retry_pass(devs, hex, p, t, retry)->Done_0.1[k].success,
        retry_pass(devs, hex, p, t, retry) is Done ==> retry_pass(devs, hex, p, t, retry)->Done_0.1[k].failure is None,
        retry_pass(devs, hex, p, t, retry) is Done ==> retry_pass(devs, hex, p, t, retry)->Done_0.0.contains(k),
    decreases devs.len(),
{
    if devs.len() > 0 {
        let d = devs[0];
        let key = device_key(d);
        if !retry.contains(key) {
            lemma_retry_pass_keeps_success(devs.drop_first(), hex, p, t, retry, k);
        } else {
            match color_flow(d, hex, p) {
                Flow::Ask(q) => {},
                Flow::Done(res, p2) => {
                    let t1 = if res is Ok {
                        upsert(t, key, ok_status(d.name))
                    } else {
                        t
                    };
                    let i0 = choose|i0: int| 0 <= i0 < t.0.len() && t.0[i0] == k;
                    if !t.1.contains_key(key) {
                        assert(t.0.push(key)[i0] == k);
                    }
                    assert(t1.0.contains(k));
                    lemma_retry_pass_keeps_success(devs.drop_first(), hex, p2, t1, retry, k);
                },
            }
        }
    }
}

proof fn lemma_summarized_has_success(keys: Seq<Seq<char>>, m: Map<Seq<char>, DeviceApplyStatus>, k: Seq<char>)
    requires
        keys.contains(k),
        m[k].success,
    ensures
        summarized(keys, m).0.contains(k),
    decreases keys.len(),
{
    let i0 = choose|i0: int| 0 <= i0 < keys.len() && keys[i0] == k;
    let ok = summarized(keys.drop_last(), m).0;
    if keys.last() == k {
        assert(ok.push(k)[ok.len() as int] == k);
    } else {
        assert(keys.drop_last()[i0] == k);
        lemma_summarized_has_success(keys.drop_last(), m, k);
        let j0 = choose|j0: int| 0 <= j0 < ok.len() && ok[j0] == k;
        assert(ok.push(keys.last())[j0] == k);
    }
}

proof fn lemma_summarized_failures(keys: Seq<Seq<char>>, m: Map<Seq<char>, DeviceApplyStatus>)
    ensures
        forall|j: int|
            #![trigger summarized(keys, m).1[j]]
            0 <= j < summarized(keys, m).1.len() ==> message_of_failed_key(keys, m, summarized(keys, m).1[j]),
    decreases keys.len(),
{
    if keys.len() > 0 {
        let front = keys.drop_last();
        lemma_summarized_failures(front, m);
        let failed = summarized(front, m).1;
        assert forall|j: int| #![trigger summarized(keys, m).1[j]] 0 <= j < summarized(keys, m).1.len() implies message_of_failed_key(keys, m, summarized(keys, m).1[j]) by {
            if j < failed.len() {
                assert(summarized(keys, m).1[j] == failed[j]);
                assert(message_of_failed_key(front, m, failed[j]));
                let i1 = choose|i1: int| 0 <= i1 < front.len() && !(#[trigger] m[front[i1]]).success && failed[j] == failure_message(m[front[i1]]);
                assert(front[i1] == keys[i1]);
            } else {
                let i1 = keys.len() - 1;
                assert(keys[i1] == keys.last());
                assert(!m[keys[i1]].success);
            }
        }
    }
}

/// A device marked for the second pass on which the colour then succeeds is reported
/// as succeeded: its status is a success with no failure, its key is among the
/// succeeded keys of the summary, and every failure in the summary is the message of
/// a device whose status is not a success. Any success already recorded stays.
pub proof fn law_second_pass_success_is_reported(
    devs: Seq<OpenRgbDevice>,
    hex: Seq<char>,
    p: Pending,
    t: Table,
    retry: Set<Seq<char>>,
)
    requires
        devs.len() > 0,
        retry.contains(device_key(devs[0])),
        color_flow(devs[0], hex, p) is Done,
        color_flow(devs[0], hex, p)->Done_0 is Ok,
        forall|k: Seq<char>| #[trigger] t.1.contains_key(k) ==> t.0.contains(k),
    ensures
        retry_pass(devs, hex, p, t, retry) is Done ==> retry_pass(devs, hex, p, t, retry)->Done_0.1[device_key(devs[0])].success,
        retry_pass(devs, hex, p, t, retry) is Done ==> retry_pass(devs, hex, p, t, retry)->Done_0.1[device_key(devs[0])].failure is None,
        retry_pass(devs, hex, p, t, retry) is Done ==> summarized(
            retry_pass(devs, hex, p, t, retry)->Done_0.0,
            retry_pass(devs, hex, p, t, retry)->Done_0.1,
        ).0.contains(device_key(devs[0])),
        forall|j: int|
            #![trigger summarized(retry_pass(devs, hex, p, t, retry)->Done_0.0, retry_pass(devs, hex, p, t, retry)->Done_0.1).1[j]]
            retry_pass(devs, hex, p, t, retry) is Done && 0 <= j < summarized(
                retry_pass(devs, hex, p, t, retry)->Done_0.0,
                retry_pass(devs, hex, p, t, retry)->Done_0.1,
            ).1.len() ==> message_of_failed_key(
                retry_pass(devs, hex, p, t, retry)->Done_0.0,
                retry_pass(devs, hex, p, t, retry)->Done_0.1,
                summarized(
                    retry_pass(devs, hex, p, t, retry)->Done_0.0,
                    retry_pass(devs, hex, p, t, retry)->Done_0.1,
                ).1[j],
            ),
        forall|k: Seq<char>|
            t.1.contains_key(k) && #[trigger] t.1[k].success && t.1[k].failure is None && retry_pass(devs, hex, p, t, retry) is Done
                ==> retry_pass(devs, hex, p, t, retry)->Done_0.1[k].success,
{
    let d = devs[0];
    let key = device_key(d);
    let p2 = color_flow(d, hex, p)->Done_1;
    let t1 = upsert(t, key, ok_status(d.name));
    assert(retry_pass(devs, hex, p, t, retry) == retry_pass(devs.drop_first(), hex, p2, t1, retry));
    assert(t1.0.contains(key)) by {
        if !t.1.contains_key(key) {
            assert(t.0.push(key)[t.0.len() as int] == key);
        }
    }
    lemma_retry_pass_keeps_success(devs.drop_first(), hex, p2, t1, retry, key);
    if retry_pass(devs, hex, p, t, retry) is Done {
        let t2 = retry_pass(devs, hex, p, t, retry)->Done_0;
        lemma_summarized_has_success(t2.0, t2.1, key);
        lemma_summarized_failures(t2.0, t2.1);
    }
    assert forall|k: Seq<char>|
        t.1.contains_key(k) && #[trigger] t.1[k].success && t.1[k].failure is None && retry_pass(devs, hex, p, t, retry) is Done
            implies retry_pass(devs, hex, p, t, retry)->Done_0.1[k].success by {
        lemma_retry_pass_keeps_success(devs, hex, p, t, retry, k);
    }
}

} // verus!
