//! Reading the device list that `openrgb --list-devices` prints, and bringing a
//! list of devices up to date with a newer listing.

use vstd::prelude::*;
use crate::openrgb::{device_key, device_profile_key, OpenRgbDevice};
use crate::text::{
    chars_of, lines, lines_chars, parse_u32, parse_u32_chars, rows, string_of, text_eq, trim,
    trim_chars,
};

verus! {

/// A device header line: its number, a colon, whitespace, then its name.
pub const DEVICE_HEADER_PATTERN: &'static str = r"(?m)^(\d+):\s+(.*)$";

/// A device type line: indented `Type:`, whitespace, then the type.
pub const DEVICE_TYPE_PATTERN: &'static str = r"(?m)^\s+Type:\s+(.*)$";

/// What the `regex` crate makes of `text` with `pattern`: `None` when the pattern
/// does not compile or does not match, else the text of each group of the first
/// match, group 0 first, `None` for a group that took no part.
pub uninterp spec fn regex_captures(pattern: Seq<char>, text: Seq<char>) -> Option<
    Seq<Option<Seq<char>>>,
>;

pub open spec fn capture_view(c: Option<Vec<Option<String>>>) -> Option<Seq<Option<Seq<char>>>> {
    match c {
        Some(v) => Some(
            v@.map_values(
                |g: Option<String>|
                    match g {
                        Some(s) => Some(s@),
                        None => None,
                    },
            ),
        ),
        None => None,
    }
}

/// `regex::Regex::new(pattern)`, then `Regex::captures(text)` with the group texts
/// copied out. The contract names the result and states nothing of it.
#[verifier::external_body]
fn captures(pattern: &str, text: &str) -> (r: Option<Vec<Option<String>>>)
    ensures
        capture_view(r) == regex_captures(pattern@, text@),
{
    let re = regex::Regex::new(pattern).ok()?;
    re.captures(text).map(|c| c.iter().map(|m| m.map(|m| m.as_str().to_string())).collect())
}

/// The text of group `i`, or empty text where the group took no part.
pub open spec fn group(c: Seq<Option<Seq<char>>>, i: int) -> Seq<char> {
    if 0 <= i < c.len() && c[i] is Some {
        c[i]->0
    } else {
        Seq::empty()
    }
}

/// A device as numbers and texts: id, name, type.
pub type DeviceInfo = (u32, Seq<char>, Seq<char>);

pub open spec fn info(d: OpenRgbDevice) -> DeviceInfo {
    (d.id, d.name@, d.device_type@)
}

/// The id and name that the groups of a header match give: the number of group 1,
/// or 0 where it is not one that a `u32` holds; the text of group 2 without
/// surrounding whitespace.
pub open spec fn header_from(c: Seq<Option<Seq<char>>>) -> (u32, Seq<char>) {
    (
        match parse_u32(group(c, 1)) {
            Some(n) => n,
            None => 0,
        },
        trim(group(c, 2)),
    )
}

/// The type that the groups of a type-line match give: the text of group 1 without
/// surrounding whitespace.
pub open spec fn type_from(c: Seq<Option<Seq<char>>>) -> Seq<char> {
    trim(group(c, 1))
}

/// The id and name that a header line gives, where it is one.
pub open spec fn header_of(line: Seq<char>) -> Option<(u32, Seq<char>)> {
    match regex_captures(DEVICE_HEADER_PATTERN@, line) {
        Some(c) => Some(header_from(c)),
        None => None,
    }
}

/// The type that a type line gives, where it is one.
pub open spec fn type_of(line: Seq<char>) -> Option<Seq<char>> {
    match regex_captures(DEVICE_TYPE_PATTERN@, line) {
        Some(c) => Some(type_from(c)),
        None => None,
    }
}

/// The devices completed so far and the one being read, after the lines `ls`.
pub open spec fn listing_state(ls: Seq<Seq<char>>) -> (Seq<DeviceInfo>, Option<DeviceInfo>)
    decreases ls.len(),
{
    if ls.len() == 0 {
        (Seq::empty(), None)
    } else {
        let (done, cur) = listing_state(ls.drop_last());
        let l = ls.last();
        match header_of(l) {
            Some((id, name)) => (
                match cur {
                    Some(d) => done.push(d),
                    None => done,
                },
                Some((id, name, Seq::<char>::empty())),
            ),
            None => match type_of(l) {
                Some(t) => (
                    done,
                    match cur {
                        Some(d) => Some((d.0, d.1, t)),
                        None => None,
                    },
                ),
                None => (done, cur),
            },
        }
    }
}

/// The devices of a listing: each header line starts a device, and a type line sets
/// the type of the device that the last header started.
pub open spec fn listed_devices(text: Seq<char>) -> Seq<DeviceInfo> {
    let (done, cur) = listing_state(lines(text));
    match cur {
        Some(d) => done.push(d),
        None => done,
    }
}

fn group_text(c: &Vec<Option<String>>, i: usize) -> (r: Vec<char>)
    ensures
        r@ == group(capture_view(Some(*c))->0, i as int),
{
    if i < c.len() {
        match &c[i] {
            Some(s) => chars_of(s.as_str()),
            None => Vec::new(),
        }
    } else {
        Vec::new()
    }
}

/// The id and name that the groups of a header match give.
pub fn header_from_captures(c: &Vec<Option<String>>) -> (r: (u32, String))
    ensures
        (r.0, r.1@) == header_from(capture_view(Some(*c))->0),
{
    let digits = group_text(c, 1);
    let id = match parse_u32_chars(digits.as_slice()) {
        Some(n) => n,
        None => 0,
    };
    let name = trim_chars(group_text(c, 2).as_slice());
    (id, string_of(name.as_slice()))
}

/// The type that the groups of a type-line match give.
pub fn type_from_captures(c: &Vec<Option<String>>) -> (r: String)
    ensures
        r@ == type_from(capture_view(Some(*c))->0),
{
    let t = trim_chars(group_text(c, 1).as_slice());
    string_of(t.as_slice())
}

fn header_line(line: &str) -> (r: Option<(u32, String)>)
    ensures
        match r {
            Some((id, name)) => header_of(line@) == Some((id, name@)),
            None => header_of(line@) is None,
        },
{
    match captures(DEVICE_HEADER_PATTERN, line) {
        Some(c) => Some(header_from_captures(&c)),
        None => None,
    }
}

fn type_line(line: &str) -> (r: Option<String>)
    ensures
        match r {
            Some(t) => type_of(line@) == Some(t@),
            None => type_of(line@) is None,
        },
{
    match captures(DEVICE_TYPE_PATTERN, line) {
        Some(c) => Some(type_from_captures(&c)),
        None => None,
    }
}

/// The devices that the standard output of `openrgb --list-devices` lists.
pub fn devices_from_listing(stdout: &str) -> (r: Vec<OpenRgbDevice>)
    ensures
        r@.map_values(|d: OpenRgbDevice| info(d)) == listed_devices(stdout@),
{
    let ls = lines_chars(chars_of(stdout).as_slice());
    let ghost all = rows(ls@);
    let mut done: Vec<OpenRgbDevice> = Vec::new();
    let mut current: Option<OpenRgbDevice> = None;
    let mut k: usize = 0;
    while k < ls.len()
        invariant
            k <= ls.len(),
            all == rows(ls@),
            all == lines(stdout@),
            listing_state(all.take(k as int)) == (
                done@.map_values(|d: OpenRgbDevice| info(d)),
                match current {
                    Some(d) => Some(info(d)),
                    None => None,
                },
            ),
        decreases ls.len() - k,
    {
        let line = string_of(ls[k].as_slice());
        assert(all.take(k + 1).drop_last() =~= all.take(k as int));
        assert(all.take(k + 1).last() == line@);
        match header_line(line.as_str()) {
            Some((id, name)) => {
                if let Some(device) = current {
                    let ghost before = done@;
                    done.push(device);
                    assert(done@.map_values(|d: OpenRgbDevice| info(d)) =~= before.map_values(
                        |d: OpenRgbDevice| info(d),
                    ).push(info(device)));
                }
                current = Some(OpenRgbDevice { id, name, device_type: String::new() });
            },
            None => {
                match type_line(line.as_str()) {
                    Some(t) => {
                        current = match current {
                            Some(device) => Some(
                                OpenRgbDevice { id: device.id, name: device.name, device_type: t },
                            ),
                            None => None,
                        };
                    },
                    None => {},
                }
            },
        }
        k = k + 1;
    }
    assert(all.take(ls.len() as int) =~= all);
    if let Some(device) = current {
        let ghost before = done@;
        done.push(device);
        assert(done@.map_values(|d: OpenRgbDevice| info(d)) =~= before.map_values(
            |d: OpenRgbDevice| info(d),
        ).push(info(device)));
    }
    done
}

/// The message of a failed listing: the command, and what it wrote to standard
/// error without surrounding whitespace, where it wrote anything.
pub open spec fn listing_failure(stderr: Seq<char>) -> Seq<char> {
    if trim(stderr).len() == 0 {
        "openrgb --list-devices failed"@
    } else {
        "openrgb --list-devices failed: "@ + trim(stderr)
    }
}

/// The devices of a finished `openrgb --list-devices`, or the failure it reported.
pub fn listing_outcome(success: bool, stdout: &str, stderr: &str) -> (r: Result<
    Vec<OpenRgbDevice>,
    String,
>)
    ensures
        success ==> (r matches Ok(v) && v@.map_values(|d: OpenRgbDevice| info(d)) == listed_devices(
            stdout@,
        )),
        !success ==> (r matches Err(m) && m@ == listing_failure(stderr@)),
{
    if success {
        return Ok(devices_from_listing(stdout));
    }
    let message = trim_chars(chars_of(stderr).as_slice());
    if message.len() == 0 {
        Err("openrgb --list-devices failed".to_string())
    } else {
        let head = "openrgb --list-devices failed: ".to_string();
        let tail = string_of(message.as_slice());
        Err(head.concat(tail.as_str()))
    }
}

/// The first device of `latest` with settings key `key`.
pub open spec fn first_with_key(latest: Seq<OpenRgbDevice>, key: Seq<char>) -> Option<
    OpenRgbDevice,
>
    decreases latest.len(),
{
    if latest.len() == 0 {
        None
    } else if device_key(latest[0]) == key {
        Some(latest[0])
    } else {
        first_with_key(latest.drop_first(), key)
    }
}

/// A device brought up to date: the first device of the newer listing with the same
/// settings key replaces it, id, name and type; without one it stays.
pub open spec fn refreshed(d: OpenRgbDevice, latest: Seq<OpenRgbDevice>) -> OpenRgbDevice {
    match first_with_key(latest, device_key(d)) {
        Some(u) => u,
        None => d,
    }
}

fn find_by_key(latest: &Vec<OpenRgbDevice>, key: &str) -> (r: Option<OpenRgbDevice>)
    ensures
        r == first_with_key(latest@, key@),
{
    let mut j: usize = 0;
    assert(latest@.skip(0) =~= latest@);
    while j < latest.len()
        invariant
            j <= latest.len(),
            first_with_key(latest@, key@) == first_with_key(latest@.skip(j as int), key@),
        decreases latest.len() - j,
    {
        let candidate = device_profile_key(&latest[j]);
        assert(latest@.skip(j as int)[0] == latest@[j as int]);
        if text_eq(candidate.as_str(), key) {
            return Some(latest[j].clone());
        }
        assert(latest@.skip(j as int).drop_first() =~= latest@.skip(j + 1));
        j = j + 1;
    }
    None
}

/// Brings `devices` up to date with a newer listing, or leaves them as they are and
/// passes the listing's failure on.
pub fn refresh_device_ids(
    devices: &mut Vec<OpenRgbDevice>,
    latest: Result<Vec<OpenRgbDevice>, String>,
) -> (r: Result<(), String>)
    ensures
        match latest {
            Ok(l) => r is Ok && final(devices)@ == old(devices)@.map_values(
                |d: OpenRgbDevice| refreshed(d, l@),
            ),
            Err(e) => r == Err::<(), String>(e) && final(devices)@ == old(devices)@,
        },
{
    let latest_devices = match latest {
        Ok(l) => l,
        Err(e) => return Err(e),
    };
    let ghost start = devices@;
    let mut i: usize = 0;
    while i < devices.len()
        invariant
            i <= devices.len(),
            devices.len() == start.len(),
            forall|k: int| 0 <= k < i ==> devices@[k] == refreshed(start[k], latest_devices@),
            forall|k: int| i <= k < devices.len() ==> devices@[k] == start[k],
        decreases devices.len() - i,
    {
        let key = device_profile_key(&devices[i]);
        match find_by_key(&latest_devices, key.as_str()) {
            Some(updated) => {
                devices.set(i, updated);
            },
            None => {},
        }
        i = i + 1;
    }
    assert(devices@ =~= start.map_values(|d: OpenRgbDevice| refreshed(d, latest_devices@)));
    Ok(())
}

} // verus!
