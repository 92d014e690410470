//! What came of an action on a group of devices, and joining messages.

use vstd::prelude::*;
use crate::collections::texts;

verus! {

/// `parts` joined with `sep` between neighbours, as `[String]::join` does.
pub open spec fn joined(parts: Seq<Seq<char>>, sep: Seq<char>) -> Seq<char>
    decreases parts.len(),
{
    if parts.len() == 0 {
        Seq::empty()
    } else if parts.len() == 1 {
        parts[0]
    } else {
        joined(parts.drop_last(), sep) + sep + parts.last()
    }
}

/// `parts.join(sep)`.
pub fn join_texts(parts: &[String], sep: &str) -> (r: String)
    ensures
        r@ == joined(texts(parts@), sep@),
{
    let mut out = String::new();
    let mut i: usize = 0;
    while i < parts.len()
        invariant
            i <= parts.len(),
            out@ == joined(texts(parts@.take(i as int)), sep@),
        decreases parts.len() - i,
    {
        assert(texts(parts@.take(i + 1)).drop_last() =~= texts(parts@.take(i as int)));
        assert(texts(parts@.take(i + 1)).last() == parts@[i as int]@);
        if i == 0 {
            out.append(parts[i].as_str());
            assert(out@ =~= parts@[0]@);
        } else {
            out.append(sep);
            out.append(parts[i].as_str());
        }
        i = i + 1;
    }
    assert(parts@.take(parts.len() as int) =~= parts@);
    out
}

/// The keys of the devices on which an action succeeded, and a message for each
/// device on which it failed.
#[derive(Debug)]
pub struct DeviceActionSummary {
    pub succeeded_keys: Vec<String>,
    pub failed_devices: Vec<String>,
}

impl Default for DeviceActionSummary {
    fn default() -> (r: Self)
        ensures
            r.succeeded_keys@.len() == 0,
            r.failed_devices@.len() == 0,
    {
        DeviceActionSummary { succeeded_keys: Vec::new(), failed_devices: Vec::new() }
    }
}

/// The result that a summary stands for: success when nothing failed or something
/// succeeded, else the failures joined by ` | `.
pub open spec fn summary_result(succeeded: Seq<Seq<char>>, failed: Seq<Seq<char>>) -> Result<
    (),
    Seq<char>,
> {
    if failed.len() == 0 || succeeded.len() > 0 {
        Ok(())
    } else {
        Err(joined(failed, " | "@))
    }
}

pub open spec fn result_view(r: Result<(), String>) -> Result<(), Seq<char>> {
    match r {
        Ok(()) => Ok(()),
        Err(m) => Err(m@),
    }
}

impl DeviceActionSummary {
    pub fn from_counts(succeeded_keys: Vec<String>, failed_devices: Vec<String>) -> (r: Self)
        ensures
            r.succeeded_keys == succeeded_keys,
            r.failed_devices == failed_devices,
    {
        DeviceActionSummary { succeeded_keys, failed_devices }
    }

    /// Whether the action succeeded on any device.
    pub fn is_any_success(&self) -> (b: bool)
        ensures
            b == (self.succeeded_keys@.len() > 0),
    {
        self.succeeded_keys.len() > 0
    }

    /// Success when nothing failed or something succeeded; else the failures.
    pub fn into_result(self) -> (r: Result<(), String>)
        ensures
            result_view(r) == summary_result(texts(self.succeeded_keys@), texts(self.failed_devices@)),
    {
        if self.failed_devices.len() == 0 || self.is_any_success() {
            Ok(())
        } else {
            Err(join_texts(self.failed_devices.as_slice(), " | "))
        }
    }
}

} // verus!
