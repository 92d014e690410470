//! The OpenRGB command lines that each colour strategy runs, and the decision, from
//! the outcomes of the commands run so far, of what to run next or what came of it.

use vstd::prelude::*;
use crate::collections::texts;
use crate::openrgb::{
    attempts_for, strategy_attempts_for_device, ApplyResult, OpenRgbDevice, StrategyAttempt,
    StrategyKind,
};
use crate::text::{chars_of, decimal, decimal_string, string_of, trim_start_char, trim_start_char_chars};

verus! {

/// What the run of a command gave: whether `openrgb` exited successfully, or why it
/// could not be run at all.
pub type CommandOutcome = Result<bool, String>;

/// The next step of a procedure that runs commands: a command line to run next, or the
/// result together with the number of command outcomes that it consumed.
pub enum Progress<T> {
    Run(Vec<String>),
    Done(T, usize),
}

/// The same, as a specification value.
pub enum Next<T> {
    Run(Seq<Seq<char>>),
    Done(T, nat),
}

pub open spec fn progress_is<T>(p: Progress<T>, n: Next<T>) -> bool {
    match p {
        Progress::Run(args) => n == Next::<T>::Run(texts(args@)),
        Progress::Done(t, k) => n == Next::Done(t, k as nat),
    }
}

/// A later stage's step, after `k` outcomes that earlier stages consumed.
pub open spec fn shift<T>(n: Next<T>, k: nat) -> Next<T> {
    match n {
        Next::Run(c) => Next::Run(c),
        Next::Done(t, m) => Next::Done(t, m + k),
    }
}

pub open spec fn color_only_args(id: Seq<char>, color: Seq<char>) -> Seq<Seq<char>> {
    seq!["-d"@, id, "-c"@, color]
}

pub open spec fn direct_mode_args(id: Seq<char>) -> Seq<Seq<char>> {
    seq!["-d"@, id, "-m"@, "Direct"@]
}

pub open spec fn static_color_args(id: Seq<char>, color: Seq<char>) -> Seq<Seq<char>> {
    seq!["-d"@, id, "-m"@, "Static"@, "-c"@, color]
}

pub open spec fn zone_resize_args(id: Seq<char>, color: Seq<char>) -> Seq<Seq<char>> {
    seq![
        "-d"@,
        id,
        "-z"@,
        "2"@,
        "-sz"@,
        "60"@,
        "-c"@,
        color,
        "-z"@,
        "3"@,
        "-sz"@,
        "60"@,
        "-c"@,
        color,
    ]
}

pub open spec fn zone_color_args(id: Seq<char>, zone: nat, color: Seq<char>) -> Seq<Seq<char>> {
    seq!["-d"@, id, "-z"@, decimal(zone), "-c"@, color]
}

pub open spec fn static_saved_args(id: Seq<char>, color: Seq<char>) -> Seq<Seq<char>> {
    seq!["-d"@, id, "-m"@, "Static"@, "-c"@, color, "--save-profile"@, "omarchy.orp"@]
}

/// The number of commands the full fallback runs.
pub open spec fn fallback_len() -> nat {
    11
}

/// The commands of the full fallback, in order: colour alone, Direct mode, zone resize,
/// each of zones 0 to 5, Static mode with colour, and Static mode saved to a profile.
pub open spec fn fallback_args(id: Seq<char>, color: Seq<char>) -> Seq<Seq<Seq<char>>> {
    seq![
        color_only_args(id, color),
        direct_mode_args(id),
        zone_resize_args(id, color),
        zone_color_args(id, 0, color),
        zone_color_args(id, 1, color),
        zone_color_args(id, 2, color),
        zone_color_args(id, 3, color),
        zone_color_args(id, 4, color),
        zone_color_args(id, 5, color),
        static_color_args(id, color),
        static_saved_args(id, color),
    ]
}

/// The first error stays the one remembered.
pub open spec fn remembered(last: Option<String>, err: String) -> Option<String> {
    if last is None {
        Some(err)
    } else {
        last
    }
}

/// Counting one attempt: a success marks success, an error is remembered.
pub open spec fn recorded(r: CommandOutcome, acc: (bool, Option<String>)) -> (bool, Option<String>) {
    match r {
        Ok(b) => (acc.0 || b, acc.1),
        Err(e) => (acc.0, remembered(acc.1, e)),
    }
}

/// Counting a step whose success does not count: only its error is remembered.
pub open spec fn noted(r: CommandOutcome, acc: (bool, Option<String>)) -> (bool, Option<String>) {
    match r {
        Ok(_) => acc,
        Err(e) => (acc.0, remembered(acc.1, e)),
    }
}

/// Counting a run of attempts, in order.
pub open spec fn recorded_all(rs: Seq<CommandOutcome>, acc: (bool, Option<String>)) -> (
    bool,
    Option<String>,
)
    decreases rs.len(),
{
    if rs.len() == 0 {
        acc
    } else {
        recorded(rs.last(), recorded_all(rs.drop_last(), acc))
    }
}

/// The outcome of a group of attempts: success if any succeeded, else the first
/// error, else plain failure.
pub open spec fn finalized(any: bool, last: Option<String>) -> CommandOutcome {
    if any {
        Ok(true)
    } else {
        match last {
            Some(e) => Err(e),
            None => Ok(false),
        }
    }
}

/// The outcome of the full fallback from the outcomes of its eleven commands: the
/// zone commands count together as one attempt, and the Direct mode command counts
/// only when it fails.
pub open spec fn fallback_outcome(r: Seq<CommandOutcome>) -> CommandOutcome {
    let a1 = recorded(r[0], (false, None));
    let a2 = noted(r[1], a1);
    let a3 = recorded(r[2], a2);
    let zones = recorded_all(r.subrange(3, 9), (false, None));
    let a4 = recorded(finalized(zones.0, zones.1), a3);
    let a5 = recorded(r[9], a4);
    let a6 = recorded(r[10], a5);
    finalized(a6.0, a6.1)
}

/// A strategy of one command: that command, then its outcome.
pub open spec fn single(args: Seq<Seq<char>>, h: Seq<CommandOutcome>) -> Next<CommandOutcome> {
    if h.len() == 0 {
        Next::Run(args)
    } else {
        Next::Done(h[0], 1)
    }
}

/// The next step of one strategy, given the outcomes of its commands so far.
pub open spec fn strategy_next(
    kind: StrategyKind,
    id: Seq<char>,
    color: Seq<char>,
    h: Seq<CommandOutcome>,
) -> Next<CommandOutcome> {
    match kind {
        StrategyKind::ColorOnly => single(color_only_args(id, color), h),
        StrategyKind::StaticThenColor => single(static_color_args(id, color), h),
        StrategyKind::ZoneResizeThenColor => single(zone_resize_args(id, color), h),
        StrategyKind::DirectThenColor => if h.len() == 0 {
            Next::Run(direct_mode_args(id))
        } else if h[0] is Err {
            Next::Done(h[0], 1)
        } else if h.len() == 1 {
            Next::Run(color_only_args(id, color))
        } else {
            Next::Done(h[1], 2)
        },
        StrategyKind::FullFallback => if h.len() < fallback_len() {
            Next::Run(fallback_args(id, color)[h.len() as int])
        } else {
            Next::Done(fallback_outcome(h), fallback_len())
        },
    }
}

/// The next step of trying `atts` in order: the first strategy that succeeds decides;
/// when none does, the first error, or success without a second pass.
pub open spec fn attempts_next(
    atts: Seq<StrategyAttempt>,
    id: Seq<char>,
    color: Seq<char>,
    h: Seq<CommandOutcome>,
    err: Option<String>,
) -> Next<Result<ApplyResult, String>>
    decreases atts.len(),
{
    if atts.len() == 0 {
        Next::Done(
            match err {
                Some(e) => Err(e),
                None => Ok(ApplyResult { needs_retry: false }),
            },
            0,
        )
    } else {
        match strategy_next(atts[0].kind, id, color, h) {
            Next::Run(c) => Next::Run(c),
            Next::Done(r, n) => match r {
                Ok(true) => Next::Done(Ok(ApplyResult { needs_retry: atts[0].needs_retry }), n),
                Ok(false) => shift(attempts_next(atts.drop_first(), id, color, h.skip(n as int), err), n),
                Err(e) => shift(
                    attempts_next(atts.drop_first(), id, color, h.skip(n as int), remembered(err, e)),
                    n,
                ),
            },
        }
    }
}

/// The next step of putting colour `color_hex` (leading `#` aside) on `device`, given
/// the outcomes of the commands run so far.
pub open spec fn color_next(device: OpenRgbDevice, color_hex: Seq<char>, h: Seq<CommandOutcome>) -> Next<
    Result<ApplyResult, String>,
> {
    attempts_next(
        attempts_for(device.name@, device.device_type@),
        decimal(device.id as nat),
        trim_start_char(color_hex, '#'),
        h,
        None,
    )
}

fn text(s: &str) -> (r: String)
    ensures
        r@ == s@,
{
    s.to_string()
}

fn color_only_cmd(id: &String, color: &String) -> (r: Vec<String>)
    ensures
        texts(r@) == color_only_args(id@, color@),
{
    let r = vec![text("-d"), id.clone(), text("-c"), color.clone()];
    assert(texts(r@) =~= color_only_args(id@, color@));
    r
}

fn direct_mode_cmd(id: &String) -> (r: Vec<String>)
    ensures
        texts(r@) == direct_mode_args(id@),
{
    let r = vec![text("-d"), id.clone(), text("-m"), text("Direct")];
    assert(texts(r@) =~= direct_mode_args(id@));
    r
}

fn static_color_cmd(id: &String, color: &String) -> (r: Vec<String>)
    ensures
        texts(r@) == static_color_args(id@, color@),
{
    let r = vec![text("-d"), id.clone(), text("-m"), text("Static"), text("-c"), color.clone()];
    assert(texts(r@) =~= static_color_args(id@, color@));
    r
}

fn zone_resize_cmd(id: &String, color: &String) -> (r: Vec<String>)
    ensures
        texts(r@) == zone_resize_args(id@, color@),
{
    let r = vec![
        text("-d"),
        id.clone(),
        text("-z"),
        text("2"),
        text("-sz"),
        text("60"),
        text("-c"),
        color.clone(),
        text("-z"),
        text("3"),
        text("-sz"),
        text("60"),
        text("-c"),
        color.clone(),
    ];
    assert(texts(r@) =~= zone_resize_args(id@, color@));
    r
}

fn zone_color_cmd(id: &String, zone: u32, color: &String) -> (r: Vec<String>)
    ensures
        texts(r@) == zone_color_args(id@, zone as nat, color@),
{
    let r = vec![text("-d"), id.clone(), text("-z"), decimal_string(zone), text("-c"), color.clone()];
    assert(texts(r@) =~= zone_color_args(id@, zone as nat, color@));
    r
}

fn static_saved_cmd(id: &String, color: &String) -> (r: Vec<String>)
    ensures
        texts(r@) == static_saved_args(id@, color@),
{
    let r = vec![
        text("-d"),
        id.clone(),
        text("-m"),
        text("Static"),
        text("-c"),
        color.clone(),
        text("--save-profile"),
        text("omarchy.orp"),
    ];
    assert(texts(r@) =~= static_saved_args(id@, color@));
    r
}

/// The `k`-th command of the full fallback.
fn fallback_cmd(id: &String, color: &String, k: usize) -> (r: Vec<String>)
    requires
        k < fallback_len(),
    ensures
        texts(r@) == fallback_args(id@, color@)[k as int],
{
    if k == 0 {
        color_only_cmd(id, color)
    } else if k == 1 {
        direct_mode_cmd(id)
    } else if k == 2 {
        zone_resize_cmd(id, color)
    } else if k < 9 {
        let zone: u32 = (k - 3) as u32;
        zone_color_cmd(id, zone, color)
    } else if k == 9 {
        static_color_cmd(id, color)
    } else {
        static_saved_cmd(id, color)
    }
}

fn copy_outcome(r: &CommandOutcome) -> (c: CommandOutcome)
    ensures
        c == *r,
{
    match r {
        Ok(b) => Ok(*b),
        Err(e) => Err(e.clone()),
    }
}

/// Keeps the first error: `err` is remembered only when none is yet.
pub fn remember_error(last_error: &mut Option<String>, err: String)
    ensures
        *final(last_error) == remembered(*old(last_error), err),
{
    if last_error.is_none() {
        *last_error = Some(err);
    }
}

/// Counts the outcome of one attempt.
pub fn record_attempt_result(
    result: CommandOutcome,
    any_succeeded: &mut bool,
    last_error: &mut Option<String>,
)
    ensures
        (*final(any_succeeded), *final(last_error)) == recorded(
            result,
            (*old(any_succeeded), *old(last_error)),
        ),
{
    match result {
        Ok(success) => *any_succeeded = *any_succeeded || success,
        Err(err) => remember_error(last_error, err),
    }
}

/// Counts only the error of a step whose success does not count.
pub fn note_attempt_error(result: CommandOutcome, last_error: &mut Option<String>)
    ensures
        *final(last_error) == noted(result, (false, *old(last_error))).1,
{
    if let Err(err) = result {
        remember_error(last_error, err);
    }
}

/// The outcome of a group of attempts.
pub fn finalize_attempts(any_succeeded: bool, last_error: Option<String>) -> (r: CommandOutcome)
    ensures
        r == finalized(any_succeeded, last_error),
{
    if any_succeeded {
        Ok(true)
    } else if let Some(err) = last_error {
        Err(err)
    } else {
        Ok(false)
    }
}

/// The outcome of the full fallback from the outcomes of its commands.
fn fallback_result(h: &[CommandOutcome], pos: usize) -> (r: CommandOutcome)
    requires
        pos + fallback_len() <= h.len(),
    ensures
        r == fallback_outcome(h@.skip(pos as int)),
{
    let ghost r = h@.skip(pos as int);
    let mut any_succeeded = false;
    let mut last_error: Option<String> = None;
    record_attempt_result(copy_outcome(&h[pos]), &mut any_succeeded, &mut last_error);
    note_attempt_error(copy_outcome(&h[pos + 1]), &mut last_error);
    record_attempt_result(copy_outcome(&h[pos + 2]), &mut any_succeeded, &mut last_error);
    let mut zone_any = false;
    let mut zone_error: Option<String> = None;
    let mut z: usize = 0;
    assert(r.subrange(3, 3) =~= Seq::<CommandOutcome>::empty());
    while z < 6
        invariant
            z <= 6,
            pos + fallback_len() <= h.len(),
            r == h@.skip(pos as int),
            (zone_any, zone_error) == recorded_all(r.subrange(3, 3 + z), (false, None)),
        decreases 6 - z,
    {
        record_attempt_result(copy_outcome(&h[pos + 3 + z]), &mut zone_any, &mut zone_error);
        assert(r.subrange(3, 3 + z + 1).drop_last() =~= r.subrange(3, 3 + z));
        z = z + 1;
    }
    let zones = finalize_attempts(zone_any, zone_error);
    record_attempt_result(zones, &mut any_succeeded, &mut last_error);
    record_attempt_result(copy_outcome(&h[pos + 9]), &mut any_succeeded, &mut last_error);
    record_attempt_result(copy_outcome(&h[pos + 10]), &mut any_succeeded, &mut last_error);
    finalize_attempts(any_succeeded, last_error)
}

/// The next step of one strategy, its commands' outcomes standing in `h` from `pos` on.
fn strategy_step(
    kind: StrategyKind,
    id: &String,
    color: &String,
    h: &[CommandOutcome],
    pos: usize,
) -> (r: Progress<CommandOutcome>)
    requires
        pos <= h.len(),
    ensures
        progress_is(r, strategy_next(kind, id@, color@, h@.skip(pos as int))),
{
    let ghost hs = h@.skip(pos as int);
    let avail = h.len() - pos;
    match kind {
        StrategyKind::ColorOnly => if avail == 0 {
            Progress::Run(color_only_cmd(id, color))
        } else {
            Progress::Done(copy_outcome(&h[pos]), 1)
        },
        StrategyKind::StaticThenColor => if avail == 0 {
            Progress::Run(static_color_cmd(id, color))
        } else {
            Progress::Done(copy_outcome(&h[pos]), 1)
        },
        StrategyKind::ZoneResizeThenColor => if avail == 0 {
            Progress::Run(zone_resize_cmd(id, color))
        } else {
            Progress::Done(copy_outcome(&h[pos]), 1)
        },
        StrategyKind::DirectThenColor => if avail == 0 {
            Progress::Run(direct_mode_cmd(id))
        } else if h[pos].is_err() {
            Progress::Done(copy_outcome(&h[pos]), 1)
        } else if avail == 1 {
            Progress::Run(color_only_cmd(id, color))
        } else {
            Progress::Done(copy_outcome(&h[pos + 1]), 2)
        },
        StrategyKind::FullFallback => if avail < 11 {
            Progress::Run(fallback_cmd(id, color, avail))
        } else {
            Progress::Done(fallback_result(h, pos), 11)
        },
    }
}

/// The next step of putting colour `color_hex` on `device`: the command line to run
/// next, or the result of the strategies, given the outcomes of the commands run so
/// far, oldest first.
pub fn apply_color(device: &OpenRgbDevice, color_hex: &str, outcomes: &[CommandOutcome]) -> (r:
    Progress<Result<ApplyResult, String>>)
    ensures
        progress_is(r, color_next(*device, color_hex@, outcomes@)),
{
    let color_chars = trim_start_char_chars(chars_of(color_hex).as_slice(), '#');
    let color = string_of(color_chars.as_slice());
    let id = decimal_string(device.id);
    let attempts = strategy_attempts_for_device(device);
    let ghost whole = color_next(*device, color_hex@, outcomes@);
    let mut last_error: Option<String> = None;
    let mut pos: usize = 0;
    let mut k: usize = 0;
    assert(attempts@.skip(0) =~= attempts@);
    assert(outcomes@.skip(0) =~= outcomes@);
    while k < attempts.len()
        invariant
            k <= attempts.len(),
            pos <= outcomes.len(),
            whole == color_next(*device, color_hex@, outcomes@),
            whole == shift(
                attempts_next(attempts@.skip(k as int), id@, color@, outcomes@.skip(pos as int), last_error),
                pos as nat,
            ),
        decreases attempts.len() - k,
    {
        let a = attempts[k];
        let ghost rest = attempts@.skip(k as int);
        assert(rest[0] == a);
        assert(rest.drop_first() =~= attempts@.skip(k + 1));
        match strategy_step(a.kind, &id, &color, outcomes, pos) {
            Progress::Run(args) => {
                return Progress::Run(args);
            },
            Progress::Done(result, n) => {
                assert(outcomes@.skip(pos as int).skip(n as int) =~= outcomes@.skip(pos + n));
                match result {
                    Ok(true) => {
                        return Progress::Done(Ok(ApplyResult { needs_retry: a.needs_retry }), pos + n);
                    },
                    Ok(false) => {},
                    Err(err) => {
                        remember_error(&mut last_error, err);
                    },
                }
                pos = pos + n;
            },
        }
        k = k + 1;
    }
    match last_error {
        Some(err) => Progress::Done(Err(err), pos),
        None => Progress::Done(Ok(ApplyResult { needs_retry: false }), pos),
    }
}

/// A strategy never consumes more outcomes than there are.
pub proof fn lemma_strategy_consumes(kind: StrategyKind, id: Seq<char>, color: Seq<char>, h: Seq<CommandOutcome>)
    ensures
        strategy_next(kind, id, color, h) matches Next::Done(_, n) ==> n <= h.len(),
{
}

/// Trying strategies never consumes more outcomes than there are.
pub proof fn lemma_attempts_consume(
    atts: Seq<StrategyAttempt>,
    id: Seq<char>,
    color: Seq<char>,
    h: Seq<CommandOutcome>,
    err: Option<String>,
)
    ensures
        attempts_next(atts, id, color, h, err) matches Next::Done(_, n) ==> n <= h.len(),
    decreases atts.len(),
{
    if atts.len() > 0 {
        lemma_strategy_consumes(atts[0].kind, id, color, h);
        match strategy_next(atts[0].kind, id, color, h) {
            Next::Run(_) => {},
            Next::Done(r, n) => {
                match r {
                    Ok(true) => {},
                    Ok(false) => lemma_attempts_consume(atts.drop_first(), id, color, h.skip(n as int), err),
                    Err(e) => lemma_attempts_consume(
                        atts.drop_first(),
                        id,
                        color,
                        h.skip(n as int),
                        remembered(err, e),
                    ),
                }
            },
        }
    }
}

/// Putting a colour on a device never consumes more outcomes than there are.
pub proof fn lemma_color_consumes(device: OpenRgbDevice, color_hex: Seq<char>, h: Seq<CommandOutcome>)
    ensures
        color_next(device, color_hex, h) matches Next::Done(_, n) ==> n <= h.len(),
{
    lemma_attempts_consume(
        attempts_for(device.name@, device.device_type@),
        decimal(device.id as nat),
        trim_start_char(color_hex, '#'),
        h,
        None,
    );
}

/// The command that puts a device in OpenRGB's rainbow mode.
pub open spec fn rainbow_args(id: u32) -> Seq<Seq<char>> {
    seq!["-d"@, decimal(id as nat), "-m"@, "rainbow"@]
}

/// The command line that puts `device` in rainbow mode.
pub fn rainbow_command(device: &OpenRgbDevice) -> (r: Vec<String>)
    ensures
        texts(r@) == rainbow_args(device.id),
{
    let r = vec![text("-d"), decimal_string(device.id), text("-m"), text("rainbow")];
    assert(texts(r@) =~= rainbow_args(device.id));
    r
}

/// What came of the rainbow command on a device: success when it ran and exited
/// successfully; when it ran and failed, the device's name and that rainbow mode
/// could not be set; when it could not run, why not.
pub open spec fn rainbow_outcome(name: Seq<char>, ran: Result<bool, Seq<char>>) -> Result<(), Seq<char>> {
    match ran {
        Ok(true) => Ok(()),
        Ok(false) => Err(name + ": openrgb could not set rainbow mode"@),
        Err(e) => Err(e),
    }
}

/// What came of the rainbow command on `device`, given how the command ran.
pub fn rainbow_result(device: &OpenRgbDevice, ran: CommandOutcome) -> (r: Result<(), String>)
    ensures
        match r {
            Ok(()) => rainbow_outcome(device.name@, match ran {
                Ok(b) => Ok(b),
                Err(e) => Err(e@),
            }) == Ok::<(), Seq<char>>(()),
            Err(m) => rainbow_outcome(device.name@, match ran {
                Ok(b) => Ok(b),
                Err(e) => Err(e@),
            }) == Err::<(), Seq<char>>(m@),
        },
{
    match ran {
        Ok(true) => Ok(()),
        Ok(false) => Err(device.name.clone().concat(": openrgb could not set rainbow mode")),
        Err(e) => Err(e),
    }
}

} // verus!
