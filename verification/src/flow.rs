//! Procedures that alternate outside work and decisions, written as functions from
//! the replies received so far to the next request or to the result.
//!
//! A caller keeps a `Replies`, asks the procedure for its next `Step`, performs the
//! request, appends the reply to the matching list, and asks again, until `Done`.

use vstd::prelude::*;
use crate::apply::{apply_color, color_next, lemma_color_consumes, progress_is, CommandOutcome, Next, Progress};
use crate::collections::texts;
use crate::openrgb::{ApplyResult, OpenRgbDevice};

verus! {

/// Outside work that a procedure asks for.
pub enum Request {
    /// Run `openrgb` with these arguments; the reply is a `CommandOutcome`.
    Run(Vec<String>),
    /// Put the device in rainbow mode; the reply says whether that worked.
    Rainbow(OpenRgbDevice),
    /// Wait `pause_ms` milliseconds, then list the devices; the reply is the listing.
    List { pause_ms: u64 },
    /// Read the colour of the current theme; the reply is the colour or why not.
    LoadTheme,
}

/// A request as a specification value.
pub enum Req {
    Run(Seq<Seq<char>>),
    Rainbow(OpenRgbDevice),
    List(u64),
    LoadTheme,
}

pub open spec fn req_of(q: Request) -> Req {
    match q {
        Request::Run(args) => Req::Run(texts(args@)),
        Request::Rainbow(d) => Req::Rainbow(d),
        Request::List { pause_ms } => Req::List(pause_ms),
        Request::LoadTheme => Req::LoadTheme,
    }
}

/// The replies received so far, each kind in the order of its requests.
pub struct Replies {
    pub ran: Vec<CommandOutcome>,
    pub rainbow: Vec<Result<(), String>>,
    pub listed: Vec<Result<Vec<OpenRgbDevice>, String>>,
    pub themes: Vec<Result<String, String>>,
}

impl Replies {
    pub fn new() -> (r: Replies)
        ensures
            r.ran@.len() == 0,
            r.rainbow@.len() == 0,
            r.listed@.len() == 0,
            r.themes@.len() == 0,
    {
        Replies { ran: Vec::new(), rainbow: Vec::new(), listed: Vec::new(), themes: Vec::new() }
    }
}

/// How many replies of each kind a procedure has consumed.
#[derive(Clone, Copy, Debug)]
pub struct Cursor {
    pub ran: usize,
    pub rainbow: usize,
    pub listed: usize,
    pub themes: usize,
}

impl Cursor {
    pub fn start() -> (c: Cursor)
        ensures
            c.ran == 0 && c.rainbow == 0 && c.listed == 0 && c.themes == 0,
    {
        Cursor { ran: 0, rainbow: 0, listed: 0, themes: 0 }
    }
}

pub open spec fn fits(r: Replies, c: Cursor) -> bool {
    &&& c.ran <= r.ran@.len()
    &&& c.rainbow <= r.rainbow@.len()
    &&& c.listed <= r.listed@.len()
    &&& c.themes <= r.themes@.len()
}

/// The replies not yet consumed.
pub struct Pending {
    pub ran: Seq<CommandOutcome>,
    pub rainbow: Seq<Result<(), String>>,
    pub listed: Seq<Result<Vec<OpenRgbDevice>, String>>,
    pub themes: Seq<Result<String, String>>,
}

pub open spec fn pending(r: Replies, c: Cursor) -> Pending {
    Pending {
        ran: r.ran@.skip(c.ran as int),
        rainbow: r.rainbow@.skip(c.rainbow as int),
        listed: r.listed@.skip(c.listed as int),
        themes: r.themes@.skip(c.themes as int),
    }
}

/// The next step of a procedure: a request, or the result with the replies that
/// remain for what comes after.
pub enum Step<T> {
    Ask(Request),
    Done(T, Cursor),
}

/// The same, as a specification value.
pub enum Flow<T> {
    Ask(Req),
    Done(T, Pending),
}

pub open spec fn step_is<T>(s: Step<T>, r: Replies, f: Flow<T>) -> bool {
    match s {
        Step::Ask(q) => f == Flow::<T>::Ask(req_of(q)),
        Step::Done(t, c) => fits(r, c) && f == Flow::Done(t, pending(r, c)),
    }
}

/// `step_is`, with the exec result seen through `view`.
pub open spec fn step_matches<T, U>(s: Step<T>, r: Replies, f: Flow<U>, view: spec_fn(T) -> U) -> bool {
    match s {
        Step::Ask(q) => f == Flow::<U>::Ask(req_of(q)),
        Step::Done(t, c) => fits(r, c) && f == Flow::Done(view(t), pending(r, c)),
    }
}

pub open spec fn with_ran(p: Pending, ran: Seq<CommandOutcome>) -> Pending {
    Pending { ran, rainbow: p.rainbow, listed: p.listed, themes: p.themes }
}

/// Putting a colour on a device, with the command outcomes pending.
pub open spec fn color_flow(device: OpenRgbDevice, color_hex: Seq<char>, p: Pending) -> Flow<
    Result<ApplyResult, String>,
> {
    match color_next(device, color_hex, p.ran) {
        Next::Run(c) => Flow::Ask(Req::Run(c)),
        Next::Done(r, n) => Flow::Done(r, with_ran(p, p.ran.skip(n as int))),
    }
}

/// The next step of putting colour `color_hex` on `device`.
pub fn color_step(device: &OpenRgbDevice, color_hex: &str, r: &Replies, at: Cursor) -> (s: Step<
    Result<ApplyResult, String>,
>)
    requires
        fits(*r, at),
    ensures
        step_is(s, *r, color_flow(*device, color_hex@, pending(*r, at))),
{
    let outcomes = &r.ran[at.ran..r.ran.len()];
    assert(outcomes@ =~= r.ran@.skip(at.ran as int));
    proof {
        lemma_color_consumes(*device, color_hex@, outcomes@);
    }
    match apply_color(device, color_hex, outcomes) {
        Progress::Run(args) => Step::Ask(Request::Run(args)),
        Progress::Done(result, n) => {
            let next = Cursor { ran: at.ran + n, rainbow: at.rainbow, listed: at.listed, themes: at.themes };
            assert(r.ran@.skip(at.ran as int).skip(n as int) =~= r.ran@.skip(next.ran as int));
            Step::Done(result, next)
        },
    }
}

} // verus!
