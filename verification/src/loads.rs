//! The bookkeeping of a frame's fetches and its `load` event: which dial
//! completions still belong to the current document, how many style sheets
//! and images hold the load event, which `<img>` fetch is current, and which
//! child frames are still loading
//! (<https://html.spec.whatwg.org/multipage/parsing.html#delay-the-load-event>).
//!
//! A navigation moves the frame to a new epoch; a completion from an earlier
//! epoch (or an earlier frame navigation) is stale and changes nothing. The
//! tracker decides; the caller performs the effect a completion asks for.

use std::collections::{HashMap, HashSet};
use vstd::prelude::*;

verus! {

broadcast use vstd::std_specs::hash::group_hash_axioms;

/// What a dial was started for, with the epoch (or frame navigation
/// sequence) it belongs to. Elements are named by their node ids.
#[derive(Clone, Copy, Debug, PartialEq, Eq, Structural)]
pub enum DialContext {
    /// A script's `fetch()`.
    JsFetch { id: i32, epoch: u64 },
    /// A parser-blocking classic `<script src>`.
    ClassicScript { element: u64, epoch: u64 },
    /// A `<link rel=stylesheet>` sheet; loading sheets delay the load event.
    Stylesheet { element: u64, epoch: u64 },
    /// An `<img>` resource, for one generation of its `src`.
    Image { element: u64, epoch: u64, generation: u64 },
    /// The frame's own navigation.
    FrameLoad { sequence: u64 },
}

/// The renderer event a completion records.
#[derive(Clone, Copy, Debug, PartialEq, Eq, Structural)]
pub enum FetchRecord {
    /// Nothing is recorded.
    Nothing,
    /// A fetch finished with this HTTP status.
    Fetch(u16),
    /// A fetch failed.
    FetchFailed,
}

/// What the caller does for a completed or failed dial.
#[derive(Clone, Copy, Debug, PartialEq, Eq, Structural)]
pub enum DialEffect {
    /// Nothing beyond the record.
    Nothing,
    /// Settle the script's fetch promise with this outcome.
    SettleFetch { id: i32, ok: bool, status: i32 },
    /// The parser-blocking script is done: run the fetched source when
    /// `run`, then let the parser go on.
    ResumeParser { element: u64, run: bool },
    /// A style sheet is done: keep its text when `store`, then see whether
    /// the document's load event is due.
    StylesheetDone { element: u64, store: bool },
    /// An image fetch is done. When `current` (the fetch is the element's
    /// latest), store the image when `success` and it decodes, else mark it
    /// broken, fire the element's event and adopt script work; in every case
    /// then see whether the document's load event is due.
    ImageDone { element: u64, current: bool, success: bool },
    /// The frame's navigation response arrived. When its final URL parses,
    /// the caller commits it and then adopts script work; when it does not,
    /// the completion ends there. Since adopting hangs on that parse, the
    /// report's `adopt_work` is false and the caller adopts after a commit.
    CommitFrame,
}

/// The decision for one completion: the event to record, the effect, and
/// whether to adopt pending script work afterwards.
#[derive(Clone, Copy, Debug, PartialEq, Eq, Structural)]
pub struct DialReport {
    pub record: FetchRecord,
    pub effect: DialEffect,
    pub adopt_work: bool,
}

/// The tracker's state.
pub struct LoadState {
    /// The current epoch; a navigation starts a new one.
    pub epoch: u64,
    /// The current frame navigation.
    pub sequence: u64,
    /// Whether the frame's own navigation is in flight.
    pub frame_in_flight: bool,
    /// Whether a parser-blocking script fetch is in flight.
    pub script_in_flight: bool,
    /// Style sheet fetches that hold the load event.
    pub stylesheets: usize,
    /// Image fetches that hold the load event.
    pub images: usize,
    /// Each element's latest image generation; absent means 0.
    pub generations: Map<u64, u64>,
    /// Elements whose current image fetch is in flight.
    pub images_in_flight: Set<u64>,
    /// Frame containers whose child has not finished loading.
    pub frame_loads: Set<u64>,
    /// Whether the document's load event has fired.
    pub load_fired: bool,
}

/// `x + 1`, or `x` at the top of the range.
pub open spec fn sat_inc(x: u64) -> u64 {
    if x == u64::MAX {
        x
    } else {
        (x + 1) as u64
    }
}

/// `x + 1`, wrapping to 0 at the top of the range.
pub open spec fn wrap_inc(x: u64) -> u64 {
    if x == u64::MAX {
        0
    } else {
        (x + 1) as u64
    }
}

/// `n + 1`, or `n` at the top of the range.
pub open spec fn count_inc(n: usize) -> usize {
    if n == usize::MAX {
        n
    } else {
        (n + 1) as usize
    }
}

/// `n - 1`, or 0.
pub open spec fn count_dec(n: usize) -> usize {
    if n == 0 {
        0
    } else {
        (n - 1) as usize
    }
}

/// An element's latest image generation.
pub open spec fn generation_of(s: LoadState, element: u64) -> u64 {
    if s.generations.contains_key(element) {
        s.generations[element]
    } else {
        0
    }
}

/// Whether a dial still belongs to the current document.
pub open spec fn is_current(s: LoadState, ctx: DialContext) -> bool {
    match ctx {
        DialContext::JsFetch { epoch, .. } => epoch == s.epoch,
        DialContext::ClassicScript { epoch, .. } => epoch == s.epoch,
        DialContext::Stylesheet { epoch, .. } => epoch == s.epoch,
        DialContext::Image { epoch, .. } => epoch == s.epoch,
        DialContext::FrameLoad { sequence } => sequence == s.sequence,
    }
}

/// Whether an HTTP status is a success (2xx).
pub open spec fn is_success(status: u16) -> bool {
    200 <= status < 300
}

/// A report.
pub open spec fn report(record: FetchRecord, effect: DialEffect, adopt_work: bool) -> DialReport {
    DialReport { record, effect, adopt_work }
}

/// A fresh tracker.
pub open spec fn initial_state() -> LoadState {
    LoadState {
        epoch: 0,
        sequence: 0,
        frame_in_flight: false,
        script_in_flight: false,
        stylesheets: 0,
        images: 0,
        generations: Map::empty(),
        images_in_flight: Set::empty(),
        frame_loads: Set::empty(),
        load_fired: false,
    }
}

/// The state after the document is replaced: a new epoch and frame
/// navigation sequence, and nothing held or in flight.
pub open spec fn reset_spec(s: LoadState) -> LoadState {
    LoadState {
        epoch: sat_inc(s.epoch),
        sequence: wrap_inc(s.sequence),
        frame_in_flight: false,
        script_in_flight: false,
        stylesheets: 0,
        images: 0,
        generations: Map::empty(),
        images_in_flight: Set::empty(),
        frame_loads: Set::empty(),
        load_fired: false,
    }
}

/// What a dial completion with `status` does to the state and asks of the
/// caller.
pub open spec fn finish_spec(s: LoadState, ctx: DialContext, status: u16) -> (LoadState, DialReport) {
    let fetched = FetchRecord::Fetch(status);
    match ctx {
        DialContext::JsFetch { id, epoch } => (
            s,
            report(
                fetched,
                if epoch == s.epoch {
                    DialEffect::SettleFetch { id, ok: true, status: status as i32 }
                } else {
                    DialEffect::Nothing
                },
                true,
            ),
        ),
        DialContext::ClassicScript { element, epoch } => if epoch == s.epoch {
            (
                LoadState { script_in_flight: false, ..s },
                report(fetched, DialEffect::ResumeParser { element, run: is_success(status) }, true),
            )
        } else {
            (s, report(fetched, DialEffect::Nothing, true))
        },
        DialContext::Stylesheet { element, epoch } => if epoch == s.epoch {
            (
                LoadState { stylesheets: count_dec(s.stylesheets), ..s },
                report(
                    fetched,
                    DialEffect::StylesheetDone { element, store: is_success(status) },
                    true,
                ),
            )
        } else {
            (s, report(FetchRecord::Nothing, DialEffect::Nothing, false))
        },
        DialContext::Image { element, epoch, generation } => if epoch == s.epoch {
            let current = generation_of(s, element) == generation;
            (
                LoadState {
                    images: count_dec(s.images),
                    images_in_flight: if current {
                        s.images_in_flight.remove(element)
                    } else {
                        s.images_in_flight
                    },
                    ..s
                },
                report(
                    fetched,
                    DialEffect::ImageDone { element, current, success: is_success(status) },
                    true,
                ),
            )
        } else {
            (s, report(FetchRecord::Nothing, DialEffect::Nothing, false))
        },
        DialContext::FrameLoad { sequence } => if sequence == s.sequence {
            (
                LoadState { frame_in_flight: false, ..s },
                report(FetchRecord::Nothing, DialEffect::CommitFrame, false),
            )
        } else {
            (s, report(FetchRecord::Nothing, DialEffect::Nothing, false))
        },
    }
}

/// What a failed dial does to the state and asks of the caller. Every
/// failure is recorded and followed by adopting script work.
pub open spec fn fail_spec(s: LoadState, ctx: DialContext) -> (LoadState, DialReport) {
    let failed = FetchRecord::FetchFailed;
    match ctx {
        DialContext::JsFetch { id, epoch } => (
            s,
            report(
                failed,
                if epoch == s.epoch {
                    DialEffect::SettleFetch { id, ok: false, status: 0 }
                } else {
                    DialEffect::Nothing
                },
                true,
            ),
        ),
        DialContext::ClassicScript { element, epoch } => if epoch == s.epoch {
            (
                LoadState { script_in_flight: false, ..s },
                report(failed, DialEffect::ResumeParser { element, run: false }, true),
            )
        } else {
            (s, report(failed, DialEffect::Nothing, true))
        },
        DialContext::Stylesheet { element, epoch } => if epoch == s.epoch {
            (
                LoadState { stylesheets: count_dec(s.stylesheets), ..s },
                report(failed, DialEffect::StylesheetDone { element, store: false }, true),
            )
        } else {
            (s, report(failed, DialEffect::Nothing, true))
        },
        DialContext::Image { element, epoch, generation } => if epoch == s.epoch {
            let current = generation_of(s, element) == generation;
            (
                LoadState {
                    images: count_dec(s.images),
                    images_in_flight: if current {
                        s.images_in_flight.remove(element)
                    } else {
                        s.images_in_flight
                    },
                    ..s
                },
                report(failed, DialEffect::ImageDone { element, current, success: false }, true),
            )
        } else {
            (s, report(failed, DialEffect::Nothing, true))
        },
        DialContext::FrameLoad { sequence } => if sequence == s.sequence {
            (LoadState { frame_in_flight: false, ..s }, report(failed, DialEffect::Nothing, true))
        } else {
            (s, report(failed, DialEffect::Nothing, true))
        },
    }
}

/// Whether the document's readiness may become `complete`: it is not yet,
/// and no style sheet or image holds it.
pub open spec fn document_load_due_spec(s: LoadState, ready_complete: bool) -> bool {
    !ready_complete && s.stylesheets == 0 && s.images == 0
}

/// Whether the document's `load` event fires now, and the state after: it
/// fires once, when the document is complete and no child frame is loading.
pub open spec fn take_load_spec(s: LoadState, ready_complete: bool) -> (LoadState, bool) {
    if s.load_fired || !s.frame_loads.is_empty() || !ready_complete {
        (s, false)
    } else {
        (LoadState { load_fired: true, ..s }, true)
    }
}

/// Tracks a frame's fetches and its `load` event.
pub struct LoadTracker {
    epoch: u64,
    sequence: u64,
    frame_in_flight: bool,
    script_in_flight: bool,
    stylesheets: usize,
    images: usize,
    generations: HashMap<u64, u64>,
    images_in_flight: HashSet<u64>,
    frame_loads: HashSet<u64>,
    load_fired: bool,
}

impl View for LoadTracker {
    type V = LoadState;

    closed spec fn view(&self) -> LoadState {
        LoadState {
            epoch: self.epoch,
            sequence: self.sequence,
            frame_in_flight: self.frame_in_flight,
            script_in_flight: self.script_in_flight,
            stylesheets: self.stylesheets,
            images: self.images,
            generations: self.generations@,
            images_in_flight: self.images_in_flight@,
            frame_loads: self.frame_loads@,
            load_fired: self.load_fired,
        }
    }
}

impl LoadTracker {
    /// A tracker for a frame that has loaded nothing yet.
    pub fn new() -> (t: Self)
        ensures
            t@ == initial_state(),
    {
        LoadTracker {
            epoch: 0,
            sequence: 0,
            frame_in_flight: false,
            script_in_flight: false,
            stylesheets: 0,
            images: 0,
            generations: HashMap::new(),
            images_in_flight: HashSet::new(),
            frame_loads: HashSet::new(),
            load_fired: false,
        }
    }

    /// The document is replaced: every earlier dial becomes stale, and no
    /// fetch or child frame holds the new document's load event.
    pub fn reset(&mut self)
        ensures
            final(self)@ == reset_spec(old(self)@),
    {
        self.epoch = if self.epoch == u64::MAX {
            self.epoch
        } else {
            self.epoch + 1
        };
        self.sequence = if self.sequence == u64::MAX {
            0
        } else {
            self.sequence + 1
        };
        self.frame_in_flight = false;
        self.script_in_flight = false;
        self.stylesheets = 0;
        self.images = 0;
        self.generations.clear();
        self.images_in_flight.clear();
        self.frame_loads.clear();
        self.load_fired = false;
    }

    /// The frame starts its own navigation, superseding an unfinished one;
    /// returns the dial's context.
    pub fn navigate(&mut self) -> (ctx: DialContext)
        ensures
            final(self)@ == (LoadState {
                sequence: wrap_inc(old(self)@.sequence),
                frame_in_flight: true,
                ..old(self)@
            }),
            ctx == (DialContext::FrameLoad { sequence: final(self)@.sequence }),
    {
        self.sequence = if self.sequence == u64::MAX {
            0
        } else {
            self.sequence + 1
        };
        self.frame_in_flight = true;
        DialContext::FrameLoad { sequence: self.sequence }
    }

    /// A script's `fetch()` is dialed in the current epoch.
    pub fn fetch_dial(&self, id: i32) -> (ctx: DialContext)
        ensures
            ctx == (DialContext::JsFetch { id, epoch: self@.epoch }),
    {
        DialContext::JsFetch { id, epoch: self.epoch }
    }

    /// A parser-blocking script is dialed; the parser waits for it.
    pub fn script_dial(&mut self, element: u64) -> (ctx: DialContext)
        ensures
            final(self)@ == (LoadState { script_in_flight: true, ..old(self)@ }),
            ctx == (DialContext::ClassicScript { element, epoch: old(self)@.epoch }),
    {
        self.script_in_flight = true;
        DialContext::ClassicScript { element, epoch: self.epoch }
    }

    /// A style sheet is dialed; it holds the load event until it completes.
    pub fn stylesheet_dial(&mut self, element: u64) -> (ctx: DialContext)
        ensures
            final(self)@ == (LoadState { stylesheets: count_inc(old(self)@.stylesheets), ..old(self)@ }),
            ctx == (DialContext::Stylesheet { element, epoch: old(self)@.epoch }),
    {
        self.stylesheets = if self.stylesheets == usize::MAX {
            self.stylesheets
        } else {
            self.stylesheets + 1
        };
        DialContext::Stylesheet { element, epoch: self.epoch }
    }

    /// An element's latest image generation.
    pub fn image_generation(&self, element: u64) -> (g: u64)
        ensures
            g == generation_of(self@, element),
    {
        match self.generations.get(&element) {
            Some(g) => *g,
            None => 0,
        }
    }

    /// Starts a new image generation for `element`, so fetches of earlier
    /// generations are no longer current; returns it.
    fn bump_generation(&mut self, element: u64) -> (g: u64)
        ensures
            g == wrap_inc(generation_of(old(self)@, element)),
            final(self)@ == (LoadState {
                generations: old(self)@.generations.insert(element, g),
                ..old(self)@
            }),
    {
        let g = self.image_generation(element);
        let next = if g == u64::MAX {
            0
        } else {
            g + 1
        };
        self.generations.insert(element, next);
        next
    }

    /// An `<img>` asks for its image. Unless `force` (its `src` changed), an
    /// element whose fetch is in flight or whose image is `decoded` already
    /// needs nothing and `None` comes back. Otherwise a new generation
    /// starts, is marked in flight, and is returned.
    pub fn begin_image(&mut self, element: u64, force: bool, decoded: bool) -> (g: Option<u64>)
        ensures
            !force && (old(self)@.images_in_flight.contains(element) || decoded) ==> {
                &&& g is None
                &&& final(self)@ == old(self)@
            },
            !(!force && (old(self)@.images_in_flight.contains(element) || decoded)) ==> {
                let next = wrap_inc(generation_of(old(self)@, element));
                &&& g == Some(next)
                &&& final(self)@ == (LoadState {
                    generations: old(self)@.generations.insert(element, next),
                    images_in_flight: old(self)@.images_in_flight.insert(element),
                    ..old(self)@
                })
            },
    {
        if !force && (self.images_in_flight.contains(&element) || decoded) {
            return None;
        }
        let g = self.bump_generation(element);
        self.images_in_flight.insert(element);
        Some(g)
    }

    /// The element's image cannot be fetched (no usable `src`): it is no
    /// longer in flight.
    pub fn drop_image(&mut self, element: u64)
        ensures
            final(self)@ == (LoadState {
                images_in_flight: old(self)@.images_in_flight.remove(element),
                ..old(self)@
            }),
    {
        self.images_in_flight.remove(&element);
    }

    /// The image fetch of `generation` is dialed; it holds the load event
    /// until it completes.
    pub fn image_dial(&mut self, element: u64, generation: u64) -> (ctx: DialContext)
        ensures
            final(self)@ == (LoadState { images: count_inc(old(self)@.images), ..old(self)@ }),
            ctx == (DialContext::Image { element, epoch: old(self)@.epoch, generation }),
    {
        self.images = if self.images == usize::MAX {
            self.images
        } else {
            self.images + 1
        };
        DialContext::Image { element, epoch: self.epoch, generation }
    }

    /// An `<img>` left the document: its in-flight fetch no longer counts as
    /// current.
    pub fn disconnect_image(&mut self, element: u64)
        ensures
            final(self)@ == (LoadState {
                generations: old(self)@.generations.insert(
                    element,
                    wrap_inc(generation_of(old(self)@, element)),
                ),
                images_in_flight: old(self)@.images_in_flight.remove(element),
                ..old(self)@
            }),
    {
        self.bump_generation(element);
        self.images_in_flight.remove(&element);
    }

    /// Decides what a dial completion with HTTP `status` does.
    pub fn finish_dial(&mut self, ctx: DialContext, status: u16) -> (r: DialReport)
        ensures
            (final(self)@, r) == finish_spec(old(self)@, ctx, status),
    {
        let fetched = FetchRecord::Fetch(status);
        let ok = 200 <= status && status < 300;
        match ctx {
            DialContext::JsFetch { id, epoch } => {
                let effect = if epoch == self.epoch {
                    DialEffect::SettleFetch { id, ok: true, status: status as i32 }
                } else {
                    DialEffect::Nothing
                };
                DialReport { record: fetched, effect, adopt_work: true }
            },
            DialContext::ClassicScript { element, epoch } => {
                if epoch == self.epoch {
                    self.script_in_flight = false;
                    DialReport {
                        record: fetched,
                        effect: DialEffect::ResumeParser { element, run: ok },
                        adopt_work: true,
                    }
                } else {
                    DialReport { record: fetched, effect: DialEffect::Nothing, adopt_work: true }
                }
            },
            DialContext::Stylesheet { element, epoch } => {
                if epoch != self.epoch {
                    return DialReport {
                        record: FetchRecord::Nothing,
                        effect: DialEffect::Nothing,
                        adopt_work: false,
                    };
                }
                self.stylesheets = if self.stylesheets == 0 {
                    0
                } else {
                    self.stylesheets - 1
                };
                DialReport {
                    record: fetched,
                    effect: DialEffect::StylesheetDone { element, store: ok },
                    adopt_work: true,
                }
            },
            DialContext::Image { element, epoch, generation } => {
                if epoch != self.epoch {
                    return DialReport {
                        record: FetchRecord::Nothing,
                        effect: DialEffect::Nothing,
                        adopt_work: false,
                    };
                }
                self.images = if self.images == 0 {
                    0
                } else {
                    self.images - 1
                };
                let current = self.image_generation(element) == generation;
                if current {
                    self.images_in_flight.remove(&element);
                }
                DialReport {
                    record: fetched,
                    effect: DialEffect::ImageDone { element, current, success: ok },
                    adopt_work: true,
                }
            },
            DialContext::FrameLoad { sequence } => {
                if sequence != self.sequence {
                    return DialReport {
                        record: FetchRecord::Nothing,
                        effect: DialEffect::Nothing,
                        adopt_work: false,
                    };
                }
                self.frame_in_flight = false;
                DialReport {
                    record: FetchRecord::Nothing,
                    effect: DialEffect::CommitFrame,
                    adopt_work: false,
                }
            },
        }
    }

    /// Decides what a failed dial does.
    pub fn fail_dial(&mut self, ctx: DialContext) -> (r: DialReport)
        ensures
            (final(self)@, r) == fail_spec(old(self)@, ctx),
    {
        let failed = FetchRecord::FetchFailed;
        let effect = match ctx {
            DialContext::JsFetch { id, epoch } => {
                if epoch == self.epoch {
                    DialEffect::SettleFetch { id, ok: false, status: 0 }
                } else {
                    DialEffect::Nothing
                }
            },
            DialContext::ClassicScript { element, epoch } => {
                if epoch == self.epoch {
                    self.script_in_flight = false;
                    DialEffect::ResumeParser { element, run: false }
                } else {
                    DialEffect::Nothing
                }
            },
            DialContext::Stylesheet { element, epoch } => {
                if epoch == self.epoch {
                    self.stylesheets = if self.stylesheets == 0 {
                        0
                    } else {
                        self.stylesheets - 1
                    };
                    DialEffect::StylesheetDone { element, store: false }
                } else {
                    DialEffect::Nothing
                }
            },
            DialContext::Image { element, epoch, generation } => {
                if epoch == self.epoch {
                    self.images = if self.images == 0 {
                        0
                    } else {
                        self.images - 1
                    };
                    let current = self.image_generation(element) == generation;
                    if current {
                        self.images_in_flight.remove(&element);
                    }
                    DialEffect::ImageDone { element, current, success: false }
                } else {
                    DialEffect::Nothing
                }
            },
            DialContext::FrameLoad { sequence } => {
                if sequence == self.sequence {
                    self.frame_in_flight = false;
                }
                DialEffect::Nothing
            },
        };
        DialReport { record: failed, effect, adopt_work: true }
    }

    /// Whether the parser-blocking script fetch is in flight, which holds
    /// the parser back.
    pub fn script_in_flight(&self) -> (r: bool)
        ensures
            r == self@.script_in_flight,
    {
        self.script_in_flight
    }

    /// Whether the document is still loading: a parser-blocking script of
    /// the current epoch is queued (`script_queued`) or in flight, its
    /// parser is active, or it is not yet ready.
    pub fn waiting_for_load(&self, script_queued: bool, parser_active: bool, document_ready: bool) -> (r: bool)
        ensures
            r == (script_queued || self@.script_in_flight || parser_active || !document_ready),
    {
        script_queued || self.script_in_flight || parser_active || !document_ready
    }

    /// Whether the frame's own navigation is in flight.
    pub fn frame_in_flight(&self) -> (r: bool)
        ensures
            r == self@.frame_in_flight,
    {
        self.frame_in_flight
    }

    /// Whether the document may become `complete` now, given whether it
    /// already is.
    pub fn document_load_due(&self, ready_complete: bool) -> (r: bool)
        ensures
            r == document_load_due_spec(self@, ready_complete),
    {
        !ready_complete && self.stylesheets == 0 && self.images == 0
    }

    /// A child frame in `container` started loading; the load event waits
    /// for it.
    pub fn begin_frame_load(&mut self, container: u64)
        ensures
            final(self)@ == (LoadState {
                frame_loads: old(self)@.frame_loads.insert(container),
                ..old(self)@
            }),
    {
        self.frame_loads.insert(container);
    }

    /// The child frame in `container` finished loading, or its container
    /// went away. Returns whether it was still awaited; only then does the
    /// caller fire the container's event and see whether the document's
    /// load event is due.
    pub fn end_frame_load(&mut self, container: u64) -> (was_pending: bool)
        ensures
            was_pending == old(self)@.frame_loads.contains(container),
            final(self)@ == (LoadState {
                frame_loads: old(self)@.frame_loads.remove(container),
                ..old(self)@
            }),
    {
        self.frame_loads.remove(&container)
    }

    /// Whether the document's `load` event fires now; it fires once.
    pub fn take_load_event(&mut self, ready_complete: bool) -> (fire: bool)
        ensures
            (final(self)@, fire) == take_load_spec(old(self)@, ready_complete),
    {
        if self.load_fired || !self.frame_loads.is_empty() || !ready_complete {
            return false;
        }
        self.load_fired = true;
        true
    }
}

/// A completion or failure of a stale dial (from an earlier epoch or frame
/// navigation) changes nothing and asks for no effect.
pub proof fn lemma_stale_dial_inert(s: LoadState, ctx: DialContext, status: u16)
    requires
        !is_current(s, ctx),
    ensures
        finish_spec(s, ctx, status).0 == s,
        finish_spec(s, ctx, status).1.effect == DialEffect::Nothing,
        fail_spec(s, ctx).0 == s,
        fail_spec(s, ctx).1.effect == DialEffect::Nothing,
{
}

/// Replacing the document makes every dial of the old one stale, as long as
/// the epoch has not reached its maximum.
pub proof fn lemma_reset_supersedes(s: LoadState, ctx: DialContext)
    requires
        is_current(s, ctx),
        s.epoch < u64::MAX,
    ensures
        !is_current(reset_spec(s), ctx),
{
}

/// A new frame navigation makes the previous one's completion stale.
pub proof fn lemma_navigation_supersedes(s: LoadState)
    ensures
        wrap_inc(s.sequence) != s.sequence,
        !is_current(
            LoadState { sequence: wrap_inc(s.sequence), frame_in_flight: true, ..s },
            DialContext::FrameLoad { sequence: s.sequence },
        ),
{
}

/// A style sheet dialed and then completed, or failed, in the same epoch
/// leaves the count that holds the load event as it was.
pub proof fn lemma_stylesheet_round_trip(s: LoadState, element: u64, status: u16)
    requires
        s.stylesheets < usize::MAX,
    ensures
        ({
            let s1 = LoadState { stylesheets: count_inc(s.stylesheets), ..s };
            let ctx = DialContext::Stylesheet { element, epoch: s.epoch };
            &&& finish_spec(s1, ctx, status).0 == s
            &&& fail_spec(s1, ctx).0 == s
        }),
{
}

/// An image dialed and then completed, or failed, in the same epoch leaves
/// the count that holds the load event as it was.
pub proof fn lemma_image_round_trip(s: LoadState, element: u64, generation: u64, status: u16)
    requires
        s.images < usize::MAX,
    ensures
        ({
            let s1 = LoadState { images: count_inc(s.images), ..s };
            let ctx = DialContext::Image { element, epoch: s.epoch, generation };
            &&& finish_spec(s1, ctx, status).0.images == s.images
            &&& fail_spec(s1, ctx).0.images == s.images
        }),
{
}

/// The document's `load` event fires at most once: after it fired, it does
/// not fire again until the document is replaced.
pub proof fn lemma_load_fires_once(s: LoadState, ready_complete: bool, again: bool)
    ensures
        take_load_spec(s, ready_complete).1 ==> !take_load_spec(
            take_load_spec(s, ready_complete).0,
            again,
        ).1,
        !reset_spec(s).load_fired,
{
}

/// After a new image generation starts, a fetch of the previous generation
/// is no longer current.
pub proof fn lemma_new_generation_supersedes(s: LoadState, element: u64)
    ensures
        generation_of(
            LoadState {
                generations: s.generations.insert(element, wrap_inc(generation_of(s, element))),
                ..s
            },
            element,
        ) != generation_of(s, element),
{
}

} // verus!
