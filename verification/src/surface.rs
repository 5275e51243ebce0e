//! When the layer surface is built, rebuilt and replaced.
//!
//! The compositor can destroy the surface at any time (its output went away).
//! The loss is only recorded; the rebuild happens on the next animation tick
//! that comes no sooner than two seconds after the surface was last created,
//! so a failing creation cannot spin the event loop destroying and recreating,
//! and a loss arriving inside that window is deferred instead of discarded.
//! A settings change that alters the geometry replaces the surface at once,
//! since a layer surface cannot be resized in place; the replacement is a
//! fresh surface, so a pending loss is settled by it.
//!
//! Times are nanoseconds on a monotonic clock of the application's choosing.

use vstd::prelude::*;

use crate::config::Geometry;

verus! {

/// The least time, in nanoseconds, between creating a surface and rebuilding
/// a lost one.
pub const REBUILD_DELAY_NS: u64 = 2_000_000_000;

/// What the application reports to the keeper.
#[derive(Clone, Copy, Debug, PartialEq, Eq, Structural)]
pub enum SurfaceEvent {
    /// Animation tick at time `now_ns`.
    Tick { now_ns: u64 },
    /// Time to re-read the system counters.
    SampleDue,
    /// The compositor destroyed the surface.
    SurfaceLost,
    /// Settings changed on disk at time `now_ns`; these are the new surface
    /// settings.
    ConfigChanged { geometry: Geometry, now_ns: u64 },
}

/// What the application must do in answer.
#[derive(Clone, Copy, Debug, PartialEq, Eq, Structural)]
pub enum SurfaceAction {
    /// Nothing beyond the usual redraw.
    Idle,
    /// Take a new statistics sample.
    TakeSample,
    /// Create a fresh surface and redraw the cached scenery.
    Rebuild,
    /// Redraw the cached scenery; the surface itself stays.
    RedrawScenery,
    /// Destroy the current surface, create a fresh one with the new geometry
    /// and redraw the cached scenery.
    Replace,
}

/// The surface bookkeeping the decisions depend on.
#[derive(Clone, Copy, Debug, PartialEq, Eq, Structural)]
pub struct SurfaceKeeper {
    /// The compositor destroyed the surface and it has not been rebuilt yet.
    pub lost: bool,
    /// The geometry the current surface was made with.
    pub geometry: Geometry,
    /// When the current surface was created.
    pub created_ns: u64,
}

/// Whether at time `now_ns` a lost surface may be rebuilt: two seconds or more
/// after the current one was created.
pub open spec fn rebuild_due(s: SurfaceKeeper, now_ns: u64) -> bool {
    now_ns >= s.created_ns + REBUILD_DELAY_NS
}

/// The keeper after `e`.
pub open spec fn next_state(s: SurfaceKeeper, e: SurfaceEvent) -> SurfaceKeeper {
    match e {
        SurfaceEvent::Tick { now_ns } => {
            if s.lost && rebuild_due(s, now_ns) {
                SurfaceKeeper { lost: false, geometry: s.geometry, created_ns: now_ns }
            } else {
                s
            }
        },
        SurfaceEvent::SampleDue => s,
        SurfaceEvent::SurfaceLost => SurfaceKeeper { lost: true, ..s },
        SurfaceEvent::ConfigChanged { geometry, now_ns } => {
            if geometry != s.geometry {
                SurfaceKeeper { lost: false, geometry, created_ns: now_ns }
            } else {
                s
            }
        },
    }
}

/// The action that `e` calls for in state `s`.
pub open spec fn action_for(s: SurfaceKeeper, e: SurfaceEvent) -> SurfaceAction {
    match e {
        SurfaceEvent::Tick { now_ns } => {
            if s.lost && rebuild_due(s, now_ns) {
                SurfaceAction::Rebuild
            } else {
                SurfaceAction::Idle
            }
        },
        SurfaceEvent::SampleDue => SurfaceAction::TakeSample,
        SurfaceEvent::SurfaceLost => SurfaceAction::Idle,
        SurfaceEvent::ConfigChanged { geometry, .. } => {
            if geometry != s.geometry {
                SurfaceAction::Replace
            } else {
                SurfaceAction::RedrawScenery
            }
        },
    }
}

/// The keeper after each event of `events` in turn.
pub open spec fn run(s: SurfaceKeeper, events: Seq<SurfaceEvent>) -> SurfaceKeeper
    decreases events.len(),
{
    if events.len() == 0 {
        s
    } else {
        next_state(run(s, events.drop_last()), events.last())
    }
}

/// The action answering the `i`-th of `events`, replayed from `s`.
pub open spec fn action_at(s: SurfaceKeeper, events: Seq<SurfaceEvent>, i: int) -> SurfaceAction {
    action_for(run(s, events.take(i)), events[i])
}

impl SurfaceKeeper {
    /// A keeper for a surface just created with `geometry` at time `now_ns`.
    pub fn new(geometry: Geometry, now_ns: u64) -> (k: Self)
        ensures
            k == (SurfaceKeeper { lost: false, geometry, created_ns: now_ns }),
    {
        SurfaceKeeper { lost: false, geometry, created_ns: now_ns }
    }

    /// Record `event` and say what to do about it.
    pub fn update(&mut self, event: SurfaceEvent) -> (a: SurfaceAction)
        ensures
            *final(self) == next_state(*old(self), event),
            a == action_for(*old(self), event),
    {
        match event {
            SurfaceEvent::Tick { now_ns } => {
                if self.lost && now_ns >= self.created_ns && now_ns - self.created_ns
                    >= REBUILD_DELAY_NS {
                    self.lost = false;
                    self.created_ns = now_ns;
                    SurfaceAction::Rebuild
                } else {
                    SurfaceAction::Idle
                }
            },
            SurfaceEvent::SampleDue => SurfaceAction::TakeSample,
            SurfaceEvent::SurfaceLost => {
                self.lost = true;
                SurfaceAction::Idle
            },
            SurfaceEvent::ConfigChanged { geometry, now_ns } => {
                if geometry != self.geometry {
                    self.lost = false;
                    self.geometry = geometry;
                    self.created_ns = now_ns;
                    SurfaceAction::Replace
                } else {
                    SurfaceAction::RedrawScenery
                }
            },
        }
    }
}

/// An event that leaves a pending loss of `s` pending: anything but a tick two
/// seconds or more after creation, or a settings change to a new geometry.
pub open spec fn keeps_loss_pending(s: SurfaceKeeper, e: SurfaceEvent) -> bool {
    match e {
        SurfaceEvent::Tick { now_ns } => !rebuild_due(s, now_ns),
        SurfaceEvent::ConfigChanged { geometry, .. } => geometry == s.geometry,
        _ => true,
    }
}

/// A lost surface stays lost, and is not rebuilt, through any run of events
/// that each keep the loss pending: samples, settings changes that leave the
/// geometry alone, further losses and early ticks. Nothing about the keeper
/// changes along the way.
pub proof fn lemma_loss_is_remembered(s: SurfaceKeeper, events: Seq<SurfaceEvent>)
    requires
        s.lost,
        forall|i: int| 0 <= i < events.len() ==> keeps_loss_pending(s, #[trigger] events[i]),
    ensures
        run(s, events) == s,
        forall|i: int| 0 <= i < events.len() ==> action_at(s, events, i) != SurfaceAction::Rebuild,
    decreases events.len(),
{
    if events.len() > 0 {
        let prefix = events.drop_last();
        assert forall|i: int| 0 <= i < prefix.len() implies keeps_loss_pending(
            s,
            #[trigger] prefix[i],
        ) by {
            assert(prefix[i] == events[i]);
        }
        lemma_loss_is_remembered(s, prefix);
        assert(keeps_loss_pending(s, events[events.len() - 1]));
        assert forall|i: int| 0 <= i < events.len() implies action_at(s, events, i)
            != SurfaceAction::Rebuild by {
            if i < events.len() - 1 {
                assert(events.take(i) =~= prefix.take(i));
                assert(action_at(s, prefix, i) != SurfaceAction::Rebuild);
            } else {
                assert(events.take(i) =~= prefix);
                assert(keeps_loss_pending(s, events[i]));
            }
        }
    }
}

/// A loss arriving inside the rate-limit window is deferred, not discarded:
/// however many events that keep it pending follow it, the first tick two
/// seconds or more after the last creation rebuilds the surface and settles
/// the loss.
pub proof fn lemma_loss_rebuilt_at_first_due_tick(
    s: SurfaceKeeper,
    events: Seq<SurfaceEvent>,
    now_ns: u64,
)
    requires
        s.lost,
        forall|i: int| 0 <= i < events.len() ==> keeps_loss_pending(s, #[trigger] events[i]),
        rebuild_due(s, now_ns),
    ensures
        action_for(run(s, events), SurfaceEvent::Tick { now_ns }) == SurfaceAction::Rebuild,
        !next_state(run(s, events), SurfaceEvent::Tick { now_ns }).lost,
{
    lemma_loss_is_remembered(s, events);
}

/// A surface is only ever rebuilt after it was lost, and never sooner than two
/// seconds after it was created; the rebuild restarts the creation clock.
pub proof fn lemma_rebuild_is_rate_limited(s: SurfaceKeeper, e: SurfaceEvent)
    ensures
        action_for(s, e) == SurfaceAction::Rebuild ==> {
            &&& s.lost
            &&& e matches SurfaceEvent::Tick { now_ns } && rebuild_due(s, now_ns)
                && next_state(s, e).created_ns == now_ns
            &&& !next_state(s, e).lost
        },
{
}

/// Without a new loss, a surface that is not lost is never rebuilt, however
/// the events run.
pub proof fn lemma_no_rebuild_without_loss(s: SurfaceKeeper, events: Seq<SurfaceEvent>)
    requires
        !s.lost,
        forall|i: int| 0 <= i < events.len() ==> #[trigger] events[i] != SurfaceEvent::SurfaceLost,
    ensures
        !run(s, events).lost,
        forall|i: int| 0 <= i < events.len() ==> action_at(s, events, i) != SurfaceAction::Rebuild,
    decreases events.len(),
{
    if events.len() > 0 {
        let prefix = events.drop_last();
        assert forall|i: int| 0 <= i < prefix.len() implies #[trigger] prefix[i]
            != SurfaceEvent::SurfaceLost by {
            assert(prefix[i] == events[i]);
        }
        lemma_no_rebuild_without_loss(s, prefix);
        assert(events[events.len() - 1] != SurfaceEvent::SurfaceLost);
        assert forall|i: int| 0 <= i < events.len() implies action_at(s, events, i)
            != SurfaceAction::Rebuild by {
            if i < events.len() - 1 {
                assert(events.take(i) =~= prefix.take(i));
                assert(action_at(s, prefix, i) != SurfaceAction::Rebuild);
            } else {
                assert(events.take(i) =~= prefix);
            }
        }
    }
}

/// A settings change replaces the surface exactly when it alters the
/// geometry. The replacement is a fresh surface: it settles any pending loss
/// and restarts the creation clock, so no rebuild follows it unless the
/// compositor destroys the surface again. The same change arriving twice
/// replaces the surface at most once.
pub proof fn lemma_replace_settles_loss(
    s: SurfaceKeeper,
    geometry: Geometry,
    now_ns: u64,
    events: Seq<SurfaceEvent>,
)
    requires
        forall|i: int| 0 <= i < events.len() ==> #[trigger] events[i] != SurfaceEvent::SurfaceLost,
    ensures
        ({
            let e = SurfaceEvent::ConfigChanged { geometry, now_ns };
            let t = next_state(s, e);
            &&& (action_for(s, e) == SurfaceAction::Replace) <==> geometry != s.geometry
            &&& t.geometry == geometry
            &&& action_for(s, e) == SurfaceAction::Replace ==> !t.lost && t.created_ns == now_ns
            &&& action_for(t, e) == SurfaceAction::RedrawScenery
            &&& action_for(s, e) == SurfaceAction::Replace ==> forall|i: int|
                0 <= i < events.len() ==> action_at(t, events, i) != SurfaceAction::Rebuild
        }),
{
    let e = SurfaceEvent::ConfigChanged { geometry, now_ns };
    if geometry != s.geometry {
        lemma_no_rebuild_without_loss(next_state(s, e), events);
    }
}

} // verus!
