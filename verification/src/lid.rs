//! Changing what the lid does and putting it back: what is recorded, who watches, and what is done when
//! something is found left over.

use vstd::prelude::*;
use vstd::string::*;

use crate::error::{AppError, Fault, combine_cleanup, chain, chained, combined, outcome, viewed};
use crate::platform::Platform;
use crate::platform::windows::{self, LidSnapshot};
use crate::run::RunSpec;
use crate::text;

pub mod helper;
pub mod launch;
pub mod recovery;
pub mod watchdog;

verus! {

/// A process as its lease tells it.
#[derive(Debug)]
pub struct LeaseRef {
    pub pid: u32,
    pub token: String,
}

impl View for LeaseRef {
    type V = (u32, Seq<char>);

    open spec fn view(&self) -> (u32, Seq<char>) {
        (self.pid, self.token@)
    }
}

impl Clone for LeaseRef {
    fn clone(&self) -> (r: Self)
        ensures
            r@ == self@,
    {
        LeaseRef { pid: self.pid, token: self.token.clone() }
    }
}

impl LeaseRef {
    /// Whether both are the same lease of the same process.
    pub fn same(&self, other: &LeaseRef) -> (r: bool)
        ensures
            r == (self@ == other@),
    {
        self.pid == other.pid && text::same(self.token.as_str(), other.token.as_str())
    }
}

/// What is recorded of a process that watches over the lid: whose session it watches, who it is, and whether
/// the lid is changed.
#[derive(Debug)]
pub struct WatchdogState {
    pub owner: LeaseRef,
    pub watchdog: LeaseRef,
    pub ready: bool,
}

/// What a `WatchdogState` says.
pub struct Watch {
    pub owner: (u32, Seq<char>),
    pub watchdog: (u32, Seq<char>),
    pub ready: bool,
}

impl View for WatchdogState {
    type V = Watch;

    open spec fn view(&self) -> Watch {
        Watch { owner: self.owner@, watchdog: self.watchdog@, ready: self.ready }
    }
}

impl WatchdogState {
    /// Whether both say the same.
    pub fn same(&self, other: &WatchdogState) -> (r: bool)
        ensures
            r == (self@ == other@),
    {
        self.owner.same(&other.owner) && self.watchdog.same(&other.watchdog) && self.ready
            == other.ready
    }
}

/// A session whose process is known by its lease.
#[derive(Debug)]
pub struct OwnedSession {
    pub spec: RunSpec,
    pub owner: LeaseRef,
}

/// What was there before the lid was changed.
#[derive(Debug)]
pub enum LidRestore {
    Windows { scheme_guid: String, ac_action: u32, dc_action: u32 },
    Macos { sleep_disabled: bool },
}

/// What a `LidRestore` says.
pub enum Marker {
    Windows { scheme_guid: Seq<char>, ac_action: u32, dc_action: u32 },
    Macos { sleep_disabled: bool },
}

impl View for LidRestore {
    type V = Marker;

    open spec fn view(&self) -> Marker {
        match *self {
            LidRestore::Windows { scheme_guid, ac_action, dc_action } => Marker::Windows {
                scheme_guid: scheme_guid@,
                ac_action,
                dc_action,
            },
            LidRestore::Macos { sleep_disabled } => Marker::Macos { sleep_disabled },
        }
    }
}

/// A lid session that is prepared: what was there is marked.
#[derive(Debug)]
pub struct Prepared {
    pub marker: LidRestore,
}

impl LidRestore {
    /// Whether both say the same.
    pub fn same(&self, other: &LidRestore) -> (r: bool)
        ensures
            r == (self@ == other@),
    {
        match (self, other) {
            (
                LidRestore::Windows { scheme_guid, ac_action, dc_action },
                LidRestore::Windows { scheme_guid: guid, ac_action: ac, dc_action: dc },
            ) => text::same(scheme_guid.as_str(), guid.as_str()) && *ac_action == *ac && *dc_action
                == *dc,
            (
                LidRestore::Macos { sleep_disabled },
                LidRestore::Macos { sleep_disabled: disabled },
            ) => *sleep_disabled == *disabled,
            _ => false,
        }
    }
}

/// What is to be put back on Windows: the power scheme and its two actions.
pub struct Actions {
    pub scheme: (u32, u16, u16, Seq<u8>),
    pub ac: u32,
    pub dc: u32,
}

/// What a snapshot says is to be put back.
pub open spec fn actions(snapshot: LidSnapshot) -> Actions {
    Actions { scheme: snapshot.scheme@, ac: snapshot.ac, dc: snapshot.dc }
}

/// What marks that the lid's actions are to be put back.
pub open spec fn windows_marker(before: Actions) -> Marker {
    Marker::Windows {
        scheme_guid: windows::guid_text(before.scheme),
        ac_action: before.ac,
        dc_action: before.dc,
    }
}

/// What marks that the lid's actions are to be put back.
pub fn marker_from_snapshot(snapshot: &LidSnapshot) -> (r: LidRestore)
    ensures
        r@ == windows_marker(actions(*snapshot)),
{
    LidRestore::Windows {
        scheme_guid: windows::format_guid(&snapshot.scheme),
        ac_action: snapshot.ac,
        dc_action: snapshot.dc,
    }
}

/// What a marker says is to be put back on Windows.
pub open spec fn marked_actions(marker: Marker) -> Result<Actions, Fault> {
    match marker {
        Marker::Windows { scheme_guid, ac_action, dc_action } => match windows::guid_of(
            scheme_guid,
        ) {
            Ok(scheme) => Ok(Actions { scheme, ac: ac_action, dc: dc_action }),
            Err(e) => Err(e),
        },
        Marker::Macos { .. } => Err(Fault::Fail("macOS lid restoration marker found on Windows"@)),
    }
}

/// What a marker says is to be put back on Windows.
pub fn snapshot_from_marker(marker: &LidRestore) -> (r: Result<LidSnapshot, AppError>)
    ensures
        (match r {
            Ok(snapshot) => Ok::<Actions, Fault>(actions(snapshot)),
            Err(e) => Err(e@),
        }) == marked_actions(marker@),
{
    match marker {
        LidRestore::Windows { scheme_guid, ac_action, dc_action } => match windows::parse_guid(
            scheme_guid.as_str(),
        ) {
            Ok(scheme) => Ok(LidSnapshot { scheme, ac: *ac_action, dc: *dc_action }),
            Err(e) => Err(e),
        },
        LidRestore::Macos { .. } => Err(
            AppError::fail("macOS lid restoration marker found on Windows"),
        ),
    }
}

/// What a marker says of sleep on macOS: whether it was disabled.
pub fn sleep_from_marker(marker: &LidRestore) -> (r: Result<bool, AppError>)
    ensures
        outcome(r) == (match marker@ {
            Marker::Macos { sleep_disabled } => Ok::<bool, Fault>(sleep_disabled),
            Marker::Windows { .. } => Err(
                Fault::Fail("Windows lid restoration marker found on macOS"@),
            ),
        }),
{
    match marker {
        LidRestore::Macos { sleep_disabled } => Ok(*sleep_disabled),
        LidRestore::Windows { .. } => Err(
            AppError::fail("Windows lid restoration marker found on macOS"),
        ),
    }
}

/// The lid's actions are read back from their marker.
pub proof fn law_markers_are_read_back(before: Actions)
    requires
        before.scheme.3.len() == 8,
    ensures
        marked_actions(windows_marker(before)) == Ok::<Actions, Fault>(before),
{
    windows::law_guids_are_read_back(before.scheme);
}

/// Whether a step that finds `before` may end so: with what it leaves behind, and with what it comes to.
pub open spec fn takes<W, A: FnOnce(W) -> (W, Result<(), AppError>)>(
    step: A,
    before: W,
    end: (W, Result<(), AppError>),
) -> bool {
    call_ensures(step, (before,), end)
}

/// Whether two steps that are taken in turn, the second only if the first worked, may end so.
pub open spec fn two_take<W, A, B>(steps: (A, B), before: W, end: (W, Result<(), AppError>)) -> bool where
    A: FnOnce(W) -> (W, Result<(), AppError>),
    B: FnOnce(W) -> (W, Result<(), AppError>),
 {
    ||| end.1 is Err && takes(steps.0, before, end)
    ||| exists|mid: (W, Result<(), AppError>)| #[trigger]
        takes(steps.0, before, mid) && mid.1 is Ok && takes(steps.1, mid.0, end)
}

/// Whether three steps that are taken in turn, each only if the one before worked, may end so.
pub open spec fn three_take<W, A, B, C>(
    steps: (A, B, C),
    before: W,
    end: (W, Result<(), AppError>),
) -> bool where
    A: FnOnce(W) -> (W, Result<(), AppError>),
    B: FnOnce(W) -> (W, Result<(), AppError>),
    C: FnOnce(W) -> (W, Result<(), AppError>),
 {
    ||| end.1 is Err && takes(steps.0, before, end)
    ||| exists|mid: (W, Result<(), AppError>)| #[trigger]
        takes(steps.0, before, mid) && mid.1 is Ok && two_take((steps.1, steps.2), mid.0, end)
}

/// Whether five steps that are taken in turn, each only if the one before worked, may end so.
pub open spec fn five_take<W, A, B, C, D, E>(
    steps: (A, B, C, D, E),
    before: W,
    end: (W, Result<(), AppError>),
) -> bool where
    A: FnOnce(W) -> (W, Result<(), AppError>),
    B: FnOnce(W) -> (W, Result<(), AppError>),
    C: FnOnce(W) -> (W, Result<(), AppError>),
    D: FnOnce(W) -> (W, Result<(), AppError>),
    E: FnOnce(W) -> (W, Result<(), AppError>),
 {
    ||| end.1 is Err && two_take((steps.0, steps.1), before, end)
    ||| exists|mid: (W, Result<(), AppError>)| #[trigger]
        two_take((steps.0, steps.1), before, mid) && mid.1 is Ok && three_take(
            (steps.2, steps.3, steps.4),
            mid.0,
            end,
        )
}

/// Takes two steps in turn, the second only if the first worked.
fn take_two<W, A, B>(first: A, second: B, before: W) -> (r: (W, Result<(), AppError>)) where
    A: FnOnce(W) -> (W, Result<(), AppError>),
    B: FnOnce(W) -> (W, Result<(), AppError>),

    requires
        forall|found: W| call_requires(first, (found,)),
        forall|found: W| call_requires(second, (found,)),
    ensures
        two_take((first, second), before, r),
{
    let ghost begun = before;
    let ghost steps = (first, second);
    let (left, result) = first(before);
    let ghost mid = (left, result);
    assert(takes(steps.0, begun, mid));
    if result.is_err() {
        return (left, result);
    }
    let end = second(left);
    assert(takes(steps.1, mid.0, end));
    end
}

/// Takes three steps in turn, each only if the one before worked.
fn take_three<W, A, B, C>(first: A, second: B, third: C, before: W) -> (r: (
    W,
    Result<(), AppError>,
)) where
    A: FnOnce(W) -> (W, Result<(), AppError>),
    B: FnOnce(W) -> (W, Result<(), AppError>),
    C: FnOnce(W) -> (W, Result<(), AppError>),

    requires
        forall|found: W| call_requires(first, (found,)),
        forall|found: W| call_requires(second, (found,)),
        forall|found: W| call_requires(third, (found,)),
    ensures
        three_take((first, second, third), before, r),
{
    let ghost begun = before;
    let ghost steps = (first, second, third);
    let (left, result) = first(before);
    let ghost mid = (left, result);
    assert(takes(steps.0, begun, mid));
    if result.is_err() {
        return (left, result);
    }
    let end = take_two(second, third, left);
    assert(two_take((steps.1, steps.2), mid.0, end));
    end
}

/// What is said of a change that failed with `e`, by how undoing it ended.
pub open spec fn undone(e: Fault, undo: Result<(), Fault>) -> Result<(), Fault> {
    match undo {
        Ok(_) => Err(e),
        Err(other) => Err(chained(e, "; rollback failed: "@, other)),
    }
}

/// Whether a change that failed with `e`, and left `before` behind, may end so once it is undone.
pub open spec fn rolls_back<W, A, B, C>(
    steps: (A, B, C),
    e: Fault,
    before: W,
    end: (W, Result<(), AppError>),
) -> bool where
    A: FnOnce(W) -> (W, Result<(), AppError>),
    B: FnOnce(W) -> (W, Result<(), AppError>),
    C: FnOnce(W) -> (W, Result<(), AppError>),
 {
    exists|undo: (W, Result<(), AppError>)| #[trigger]
        three_take(steps, before, undo) && end.0 == undo.0 && outcome(end.1) == undone(
            e,
            outcome(undo.1),
        )
}

/// Whether a change to the lid may end so: the watchdog is published first, then the change is made and its
/// readiness published; where one of the latter two fails, the change is undone, then the marker is
/// cleared, then the watchdog.
pub open spec fn changes<W, A, B, C, D, E, G>(
    steps: (A, B, C, D, E, G),
    before: W,
    end: (W, Result<(), AppError>),
) -> bool where
    A: FnOnce(W) -> (W, Result<(), AppError>),
    B: FnOnce(W) -> (W, Result<(), AppError>),
    C: FnOnce(W) -> (W, Result<(), AppError>),
    D: FnOnce(W) -> (W, Result<(), AppError>),
    E: FnOnce(W) -> (W, Result<(), AppError>),
    G: FnOnce(W) -> (W, Result<(), AppError>),
 {
    ||| end.1 is Err && takes(steps.0, before, end)
    ||| exists|watched: (W, Result<(), AppError>)| #[trigger]
        takes(steps.0, before, watched) && watched.1 is Ok && {
            ||| end.1 is Ok && two_take((steps.1, steps.2), watched.0, end)
            ||| exists|left: (W, Result<(), AppError>)| #[trigger]
                two_take((steps.1, steps.2), watched.0, left) && left.1 is Err && rolls_back(
                    (steps.3, steps.4, steps.5),
                    left.1->Err_0@,
                    left.0,
                    end,
                )
        }
}

/// Change the lid. The watchdog is published before the change and the readiness after it; where the change or
/// the readiness fails, all is undone in order, and what could not be undone is kept. Every step takes
/// what it finds and hands back what it leaves.
pub fn begin_change<W, A, B, C, D, E, G>(
    before: W,
    publish_watchdog: A,
    mutate: B,
    publish_ready: C,
    restore: D,
    clear_marker: E,
    clear_watchdog: G,
) -> (r: (W, Result<(), AppError>)) where
    A: FnOnce(W) -> (W, Result<(), AppError>),
    B: FnOnce(W) -> (W, Result<(), AppError>),
    C: FnOnce(W) -> (W, Result<(), AppError>),
    D: FnOnce(W) -> (W, Result<(), AppError>),
    E: FnOnce(W) -> (W, Result<(), AppError>),
    G: FnOnce(W) -> (W, Result<(), AppError>),

    requires
        forall|found: W| call_requires(publish_watchdog, (found,)),
        forall|found: W| call_requires(mutate, (found,)),
        forall|found: W| call_requires(publish_ready, (found,)),
        forall|found: W| call_requires(restore, (found,)),
        forall|found: W| call_requires(clear_marker, (found,)),
        forall|found: W| call_requires(clear_watchdog, (found,)),
    ensures
        changes(
            (publish_watchdog, mutate, publish_ready, restore, clear_marker, clear_watchdog),
            before,
            r,
        ),
{
    let ghost begun = before;
    let ghost steps = (
        publish_watchdog,
        mutate,
        publish_ready,
        restore,
        clear_marker,
        clear_watchdog,
    );
    let (watched, published) = publish_watchdog(before);
    assert(takes(steps.0, begun, (watched, published)));
    if published.is_err() {
        return (watched, published);
    }
    let ghost found = watched;
    let (left, changed) = take_two(mutate, publish_ready, watched);
    let ghost change = (left, changed);
    assert(two_take((steps.1, steps.2), found, change));
    let change_error = match changed {
        Ok(_) => return (left, changed),
        Err(e) => e,
    };
    let (after, undo) = take_three(restore, clear_marker, clear_watchdog, left);
    assert(three_take((steps.3, steps.4, steps.5), change.0, (after, undo)));
    let result = match &undo {
        Ok(_) => Err(change_error),
        Err(e) => Err(chain(&change_error, "; rollback failed: ", e)),
    };
    assert(rolls_back((steps.3, steps.4, steps.5), change_error@, change.0, (after, result)));
    (after, result)
}

/// Undo a change of the lid. What is recorded of it goes only after it is undone, and the watchdog last. Every
/// step takes what it finds and hands back what it leaves.
pub fn finish_change<W, A, B, C, D, E>(
    before: W,
    restore: A,
    remove_session: B,
    clear_stop: C,
    clear_marker: D,
    clear_watchdog: E,
) -> (r: (W, Result<(), AppError>)) where
    A: FnOnce(W) -> (W, Result<(), AppError>),
    B: FnOnce(W) -> (W, Result<(), AppError>),
    C: FnOnce(W) -> (W, Result<(), AppError>),
    D: FnOnce(W) -> (W, Result<(), AppError>),
    E: FnOnce(W) -> (W, Result<(), AppError>),

    requires
        forall|found: W| call_requires(restore, (found,)),
        forall|found: W| call_requires(remove_session, (found,)),
        forall|found: W| call_requires(clear_stop, (found,)),
        forall|found: W| call_requires(clear_marker, (found,)),
        forall|found: W| call_requires(clear_watchdog, (found,)),
    ensures
        five_take((restore, remove_session, clear_stop, clear_marker, clear_watchdog), before, r),
{
    let ghost begun = before;
    let ghost steps = (restore, remove_session, clear_stop, clear_marker, clear_watchdog);
    let (left, removed) = take_two(restore, remove_session, before);
    let ghost mid = (left, removed);
    assert(two_take((steps.0, steps.1), begun, mid));
    if removed.is_err() {
        return (left, removed);
    }
    let end = take_three(clear_stop, clear_marker, clear_watchdog, left);
    assert(three_take((steps.2, steps.3, steps.4), mid.0, end));
    end
}

/// What a failure and its cleanup come to together.
pub fn merge_results(primary: Result<(), AppError>, cleanup: Result<(), AppError>) -> (r: Result<
    (),
    AppError,
>)
    ensures
        outcome(r) == combined(outcome(primary), outcome(cleanup)),
{
    combine_cleanup(primary, cleanup)
}

/// Undo a change of the lid after `primary`, which is not forgotten.
pub fn finish_after_mutation<W, A, B, C, D, E>(
    before: W,
    primary: Result<(), AppError>,
    restore: A,
    remove_session: B,
    clear_stop: C,
    clear_marker: D,
    clear_watchdog: E,
) -> (r: (W, Result<(), AppError>)) where
    A: FnOnce(W) -> (W, Result<(), AppError>),
    B: FnOnce(W) -> (W, Result<(), AppError>),
    C: FnOnce(W) -> (W, Result<(), AppError>),
    D: FnOnce(W) -> (W, Result<(), AppError>),
    E: FnOnce(W) -> (W, Result<(), AppError>),

    requires
        forall|found: W| call_requires(restore, (found,)),
        forall|found: W| call_requires(remove_session, (found,)),
        forall|found: W| call_requires(clear_stop, (found,)),
        forall|found: W| call_requires(clear_marker, (found,)),
        forall|found: W| call_requires(clear_watchdog, (found,)),
    ensures
        exists|cleanup: (W, Result<(), AppError>)| #[trigger]
            five_take(
                (restore, remove_session, clear_stop, clear_marker, clear_watchdog),
                before,
                cleanup,
            ) && r.0 == cleanup.0 && outcome(r.1) == combined(
                outcome(primary),
                outcome(cleanup.1),
            ),
{
    let ghost begun = before;
    let ghost steps = (restore, remove_session, clear_stop, clear_marker, clear_watchdog);
    let (after, cleanup) = finish_change(
        before,
        restore,
        remove_session,
        clear_stop,
        clear_marker,
        clear_watchdog,
    );
    assert(five_take(steps, begun, (after, cleanup)));
    (after, merge_results(primary, cleanup))
}

/// Give up a start: the session's owner is stopped and its helper's end waited for before anything is put
/// back. Every step takes what it finds and hands back what it leaves.
pub fn abort_start_cleanup<W, A, B, C>(before: W, stop_owner: A, wait_helper: B, restore: C) -> (r: (
    W,
    Result<(), AppError>,
)) where
    A: FnOnce(W) -> (W, Result<(), AppError>),
    B: FnOnce(W) -> (W, Result<(), AppError>),
    C: FnOnce(W) -> (W, Result<(), AppError>),

    requires
        forall|found: W| call_requires(stop_owner, (found,)),
        forall|found: W| call_requires(wait_helper, (found,)),
        forall|found: W| call_requires(restore, (found,)),
    ensures
        three_take((stop_owner, wait_helper, restore), before, r),
{
    take_three(stop_owner, wait_helper, restore, before)
}

/// How a watchdog is.
#[derive(Clone, Copy, Debug, PartialEq, Eq, Structural)]
pub enum WatchdogHealth {
    Ready,
    Starting,
    Missing,
    Mismatch,
    Dead,
}

/// How a watchdog is that is recorded so, if it is known whether it lives.
pub open spec fn health(
    owner: (u32, Seq<char>),
    state: Option<Watch>,
    live: Result<bool, Fault>,
) -> Result<WatchdogHealth, Fault> {
    match state {
        None => Ok(WatchdogHealth::Missing),
        Some(watch) => if watch.owner != owner {
            Ok(WatchdogHealth::Mismatch)
        } else {
            match live {
                Err(e) => Err(e),
                Ok(false) => Ok(WatchdogHealth::Dead),
                Ok(true) => if watch.ready {
                    Ok(WatchdogHealth::Ready)
                } else {
                    Ok(WatchdogHealth::Starting)
                },
            }
        },
    }
}

/// What a record says, if there is one.
pub open spec fn maybe_watch(state: Option<&WatchdogState>) -> Option<Watch> {
    match state {
        Some(state) => Some(state@),
        None => None,
    }
}

/// How the watchdog of the session of `owner` is. Whether it lives is asked only where it is that session's.
pub fn watchdog_health<F: FnOnce(&LeaseRef) -> Result<bool, AppError>>(
    owner: &LeaseRef,
    state: Option<&WatchdogState>,
    is_live: F,
) -> (r: Result<WatchdogHealth, AppError>)
    requires
        forall|lease: &LeaseRef| call_requires(is_live, (lease,)),
    ensures
        match state {
            Some(watch) if watch@.owner == owner@ => exists|live: Result<bool, AppError>| #[trigger]
                call_ensures(is_live, (&watch.watchdog,), live) && outcome(r) == health(
                    owner@,
                    Some(watch@),
                    outcome(live),
                ),
            _ => outcome(r) == health(owner@, maybe_watch(state), Ok(true)),
        },
{
    let state = match state {
        None => return Ok(WatchdogHealth::Missing),
        Some(state) => state,
    };
    if !state.owner.same(owner) {
        return Ok(WatchdogHealth::Mismatch);
    }
    match is_live(&state.watchdog) {
        Err(e) => Err(e),
        Ok(live) => {
            if !live {
                Ok(WatchdogHealth::Dead)
            } else if state.ready {
                Ok(WatchdogHealth::Ready)
            } else {
                Ok(WatchdogHealth::Starting)
            }
        },
    }
}

/// A session goes on only while its watchdog is ready.
pub fn ensure_ready(health: WatchdogHealth) -> (r: Result<(), AppError>)
    ensures
        outcome(r) == (if health == WatchdogHealth::Ready {
            Ok::<(), Fault>(())
        } else {
            Err(Fault::Fail("lid watchdog is no longer active"@))
        }),
{
    match health {
        WatchdogHealth::Ready => Ok(()),
        _ => Err(AppError::fail("lid watchdog is no longer active")),
    }
}

/// Whether a session needs a process that watches over the lid: Linux has locks that end by themselves.
pub fn uses_watchdog(platform: Platform, spec: &RunSpec) -> (r: bool)
    ensures
        r == (spec.even_lid && platform != Platform::Linux),
{
    spec.even_lid && match platform {
        Platform::Linux => false,
        _ => true,
    }
}

/// A session goes on exactly while its own watchdog lives and is ready.
pub proof fn law_sessions_need_their_watchdog(
    owner: (u32, Seq<char>),
    state: Option<Watch>,
    live: Result<bool, Fault>,
    found: WatchdogHealth,
    r: Result<(), AppError>,
)
    requires
        health(owner, state, live) == Ok::<WatchdogHealth, Fault>(found),
        call_ensures(ensure_ready, (found,), r),
    ensures
        r is Ok <==> (state matches Some(watch) && watch.owner == owner && watch.ready) && live
            == Ok::<bool, Fault>(true),
        found == WatchdogHealth::Missing <==> state is None,
        found == WatchdogHealth::Mismatch <==> (state matches Some(watch) && watch.owner != owner),
        found == WatchdogHealth::Dead <==> (state matches Some(watch) && watch.owner == owner)
            && live == Ok::<bool, Fault>(false),
{
}

/// A marker says on each system what was there before, and nothing on the other.
pub proof fn law_markers_are_for_their_system(marker: LidRestore, sleep: Result<bool, AppError>)
    requires
        call_ensures(sleep_from_marker, (&marker,), sleep),
    ensures
        sleep is Ok <==> marker is Macos,
        marker matches LidRestore::Macos { sleep_disabled } ==> sleep == Ok::<bool, AppError>(
            sleep_disabled,
        ),
        marked_actions(marker@) is Ok ==> marker is Windows,
        marked_actions(marker@) matches Ok(before) ==> (marker matches LidRestore::Windows {
            ac_action,
            dc_action,
            ..
        } && before.ac == ac_action && before.dc == dc_action),
{
}

/// Undoing a change takes all its steps in order where it succeeds: the lid is put back, the session and the
/// request to stop go, then the marker, and the watchdog's record last.
pub proof fn law_undoing_takes_all_its_steps<W, A, B, C, D, E>(
    steps: (A, B, C, D, E),
    before: W,
    end: (W, Result<(), AppError>),
) where
    A: FnOnce(W) -> (W, Result<(), AppError>),
    B: FnOnce(W) -> (W, Result<(), AppError>),
    C: FnOnce(W) -> (W, Result<(), AppError>),
    D: FnOnce(W) -> (W, Result<(), AppError>),
    E: FnOnce(W) -> (W, Result<(), AppError>),

    requires
        five_take(steps, before, end),
        end.1 is Ok,
    ensures
        exists|
            back: (W, Result<(), AppError>),
            removed: (W, Result<(), AppError>),
            stopped: (W, Result<(), AppError>),
            unmarked: (W, Result<(), AppError>),
        |
            back.1 is Ok && removed.1 is Ok && stopped.1 is Ok && unmarked.1 is Ok
                && #[trigger] takes(steps.0, before, back) && #[trigger] takes(
                steps.1,
                back.0,
                removed,
            ) && #[trigger] takes(steps.2, removed.0, stopped) && #[trigger] takes(
                steps.3,
                stopped.0,
                unmarked,
            ) && takes(steps.4, unmarked.0, end),
{
    let removed = choose|mid: (W, Result<(), AppError>)| #[trigger]
        two_take((steps.0, steps.1), before, mid) && mid.1 is Ok && three_take(
            (steps.2, steps.3, steps.4),
            mid.0,
            end,
        );
    let back = choose|mid: (W, Result<(), AppError>)| #[trigger]
        takes(steps.0, before, mid) && mid.1 is Ok && takes(steps.1, mid.0, removed);
    let stopped = choose|mid: (W, Result<(), AppError>)| #[trigger]
        takes(steps.2, removed.0, mid) && mid.1 is Ok && two_take(
            (steps.3, steps.4),
            mid.0,
            end,
        );
    let unmarked = choose|mid: (W, Result<(), AppError>)| #[trigger]
        takes(steps.3, stopped.0, mid) && mid.1 is Ok && takes(steps.4, mid.0, end);
    assert(takes(steps.0, before, back) && takes(steps.1, back.0, removed) && takes(
        steps.2,
        removed.0,
        stopped,
    ) && takes(steps.3, stopped.0, unmarked));
}

/// Undoing a change stops where the lid cannot be put back: nothing else is touched then.
pub proof fn law_undoing_stops_where_the_lid_is_not_back<W, A, B, C, D, E>(
    steps: (A, B, C, D, E),
    before: W,
    end: (W, Result<(), AppError>),
) where
    A: FnOnce(W) -> (W, Result<(), AppError>),
    B: FnOnce(W) -> (W, Result<(), AppError>),
    C: FnOnce(W) -> (W, Result<(), AppError>),
    D: FnOnce(W) -> (W, Result<(), AppError>),
    E: FnOnce(W) -> (W, Result<(), AppError>),

    requires
        five_take(steps, before, end),
        forall|left: (W, Result<(), AppError>)| #[trigger]
            takes(steps.0, before, left) ==> left.1 is Err,
    ensures
        takes(steps.0, before, end) && end.1 is Err,
{
}

/// A change that succeeds was published, made and found ready, in this order, and nothing of it was undone.
pub proof fn law_changes_are_made_in_order<W, A, B, C, D, E, G>(
    steps: (A, B, C, D, E, G),
    before: W,
    end: (W, Result<(), AppError>),
) where
    A: FnOnce(W) -> (W, Result<(), AppError>),
    B: FnOnce(W) -> (W, Result<(), AppError>),
    C: FnOnce(W) -> (W, Result<(), AppError>),
    D: FnOnce(W) -> (W, Result<(), AppError>),
    E: FnOnce(W) -> (W, Result<(), AppError>),
    G: FnOnce(W) -> (W, Result<(), AppError>),

    requires
        changes(steps, before, end),
        end.1 is Ok,
    ensures
        exists|watched: (W, Result<(), AppError>), changed: (W, Result<(), AppError>)|
            watched.1 is Ok && changed.1 is Ok && #[trigger] takes(steps.0, before, watched)
                && #[trigger] takes(steps.1, watched.0, changed) && takes(
                steps.2,
                changed.0,
                end,
            ),
{
    let watched = choose|watched: (W, Result<(), AppError>)| #[trigger]
        takes(steps.0, before, watched) && watched.1 is Ok && {
            ||| end.1 is Ok && two_take((steps.1, steps.2), watched.0, end)
            ||| exists|left: (W, Result<(), AppError>)| #[trigger]
                two_take((steps.1, steps.2), watched.0, left) && left.1 is Err && rolls_back(
                    (steps.3, steps.4, steps.5),
                    left.1->Err_0@,
                    left.0,
                    end,
                )
        };
    assert(two_take((steps.1, steps.2), watched.0, end));
    let changed = choose|mid: (W, Result<(), AppError>)| #[trigger]
        takes(steps.1, watched.0, mid) && mid.1 is Ok && takes(steps.2, mid.0, end);
    assert(takes(steps.0, before, watched) && takes(steps.1, watched.0, changed));
}

/// A change that cannot be made is undone: the lid is put back, then the marker is cleared, then the watchdog's
/// record, each only where the one before worked; and the failure is told, with that of undoing it
/// where there is one.
pub proof fn law_failed_changes_are_undone<W, A, B, C, D, E, G>(
    steps: (A, B, C, D, E, G),
    before: W,
    end: (W, Result<(), AppError>),
) where
    A: FnOnce(W) -> (W, Result<(), AppError>),
    B: FnOnce(W) -> (W, Result<(), AppError>),
    C: FnOnce(W) -> (W, Result<(), AppError>),
    D: FnOnce(W) -> (W, Result<(), AppError>),
    E: FnOnce(W) -> (W, Result<(), AppError>),
    G: FnOnce(W) -> (W, Result<(), AppError>),

    requires
        changes(steps, before, end),
        forall|watched: (W, Result<(), AppError>)| #[trigger]
            takes(steps.0, before, watched) ==> watched.1 is Ok,
        forall|found: W, left: (W, Result<(), AppError>)| #[trigger]
            takes(steps.1, found, left) ==> left.1 is Err,
    ensures
        end.1 is Err,
        exists|
            watched: (W, Result<(), AppError>),
            left: (W, Result<(), AppError>),
            undo: (W, Result<(), AppError>),
        |
            #[trigger] takes(steps.0, before, watched) && #[trigger] takes(
                steps.1,
                watched.0,
                left,
            ) && #[trigger] three_take((steps.3, steps.4, steps.5), left.0, undo) && end.0 == undo.0
                && outcome(end.1) == (match outcome(undo.1) {
                Ok(_) => Err::<(), Fault>(left.1->Err_0@),
                Err(e) => Err(chained(left.1->Err_0@, "; rollback failed: "@, e)),
            }),
{
    let watched = choose|watched: (W, Result<(), AppError>)| #[trigger]
        takes(steps.0, before, watched) && watched.1 is Ok && {
            ||| end.1 is Ok && two_take((steps.1, steps.2), watched.0, end)
            ||| exists|left: (W, Result<(), AppError>)| #[trigger]
                two_take((steps.1, steps.2), watched.0, left) && left.1 is Err && rolls_back(
                    (steps.3, steps.4, steps.5),
                    left.1->Err_0@,
                    left.0,
                    end,
                )
        };
    let left = choose|left: (W, Result<(), AppError>)| #[trigger]
        two_take((steps.1, steps.2), watched.0, left) && left.1 is Err && rolls_back(
            (steps.3, steps.4, steps.5),
            left.1->Err_0@,
            left.0,
            end,
        );
    let undo = choose|undo: (W, Result<(), AppError>)| #[trigger]
        three_take((steps.3, steps.4, steps.5), left.0, undo) && end.0 == undo.0 && outcome(end.1)
            == undone(left.1->Err_0@, outcome(undo.1));
    assert(takes(steps.0, before, watched) && takes(steps.1, watched.0, left) && three_take(
        (steps.3, steps.4, steps.5),
        left.0,
        undo,
    ));
}

/// Giving up a start puts nothing back before the owner was stopped and the helper waited for.
pub proof fn law_giving_up_takes_its_steps_in_order<W, A, B, C>(
    steps: (A, B, C),
    before: W,
    end: (W, Result<(), AppError>),
) where
    A: FnOnce(W) -> (W, Result<(), AppError>),
    B: FnOnce(W) -> (W, Result<(), AppError>),
    C: FnOnce(W) -> (W, Result<(), AppError>),

    requires
        three_take(steps, before, end),
    ensures
        end.1 is Ok ==> exists|
            stopped: (W, Result<(), AppError>),
            waited: (W, Result<(), AppError>),
        |
            stopped.1 is Ok && waited.1 is Ok && #[trigger] takes(steps.0, before, stopped)
                && #[trigger] takes(steps.1, stopped.0, waited) && takes(steps.2, waited.0, end),
        (forall|left: (W, Result<(), AppError>)| #[trigger]
            takes(steps.0, before, left) ==> left.1 is Err) ==> takes(steps.0, before, end)
            && end.1 is Err,
{
    if end.1 is Ok {
        let stopped = choose|mid: (W, Result<(), AppError>)| #[trigger]
            takes(steps.0, before, mid) && mid.1 is Ok && two_take(
                (steps.1, steps.2),
                mid.0,
                end,
            );
        let waited = choose|mid: (W, Result<(), AppError>)| #[trigger]
            takes(steps.1, stopped.0, mid) && mid.1 is Ok && takes(steps.2, mid.0, end);
        assert(takes(steps.0, before, stopped) && takes(steps.1, stopped.0, waited));
    }
}

/// Only a session for the lid has a process that watches over it, on every system but Linux.
pub proof fn law_lid_sessions_are_watched_over(platform: Platform, spec: RunSpec, r: bool)
    requires
        call_ensures(uses_watchdog, (platform, &spec), r),
    ensures
        r ==> spec.even_lid,
        platform == Platform::Linux ==> !r,
        spec.even_lid && !r ==> platform == Platform::Linux,
{
}

} // verus!
