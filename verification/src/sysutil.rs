//! Processes: who they are, which one is meant, and how they are started and ended.

use vstd::prelude::*;
use vstd::string::*;

use crate::error::{AppError, Fault, outcome, viewed};
use crate::platform::{self, Platform};
use crate::session::Session;
use crate::text;
use crate::time::Span;

pub mod windows;

verus! {

/// What tells a process from any other that had or will have its number.
#[derive(Debug)]
pub struct Identity {
    pub start: u64,
    pub command: String,
}

impl View for Identity {
    type V = (u64, Seq<char>);

    open spec fn view(&self) -> (u64, Seq<char>) {
        (self.start, self.command@)
    }
}

/// What a process says of itself: when it started, where its program is, if that is known, and its name.
pub fn live_identity(found: Option<(u64, Option<String>, String)>) -> (r: Option<Identity>)
    ensures
        (match r {
            Some(identity) => Some(identity@),
            None => None,
        }) == (match found {
            Some((start, exe, name)) => Some(
                (
                    start,
                    match exe {
                        Some(exe) => exe@,
                        None => name@,
                    },
                ),
            ),
            None => None,
        }),
{
    match found {
        Some((start, exe, name)) => {
            let command = match exe {
                Some(exe) => exe,
                None => name,
            };
            Some(Identity { start, command })
        },
        None => None,
    }
}

/// The error of a process that does not run.
pub open spec fn not_running(pid: u32) -> Fault {
    Fault::Fail("process "@ + text::decimal(pid as nat) + " is not running"@)
}

pub(crate) fn not_running_error(pid: u32) -> (r: AppError)
    ensures
        r@ == not_running(pid),
{
    let mut m = "process ".to_owned();
    m.append(text::decimal_text(pid as u64).as_str());
    m.append(" is not running");
    AppError::Fail(m)
}

/// The identity of the process `pid`, which must run.
pub fn capture_identity(pid: u32, live: Option<Identity>) -> (r: Result<Identity, AppError>)
    ensures
        viewed(r) == (match live {
            Some(identity) => Ok(identity@),
            None => Err::<(u64, Seq<char>), Fault>(not_running(pid)),
        }),
{
    match live {
        Some(identity) => Ok(identity),
        None => Err(not_running_error(pid)),
    }
}

/// How well a process fits a query.
#[derive(Clone, Copy, Debug, PartialEq, Eq, Structural)]
pub enum AppMatch {
    Exact,
    Substring,
}

/// What the process table says of a process.
#[derive(Debug)]
pub struct ProcessEntry {
    pub pid: u32,
    pub parent: Option<u32>,
    pub name: String,
    /// Where its program is, if that is known.
    pub exe: Option<String>,
    pub command: Vec<String>,
}

/// What a `ProcessEntry` says.
pub struct ProcessFacts {
    pub pid: u32,
    pub parent: Option<u32>,
    pub name: Seq<char>,
    pub exe: Option<Seq<char>>,
    pub command: Seq<Seq<char>>,
}

impl View for ProcessEntry {
    type V = ProcessFacts;

    open spec fn view(&self) -> ProcessFacts {
        ProcessFacts {
            pid: self.pid,
            parent: self.parent,
            name: self.name@,
            exe: text::maybe(self.exe),
            command: text::texts(self.command@),
        }
    }
}

/// How well a process with this name, program and command fits `query`, letter case aside: fully if the
/// name or the program is the query, partly if the query occurs in one of them or in a word of
/// the command.
pub open spec fn fit(
    query: Seq<char>,
    name: Seq<char>,
    program: Seq<char>,
    command: Seq<Seq<char>>,
) -> Option<AppMatch> {
    let query = text::lowered(query);
    let name = text::lowered(name);
    let program = text::lowered(program);
    if name == query || program == query {
        Some(AppMatch::Exact)
    } else if text::occurs(query, name) || text::occurs(query, program) || (exists|i: int|
        0 <= i < command.len() && text::occurs(query, text::lowered(#[trigger] command[i]))) {
        Some(AppMatch::Substring)
    } else {
        None
    }
}

pub fn match_process(query: &str, process_name: &str, exe_basename: &str, command: &Vec<String>)
    -> (r: Option<AppMatch>)
    ensures
        r == fit(query@, process_name@, exe_basename@, text::texts(command@)),
{
    let query_lower = text::lowered_text(query);
    let name = text::lowered_text(process_name);
    let program = text::lowered_text(exe_basename);
    if text::same(name.as_str(), query_lower.as_str()) || text::same(
        program.as_str(),
        query_lower.as_str(),
    ) {
        return Some(AppMatch::Exact);
    }
    if text::contains(name.as_str(), query_lower.as_str()) || text::contains(
        program.as_str(),
        query_lower.as_str(),
    ) {
        return Some(AppMatch::Substring);
    }
    if occurs_in_a_word(query_lower.as_str(), command) {
        return Some(AppMatch::Substring);
    }
    None
}

fn occurs_in_a_word(query: &str, command: &Vec<String>) -> (r: bool)
    ensures
        r == exists|i: int|
            0 <= i < command@.len() && text::occurs(
                query@,
                text::lowered(#[trigger] text::texts(command@)[i]),
            ),
{
    let ghost words = text::texts(command@);
    let mut i: usize = 0;
    while i < command.len()
        invariant
            i <= command@.len(),
            words == text::texts(command@),
            forall|k: int|
                0 <= k < i ==> !text::occurs(query@, text::lowered(#[trigger] words[k])),
        decreases command@.len() - i,
    {
        let word = text::lowered_text(command[i].as_str());
        assert(words[i as int] == command@[i as int]@);
        if text::contains(word.as_str(), query) {
            return true;
        }
        i = i + 1;
    }
    false
}

/// Whether a program of this name is this one.
pub open spec fn wake_name(name: Seq<char>) -> bool {
    text::ascii_lower(name) == text::ascii_lower("wake"@) || text::ascii_lower(name)
        == text::ascii_lower("wake.exe"@)
}

pub fn is_wake_name(name: &str) -> (r: bool)
    ensures
        r == wake_name(name@),
{
    text::same_ignoring_ascii_case(name, "wake") || text::same_ignoring_ascii_case(name, "wake.exe")
}

/// The file name of a process's program, if it is known and has one.
pub open spec fn program_of(platform: Platform, process: ProcessFacts) -> Option<Seq<char>> {
    match process.exe {
        Some(path) => platform::file_name_of(platform, path),
        None => None,
    }
}

/// Whether a process runs this program.
pub open spec fn wake_process(platform: Platform, process: ProcessFacts) -> bool {
    wake_name(process.name) || (program_of(platform, process) matches Some(program) && wake_name(
        program,
    ))
}

/// How well a process fits `query`.
pub open spec fn process_fit(
    platform: Platform,
    query: Seq<char>,
    process: ProcessFacts,
) -> Option<AppMatch> {
    fit(
        query,
        process.name,
        match program_of(platform, process) {
            Some(program) => program,
            None => Seq::empty(),
        },
        process.command,
    )
}

fn program_name(platform: Platform, process: &ProcessEntry) -> (r: Option<String>)
    ensures
        text::maybe(r) == program_of(platform, process@),
{
    match &process.exe {
        Some(path) => platform::file_name(platform, path.as_str()),
        None => None,
    }
}

pub fn is_wake_process(platform: Platform, process: &ProcessEntry) -> (r: bool)
    ensures
        r == wake_process(platform, process@),
{
    if is_wake_name(process.name.as_str()) {
        return true;
    }
    match program_name(platform, process) {
        Some(program) => is_wake_name(program.as_str()),
        None => false,
    }
}

pub fn app_match(platform: Platform, query: &str, process: &ProcessEntry) -> (r: Option<AppMatch>)
    ensures
        r == process_fit(platform, query@, process@),
{
    let program = match program_name(platform, process) {
        Some(program) => program,
        None => String::new(),
    };
    match_process(query, process.name.as_str(), program.as_str(), &process.command)
}

/// Whether the first of two fits comes first, or both are the same: full ones come before partial ones,
/// and low process numbers before high ones.
pub open spec fn comes_first(a: (AppMatch, u32), b: (AppMatch, u32)) -> bool {
    if a.0 == b.0 {
        a.1 <= b.1
    } else {
        a.0 == AppMatch::Exact
    }
}

/// Whether `chosen` is the process that comes first among `matches`.
pub open spec fn is_choice(matches: Seq<(AppMatch, u32)>, chosen: Option<u32>) -> bool {
    match chosen {
        None => matches.len() == 0,
        Some(pid) => exists|i: int|
            0 <= i < matches.len() && (#[trigger] matches[i]).1 == pid && is_first(matches, matches[i]),
    }
}

/// Whether no other of `matches` comes before `m`.
pub open spec fn is_first(matches: Seq<(AppMatch, u32)>, m: (AppMatch, u32)) -> bool {
    forall|j: int| 0 <= j < matches.len() ==> comes_first(m, #[trigger] matches[j])
}

fn precedes(a: (AppMatch, u32), b: (AppMatch, u32)) -> (r: bool)
    ensures
        r == comes_first(a, b),
{
    if a.0 == b.0 {
        a.1 <= b.1
    } else {
        a.0 == AppMatch::Exact
    }
}

pub fn choose_app_pid(matches: &Vec<(AppMatch, u32)>) -> (r: Option<u32>)
    ensures
        is_choice(matches@, r),
{
    if matches.len() == 0 {
        return None;
    }
    let mut best: usize = 0;
    let mut i: usize = 1;
    while i < matches.len()
        invariant
            best < i <= matches@.len(),
            forall|j: int| 0 <= j < i ==> comes_first(matches@[best as int], #[trigger] matches@[j]),
        decreases matches@.len() - i,
    {
        if !precedes(matches[best], matches[i]) {
            best = i;
        }
        i = i + 1;
    }
    assert(is_first(matches@, matches@[best as int]));
    Some(matches[best].1)
}

/// The parent of the process `pid`, as the process table has it.
pub open spec fn parent_in(processes: Seq<ProcessFacts>, pid: u32) -> Option<u32>
    decreases processes.len(),
{
    if processes.len() == 0 {
        None
    } else if processes[0].pid == pid {
        processes[0].parent
    } else {
        parent_in(processes.skip(1), pid)
    }
}

/// What the entries of a process table say.
pub open spec fn facts(processes: Seq<ProcessEntry>) -> Seq<ProcessFacts> {
    processes.map_values(|p: ProcessEntry| p@)
}

/// What a process is to a search from the process `me` with the parent `parent`: nothing where it is one of
/// the two or runs this program.
pub open spec fn candidate(
    platform: Platform,
    query: Seq<char>,
    me: u32,
    parent: Option<u32>,
    process: ProcessFacts,
) -> Option<(AppMatch, u32)> {
    if process.pid == me || Some(process.pid) == parent || wake_process(platform, process) {
        None
    } else {
        match process_fit(platform, query, process) {
            Some(rank) => Some((rank, process.pid)),
            None => None,
        }
    }
}

/// All the processes that fit a search.
pub open spec fn candidates(
    platform: Platform,
    query: Seq<char>,
    me: u32,
    parent: Option<u32>,
    processes: Seq<ProcessFacts>,
) -> Seq<(AppMatch, u32)>
    decreases processes.len(),
{
    if processes.len() == 0 {
        Seq::empty()
    } else {
        let before = candidates(platform, query, me, parent, processes.drop_last());
        match candidate(platform, query, me, parent, processes.last()) {
            Some(c) => before.push(c),
            None => before,
        }
    }
}

fn parent_of(processes: &Vec<ProcessEntry>, pid: u32) -> (r: Option<u32>)
    ensures
        r == parent_in(facts(processes@), pid),
{
    let ghost all = facts(processes@);
    let mut i: usize = 0;
    assert(all.skip(0) =~= all);
    while i < processes.len()
        invariant
            i <= processes@.len(),
            all == facts(processes@),
            parent_in(all, pid) == parent_in(all.skip(i as int), pid),
        decreases processes@.len() - i,
    {
        assert(all.skip(i as int)[0] == processes@[i as int]@);
        if processes[i].pid == pid {
            return processes[i].parent;
        }
        assert(all.skip(i as int).skip(1) =~= all.skip(i + 1));
        i = i + 1;
    }
    None
}

/// The process that is meant by `raw`, as the process table has them: the one that fits best, and of those
/// the one with the lowest number. The process `me` that asks, its parent and all that run this
/// program are left out.
pub fn find_app_pid(platform: Platform, raw: &str, me: u32, processes: &Vec<ProcessEntry>) -> (r: Result<
    Option<u32>,
    AppError,
>)
    ensures
        text::trimmed(raw@).len() == 0 ==> outcome(r) == Err::<Option<u32>, Fault>(
            Fault::Usage("app/process name cannot be empty"@),
        ),
        text::trimmed(raw@).len() > 0 ==> (r matches Ok(chosen) && is_choice(
            candidates(
                platform,
                text::trimmed(raw@),
                me,
                parent_in(facts(processes@), me),
                facts(processes@),
            ),
            chosen,
        )),
{
    let query = text::trim(raw);
    if query.is_empty() {
        return Err(AppError::usage("app/process name cannot be empty"));
    }
    let parent = parent_of(processes, me);
    let mut matches: Vec<(AppMatch, u32)> = Vec::new();
    let ghost all = facts(processes@);
    let mut i: usize = 0;
    while i < processes.len()
        invariant
            i <= processes@.len(),
            all == facts(processes@),
            matches@ == candidates(platform, query@, me, parent, all.take(i as int)),
        decreases processes@.len() - i,
    {
        let process = &processes[i];
        assert(all.take(i + 1).drop_last() =~= all.take(i as int));
        assert(all.take(i + 1).last() == process@);
        let is_parent = match parent {
            Some(p) => p == process.pid,
            None => false,
        };
        if process.pid != me && !is_parent && !is_wake_process(platform, process) {
            match app_match(platform, query, process) {
                Some(rank) => {
                    matches.push((rank, process.pid));
                },
                None => {},
            }
        }
        i = i + 1;
    }
    assert(all.take(i as int) =~= all);
    Ok(choose_app_pid(&matches))
}

proof fn lemma_candidates(
    platform: Platform,
    query: Seq<char>,
    me: u32,
    parent: Option<u32>,
    processes: Seq<ProcessFacts>,
)
    ensures
        forall|i: int|
            0 <= i < candidates(platform, query, me, parent, processes).len()
                ==> exists|k: int|
                0 <= k < processes.len() && candidate(
                    platform,
                    query,
                    me,
                    parent,
                    #[trigger] processes[k],
                ) == Some(#[trigger] candidates(platform, query, me, parent, processes)[i]),
        forall|k: int|
            0 <= k < processes.len() ==> match candidate(
                platform,
                query,
                me,
                parent,
                #[trigger] processes[k],
            ) {
                Some(c) => candidates(platform, query, me, parent, processes).contains(c),
                None => true,
            },
    decreases processes.len(),
{
    if processes.len() > 0 {
        let before = processes.drop_last();
        lemma_candidates(platform, query, me, parent, before);
        let old_ones = candidates(platform, query, me, parent, before);
        let all = candidates(platform, query, me, parent, processes);
        assert forall|i: int| 0 <= i < all.len() implies exists|k: int|
            0 <= k < processes.len() && candidate(
                platform,
                query,
                me,
                parent,
                #[trigger] processes[k],
            ) == Some(#[trigger] all[i]) by {
            if i < old_ones.len() {
                assert(all[i] == old_ones[i]);
                let k = choose|k: int|
                    0 <= k < before.len() && candidate(
                        platform,
                        query,
                        me,
                        parent,
                        #[trigger] before[k],
                    ) == Some(old_ones[i]);
                assert(processes[k] == before[k]);
            } else {
                assert(candidate(platform, query, me, parent, processes[processes.len() - 1])
                    == Some(all[i]));
            }
        }
        assert forall|k: int| 0 <= k < processes.len() implies match candidate(
            platform,
            query,
            me,
            parent,
            #[trigger] processes[k],
        ) {
            Some(c) => all.contains(c),
            None => true,
        } by {
            match candidate(platform, query, me, parent, processes[k]) {
                Some(c) => {
                    if k < before.len() {
                        assert(before[k] == processes[k]);
                        let i = choose|i: int| 0 <= i < old_ones.len() && old_ones[i] == c;
                        assert(all[i] == c);
                    } else {
                        assert(all[all.len() - 1] == c);
                    }
                },
                None => {},
            }
        }
    }
}

/// Whoever asks is never what it finds, nor is its parent or another process of this program; what is found
/// fits the query; and where any process fits fully, what is found does.
pub proof fn law_searches_find_another_program(
    platform: Platform,
    query: Seq<char>,
    me: u32,
    parent: Option<u32>,
    processes: Seq<ProcessFacts>,
    pid: u32,
)
    requires
        is_choice(candidates(platform, query, me, parent, processes), Some(pid)),
    ensures
        pid != me,
        Some(pid) != parent,
        exists|k: int|
            0 <= k < processes.len() && (#[trigger] processes[k]).pid == pid && !wake_process(
                platform,
                processes[k],
            ) && process_fit(platform, query, processes[k]) is Some,
        forall|j: int|
            0 <= j < processes.len() && candidate(
                platform,
                query,
                me,
                parent,
                #[trigger] processes[j],
            ) == Some((AppMatch::Exact, processes[j].pid)) ==> exists|k: int|
                0 <= k < processes.len() && (#[trigger] processes[k]).pid == pid && process_fit(
                    platform,
                    query,
                    processes[k],
                ) == Some(AppMatch::Exact),
{
    let all = candidates(platform, query, me, parent, processes);
    lemma_candidates(platform, query, me, parent, processes);
    let i = choose|i: int| 0 <= i < all.len() && (#[trigger] all[i]).1 == pid && is_first(all, all[i]);
    let k = choose|k: int|
        0 <= k < processes.len() && candidate(platform, query, me, parent, #[trigger] processes[k])
            == Some(all[i]);
    assert(processes[k].pid == pid);
    assert forall|j: int|
        0 <= j < processes.len() && candidate(
            platform,
            query,
            me,
            parent,
            #[trigger] processes[j],
        ) == Some((AppMatch::Exact, processes[j].pid)) implies exists|k: int|
        0 <= k < processes.len() && (#[trigger] processes[k]).pid == pid && process_fit(
            platform,
            query,
            processes[k],
        ) == Some(AppMatch::Exact) by {
        let c = candidate(platform, query, me, parent, processes[j])->0;
        assert(all.contains(c));
        let n = choose|n: int| 0 <= n < all.len() && all[n] == c;
        assert(comes_first(all[i], all[n]));
        assert(process_fit(platform, query, processes[k]) == Some(AppMatch::Exact));
    }
}

/// What is to be sent to the process of a session that is ended.
#[derive(Clone, Copy, Debug, PartialEq, Eq, Structural)]
pub enum Signal {
    /// Nothing: the process is gone.
    Nothing,
    /// A request to end, or the order where the system has no such request.
    Terminate,
    /// The order to end.
    Kill,
}

/// What is to be sent to the process of `session`. `live` is the process that has its number now; it must
/// be the session's own.
pub fn signal_session(
    platform: Platform,
    session: &Session,
    live: &Option<Identity>,
    force: bool,
) -> (r: Result<Signal, AppError>)
    ensures
        outcome(r) == (match live {
            None => Ok::<Signal, Fault>(Signal::Nothing),
            Some(identity) => if !session@.is_process(platform, identity@) {
                Err(
                    Fault::Fail(
                        "session process "@ + text::decimal(session@.pid as nat)
                            + " changed identity; refusing to terminate it"@,
                    ),
                )
            } else if force {
                Ok(Signal::Kill)
            } else {
                Ok(Signal::Terminate)
            },
        }),
{
    match live {
        None => Ok(Signal::Nothing),
        Some(identity) => {
            if !session.matches_identity(platform, identity) {
                let mut m = "session process ".to_owned();
                m.append(text::decimal_text(session.pid as u64).as_str());
                m.append(" changed identity; refusing to terminate it");
                return Err(AppError::Fail(m));
            }
            if force {
                Ok(Signal::Kill)
            } else {
                Ok(Signal::Terminate)
            }
        },
    }
}

/// How far ending a session's process has come.
#[derive(Clone, Copy, Debug, PartialEq, Eq, Structural)]
pub enum TerminationState {
    Asking,
    Waiting,
    Forcing,
    WaitingOnce,
    Succeeded,
    Failed,
}

/// What ending a session's process asks for.
#[derive(Clone, Copy, Debug, PartialEq, Eq, Structural)]
pub enum TerminationAction {
    Signal { force: bool },
    /// Wait until the process is gone, so many seconds at most.
    WaitGone { seconds: u64 },
    Finish,
}

/// What the system answers.
#[derive(Clone, Copy, Debug, PartialEq, Eq, Structural)]
pub enum TerminationEvent {
    /// Whether there was a process to send something to.
    Signalled(bool),
    /// Whether the process went away in time.
    Gone(bool),
    Failed,
}

/// What ending a session's process asks for next.
pub open spec fn termination_wants(state: TerminationState) -> TerminationAction {
    match state {
        TerminationState::Asking => TerminationAction::Signal { force: false },
        TerminationState::Waiting => TerminationAction::WaitGone { seconds: 5 },
        TerminationState::Forcing => TerminationAction::Signal { force: true },
        TerminationState::WaitingOnce => TerminationAction::WaitGone { seconds: 1 },
        _ => TerminationAction::Finish,
    }
}

/// Where ending a session's process goes from `state` on `event`.
pub open spec fn termination_next(
    state: TerminationState,
    event: TerminationEvent,
) -> TerminationState {
    match (state, event) {
        (TerminationState::Succeeded, _) => state,
        (TerminationState::Asking, TerminationEvent::Signalled(sent)) => if sent {
            TerminationState::Waiting
        } else {
            TerminationState::Succeeded
        },
        (TerminationState::Waiting, TerminationEvent::Gone(gone)) => if gone {
            TerminationState::Succeeded
        } else {
            TerminationState::Forcing
        },
        (TerminationState::Forcing, TerminationEvent::Signalled(_)) => {
            TerminationState::WaitingOnce
        },
        (TerminationState::WaitingOnce, TerminationEvent::Gone(_)) => TerminationState::Succeeded,
        (_, TerminationEvent::Failed) => TerminationState::Failed,
        _ => state,
    }
}

pub fn termination_asks(state: TerminationState) -> (r: TerminationAction)
    ensures
        r == termination_wants(state),
{
    match state {
        TerminationState::Asking => TerminationAction::Signal { force: false },
        TerminationState::Waiting => TerminationAction::WaitGone { seconds: 5 },
        TerminationState::Forcing => TerminationAction::Signal { force: true },
        TerminationState::WaitingOnce => TerminationAction::WaitGone { seconds: 1 },
        _ => TerminationAction::Finish,
    }
}

/// Where ending a session's process goes from `state` on `event`.
pub fn terminate_session(state: TerminationState, event: TerminationEvent) -> (r: TerminationState)
    ensures
        r == termination_next(state, event),
{
    match (state, event) {
        (TerminationState::Succeeded, _) => state,
        (TerminationState::Asking, TerminationEvent::Signalled(sent)) => if sent {
            TerminationState::Waiting
        } else {
            TerminationState::Succeeded
        },
        (TerminationState::Waiting, TerminationEvent::Gone(gone)) => if gone {
            TerminationState::Succeeded
        } else {
            TerminationState::Forcing
        },
        (TerminationState::Forcing, TerminationEvent::Signalled(_)) => {
            TerminationState::WaitingOnce
        },
        (TerminationState::WaitingOnce, TerminationEvent::Gone(_)) => TerminationState::Succeeded,
        (_, TerminationEvent::Failed) => TerminationState::Failed,
        _ => state,
    }
}

/// A process is ordered to end only after it was asked to and did not go away in time.
pub proof fn law_processes_are_asked_first(state: TerminationState, event: TerminationEvent)
    ensures
        termination_wants(termination_next(state, event)) == (TerminationAction::Signal {
            force: true,
        }) && termination_wants(state) != (TerminationAction::Signal { force: true })
            ==> termination_wants(state) == (TerminationAction::WaitGone { seconds: 5 }) && event
            == TerminationEvent::Gone(false),
{
}

/// What a look at a process that should go away within `seconds` comes to, `elapsed` after the first: whether
/// it is gone, or nothing yet. Where there is nothing yet, look again in a tenth of a second.
pub fn wait_gone(alive: bool, elapsed: Span, seconds: u64) -> (r: Option<bool>)
    ensures
        r == (if !alive {
            Some(true)
        } else if elapsed.seconds >= seconds {
            Some(false)
        } else {
            None
        }),
{
    if !alive {
        Some(true)
    } else if elapsed.seconds >= seconds {
        Some(false)
    } else {
        None
    }
}

/// The program that a command starts, as it is told to the user.
pub open spec fn basename_of(platform: Platform, command: Seq<Seq<char>>) -> Seq<char> {
    if command.len() == 0 || text::trimmed(command[0]).len() == 0 {
        "unknown"@
    } else {
        match platform::file_name_of(platform, command[0]) {
            Some(name) => name,
            None => command[0],
        }
    }
}

pub fn command_basename(platform: Platform, cmd: &[String]) -> (r: String)
    ensures
        r@ == basename_of(platform, text::texts(cmd@)),
{
    if cmd.len() == 0 {
        return "unknown".to_owned();
    }
    assert(text::texts(cmd@)[0] == cmd@[0]@);
    if text::trim(cmd[0].as_str()).is_empty() {
        return "unknown".to_owned();
    }
    match platform::file_name(platform, cmd[0].as_str()) {
        Some(name) => name,
        None => cmd[0].clone(),
    }
}

/// How long after its start a child is looked at.
pub fn settling_time() -> (r: Span)
    ensures
        r == (Span { seconds: 0, nanos: 300_000_000 }),
{
    Span { seconds: 0, nanos: 300_000_000 }
}

/// A child must still run a moment after it was started. `ended` tells how it ended, if it has.
pub fn require_child_alive(platform: Platform, ended: Option<String>, cmd: &[String]) -> (r: Result<
    (),
    AppError,
>)
    ensures
        outcome(r) == (match ended {
            None => Ok::<(), Fault>(()),
            Some(status) => Err(
                Fault::Fail(
                    "keep-awake process exited immediately ("@ + basename_of(
                        platform,
                        text::texts(cmd@),
                    ) + ", "@ + status@ + "); see platform requirements"@,
                ),
            ),
        }),
{
    match ended {
        None => Ok(()),
        Some(status) => {
            let mut m = "keep-awake process exited immediately (".to_owned();
            m.append(command_basename(platform, cmd).as_str());
            m.append(", ");
            m.append(status.as_str());
            m.append("); see platform requirements");
            Err(AppError::Fail(m))
        },
    }
}

/// Where this program is. `found` tells it, or why it cannot be told.
pub fn self_exe(found: Result<String, String>) -> (r: Result<String, AppError>)
    ensures
        viewed(r) == (match found {
            Ok(path) => Ok(path@),
            Err(error) => Err::<Seq<char>, Fault>(
                Fault::Fail("can't determine executable path: "@ + error@),
            ),
        }),
{
    match found {
        Ok(path) => Ok(path),
        Err(error) => {
            let mut m = "can't determine executable path: ".to_owned();
            m.append(error.as_str());
            Err(AppError::Fail(m))
        },
    }
}

/// The error of a command that could not be started.
pub fn spawn_failure(platform: Platform, cmd: &[String], error: &str) -> (r: AppError)
    ensures
        r@ == Fault::Fail(
            "couldn't launch "@ + basename_of(platform, text::texts(cmd@)) + ": "@ + error@
                + "; check it is installed and on PATH"@,
        ),
{
    let mut m = "couldn't launch ".to_owned();
    m.append(command_basename(platform, cmd).as_str());
    m.append(": ");
    m.append(error);
    m.append("; check it is installed and on PATH");
    AppError::Fail(m)
}

/// A process fits fully exactly where its name or its program is the query, letter case aside, and at all
/// exactly where the query occurs in its name, in its program or in a word of its command.
pub proof fn law_processes_fit_by_what_they_are(
    query: Seq<char>,
    name: Seq<char>,
    program: Seq<char>,
    command: Seq<Seq<char>>,
)
    ensures
        ({
            let r = fit(query, name, program, command);
            let q = text::lowered(query);
            &&& r == Some(AppMatch::Exact) <==> text::lowered(name) == q || text::lowered(program)
                == q
            &&& r is Some <==> text::occurs(q, text::lowered(name)) || text::occurs(
                q,
                text::lowered(program),
            ) || exists|i: int|
                0 <= i < command.len() && text::occurs(q, text::lowered(#[trigger] command[i]))
        }),
{
    let q = text::lowered(query);
    lemma_occurs_in_itself(q);
}

proof fn lemma_occurs_in_itself(s: Seq<char>)
    ensures
        text::occurs(s, s),
{
    let zero: int = 0;
    assert(s.subrange(zero, zero + s.len()) =~= s);
}

/// A process fits by its own name and by the file name of its program, wherever that lies.
pub proof fn law_processes_fit_by_their_own_names(platform: Platform, process: ProcessFacts)
    ensures
        process_fit(platform, process.name, process) == Some(AppMatch::Exact),
        program_of(platform, process) matches Some(program) ==> process_fit(
            platform,
            program,
            process,
        ) == Some(AppMatch::Exact),
        wake_name(process.name) ==> wake_process(platform, process),
        program_of(platform, process) matches Some(program) ==> (wake_name(program)
            ==> wake_process(platform, process)),
        wake_process(platform, process) ==> wake_name(process.name) || program_of(platform, process)
            is Some,
{
}

/// Among those that fit, one that fits fully comes before one that does not, and of two that fit alike the one
/// with the lower number comes first; one is found wherever any fits.
pub proof fn law_the_best_fit_is_chosen(
    matches: Seq<(AppMatch, u32)>,
    chosen: Option<u32>,
    j: int,
)
    requires
        is_choice(matches, chosen),
        0 <= j < matches.len(),
    ensures
        chosen matches Some(pid) && exists|i: int|
            0 <= i < matches.len() && (#[trigger] matches[i]).1 == pid && (matches[j].0
                == AppMatch::Exact ==> matches[i].0 == AppMatch::Exact) && (matches[i].0
                == matches[j].0 ==> pid <= matches[j].1),
{
    let pid = chosen->0;
    let i = choose|i: int|
        0 <= i < matches.len() && (#[trigger] matches[i]).1 == pid && is_first(matches, matches[i]);
    assert(comes_first(matches[i], matches[j]));
}

/// Where a process fits that is neither the one that asks, nor its parent, nor one of this program, something
/// is found.
pub proof fn law_searches_find_what_fits(
    platform: Platform,
    query: Seq<char>,
    me: u32,
    parent: Option<u32>,
    processes: Seq<ProcessFacts>,
    chosen: Option<u32>,
    k: int,
)
    requires
        is_choice(candidates(platform, query, me, parent, processes), chosen),
        0 <= k < processes.len(),
        processes[k].pid != me && Some(processes[k].pid) != parent && !wake_process(
            platform,
            processes[k],
        ),
        process_fit(platform, query, processes[k]) is Some,
    ensures
        chosen is Some,
{
    lemma_candidates(platform, query, me, parent, processes);
    let all = candidates(platform, query, me, parent, processes);
    let c = candidate(platform, query, me, parent, processes[k])->0;
    assert(all.contains(c));
}

/// The parent of a process is the one that the table has for its number.
pub proof fn law_parents_are_looked_up(processes: Seq<ProcessFacts>, k: int)
    requires
        0 <= k < processes.len(),
        forall|i: int| 0 <= i < k ==> (#[trigger] processes[i]).pid != processes[k].pid,
    ensures
        parent_in(processes, processes[k].pid) == processes[k].parent,
    decreases processes.len(),
{
    if k > 0 {
        assert(processes[0].pid != processes[k].pid);
        let rest = processes.skip(1);
        assert(rest[k - 1] == processes[k]);
        assert forall|i: int| 0 <= i < k - 1 implies (#[trigger] rest[i]).pid
            != rest[k - 1].pid by {
            assert(rest[i] == processes[i + 1]);
        }
        law_parents_are_looked_up(rest, k - 1);
    }
}

/// Nothing is ever sent to a process that is not the session's own; its own is asked to end, or ordered to where
/// that is wanted; and where the process is gone there is nothing to send.
pub proof fn law_only_the_sessions_process_is_signalled(
    platform: Platform,
    session: Session,
    live: Option<Identity>,
    force: bool,
    r: Result<Signal, AppError>,
)
    requires
        call_ensures(signal_session, (platform, &session, &live, force), r),
    ensures
        r == Ok::<Signal, AppError>(Signal::Nothing) <==> live is None,
        (r matches Ok(signal) && signal != Signal::Nothing) ==> (live matches Some(process)
            && session@.is_process(platform, process@)),
        live matches Some(process) ==> (session@.is_process(platform, process@) ==> (r matches Ok(
            signal,
        ) && signal == (if force {
            Signal::Kill
        } else {
            Signal::Terminate
        }))),
        live matches Some(process) ==> (!session@.is_process(platform, process@) ==> r is Err),
{
}

/// A process that is to end: what it does, and what was done to it so far.
pub struct EndingWorld {
    pub running: bool,
    /// Whether it ends in time when it is asked to.
    pub obeys: bool,
    pub asked: bool,
    pub killed: bool,
}

impl EndingWorld {
    /// What comes back for an action, and what the process is then.
    pub open spec fn answer(self, action: TerminationAction) -> (EndingWorld, TerminationEvent) {
        match action {
            TerminationAction::Signal { force } => if !self.running {
                (self, TerminationEvent::Signalled(false))
            } else if force {
                (
                    EndingWorld { running: false, killed: true, ..self },
                    TerminationEvent::Signalled(true),
                )
            } else {
                (
                    EndingWorld { running: !self.obeys, asked: true, ..self },
                    TerminationEvent::Signalled(true),
                )
            },
            TerminationAction::WaitGone { .. } => (self, TerminationEvent::Gone(!self.running)),
            TerminationAction::Finish => (self, TerminationEvent::Gone(!self.running)),
        }
    }
}

/// A step of ending a session's process.
pub open spec fn termination_step(at: (TerminationState, EndingWorld)) -> (
    TerminationState,
    EndingWorld,
) {
    let (world, event) = at.1.answer(termination_wants(at.0));
    (termination_next(at.0, event), world)
}

/// A process that is to end has ended: it is asked to if it runs, and ordered to exactly where it does not end
/// in time by itself.
pub proof fn law_processes_come_to_an_end(world: EndingWorld)
    requires
        !world.asked && !world.killed,
    ensures
        ({
            let c1 = termination_step((TerminationState::Asking, world));
            let c2 = termination_step(c1);
            let c3 = termination_step(c2);
            let (state, after) = termination_step(c3);
            &&& state is Succeeded
            &&& !after.running
            &&& after.asked == world.running
            &&& after.killed == (world.running && !world.obeys)
        }),
        forall|state: TerminationState| #[trigger]
            termination_wants(state) is Signal ==> termination_next(state, TerminationEvent::Failed)
                is Failed,
{
}

/// A process is gone as soon as it does not run, and stays for good once its time is over.
pub proof fn law_waiting_for_an_end(alive: bool, elapsed: Span, seconds: u64, r: Option<bool>)
    requires
        call_ensures(wait_gone, (alive, elapsed, seconds), r),
    ensures
        r == Some(true) <==> !alive,
        r == Some(false) <==> alive && elapsed.seconds >= seconds,
{
}

/// A process is known by its program where that is known, and by its name otherwise.
pub proof fn law_processes_are_known_by_their_program(
    start: u64,
    exe: Option<String>,
    name: String,
    r: Option<Identity>,
)
    requires
        call_ensures(live_identity, (Some((start, exe, name)),), r),
    ensures
        r matches Some(identity) && identity.start == start && (exe matches Some(path)
            ==> identity.command@ == path@) && (exe is None ==> identity.command@ == name@),
{
}

/// A child must not have ended, and a process must run whose identity is taken.
pub proof fn law_children_must_run(
    platform: Platform,
    ended: Option<String>,
    cmd: &[String],
    r: Result<(), AppError>,
    pid: u32,
    live: Option<Identity>,
    captured: Result<Identity, AppError>,
)
    requires
        call_ensures(require_child_alive, (platform, ended, cmd), r),
        call_ensures(capture_identity, (pid, live), captured),
    ensures
        r is Ok <==> ended is None,
        captured is Ok <==> live is Some,
        captured matches Ok(identity) ==> (live matches Some(process) && identity@ == process@),
{
}

} // verus!
