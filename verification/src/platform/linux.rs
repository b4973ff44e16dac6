//! Linux: logind's inhibitors and the batteries of the kernel.

use vstd::prelude::*;
use vstd::string::*;

use super::KeepAwake;
use crate::error::{AppError, Fault, viewed};
use crate::supervisor::{BatteryStatus, battery_status, plain_battery};
use crate::text;

verus! {

/// The scopes to ask an inhibitor for, the widest first.
pub open spec fn candidates(no_display: bool) -> Seq<Seq<char>> {
    if no_display {
        seq!["sleep:handle-lid-switch"@, "sleep"@]
    } else {
        seq!["idle:sleep:handle-lid-switch"@, "idle:sleep"@, "sleep"@]
    }
}

pub fn inhibitor_candidates(no_display: bool) -> (r: Vec<&'static str>)
    ensures
        text::strs(r@) == candidates(no_display),
{
    let r = if no_display {
        vec!["sleep:handle-lid-switch", "sleep"]
    } else {
        vec!["idle:sleep:handle-lid-switch", "idle:sleep", "sleep"]
    };
    assert(text::strs(r@) =~= candidates(no_display));
    r
}

/// What is said of the scope at `index`: nothing of the first, what is lost with any other.
pub open spec fn degradation(no_display: bool, index: int) -> Option<Seq<char>> {
    let what = candidates(no_display)[index];
    if index == 0 {
        None
    } else if !no_display && what == "sleep"@ {
        Some(
            "note: inhibitor degraded to "@ + what
                + "; idle/display inhibition and lid-switch handling were lost, so the display may sleep and lid closure may suspend"@,
        )
    } else {
        Some("note: inhibitor degraded to "@ + what + "; lid closure may suspend"@)
    }
}

fn degradation_note(no_display: bool, index: usize, what: &str) -> (r: Option<String>)
    requires
        index < candidates(no_display).len(),
        what@ == candidates(no_display)[index as int],
    ensures
        text::maybe(r) == degradation(no_display, index as int),
{
    if index == 0 {
        return None;
    }
    let mut m = "note: inhibitor degraded to ".to_owned();
    m.append(what);
    if !no_display && text::same(what, "sleep") {
        m.append(
            "; idle/display inhibition and lid-switch handling were lost, so the display may sleep and lid closure may suspend",
        );
    } else {
        m.append("; lid closure may suspend");
    }
    Some(m)
}

/// Whether a probe of a scope that finds `before` may leave `after` behind and answer so.
pub open spec fn answers<W, F: Fn(W, &str) -> (W, bool)>(
    probe: F,
    scope: Seq<char>,
    before: W,
    after: W,
    answer: bool,
) -> bool {
    exists|what: &str|
        what@ == scope && #[trigger] call_ensures(probe, (before, what), (after, answer))
}

/// Whether probing just `scopes`, each once and in order, may lead through `worlds`: every scope is
/// refused, but the last is granted where `granted` says so.
pub open spec fn leads_through<W, F: Fn(W, &str) -> (W, bool)>(
    probe: F,
    scopes: Seq<Seq<char>>,
    granted: bool,
    worlds: Seq<W>,
) -> bool {
    &&& worlds.len() == scopes.len() + 1
    &&& forall|i: int|
        0 <= i < scopes.len() ==> answers(
            probe,
            #[trigger] scopes[i],
            worlds[i],
            worlds[i + 1],
            granted && i == scopes.len() - 1,
        )
}

/// Whether probing just `scopes`, each once and in order, may lead from `before` to `after`: every
/// scope is refused, but the last is granted where `granted` says so.
pub open spec fn probed<W, F: Fn(W, &str) -> (W, bool)>(
    probe: F,
    scopes: Seq<Seq<char>>,
    granted: bool,
    before: W,
    after: W,
) -> bool {
    exists|worlds: Seq<W>| #[trigger]
        leads_through(probe, scopes, granted, worlds) && worlds.first() == before && worlds.last()
            == after
}

/// The scopes that may be probed: the first alone where the lid is asked for.
pub open spec fn tried(no_display: bool, even_lid: bool) -> Seq<Seq<char>> {
    if even_lid {
        candidates(no_display).take(1)
    } else {
        candidates(no_display)
    }
}

/// Whether `r` may be what probing one candidate after the other leads to, where `before` is found
/// and `after` is left: the candidates up to the first that is granted are probed and no other, or all
/// that may be where each is refused.
pub open spec fn selection<W, F: Fn(W, &str) -> (W, bool)>(
    no_display: bool,
    even_lid: bool,
    probe: F,
    before: W,
    after: W,
    r: Result<(Seq<char>, Option<Seq<char>>), Fault>,
) -> bool {
    let scopes = tried(no_display, even_lid);
    match r {
        Ok((what, note)) => exists|index: int|
            {
                &&& 0 <= index < scopes.len()
                &&& what == #[trigger] scopes[index]
                &&& note == degradation(no_display, index)
                &&& probed(probe, scopes.take(index + 1), true, before, after)
            },
        Err(e) => {
            &&& probed(probe, scopes, false, before, after)
            &&& e == (if even_lid {
                Fault::Fail("--even-lid requires systemd inhibitor scope "@ + scopes[0])
            } else {
                Fault::Fail("no supported systemd inhibitor scope"@)
            })
        },
    }
}

/// The scope to use and what to say of it, by probing one candidate after the other. A probe takes
/// what it finds and hands back what it leaves.
pub fn select_inhibitor<W, F: Fn(W, &str) -> (W, bool)>(
    before: W,
    no_display: bool,
    even_lid: bool,
    probe: F,
) -> (r: (W, Result<(&'static str, Option<String>), AppError>))
    requires
        forall|found: W, what: &str| call_requires(probe, (found, what)),
    ensures
        selection(
            no_display,
            even_lid,
            probe,
            before,
            r.0,
            match r.1 {
                Ok((what, note)) => Ok((what@, text::maybe(note))),
                Err(e) => Err(e@),
            },
        ),
{
    let mut scopes = inhibitor_candidates(no_display);
    let ghost cs = tried(no_display, even_lid);
    proof {
        assert forall|i: int| 0 <= i < scopes@.len() implies (#[trigger] scopes@[i])@ == candidates(
            no_display,
        )[i] by {
            assert(text::strs(scopes@)[i] == scopes@[i]@);
        }
    }
    assert(scopes@.len() == candidates(no_display).len());
    if even_lid {
        scopes.truncate(1);
    }
    let ghost mut worlds = seq![before];
    let mut left = before;
    let mut index: usize = 0;
    while index < scopes.len()
        invariant
            index <= scopes@.len(),
            scopes@.len() == cs.len(),
            cs == tried(no_display, even_lid),
            forall|found: W, what: &str| call_requires(probe, (found, what)),
            forall|i: int| 0 <= i < scopes@.len() ==> (#[trigger] scopes@[i])@ == cs[i],
            leads_through(probe, cs.take(index as int), false, worlds),
            worlds.first() == before,
            worlds.last() == left,
        decreases scopes@.len() - index,
    {
        let what: &'static str = scopes[index];
        let ghost found = left;
        let (after, granted) = probe(left, what);
        proof {
            assert(what@ == cs[index as int]);
            assert(answers(probe, cs[index as int], found, after, granted));
            assert forall|i: int| 0 <= i < index implies answers(
                probe,
                #[trigger] cs[i],
                worlds[i],
                worlds[i + 1],
                false,
            ) by {
                assert(cs.take(index as int)[i] == cs[i]);
            }
            worlds = worlds.push(after);
        }
        assert(leads_through(probe, cs.take(index + 1), granted, worlds));
        if granted {
            let note = degradation_note(no_display, index, what);
            assert(probed(probe, cs.take(index + 1), true, before, after));
            return (after, Ok((what, note)));
        }
        left = after;
        index = index + 1;
    }
    assert(cs.take(index as int) =~= cs);
    if even_lid {
        let mut m = "--even-lid requires systemd inhibitor scope ".to_owned();
        m.append(scopes[0]);
        return (left, Err(AppError::Fail(m)));
    }
    (left, Err(AppError::fail("no supported systemd inhibitor scope")))
}

proof fn lemma_probed_scopes_are_logged<W, F: Fn(W, &str) -> (W, bool)>(
    probe: F,
    scopes: Seq<Seq<char>>,
    granted: bool,
    worlds: Seq<W>,
    n: int,
    log: spec_fn(W) -> Seq<Seq<char>>,
)
    requires
        leads_through(probe, scopes, granted, worlds),
        logs(probe, log),
        0 <= n <= scopes.len(),
    ensures
        log(worlds[n]) == log(worlds[0]) + scopes.take(n),
    decreases n,
{
    if n > 0 {
        lemma_probed_scopes_are_logged(probe, scopes, granted, worlds, n - 1, log);
        assert(answers(
            probe,
            scopes[n - 1],
            worlds[n - 1],
            worlds[n],
            granted && n == scopes.len(),
        ));
        assert(scopes.take(n) =~= scopes.take(n - 1).push(scopes[n - 1]));
    }
    assert(log(worlds[0]) + scopes.take(0) =~= log(worlds[0]));
}

/// Whether `log` is a record of what is probed: every probe adds the scope that it is asked of.
pub open spec fn logs<W, F: Fn(W, &str) -> (W, bool)>(
    probe: F,
    log: spec_fn(W) -> Seq<Seq<char>>,
) -> bool {
    forall|before: W, what: &str, end: (W, bool)| #[trigger]
        call_ensures(probe, (before, what), end) ==> log(end.0) == log(before).push(what@)
}

/// Whatever the answers, just the candidates up to the chosen one are probed, each once and in order;
/// where none is chosen, all that may be; and with the lid asked for, the first alone.
pub proof fn law_no_scope_is_probed_in_vain<W, F: Fn(W, &str) -> (W, bool)>(
    no_display: bool,
    even_lid: bool,
    probe: F,
    before: W,
    after: W,
    r: Result<(Seq<char>, Option<Seq<char>>), Fault>,
    log: spec_fn(W) -> Seq<Seq<char>>,
)
    requires
        selection(no_display, even_lid, probe, before, after, r),
        logs(probe, log),
    ensures
        match r {
            Ok((what, _)) => exists|index: int|
                {
                    &&& 0 <= index < candidates(no_display).len()
                    &&& even_lid ==> index == 0
                    &&& what == #[trigger] candidates(no_display)[index]
                    &&& log(after) == log(before) + candidates(no_display).take(index + 1)
                },
            Err(_) => log(after) == log(before) + tried(no_display, even_lid),
        },
{
    let scopes = tried(no_display, even_lid);
    match r {
        Ok((what, note)) => {
            let index = choose|index: int|
                {
                    &&& 0 <= index < scopes.len()
                    &&& what == #[trigger] scopes[index]
                    &&& note == degradation(no_display, index)
                    &&& probed(probe, scopes.take(index + 1), true, before, after)
                };
            let some = scopes.take(index + 1);
            let worlds = choose|worlds: Seq<W>| #[trigger]
                leads_through(probe, some, true, worlds) && worlds.first() == before
                    && worlds.last() == after;
            lemma_probed_scopes_are_logged(probe, some, true, worlds, index + 1, log);
            assert(some.take(index + 1) =~= candidates(no_display).take(index + 1));
            assert(what == candidates(no_display)[index]);
        },
        Err(_) => {
            let worlds = choose|worlds: Seq<W>| #[trigger]
                leads_through(probe, scopes, false, worlds) && worlds.first() == before
                    && worlds.last() == after;
            lemma_probed_scopes_are_logged(
                probe,
                scopes,
                false,
                worlds,
                scopes.len() as int,
                log,
            );
            assert(scopes.take(scopes.len() as int) =~= scopes);
        },
    }
}

/// The command that holds an inhibitor: while the process `wait_pid` lives, or for `timeout_sec`
/// seconds, or for good.
pub open spec fn inhibitor_words(
    systemd_inhibit: Seq<char>,
    what: Seq<char>,
    timeout_sec: Option<i64>,
    wait_pid: Option<u32>,
) -> Seq<Seq<char>> {
    seq![systemd_inhibit, "--what="@ + what, "--who=wake"@, "--why=wake CLI"@] + match wait_pid {
        Some(pid) => seq!["tail"@, "--pid="@ + text::decimal(pid as nat), "-f"@, "/dev/null"@],
        None => seq![
            "sleep"@,
            match timeout_sec {
                Some(timeout) => text::signed_decimal(timeout as int),
                None => "infinity"@,
            },
        ],
    }
}

pub fn inhibitor_command(
    systemd_inhibit: String,
    what: &str,
    timeout_sec: Option<i64>,
    wait_pid: Option<u32>,
) -> (r: Vec<String>)
    ensures
        text::texts(r@) == inhibitor_words(systemd_inhibit@, what@, timeout_sec, wait_pid),
{
    let ghost exe = systemd_inhibit@;
    let mut scope = "--what=".to_owned();
    scope.append(what);
    let mut cmd: Vec<String> = Vec::new();
    cmd.push(systemd_inhibit);
    cmd.push(scope);
    cmd.push("--who=wake".to_owned());
    cmd.push("--why=wake CLI".to_owned());
    match wait_pid {
        Some(pid) => {
            let mut target = "--pid=".to_owned();
            target.append(text::decimal_text(pid as u64).as_str());
            cmd.push("tail".to_owned());
            cmd.push(target);
            cmd.push("-f".to_owned());
            cmd.push("/dev/null".to_owned());
        },
        None => {
            cmd.push("sleep".to_owned());
            cmd.push(
                match timeout_sec {
                    Some(timeout) => text::signed_decimal_text(timeout),
                    None => "infinity".to_owned(),
                },
            );
        },
    }
    assert(text::texts(cmd@) =~= inhibitor_words(exe, what@, timeout_sec, wait_pid));
    cmd
}

/// An inhibitor that was found to be granted.
pub struct PreparedInhibitor {
    pub systemd_inhibit: String,
    pub what: &'static str,
    pub note: Option<String>,
}

impl PreparedInhibitor {
    pub fn scope(&self) -> (r: &'static str)
        ensures
            r@ == self.what@,
    {
        self.what
    }

    pub fn note(&self) -> (r: Option<&str>)
        ensures
            text::maybe(self.note) == (match r {
                Some(note) => Some(note@),
                None => None,
            }),
    {
        match &self.note {
            Some(note) => Some(note.as_str()),
            None => None,
        }
    }

    /// The command that holds the inhibitor, with the note.
    pub fn command(&self, timeout_sec: Option<i64>, wait_pid: Option<u32>) -> (r: KeepAwake)
        ensures
            r@ == (
                inhibitor_words(self.systemd_inhibit@, self.what@, timeout_sec, wait_pid),
                text::maybe(self.note),
            ),
    {
        let note = match &self.note {
            Some(note) => Some(note.clone()),
            None => None,
        };
        KeepAwake {
            cmd: inhibitor_command(self.systemd_inhibit.clone(), self.what, timeout_sec, wait_pid),
            note,
        }
    }
}

/// An inhibitor that is granted, where `systemd_inhibit` was found and `probe` grants a scope. Without
/// the program nothing is probed.
pub fn prepare_keep_awake<W, F: Fn(W, &str) -> (W, bool)>(
    before: W,
    systemd_inhibit: Result<String, AppError>,
    no_display: bool,
    even_lid: bool,
    probe: F,
) -> (r: (W, Result<PreparedInhibitor, AppError>))
    requires
        forall|found: W, what: &str| call_requires(probe, (found, what)),
    ensures
        match viewed(systemd_inhibit) {
            Err(e) => r.0 == before && (r.1 matches Err(error) && error@ == e),
            Ok(exe) => {
                &&& r.1 matches Ok(prepared) ==> prepared.systemd_inhibit@ == exe
                &&& selection(
                    no_display,
                    even_lid,
                    probe,
                    before,
                    r.0,
                    match r.1 {
                        Ok(prepared) => Ok((prepared.what@, text::maybe(prepared.note))),
                        Err(e) => Err(e@),
                    },
                )
            },
        },
{
    let systemd_inhibit = match systemd_inhibit {
        Err(e) => return (before, Err(e)),
        Ok(exe) => exe,
    };
    let (after, selected) = select_inhibitor(before, no_display, even_lid, probe);
    match selected {
        Err(e) => (after, Err(e)),
        Ok((what, note)) => (after, Ok(PreparedInhibitor { systemd_inhibit, what, note })),
    }
}

/// The command that holds an inhibitor of a scope which was selected before, or why it may not.
pub open spec fn scoped_command(
    no_display: bool,
    even_lid: bool,
    what: Seq<char>,
    timeout_sec: Option<i64>,
    wait_pid: Option<u32>,
    systemd_inhibit: Result<Seq<char>, Fault>,
) -> Result<(Seq<Seq<char>>, Option<Seq<char>>), Fault> {
    if !candidates(no_display).contains(what) || (even_lid && what != candidates(no_display)[0]) {
        Err(Fault::Fail("supervisor received an invalid inhibitor scope"@))
    } else {
        match systemd_inhibit {
            Err(e) => Err(e),
            Ok(exe) => Ok((inhibitor_words(exe, what, timeout_sec, wait_pid), None)),
        }
    }
}

pub fn keep_awake_command_for_scope(
    no_display: bool,
    even_lid: bool,
    what: &str,
    timeout_sec: Option<i64>,
    wait_pid: Option<u32>,
    systemd_inhibit: Result<String, AppError>,
) -> (r: Result<KeepAwake, AppError>)
    ensures
        viewed(r) == scoped_command(
            no_display,
            even_lid,
            what@,
            timeout_sec,
            wait_pid,
            viewed(systemd_inhibit),
        ),
{
    let scopes = inhibitor_candidates(no_display);
    assert(text::strs(scopes@)[0] == scopes@[0]@);
    if !text::is_one_of(what, &scopes) || (even_lid && !text::same(what, scopes[0])) {
        return Err(AppError::fail("supervisor received an invalid inhibitor scope"));
    }
    match systemd_inhibit {
        Err(e) => Err(e),
        Ok(exe) => Ok(
            KeepAwake { cmd: inhibitor_command(exe, what, timeout_sec, wait_pid), note: None },
        ),
    }
}

/// Where the lid is asked for, only the scope that has it is used.
pub proof fn law_the_lid_needs_the_widest_scope(
    no_display: bool,
    what: Seq<char>,
    timeout_sec: Option<i64>,
    wait_pid: Option<u32>,
    systemd_inhibit: Result<Seq<char>, Fault>,
)
    ensures
        scoped_command(no_display, true, what, timeout_sec, wait_pid, systemd_inhibit) is Ok
            ==> what == candidates(no_display)[0],
{
}

/// What the files of a power supply hold; nothing where one cannot be read.
pub struct SupplyFiles {
    pub kind: Option<String>,
    pub energy_now: Option<String>,
    pub energy_full: Option<String>,
    pub charge_now: Option<String>,
    pub charge_full: Option<String>,
    pub capacity: Option<String>,
    pub status: Option<String>,
}

/// One battery: its capacity in percent, how much it holds of how much, and what it does.
pub struct Battery {
    pub capacity: Option<i32>,
    pub energy: Option<(u64, u64)>,
    pub charge: Option<(u64, u64)>,
    pub status: String,
}

/// What a `Battery` says.
pub struct BatteryFacts {
    pub capacity: Option<i32>,
    pub energy: Option<(u64, u64)>,
    pub charge: Option<(u64, u64)>,
    pub status: Seq<char>,
}

impl View for Battery {
    type V = BatteryFacts;

    open spec fn view(&self) -> BatteryFacts {
        BatteryFacts {
            capacity: self.capacity,
            energy: self.energy,
            charge: self.charge,
            status: self.status@,
        }
    }
}

impl BatteryFacts {
    /// Whether anything tells how full the battery is.
    pub open spec fn usable(self) -> bool {
        self.energy is Some || self.charge is Some || self.capacity is Some
    }
}

/// The integer in a file, between bounds, whitespace around it left out.
pub open spec fn file_integer(file: Option<String>, low: int, high: int) -> Option<int> {
    match file {
        Some(s) => text::integer_between(text::trimmed(s@), low, high),
        None => None,
    }
}

/// How much of how much two files tell: nothing where one tells no number, or an impossible one.
pub open spec fn measurement(now: Option<String>, full: Option<String>) -> Option<(u64, u64)> {
    match (
        file_integer(now, i64::MIN as int, i64::MAX as int),
        file_integer(full, i64::MIN as int, i64::MAX as int),
    ) {
        (Some(now), Some(full)) => if now >= 0 && full > 0 {
            Some((now as u64, full as u64))
        } else {
            None
        },
        _ => None,
    }
}

fn read_i64(file: &Option<String>) -> (r: Option<i64>)
    ensures
        file_integer(*file, i64::MIN as int, i64::MAX as int) == (match r {
            Some(v) => Some(v as int),
            None => None,
        }),
{
    match file {
        None => None,
        Some(s) => match text::parse_between(
            text::trim(s.as_str()),
            i64::MIN,
            i64::MAX as u64,
        ) {
            Some(v) => Some(v as i64),
            None => None,
        },
    }
}

pub fn read_measurement(now: &Option<String>, full: &Option<String>) -> (r: Option<(u64, u64)>)
    ensures
        r == measurement(*now, *full),
{
    match (read_i64(now), read_i64(full)) {
        (Some(now), Some(full)) => if now >= 0 && full > 0 {
            Some((now as u64, full as u64))
        } else {
            None
        },
        _ => None,
    }
}

/// The capacity that a file tells, brought between nothing and a hundred percent.
pub open spec fn capacity(file: Option<String>) -> Option<i32> {
    match file_integer(file, i32::MIN as int, i32::MAX as int) {
        Some(v) => Some(
            if v < 0 {
                0i32
            } else if v > 100 {
                100i32
            } else {
                v as i32
            },
        ),
        None => None,
    }
}

fn read_capacity(file: &Option<String>) -> (r: Option<i32>)
    ensures
        r == capacity(*file),
{
    match file {
        None => None,
        Some(s) => match text::parse_between(
            text::trim(s.as_str()),
            i32::MIN as i64,
            i32::MAX as u64,
        ) {
            Some(v) => Some(
                if v < 0 {
                    0
                } else if v > 100 {
                    100
                } else {
                    v as i32
                },
            ),
            None => None,
        },
    }
}

/// The battery that the files of a power supply tell of, if it is one that can be used.
pub open spec fn battery_in(files: SupplyFiles) -> Option<BatteryFacts> {
    let facts = BatteryFacts {
        capacity: capacity(files.capacity),
        energy: measurement(files.energy_now, files.energy_full),
        charge: measurement(files.charge_now, files.charge_full),
        status: match files.status {
            Some(s) => text::trimmed(s@),
            None => Seq::empty(),
        },
    };
    match files.kind {
        Some(kind) => if text::trimmed(kind@) == "Battery"@ && facts.usable() {
            Some(facts)
        } else {
            None
        },
        None => None,
    }
}

pub fn read_battery_dir(files: &SupplyFiles) -> (r: Option<Battery>)
    ensures
        battery_in(*files) == (match r {
            Some(b) => Some(b@),
            None => None,
        }),
{
    match &files.kind {
        None => return None,
        Some(kind) => if !text::same(text::trim(kind.as_str()), "Battery") {
            return None;
        },
    }
    let energy = read_measurement(&files.energy_now, &files.energy_full);
    let charge = read_measurement(&files.charge_now, &files.charge_full);
    let capacity = read_capacity(&files.capacity);
    if energy.is_none() && charge.is_none() && capacity.is_none() {
        return None;
    }
    let status = match &files.status {
        Some(s) => text::trim(s.as_str()).to_owned(),
        None => {
            let empty = String::new();
            assert(empty@ =~= Seq::<char>::empty());
            empty
        },
    };
    Some(Battery { capacity, energy, charge, status })
}

/// What batteries say, one by one.
pub open spec fn all_facts(batteries: Seq<Battery>) -> Seq<BatteryFacts> {
    Seq::new(batteries.len(), |i: int| batteries[i]@)
}

/// Whether some battery has the status, in whatever case.
pub open spec fn any_status(batteries: Seq<BatteryFacts>, status: Seq<char>) -> bool {
    exists|i: int|
        0 <= i < batteries.len() && text::ascii_lower((#[trigger] batteries[i]).status)
            == text::ascii_lower(status)
}

fn has_status(batteries: &Vec<Battery>, status: &str) -> (r: bool)
    ensures
        r == any_status(all_facts(batteries@), status@),
{
    let mut i: usize = 0;
    while i < batteries.len()
        invariant
            i <= batteries@.len(),
            forall|k: int|
                0 <= k < i ==> text::ascii_lower((#[trigger] all_facts(batteries@)[k]).status)
                    != text::ascii_lower(status@),
        decreases batteries@.len() - i,
    {
        if text::same_ignoring_ascii_case(batteries[i].status.as_str(), status) {
            assert(text::ascii_lower(all_facts(batteries@)[i as int].status) == text::ascii_lower(
                status@,
            ));
            return true;
        }
        i = i + 1;
    }
    false
}

/// What is said of all batteries together: one that charges outweighs those that discharge.
pub fn read_battery_from(batteries: &Vec<Battery>, percent: i32) -> (r: Result<
    BatteryStatus,
    AppError,
>)
    ensures
        viewed(r) == (if batteries@.len() == 0 {
            Err(Fault::Fail("no usable battery found"@))
        } else {
            let charging = any_status(all_facts(batteries@), "charging"@);
            Ok(
                plain_battery(
                    percent,
                    charging,
                    !charging && any_status(all_facts(batteries@), "discharging"@),
                ),
            )
        }),
{
    if batteries.len() == 0 {
        return Err(AppError::fail("no usable battery found"));
    }
    let charging = has_status(batteries, "charging");
    let discharging = !charging && has_status(batteries, "discharging");
    Ok(battery_status(percent, charging, discharging))
}

/// What one battery contributes to an average.
#[derive(Clone, Copy, Debug, PartialEq, Eq, Structural)]
pub enum Share {
    /// How much of how much.
    Measured(u64, u64),
    Percent(i32),
}

/// How the charge of all batteries is found: as one sum of like measurements, or as an average.
#[derive(Debug)]
pub enum Aggregate {
    Total(u128, u128),
    Average(Vec<Share>),
}

/// How the charge of all batteries is found.
pub enum AggregateFacts {
    Total(nat, nat),
    Average(Seq<Share>),
}

impl View for Aggregate {
    type V = AggregateFacts;

    open spec fn view(&self) -> AggregateFacts {
        match *self {
            Aggregate::Total(now, full) => AggregateFacts::Total(now as nat, full as nat),
            Aggregate::Average(shares) => AggregateFacts::Average(shares@),
        }
    }
}

/// The measurement that is summed: of energy, or of charge.
pub open spec fn measured(b: BatteryFacts, by_energy: bool) -> Option<(u64, u64)> {
    if by_energy {
        b.energy
    } else {
        b.charge
    }
}

/// What batteries hold together, and could hold.
pub open spec fn totals(batteries: Seq<BatteryFacts>, by_energy: bool) -> (nat, nat)
    decreases batteries.len(),
{
    if batteries.len() == 0 {
        (0, 0)
    } else {
        let front = totals(batteries.drop_last(), by_energy);
        let last = measured(batteries.last(), by_energy)->0;
        (front.0 + last.0 as nat, front.1 + last.1 as nat)
    }
}

/// What one battery contributes to an average.
pub open spec fn share(b: BatteryFacts) -> Share {
    match (b.energy, b.charge, b.capacity) {
        (Some((now, full)), _, _) => Share::Measured(now, full),
        (None, Some((now, full)), _) => Share::Measured(now, full),
        (None, None, Some(percent)) => Share::Percent(percent),
        (None, None, None) => Share::Percent(0),
    }
}

/// Whether all batteries measure alike.
pub open spec fn all_measured(batteries: Seq<BatteryFacts>, by_energy: bool) -> bool {
    forall|i: int| 0 <= i < batteries.len() ==> measured(#[trigger] batteries[i], by_energy) is Some
}

/// How the charge of all batteries is found: by energy or else by charge where all have it, as an
/// average otherwise.
pub open spec fn aggregation(batteries: Seq<BatteryFacts>) -> AggregateFacts {
    if all_measured(batteries, true) {
        AggregateFacts::Total(totals(batteries, true).0, totals(batteries, true).1)
    } else if all_measured(batteries, false) {
        AggregateFacts::Total(totals(batteries, false).0, totals(batteries, false).1)
    } else {
        AggregateFacts::Average(Seq::new(batteries.len(), |i: int| share(batteries[i])))
    }
}

fn are_measured(batteries: &Vec<Battery>, by_energy: bool) -> (r: bool)
    ensures
        r == all_measured(all_facts(batteries@), by_energy),
{
    let mut i: usize = 0;
    while i < batteries.len()
        invariant
            i <= batteries@.len(),
            forall|k: int|
                0 <= k < i ==> measured(#[trigger] all_facts(batteries@)[k], by_energy) is Some,
        decreases batteries@.len() - i,
    {
        let present = if by_energy {
            batteries[i].energy.is_some()
        } else {
            batteries[i].charge.is_some()
        };
        assert(present == measured(all_facts(batteries@)[i as int], by_energy) is Some);
        if !present {
            return false;
        }
        i = i + 1;
    }
    true
}

fn sum(batteries: &Vec<Battery>, by_energy: bool) -> (r: (u128, u128))
    requires
        all_measured(all_facts(batteries@), by_energy),
    ensures
        (r.0 as nat, r.1 as nat) == totals(all_facts(batteries@), by_energy),
{
    let ghost facts = all_facts(batteries@);
    let mut now: u128 = 0;
    let mut full: u128 = 0;
    let mut i: usize = 0;
    assert(facts.take(0) =~= Seq::<BatteryFacts>::empty());
    while i < batteries.len()
        invariant
            i <= batteries.len(),
            facts == all_facts(batteries@),
            all_measured(facts, by_energy),
            (now as nat, full as nat) == totals(facts.take(i as int), by_energy),
            now <= i * 0xffff_ffff_ffff_ffff,
            full <= i * 0xffff_ffff_ffff_ffff,
        decreases batteries@.len() - i,
    {
        assert(facts.take(i + 1).drop_last() =~= facts.take(i as int));
        assert(measured(facts[i as int], by_energy) is Some);
        let pair = if by_energy {
            batteries[i].energy
        } else {
            batteries[i].charge
        };
        assert(i * 0xffff_ffff_ffff_ffff + 0xffff_ffff_ffff_ffff == (i + 1) * 0xffff_ffff_ffff_ffff)
            by (nonlinear_arith);
        assert((i + 1) * 0xffff_ffff_ffff_ffff <= u128::MAX) by (nonlinear_arith)
            requires
                i + 1 <= 0x1_0000_0000_0000_0000,
        ;
        match pair {
            Some((n, f)) => {
                now = now + n as u128;
                full = full + f as u128;
            },
            None => {},
        }
        i = i + 1;
    }
    assert(facts.take(i as int) =~= facts);
    (now, full)
}

fn share_of(battery: &Battery) -> (r: Share)
    ensures
        r == share(battery@),
{
    match (battery.energy, battery.charge, battery.capacity) {
        (Some((now, full)), _, _) => Share::Measured(now, full),
        (None, Some((now, full)), _) => Share::Measured(now, full),
        (None, None, Some(percent)) => Share::Percent(percent),
        (None, None, None) => Share::Percent(0),
    }
}

/// How the charge of all batteries is found.
pub fn aggregate(batteries: &Vec<Battery>) -> (r: Aggregate)
    requires
        forall|i: int| 0 <= i < batteries@.len() ==> (#[trigger] batteries@[i])@.usable(),
    ensures
        r@ == aggregation(all_facts(batteries@)),
{
    if are_measured(batteries, true) {
        let (now, full) = sum(batteries, true);
        return Aggregate::Total(now, full);
    }
    if are_measured(batteries, false) {
        let (now, full) = sum(batteries, false);
        return Aggregate::Total(now, full);
    }
    let ghost facts = all_facts(batteries@);
    let mut shares: Vec<Share> = Vec::new();
    let mut i: usize = 0;
    while i < batteries.len()
        invariant
            i <= batteries@.len(),
            facts == all_facts(batteries@),
            shares@ == Seq::new(i as nat, |k: int| share(facts[k])),
        decreases batteries@.len() - i,
    {
        shares.push(share_of(&batteries[i]));
        i = i + 1;
        assert(shares@ =~= Seq::new(i as nat, |k: int| share(facts[k])));
    }
    Aggregate::Average(shares)
}

/// A battery that the files of a power supply tell of can be used.
pub proof fn law_batteries_are_usable(files: SupplyFiles)
    ensures
        battery_in(files) matches Some(b) ==> b.usable(),
        battery_in(files) matches Some(b) ==> (b.capacity matches Some(c) ==> 0 <= c <= 100),
{
}

/// One battery alone is its own total: of its energy where that is measured, or else of its charge; and where
/// neither is, its capacity in percent is taken.
pub proof fn law_one_battery_is_its_own_total(b: BatteryFacts)
    requires
        b.usable(),
    ensures
        b.energy matches Some((now, full)) ==> aggregation(seq![b]) == AggregateFacts::Total(
            now as nat,
            full as nat,
        ),
        b.energy is None ==> (b.charge matches Some((now, full)) ==> aggregation(seq![b])
            == AggregateFacts::Total(now as nat, full as nat)),
        b.energy is None && b.charge is None ==> aggregation(seq![b]) == AggregateFacts::Average(
            seq![Share::Percent(b.capacity->0)],
        ),
{
    let one = seq![b];
    reveal_with_fuel(totals, 2);
    assert(one.drop_last().len() == 0);
    assert(one.last() == b);
    assert(one[0] == b);
    assert(all_measured(one, true) <==> b.energy is Some);
    assert(all_measured(one, false) <==> b.charge is Some);
    if b.energy is None && b.charge is None {
        assert(Seq::new(one.len(), |i: int| share(one[i])) =~= seq![Share::Percent(b.capacity->0)]);
    }
}

/// What another battery holds now, and could hold, is added to what the others do, where all measure
/// energy, or where all measure charge and not all energy.
pub proof fn law_batteries_add_up(others: Seq<BatteryFacts>, b: BatteryFacts)
    ensures
        ({
            let all = others.push(b);
            &&& (forall|i: int| 0 <= i < others.len() ==> (#[trigger] others[i]).energy is Some) ==> (
            b.energy matches Some((now, full)) ==> (aggregation(others) matches AggregateFacts::Total(
                n,
                f,
            ) && aggregation(all) == AggregateFacts::Total(n + now as nat, f + full as nat)))
            &&& (forall|i: int| 0 <= i < others.len() ==> (#[trigger] others[i]).charge is Some) && (
            exists|i: int| 0 <= i < others.len() && (#[trigger] others[i]).energy is None) ==> (
            b.charge matches Some((now, full)) ==> (aggregation(others) matches AggregateFacts::Total(
                n,
                f,
            ) && aggregation(all) == AggregateFacts::Total(n + now as nat, f + full as nat)))
        }),
{
    let all = others.push(b);
    assert(all.drop_last() =~= others);
    assert(all.last() == b);
    assert forall|i: int| 0 <= i < others.len() implies #[trigger] all[i] == others[i] by {}
    assert(all[others.len() as int] == b);
    if b.energy is Some && forall|i: int|
        0 <= i < others.len() ==> (#[trigger] others[i]).energy is Some {
        assert(all_measured(others, true));
        assert(all_measured(all, true));
    }
    if b.charge is Some && (forall|i: int|
        0 <= i < others.len() ==> (#[trigger] others[i]).charge is Some) && (exists|i: int|
        0 <= i < others.len() && (#[trigger] others[i]).energy is None) {
        let i = choose|i: int| 0 <= i < others.len() && (#[trigger] others[i]).energy is None;
        assert(all[i].energy is None);
        assert(measured(all[i], true) is None && measured(others[i], true) is None);
        assert(!all_measured(all, true) && !all_measured(others, true));
        assert(all_measured(others, false));
        assert(all_measured(all, false));
    }
}

/// Where batteries measure neither all energy nor all charge, each counts by itself, in order: by its
/// energy, or else its charge, or else its capacity.
pub proof fn law_unlike_batteries_count_one_by_one(batteries: Seq<BatteryFacts>, i: int, j: int, k: int)
    requires
        0 <= i < batteries.len() && batteries[i].energy is None,
        0 <= j < batteries.len() && batteries[j].charge is None,
        0 <= k < batteries.len() && batteries[k].usable(),
    ensures
        aggregation(batteries) matches AggregateFacts::Average(shares) && shares.len()
            == batteries.len() && {
            let b = batteries[k];
            &&& b.energy matches Some((now, full)) ==> shares[k] == Share::Measured(now, full)
            &&& b.energy is None ==> (b.charge matches Some((now, full)) ==> shares[k]
                == Share::Measured(now, full))
            &&& b.energy is None && b.charge is None ==> shares[k] == Share::Percent(b.capacity->0)
        },
{
    assert(measured(batteries[i], true) is None);
    assert(measured(batteries[j], false) is None);
}

/// A power supply is a battery that counts exactly where its kind says so and a file tells how full it is;
/// what it holds now, and when full, are the numbers in its files.
pub proof fn law_batteries_are_what_their_files_say(files: SupplyFiles)
    ensures
        (files.kind matches Some(kind) && text::trimmed(kind@) != "Battery"@) || files.kind is None
            ==> battery_in(files) is None,
        battery_in(files) matches Some(b) ==> {
            &&& b.energy matches Some((now, full)) ==> files.energy_now matches Some(n)
                && files.energy_full matches Some(f) && text::integer_between(
                text::trimmed(n@),
                i64::MIN as int,
                i64::MAX as int,
            ) == Some(now as int) && text::integer_between(
                text::trimmed(f@),
                i64::MIN as int,
                i64::MAX as int,
            ) == Some(full as int) && full > 0
            &&& b.charge matches Some((now, full)) ==> files.charge_now matches Some(n)
                && files.charge_full matches Some(f) && text::integer_between(
                text::trimmed(n@),
                i64::MIN as int,
                i64::MAX as int,
            ) == Some(now as int) && text::integer_between(
                text::trimmed(f@),
                i64::MIN as int,
                i64::MAX as int,
            ) == Some(full as int) && full > 0
            &&& b.capacity matches Some(c) ==> files.capacity matches Some(raw)
                && text::integer_between(text::trimmed(raw@), i32::MIN as int, i32::MAX as int) matches Some(
                v,
            ) && (0 <= v <= 100 ==> c == v) && (v < 0 ==> c == 0) && (v > 100 ==> c == 100)
            &&& files.status matches Some(status) ==> b.status == text::trimmed(status@)
            &&& files.status is None ==> b.status.len() == 0
        },
{
}

/// A battery whose files tell how much of how much it holds, or its capacity, is found with just that.
pub proof fn law_batteries_with_a_measurement_are_found(
    files: SupplyFiles,
    kind: String,
    now: String,
    full: String,
    n: int,
    f: int,
)
    requires
        files.kind == Some(kind) && text::trimmed(kind@) == "Battery"@,
        0 <= n <= i64::MAX,
        0 < f <= i64::MAX,
        text::trimmed(now@) == text::signed_decimal(n),
        text::trimmed(full@) == text::signed_decimal(f),
    ensures
        files.energy_now == Some(now) && files.energy_full == Some(full) ==> (battery_in(
            files,
        ) matches Some(b) && b.energy == Some((n as u64, f as u64))),
        files.charge_now == Some(now) && files.charge_full == Some(full) ==> (battery_in(
            files,
        ) matches Some(b) && b.charge == Some((n as u64, f as u64))),
        files.capacity == Some(now) && n <= 100 ==> (battery_in(files) matches Some(b) && b.capacity
            == Some(n as i32)),
{
    text::law_integers_are_read_back(n, i64::MIN as int, i64::MAX as int);
    text::law_integers_are_read_back(f, i64::MIN as int, i64::MAX as int);
    text::law_integers_are_read_back(n, i32::MIN as int, i32::MAX as int);
}

/// Of all batteries together, one that charges makes the machine charge; it discharges where one discharges
/// and none charges; and the percentage is the one that was found.
pub proof fn law_charging_outweighs_discharging(
    batteries: Vec<Battery>,
    percent: i32,
    r: Result<BatteryStatus, AppError>,
)
    requires
        call_ensures(read_battery_from, (&batteries, percent), r),
    ensures
        batteries@.len() == 0 <==> r is Err,
        r matches Ok(status) ==> {
            let says = |i: int, what: Seq<char>|
                0 <= i < batteries@.len() && text::ascii_lower(batteries@[i].status@)
                    == text::ascii_lower(what);
            &&& status.percent == percent
            &&& status.charging <==> exists|i: int| #[trigger] says(i, "charging"@)
            &&& status.discharging <==> !status.charging && exists|i: int| #[trigger]
                says(i, "discharging"@)
        },
{
    let facts = all_facts(batteries@);
    let says = |i: int, what: Seq<char>|
        0 <= i < batteries@.len() && text::ascii_lower(batteries@[i].status@) == text::ascii_lower(
            what,
        );
    assert forall|what: Seq<char>| #[trigger] any_status(facts, what) <==> exists|i: int| #[trigger]
        says(i, what) by {
        if any_status(facts, what) {
            let i = choose|i: int|
                0 <= i < facts.len() && text::ascii_lower((#[trigger] facts[i]).status)
                    == text::ascii_lower(what);
            assert(says(i, what));
        }
        if exists|i: int| #[trigger] says(i, what) {
            let i = choose|i: int| #[trigger] says(i, what);
            assert(text::ascii_lower(facts[i].status) == text::ascii_lower(what));
        }
    }
}

/// The command that inhibits names the scope, and runs for as long as was asked: for so many seconds, for
/// good, or as long as a process lives.
pub proof fn law_inhibitors_last_as_long_as_asked(
    exe: Seq<char>,
    what: Seq<char>,
    timeout_sec: Option<i64>,
    wait_pid: Option<u32>,
)
    ensures
        ({
            let words = inhibitor_words(exe, what, timeout_sec, wait_pid);
            &&& words[0] == exe
            &&& words[1] == "--what="@ + what
            &&& wait_pid matches Some(pid) ==> words.skip(4) == seq![
                "tail"@,
                "--pid="@ + text::decimal(pid as nat),
                "-f"@,
                "/dev/null"@,
            ]
            &&& wait_pid is None ==> (timeout_sec matches Some(t) ==> words.skip(4) == seq![
                "sleep"@,
                text::signed_decimal(t as int),
            ])
            &&& wait_pid is None && timeout_sec is None ==> words.skip(4) == seq![
                "sleep"@,
                "infinity"@,
            ]
        }),
{
    let words = inhibitor_words(exe, what, timeout_sec, wait_pid);
    match (wait_pid, timeout_sec) {
        (Some(pid), _) => {
            assert(words.skip(4) =~= seq![
                "tail"@,
                "--pid="@ + text::decimal(pid as nat),
                "-f"@,
                "/dev/null"@,
            ]);
        },
        (None, Some(t)) => {
            assert(words.skip(4) =~= seq!["sleep"@, text::signed_decimal(t as int)]);
        },
        (None, None) => {
            assert(words.skip(4) =~= seq!["sleep"@, "infinity"@]);
        },
    }
}

/// A scope that was selected is the one that is inhibited, and every scope that may be selected may be
/// inhibited; no other may.
pub proof fn law_selected_scopes_are_inhibited(
    no_display: bool,
    even_lid: bool,
    what: Seq<char>,
    timeout_sec: Option<i64>,
    wait_pid: Option<u32>,
    exe: Seq<char>,
)
    ensures
        ({
            let r = scoped_command(no_display, even_lid, what, timeout_sec, wait_pid, Ok(exe));
            &&& tried(no_display, even_lid).contains(what) <==> r is Ok
            &&& r matches Ok((words, _)) ==> words.contains("--what="@ + what)
        }),
{
    let cs = candidates(no_display);
    let words = inhibitor_words(exe, what, timeout_sec, wait_pid);
    assert(words[1] == "--what="@ + what);
    if cs.contains(what) {
        let i = choose|i: int| 0 <= i < cs.len() && cs[i] == what;
        assert(tried(no_display, false)[i] == what);
        if what == cs[0] {
            assert(cs.take(1)[0] == what);
        }
    }
    if cs.take(1).contains(what) {
        assert(cs[0] == what);
    }
}

/// Nothing is said of the widest scope, and something of every narrower one, which is named.
pub proof fn law_what_is_lost_is_said(no_display: bool, index: int)
    requires
        0 <= index < candidates(no_display).len(),
    ensures
        degradation(no_display, index) is None <==> index == 0,
        degradation(no_display, index) matches Some(note) ==> text::begins(
            note,
            "note: inhibitor degraded to "@ + candidates(no_display)[index],
        ),
{
    if index > 0 {
        let note = degradation(no_display, index)->0;
        let head = "note: inhibitor degraded to "@ + candidates(no_display)[index];
        assert(note.take(head.len() as int) =~= head);
    }
}

/// Every scope holds off sleep; the widest, and it alone, the lid as well; and all but the narrowest also an idle
/// display, where that is to be kept on.
pub proof fn law_scopes_grow_narrower(no_display: bool, i: int)
    requires
        0 <= i < candidates(no_display).len(),
    ensures
        text::occurs("sleep"@, candidates(no_display)[i]),
        text::occurs("handle-lid-switch"@, candidates(no_display)[i]) <==> i == 0,
        text::occurs("idle"@, candidates(no_display)[i]) <==> !no_display && i < 2,
        i > 0 ==> candidates(no_display)[i].len() < candidates(no_display)[i - 1].len(),
        candidates(no_display).last() == "sleep"@,
{
    reveal_strlit("sleep");
    reveal_strlit("idle");
    reveal_strlit("handle-lid-switch");
    reveal_strlit("sleep:handle-lid-switch");
    reveal_strlit("idle:sleep:handle-lid-switch");
    reveal_strlit("idle:sleep");
    let s = candidates(no_display)[i];
    let lid = "handle-lid-switch"@;
    if text::occurs("idle"@, s) {
        let k = choose|k: int|
            0 <= k <= s.len() - "idle"@.len() && #[trigger] s.subrange(k, k + "idle"@.len())
                == "idle"@;
        let found = s.subrange(k, k + 4);
        assert(found[0] == s[k] && found[1] == s[k + 1] && found[2] == s[k + 2]);
        if no_display && i == 0 {
            assert(s[14] == 'i' && s[15] == 'd' && s[16] == '-' && s[19] == 'i' && s[20] == 't');
            assert(k == 14 || k == 19 || s[k] != 'i');
        }
    }
    if no_display && i == 0 {
        lemma_stands("sleep"@, s, 0);
        lemma_stands(lid, s, 6);
    } else if s == "sleep"@ {
        lemma_stands("sleep"@, s, 0);
    } else {
        lemma_stands("idle"@, s, 0);
        lemma_stands("sleep"@, s, 5);
        if i == 0 {
            lemma_stands(lid, s, 11);
        }
    }
}

proof fn lemma_stands(needle: Seq<char>, hay: Seq<char>, at: int)
    requires
        0 <= at <= hay.len() - needle.len(),
        forall|k: int| 0 <= k < needle.len() ==> hay[at + k] == #[trigger] needle[k],
    ensures
        text::occurs(needle, hay),
{
    assert(hay.subrange(at, at + needle.len()) =~= needle);
}

/// Where each scope is granted or not, the first of those that may be tried that is granted is chosen, and none
/// only where none is.
pub proof fn law_the_first_granted_scope_is_chosen<W, F: Fn(W, &str) -> (W, bool)>(
    no_display: bool,
    even_lid: bool,
    probe: F,
    before: W,
    after: W,
    r: Result<(Seq<char>, Option<Seq<char>>), Fault>,
    grants: spec_fn(Seq<char>) -> bool,
)
    requires
        selection(no_display, even_lid, probe, before, after, r),
        forall|found: W, what: &str, end: (W, bool)| #[trigger]
            call_ensures(probe, (found, what), end) ==> end.1 == grants(what@),
    ensures
        match r {
            Ok((what, _)) => exists|index: int|
                {
                    &&& 0 <= index < tried(no_display, even_lid).len()
                    &&& #[trigger] tried(no_display, even_lid)[index] == what
                    &&& grants(what)
                    &&& forall|i: int|
                        0 <= i < index ==> !grants(#[trigger] tried(no_display, even_lid)[i])
                },
            Err(_) => forall|i: int|
                0 <= i < tried(no_display, even_lid).len() ==> !grants(
                    #[trigger] tried(no_display, even_lid)[i],
                ),
        },
{
    let scopes = tried(no_display, even_lid);
    match r {
        Ok((what, note)) => {
            let index = choose|index: int|
                {
                    &&& 0 <= index < scopes.len()
                    &&& what == #[trigger] scopes[index]
                    &&& note == degradation(no_display, index)
                    &&& probed(probe, scopes.take(index + 1), true, before, after)
                };
            let asked = scopes.take(index + 1);
            let worlds = choose|worlds: Seq<W>| #[trigger]
                leads_through(probe, asked, true, worlds) && worlds.first() == before
                    && worlds.last() == after;
            assert(asked[index] == scopes[index]);
            assert(answers(probe, asked[index], worlds[index], worlds[index + 1], true));
            assert forall|i: int| 0 <= i < index implies !grants(#[trigger] scopes[i]) by {
                assert(asked[i] == scopes[i]);
                assert(answers(probe, asked[i], worlds[i], worlds[i + 1], false));
            }
        },
        Err(_) => {
            let worlds = choose|worlds: Seq<W>| #[trigger]
                leads_through(probe, scopes, false, worlds) && worlds.first() == before
                    && worlds.last() == after;
            assert forall|i: int| 0 <= i < scopes.len() implies !grants(#[trigger] scopes[i]) by {
                assert(answers(probe, scopes[i], worlds[i], worlds[i + 1], false));
            }
        },
    }
}

} // verus!
