//! The saved session: what it holds, how it is written and what is accepted when it is read.

use vstd::prelude::*;
use vstd::string::*;

use crate::error::{AppError, Fault, outcome, viewed};
use crate::platform::{self, Platform};
use crate::sysutil::Identity;
use crate::text;
use crate::time::{self, Timestamp};

verus! {

/// A running session.
#[derive(Debug)]
pub struct Session {
    pub pid: u32,
    pub mode: String,
    pub trigger: String,
    pub detail: String,
    pub started_at: Option<Timestamp>,
    pub ends_at: Option<Timestamp>,
    pub process_start: u64,
    pub process_command: String,
    pub even_lid: bool,
    pub prior_disable_sleep: i32,
    pub guardian_pid: u32,
    pub guardian_start: u64,
    pub original_scheme: String,
    pub original_ac: u32,
    pub original_dc: u32,
}

/// What a session says.
pub struct Record {
    pub pid: u32,
    pub mode: Seq<char>,
    pub trigger: Seq<char>,
    pub detail: Seq<char>,
    pub started_at: Option<Timestamp>,
    pub ends_at: Option<Timestamp>,
    pub process_start: u64,
    pub process_command: Seq<char>,
    pub even_lid: bool,
    pub lid: LidRecord,
}

/// What a session says of the lid: the setting to go back to, and who watches over it.
pub struct LidRecord {
    pub prior_disable_sleep: i32,
    pub guardian_pid: u32,
    pub guardian_start: u64,
    pub original_scheme: Seq<char>,
    pub original_ac: u32,
    pub original_dc: u32,
}

/// What a session without the lid says of it.
pub open spec fn no_lid() -> LidRecord {
    LidRecord {
        prior_disable_sleep: 0,
        guardian_pid: 0,
        guardian_start: 0,
        original_scheme: Seq::empty(),
        original_ac: 0,
        original_dc: 0,
    }
}

impl View for Session {
    type V = Record;

    open spec fn view(&self) -> Record {
        Record {
            pid: self.pid,
            mode: self.mode@,
            trigger: self.trigger@,
            detail: self.detail@,
            started_at: self.started_at,
            ends_at: self.ends_at,
            process_start: self.process_start,
            process_command: self.process_command@,
            even_lid: self.even_lid,
            lid: LidRecord {
                prior_disable_sleep: self.prior_disable_sleep,
                guardian_pid: self.guardian_pid,
                guardian_start: self.guardian_start,
                original_scheme: self.original_scheme@,
                original_ac: self.original_ac,
                original_dc: self.original_dc,
            },
        }
    }
}

impl Record {
    /// Whether the instants are ones that the calendar has.
    pub open spec fn well_formed(self) -> bool {
        &&& self.started_at matches Some(t) ==> t.valid()
        &&& self.ends_at matches Some(t) ==> t.valid()
    }

    /// Whether the instants fall in years that have four digits.
    pub open spec fn common_years(self) -> bool {
        &&& self.started_at matches Some(t) ==> t.common_year()
        &&& self.ends_at matches Some(t) ==> t.common_year()
    }
}

/// What a session says before anything is known of it.
pub open spec fn blank() -> Record {
    Record {
        pid: 0,
        mode: Seq::empty(),
        trigger: Seq::empty(),
        detail: Seq::empty(),
        started_at: None,
        ends_at: None,
        process_start: 0,
        process_command: Seq::empty(),
        even_lid: false,
        lid: no_lid(),
    }
}

impl Clone for Session {
    fn clone(&self) -> (r: Self)
        ensures
            r@ == self@,
    {
        Session {
            pid: self.pid,
            mode: self.mode.clone(),
            trigger: self.trigger.clone(),
            detail: self.detail.clone(),
            started_at: self.started_at,
            ends_at: self.ends_at,
            process_start: self.process_start,
            process_command: self.process_command.clone(),
            even_lid: self.even_lid,
            prior_disable_sleep: self.prior_disable_sleep,
            guardian_pid: self.guardian_pid,
            guardian_start: self.guardian_start,
            original_scheme: self.original_scheme.clone(),
            original_ac: self.original_ac,
            original_dc: self.original_dc,
        }
    }
}

impl Default for Session {
    fn default() -> (r: Self)
        ensures
            r@ == blank(),
    {
        let r = Session {
            pid: 0,
            mode: String::new(),
            trigger: String::new(),
            detail: String::new(),
            started_at: None,
            ends_at: None,
            process_start: 0,
            process_command: String::new(),
            even_lid: false,
            prior_disable_sleep: 0,
            guardian_pid: 0,
            guardian_start: 0,
            original_scheme: String::new(),
            original_ac: 0,
            original_dc: 0,
        };
        assert(r@.mode =~= Seq::<char>::empty());
        assert(r@.trigger =~= Seq::<char>::empty());
        assert(r@.detail =~= Seq::<char>::empty());
        assert(r@.process_command =~= Seq::<char>::empty());
        assert(r@.lid.original_scheme =~= Seq::<char>::empty());
        r
    }
}

/// Whether a session may run as `command`: by its file name in lower case.
pub open spec fn expected(platform: Platform, command: Seq<char>) -> bool {
    match platform::file_name_of(platform, command) {
        Some(name) => platform::basenames(platform).contains(text::lowered(name)),
        None => false,
    }
}

/// Whether a session may run as `command`.
pub fn expected_command(platform: Platform, command: &str) -> (r: bool)
    ensures
        r == expected(platform, command@),
{
    match platform::file_name(platform, command) {
        None => false,
        Some(name) => {
            let base = text::lowered_text(name.as_str());
            text::is_one_of(base.as_str(), &platform::expected_command_basenames(platform))
        },
    }
}

impl Record {
    /// Whether this is the session of the live process `start`, `command`.
    pub open spec fn is_process(self, platform: Platform, live: (u64, Seq<char>)) -> bool {
        &&& self.process_start == live.0
        &&& if platform == Platform::Windows {
            text::ascii_lower(self.process_command) == text::ascii_lower(live.1)
        } else {
            self.process_command == live.1
        }
        &&& expected(platform, live.1)
    }
}

impl Session {
    /// Whether `live` is the process of this session.
    pub fn matches_identity(&self, platform: Platform, live: &Identity) -> (r: bool)
        ensures
            r == self@.is_process(platform, live@),
    {
        let command_matches = match platform {
            Platform::Windows => text::same_ignoring_ascii_case(
                self.process_command.as_str(),
                live.command.as_str(),
            ),
            _ => text::same(self.process_command.as_str(), live.command.as_str()),
        };
        self.process_start == live.start && command_matches && expected_command(
            platform,
            live.command.as_str(),
        )
    }

    /// Whether this session grants the lid to `worker` and `guardian` with just this `snapshot`.
    pub fn matches_lid_authority(
        &self,
        worker: (u32, u64),
        guardian: (u32, u64),
        snapshot: (&str, u32, u32),
    ) -> (r: bool)
        ensures
            r == (self@.even_lid && (self@.pid, self@.process_start) == worker && (
                self@.lid.guardian_pid,
                self@.lid.guardian_start,
            ) == guardian && self@.lid.original_scheme == snapshot.0@ && self@.lid.original_ac
                == snapshot.1 && self@.lid.original_dc == snapshot.2),
    {
        self.even_lid && self.pid == worker.0 && self.process_start == worker.1
            && self.guardian_pid == guardian.0 && self.guardian_start == guardian.1 && text::same(
            self.original_scheme.as_str(),
            snapshot.0,
        ) && self.original_ac == snapshot.1 && self.original_dc == snapshot.2
    }

    /// Whether this is a session without the lid that belongs to the given process.
    pub fn owned_non_lid_by(&self, pid: u32, start: u64) -> (r: bool)
        ensures
            r == (!self@.even_lid && (self@.pid, self@.process_start) == (pid, start)),
    {
        !self.even_lid && self.pid == pid && self.process_start == start
    }

    /// Takes over what tells the session's process from others.
    pub fn capture_process_identity(&mut self, captured: Result<Identity, AppError>) -> (r: Result<
        (),
        AppError,
    >)
        ensures
            match viewed(captured) {
                Ok(live) => r is Ok && final(self)@ == (Record {
                    process_start: live.0,
                    process_command: live.1,
                    ..old(self)@
                }),
                Err(e) => outcome(r) == Err::<(), Fault>(e) && final(self)@ == old(self)@,
            },
    {
        match captured {
            Err(e) => Err(e),
            Ok(identity) => {
                self.process_start = identity.start;
                self.process_command = identity.command;
                Ok(())
            },
        }
    }
}

/// The pairs as a map; of two with the same key the later one counts.
pub open spec fn map_of(pairs: Seq<(String, String)>) -> Map<Seq<char>, Seq<char>>
    decreases pairs.len(),
{
    if pairs.len() == 0 {
        Map::empty()
    } else {
        map_of(pairs.drop_last()).insert(pairs.last().0@, pairs.last().1@)
    }
}

/// The properties of a saved state.
pub struct Properties {
    pub pairs: Vec<(String, String)>,
}

impl View for Properties {
    type V = Map<Seq<char>, Seq<char>>;

    open spec fn view(&self) -> Map<Seq<char>, Seq<char>> {
        map_of(self.pairs@)
    }
}

impl Properties {
    /// The value for `key`, if there is one.
    pub fn get(&self, key: &str) -> (r: Option<&str>)
        ensures
            match r {
                Some(value) => self@.dom().contains(key@) && self@[key@] == value@,
                None => !self@.dom().contains(key@),
            },
    {
        let mut i: usize = self.pairs.len();
        assert(self.pairs@.take(i as int) =~= self.pairs@);
        while i > 0
            invariant
                i <= self.pairs@.len(),
                map_of(self.pairs@.take(i as int)).dom().contains(key@) == self@.dom().contains(
                    key@,
                ),
                map_of(self.pairs@.take(i as int)).dom().contains(key@) ==> map_of(
                    self.pairs@.take(i as int),
                )[key@] == self@[key@],
            decreases i,
        {
            i = i - 1;
            assert(self.pairs@.take(i + 1).drop_last() =~= self.pairs@.take(i as int));
            if text::same(self.pairs[i].0.as_str(), key) {
                return Some(self.pairs[i].1.as_str());
            }
        }
        assert(self.pairs@.take(0) =~= Seq::<(String, String)>::empty());
        None
    }
}

/// What the lines of a state say. Each gives a value to a key of its own, which is not empty and has no
/// whitespace around it; the first line that does not is what is reported.
pub open spec fn properties_of(lines: Seq<Seq<char>>) -> Result<Map<Seq<char>, Seq<char>>, Fault>
    decreases lines.len(),
{
    if lines.len() == 0 {
        Ok(Map::empty())
    } else {
        match properties_of(lines.drop_last()) {
            Err(e) => Err(e),
            Ok(done) => match text::halves(lines.last(), '=') {
                None => Err(Fault::Fail("state contains a line without '='"@)),
                Some((key, value)) => if key.len() == 0 || text::trimmed(key) != key
                    || done.dom().contains(key) {
                    Err(Fault::Fail("state contains an invalid or duplicate key"@))
                } else {
                    Ok(done.insert(key, value))
                },
            },
        }
    }
}

/// What a state's text says, which must be something.
pub open spec fn text_properties(state: Seq<char>) -> Result<Map<Seq<char>, Seq<char>>, Fault> {
    match properties_of(text::lines(state)) {
        Err(e) => Err(e),
        Ok(p) => if text::lines(state).len() == 0 {
            Err(Fault::Fail("state is empty"@))
        } else {
            Ok(p)
        },
    }
}

proof fn lemma_properties_stop(lines: Seq<Seq<char>>, i: int)
    requires
        0 <= i <= lines.len(),
        properties_of(lines.take(i)) is Err,
    ensures
        properties_of(lines) == properties_of(lines.take(i)),
    decreases lines.len() - i,
{
    if i == lines.len() {
        assert(lines.take(i) =~= lines);
    } else {
        assert(lines.take(i + 1).drop_last() =~= lines.take(i));
        lemma_properties_stop(lines, i + 1);
    }
}

/// What a state's text says.
pub fn properties(state: &str) -> (r: Result<Properties, AppError>)
    ensures
        viewed(r) == text_properties(state@),
{
    let lines = text::split_lines(state);
    let mut out = Properties { pairs: Vec::new() };
    let ghost all = text::lines(state@);
    let mut i: usize = 0;
    assert(all.take(0) =~= Seq::<Seq<char>>::empty());
    while i < lines.len()
        invariant
            i <= lines@.len(),
            all == text::lines(state@),
            lines@.len() == all.len(),
            forall|k: int| 0 <= k < lines@.len() ==> (#[trigger] lines@[k])@ == all[k],
            properties_of(all.take(i as int)) == Ok::<Map<Seq<char>, Seq<char>>, Fault>(out@),
        decreases lines@.len() - i,
    {
        assert(all.take(i + 1).drop_last() =~= all.take(i as int));
        assert(all.take(i + 1).last() == lines@[i as int]@);
        match text::split_once(lines[i], '=') {
            None => {
                proof {
                    lemma_properties_stop(all, i + 1);
                }
                return Err(AppError::fail("state contains a line without '='"));
            },
            Some((key, value)) => {
                if key.is_empty() || !text::same(text::trim(key), key) || out.get(key).is_some() {
                    proof {
                        lemma_properties_stop(all, i + 1);
                    }
                    return Err(AppError::fail("state contains an invalid or duplicate key"));
                }
                let ghost before = out.pairs@;
                out.pairs.push((key.to_owned(), value.to_owned()));
                assert(out.pairs@.drop_last() =~= before);
            },
        }
        i = i + 1;
    }
    assert(all.take(i as int) =~= all);
    if lines.len() == 0 {
        Err(AppError::fail("state is empty"))
    } else {
        Ok(out)
    }
}

/// The value of `key`, which must be there.
pub open spec fn field_of(p: Map<Seq<char>, Seq<char>>, key: Seq<char>) -> Result<Seq<char>, Fault> {
    if p.dom().contains(key) {
        Ok(p[key])
    } else {
        Err(Fault::Fail("state is missing "@ + key))
    }
}

/// The value of `key`, which must be there.
pub fn field<'a>(properties: &'a Properties, key: &str) -> (r: Result<&'a str, AppError>)
    ensures
        field_of(properties@, key@) == (match r {
            Ok(v) => Ok::<Seq<char>, Fault>(v@),
            Err(e) => Err(e@),
        }),
{
    match properties.get(key) {
        Some(value) => Ok(value),
        None => {
            let mut m = "state is missing ".to_owned();
            m.append(key);
            Err(AppError::Fail(m))
        },
    }
}

fn invalid(name: &str) -> (r: AppError)
    ensures
        r@ == Fault::Fail("invalid "@ + name@),
{
    let mut m = "invalid ".to_owned();
    m.append(name);
    AppError::Fail(m)
}

/// The truth value that `raw` is, called `name`.
pub open spec fn bool_of(raw: Seq<char>, name: Seq<char>) -> Result<bool, Fault> {
    if raw == "true"@ {
        Ok(true)
    } else if raw == "false"@ {
        Ok(false)
    } else {
        Err(Fault::Fail("invalid "@ + name))
    }
}

pub fn parse_bool(raw: &str, name: &str) -> (r: Result<bool, AppError>)
    ensures
        outcome(r) == bool_of(raw@, name@),
{
    if text::same(raw, "true") {
        Ok(true)
    } else if text::same(raw, "false") {
        Ok(false)
    } else {
        Err(invalid(name))
    }
}

/// An integer type that is written in base ten.
pub trait Decimal: Sized {
    /// The number that a value is.
    spec fn number(self) -> int;

    /// The least number of the type.
    spec fn least() -> int;

    /// The greatest number of the type.
    spec fn greatest() -> int;

    /// The value that `raw` writes, if it writes one of the type.
    fn read(raw: &str) -> (r: Option<Self>)
        ensures
            text::integer_between(raw@, Self::least(), Self::greatest()) == (match r {
                Some(v) => Some(v.number()),
                None => None,
            }),
    ;

    /// The value in base ten.
    fn written(&self) -> (r: String)
        ensures
            r@ == text::signed_decimal(self.number()),
    ;

    /// Whether the value is zero.
    fn is_zero(&self) -> (r: bool)
        ensures
            r == (self.number() == 0),
    ;
}

impl Decimal for u32 {
    open spec fn number(self) -> int {
        self as int
    }

    open spec fn least() -> int {
        0
    }

    open spec fn greatest() -> int {
        u32::MAX as int
    }

    fn read(raw: &str) -> (r: Option<Self>) {
        match text::parse_between(raw, 0, u32::MAX as u64) {
            Some(v) => Some(v as u32),
            None => None,
        }
    }

    fn written(&self) -> (r: String) {
        text::decimal_text(*self as u64)
    }

    fn is_zero(&self) -> (r: bool) {
        *self == 0
    }
}

impl Decimal for u64 {
    open spec fn number(self) -> int {
        self as int
    }

    open spec fn least() -> int {
        0
    }

    open spec fn greatest() -> int {
        u64::MAX as int
    }

    fn read(raw: &str) -> (r: Option<Self>) {
        match text::parse_between(raw, 0, u64::MAX) {
            Some(v) => Some(v as u64),
            None => None,
        }
    }

    fn written(&self) -> (r: String) {
        text::decimal_text(*self)
    }

    fn is_zero(&self) -> (r: bool) {
        *self == 0
    }
}

impl Decimal for i32 {
    open spec fn number(self) -> int {
        self as int
    }

    open spec fn least() -> int {
        i32::MIN as int
    }

    open spec fn greatest() -> int {
        i32::MAX as int
    }

    fn read(raw: &str) -> (r: Option<Self>) {
        match text::parse_between(raw, i32::MIN as i64, i32::MAX as u64) {
            Some(v) => Some(v as i32),
            None => None,
        }
    }

    fn written(&self) -> (r: String) {
        text::signed_decimal_text(*self as i64)
    }

    fn is_zero(&self) -> (r: bool) {
        *self == 0
    }
}

impl Decimal for i64 {
    open spec fn number(self) -> int {
        self as int
    }

    open spec fn least() -> int {
        i64::MIN as int
    }

    open spec fn greatest() -> int {
        i64::MAX as int
    }

    fn read(raw: &str) -> (r: Option<Self>) {
        match text::parse_between(raw, i64::MIN, i64::MAX as u64) {
            Some(v) => Some(v as i64),
            None => None,
        }
    }

    fn written(&self) -> (r: String) {
        text::signed_decimal_text(*self)
    }

    fn is_zero(&self) -> (r: bool) {
        *self == 0
    }
}

/// The integer other than zero that `raw` writes in the one way that it is written.
pub open spec fn positive_of(
    raw: Seq<char>,
    name: Seq<char>,
    least: int,
    greatest: int,
) -> Result<int, Fault> {
    match text::integer_between(raw, least, greatest) {
        Some(i) => if i != 0 && text::signed_decimal(i) == raw {
            Ok(i)
        } else {
            Err(Fault::Fail("invalid "@ + name))
        },
        None => Err(Fault::Fail("invalid "@ + name)),
    }
}

/// A result with its value seen as a number.
pub open spec fn numbered<T: Decimal>(r: Result<T, AppError>) -> Result<int, Fault> {
    match r {
        Ok(v) => Ok(v.number()),
        Err(e) => Err(e@),
    }
}

/// The integer other than zero that `raw` writes, called `name`.
pub fn parse_positive<T: Decimal>(raw: &str, name: &str) -> (r: Result<T, AppError>)
    ensures
        numbered(r) == positive_of(raw@, name@, T::least(), T::greatest()),
{
    match T::read(raw) {
        None => Err(invalid(name)),
        Some(value) => {
            if value.is_zero() || !text::same(value.written().as_str(), raw) {
                Err(invalid(name))
            } else {
                Ok(value)
            }
        },
    }
}

/// The number that `raw` writes in the one way that it is written.
pub open spec fn u32_of(raw: Seq<char>, name: Seq<char>) -> Result<u32, Fault> {
    match text::integer_between(raw, 0, u32::MAX as int) {
        Some(i) => if text::decimal(i as nat) == raw {
            Ok(i as u32)
        } else {
            Err(Fault::Fail("invalid "@ + name))
        },
        None => Err(Fault::Fail("invalid "@ + name)),
    }
}

pub fn parse_u32(raw: &str, name: &str) -> (r: Result<u32, AppError>)
    ensures
        outcome(r) == u32_of(raw@, name@),
{
    match u32::read(raw) {
        None => Err(invalid(name)),
        Some(value) => {
            if text::same(text::decimal_text(value as u64).as_str(), raw) {
                Ok(value)
            } else {
                Err(invalid(name))
            }
        },
    }
}

/// What `raw` says as an instant called `name`.
pub fn parse_utc(raw: &str, name: &str) -> (r: Result<Timestamp, AppError>)
    ensures
        outcome(r) == time::utc_of(raw@, name@),
        r matches Ok(t) ==> t.valid(),
{
    time::parse_utc(raw, name)
}

/// The sleep setting that `raw` writes.
pub open spec fn disable_sleep_of(raw: Seq<char>) -> Result<i32, Fault> {
    match u32_of(raw, "priorDisableSleep"@) {
        Err(e) => Err(e),
        Ok(v) => if v <= 1 {
            Ok(v as i32)
        } else {
            Err(Fault::Fail("priorDisableSleep must be 0 or 1"@))
        },
    }
}

pub fn disable_sleep(raw: &str) -> (r: Result<i32, AppError>)
    ensures
        outcome(r) == disable_sleep_of(raw@),
{
    match parse_u32(raw, "priorDisableSleep") {
        Err(e) => Err(e),
        Ok(v) => if v <= 1 {
            Ok(v as i32)
        } else {
            Err(AppError::fail("priorDisableSleep must be 0 or 1"))
        },
    }
}

/// Whether a value can stand on a line of its own.
pub open spec fn one_line(s: Seq<char>) -> bool {
    s.len() > 0 && !s.contains('\r') && !s.contains('\n')
}

fn is_one_line(s: &str) -> (r: bool)
    ensures
        r == one_line(s@),
{
    !s.is_empty() && !text::contains_char(s, '\r') && !text::contains_char(s, '\n')
}

/// What a session may keep awake.
pub open spec fn known_mode(mode: Seq<char>) -> bool {
    mode == "system-only"@ || mode == "display+system"@
}

pub fn is_known_mode(mode: &str) -> (r: bool)
    ensures
        r == known_mode(mode@),
{
    text::same(mode, "system-only") || text::same(mode, "display+system")
}

/// The mode of a session, by whether the display may sleep.
pub open spec fn mode_text(no_display: bool) -> Seq<char> {
    if no_display {
        "system-only"@
    } else {
        "display+system"@
    }
}

pub fn mode_for(no_display: bool) -> (r: &'static str)
    ensures
        r@ == mode_text(no_display),
{
    if no_display {
        "system-only"
    } else {
        "display+system"
    }
}

/// Whether a session ends at an instant that is known when it starts.
pub open spec fn timed(trigger: Seq<char>) -> bool {
    trigger == "timed"@ || trigger == "until-time"@
}

fn is_timed(trigger: &str) -> (r: bool)
    ensures
        r == timed(trigger@),
{
    text::same(trigger, "timed") || text::same(trigger, "until-time")
}

/// What a session may wait for.
pub open spec fn known_trigger(trigger: Seq<char>) -> bool {
    timed(trigger) || trigger == "indefinite"@ || trigger == "until-charge"@ || trigger
        == "while-pid"@ || trigger == "while-app"@
}

fn is_known_trigger(trigger: &str) -> (r: bool)
    ensures
        r == known_trigger(trigger@),
{
    is_timed(trigger) || text::same(trigger, "indefinite") || text::same(trigger, "until-charge")
        || text::same(trigger, "while-pid") || text::same(trigger, "while-app")
}

/// Whether the end of a session fits its trigger and its start.
pub open spec fn consistent_times(s: Record) -> bool {
    &&& s.ends_at is Some <==> timed(s.trigger)
    &&& match (s.started_at, s.ends_at) {
        (Some(start), Some(end)) => start.precedes(end),
        _ => true,
    }
}

/// Whether a session makes sense on the platform.
pub open spec fn validated(platform: Platform, s: Record) -> Result<(), Fault> {
    if !one_line(s.mode) || !one_line(s.trigger) || !one_line(s.detail) || !one_line(
        s.process_command,
    ) {
        Err(Fault::Fail("state contains an invalid required value"@))
    } else if !known_mode(s.mode) || !known_trigger(s.trigger) || !expected(
        platform,
        s.process_command,
    ) {
        Err(Fault::Fail("state contains invalid session metadata"@))
    } else if !consistent_times(s) {
        Err(Fault::Fail("state contains inconsistent timestamps"@))
    } else {
        Ok(())
    }
}

/// Whether a session makes sense on the platform.
pub fn validate(platform: Platform, session: &Session) -> (r: Result<(), AppError>)
    ensures
        outcome(r) == validated(platform, session@),
{
    if !is_one_line(session.mode.as_str()) || !is_one_line(session.trigger.as_str())
        || !is_one_line(session.detail.as_str()) || !is_one_line(session.process_command.as_str()) {
        return Err(AppError::fail("state contains an invalid required value"));
    }
    if !is_known_mode(session.mode.as_str()) || !is_known_trigger(session.trigger.as_str())
        || !expected_command(platform, session.process_command.as_str()) {
        return Err(AppError::fail("state contains invalid session metadata"));
    }
    let ordered = match (session.started_at, session.ends_at) {
        (Some(start), Some(end)) => start.is_before(&end),
        _ => true,
    };
    if session.ends_at.is_some() != is_timed(session.trigger.as_str()) || !ordered {
        return Err(AppError::fail("state contains inconsistent timestamps"));
    }
    Ok(())
}

/// The keys of a saved session.
pub open spec fn keys(platform: Platform, even_lid: bool) -> Seq<Seq<char>> {
    let common = seq![
        "version"@,
        "pid"@,
        "mode"@,
        "trigger"@,
        "detail"@,
        "startedAt"@,
        "endsAt"@,
        "processStart"@,
        "processCommand"@,
        "evenLid"@,
    ];
    if !even_lid {
        common
    } else if platform == Platform::Windows {
        common + seq![
            "guardianPid"@,
            "guardianStart"@,
            "originalScheme"@,
            "originalAc"@,
            "originalDc"@,
        ]
    } else {
        common + seq!["priorDisableSleep"@]
    }
}

fn key_names(platform: Platform, even_lid: bool) -> (r: Vec<&'static str>)
    ensures
        text::strs(r@) == keys(platform, even_lid),
{
    let mut names = vec![
        "version",
        "pid",
        "mode",
        "trigger",
        "detail",
        "startedAt",
        "endsAt",
        "processStart",
        "processCommand",
        "evenLid",
    ];
    if even_lid {
        match platform {
            Platform::Windows => {
                names.push("guardianPid");
                names.push("guardianStart");
                names.push("originalScheme");
                names.push("originalAc");
                names.push("originalDc");
            },
            _ => {
                names.push("priorDisableSleep");
            },
        }
    }
    assert(text::strs(names@) =~= keys(platform, even_lid));
    names
}

/// Whether the keys of `p` are `ks` and no others.
pub open spec fn has_keys(p: Map<Seq<char>, Seq<char>>, ks: Seq<Seq<char>>) -> bool {
    &&& forall|k: Seq<char>| p.dom().contains(k) ==> #[trigger] ks.contains(k)
    &&& forall|i: int| 0 <= i < ks.len() ==> p.dom().contains(#[trigger] ks[i])
}

proof fn lemma_map_of_keys(pairs: Seq<(String, String)>)
    ensures
        forall|i: int| 0 <= i < pairs.len() ==> map_of(pairs).dom().contains(#[trigger] pairs[i].0@),
        forall|k: Seq<char>|
            map_of(pairs).dom().contains(k) ==> exists|i: int|
                0 <= i < pairs.len() && #[trigger] pairs[i].0@ == k,
    decreases pairs.len(),
{
    if pairs.len() > 0 {
        let front = pairs.drop_last();
        lemma_map_of_keys(front);
        assert forall|i: int| 0 <= i < pairs.len() implies map_of(pairs).dom().contains(
            #[trigger] pairs[i].0@,
        ) by {
            if i < front.len() {
                assert(front[i] == pairs[i]);
            }
        }
        assert forall|k: Seq<char>| map_of(pairs).dom().contains(k) implies exists|i: int|
            0 <= i < pairs.len() && #[trigger] pairs[i].0@ == k by {
            if k == pairs.last().0@ {
                assert(pairs[pairs.len() - 1].0@ == k);
            } else {
                assert(map_of(front).dom().contains(k));
                let i = choose|i: int| 0 <= i < front.len() && #[trigger] front[i].0@ == k;
                assert(pairs[i] == front[i]);
                assert(pairs[i].0@ == k);
            }
        }
    }
}

fn check_keys(properties: &Properties, names: &Vec<&str>) -> (r: bool)
    ensures
        r == has_keys(properties@, text::strs(names@)),
{
    let ghost ks = text::strs(names@);
    proof {
        lemma_map_of_keys(properties.pairs@);
    }
    let mut i: usize = 0;
    while i < properties.pairs.len()
        invariant
            i <= properties.pairs@.len(),
            ks == text::strs(names@),
            forall|k: int|
                0 <= k < properties.pairs@.len() ==> properties@.dom().contains(
                    #[trigger] properties.pairs@[k].0@,
                ),
            forall|k: int| 0 <= k < i ==> ks.contains(#[trigger] properties.pairs@[k].0@),
        decreases properties.pairs@.len() - i,
    {
        if !text::is_one_of(properties.pairs[i].0.as_str(), names) {
            assert(properties@.dom().contains(properties.pairs@[i as int].0@));
            return false;
        }
        i = i + 1;
    }
    let mut j: usize = 0;
    while j < names.len()
        invariant
            j <= names@.len(),
            ks == text::strs(names@),
            forall|k: int| 0 <= k < j ==> properties@.dom().contains(#[trigger] ks[k]),
        decreases names@.len() - j,
    {
        if properties.get(names[j]).is_none() {
            assert(!properties@.dom().contains(ks[j as int]));
            return false;
        }
        j = j + 1;
    }
    true
}

/// What the properties say of the lid.
pub open spec fn lid_of(
    platform: Platform,
    p: Map<Seq<char>, Seq<char>>,
    even_lid: bool,
) -> Result<LidRecord, Fault> {
    if !even_lid {
        Ok(no_lid())
    } else if platform == Platform::Windows {
        let pid = positive_of(p["guardianPid"@], "guardianPid"@, 0, u32::MAX as int);
        let start = positive_of(p["guardianStart"@], "guardianStart"@, 0, u64::MAX as int);
        let scheme = platform::windows::guid_of(p["originalScheme"@]);
        let ac = u32_of(p["originalAc"@], "originalAc"@);
        let dc = u32_of(p["originalDc"@], "originalDc"@);
        if pid is Err {
            Err(pid->Err_0)
        } else if start is Err {
            Err(start->Err_0)
        } else if scheme is Err {
            Err(scheme->Err_0)
        } else if ac is Err {
            Err(ac->Err_0)
        } else if dc is Err {
            Err(dc->Err_0)
        } else {
            Ok(
                LidRecord {
                    prior_disable_sleep: 0,
                    guardian_pid: pid->Ok_0 as u32,
                    guardian_start: start->Ok_0 as u64,
                    original_scheme: p["originalScheme"@],
                    original_ac: ac->Ok_0,
                    original_dc: dc->Ok_0,
                },
            )
        }
    } else {
        match disable_sleep_of(p["priorDisableSleep"@]) {
            Err(e) => Err(e),
            Ok(prior) => Ok(LidRecord { prior_disable_sleep: prior, ..no_lid() }),
        }
    }
}

/// The end that the properties give.
pub open spec fn end_of(raw: Seq<char>) -> Result<Option<Timestamp>, Fault> {
    if raw.len() == 0 {
        Ok(None)
    } else {
        match time::utc_of(raw, "endsAt"@) {
            Err(e) => Err(e),
            Ok(t) => Ok(Some(t)),
        }
    }
}

/// The session that properties with the right keys say.
pub open spec fn values_of(
    platform: Platform,
    p: Map<Seq<char>, Seq<char>>,
    even_lid: bool,
) -> Result<Record, Fault> {
    let pid = positive_of(p["pid"@], "pid"@, 0, u32::MAX as int);
    let started_at = time::utc_of(p["startedAt"@], "startedAt"@);
    let ends_at = end_of(p["endsAt"@]);
    let process_start = positive_of(p["processStart"@], "processStart"@, 0, u64::MAX as int);
    let lid = lid_of(platform, p, even_lid);
    if pid is Err {
        Err(pid->Err_0)
    } else if started_at is Err {
        Err(started_at->Err_0)
    } else if ends_at is Err {
        Err(ends_at->Err_0)
    } else if process_start is Err {
        Err(process_start->Err_0)
    } else if lid is Err {
        Err(lid->Err_0)
    } else {
        let s = Record {
            pid: pid->Ok_0 as u32,
            mode: p["mode"@],
            trigger: p["trigger"@],
            detail: p["detail"@],
            started_at: Some(started_at->Ok_0),
            ends_at: ends_at->Ok_0,
            process_start: process_start->Ok_0 as u64,
            process_command: p["processCommand"@],
            even_lid,
            lid: lid->Ok_0,
        };
        match validated(platform, s) {
            Err(e) => Err(e),
            Ok(()) => Ok(s),
        }
    }
}

/// The session that properties say: of the known version, with all of its keys and no others.
pub open spec fn record_of(platform: Platform, p: Map<Seq<char>, Seq<char>>) -> Result<
    Record,
    Fault,
> {
    match field_of(p, "version"@) {
        Err(e) => Err(e),
        Ok(version) => if version != "2"@ {
            Err(Fault::Fail("unsupported state version"@))
        } else {
            match field_of(p, "evenLid"@) {
                Err(e) => Err(e),
                Ok(raw) => match bool_of(raw, "evenLid"@) {
                    Err(e) => Err(e),
                    Ok(even_lid) => if !has_keys(p, keys(platform, even_lid)) {
                        Err(Fault::Fail("state has missing or unknown fields"@))
                    } else {
                        values_of(platform, p, even_lid)
                    },
                },
            }
        },
    }
}

/// The session that a saved state says.
pub open spec fn decoded(platform: Platform, bytes: Seq<u8>) -> Result<Record, Fault> {
    if !vstd::utf8::valid_utf8(bytes) {
        Err(Fault::Fail("state is not UTF-8"@))
    } else {
        match text_properties(vstd::utf8::decode_utf8(bytes)) {
            Err(e) => Err(e),
            Ok(p) => record_of(platform, p),
        }
    }
}

/// `std::str::from_utf8`: the text that the bytes encode, where they encode one.
#[verifier::external_body]
fn utf8_text(bytes: &[u8]) -> (r: Option<&str>)
    ensures
        r is Some <==> vstd::utf8::valid_utf8(bytes@),
        r matches Some(s) ==> s@ == vstd::utf8::decode_utf8(bytes@),
{
    std::str::from_utf8(bytes).ok()
}

struct LidValues {
    prior_disable_sleep: i32,
    guardian_pid: u32,
    guardian_start: u64,
    original_scheme: String,
    original_ac: u32,
    original_dc: u32,
}

impl View for LidValues {
    type V = LidRecord;

    closed spec fn view(&self) -> LidRecord {
        LidRecord {
            prior_disable_sleep: self.prior_disable_sleep,
            guardian_pid: self.guardian_pid,
            guardian_start: self.guardian_start,
            original_scheme: self.original_scheme@,
            original_ac: self.original_ac,
            original_dc: self.original_dc,
        }
    }
}

fn lid_values(platform: Platform, properties: &Properties, even_lid: bool) -> (r: Result<
    LidValues,
    AppError,
>)
    requires
        has_keys(properties@, keys(platform, even_lid)),
    ensures
        viewed(r) == lid_of(platform, properties@, even_lid),
{
    let ghost ks = keys(platform, even_lid);
    let mut values = LidValues {
        prior_disable_sleep: 0,
        guardian_pid: 0,
        guardian_start: 0,
        original_scheme: String::new(),
        original_ac: 0,
        original_dc: 0,
    };
    assert(values@.original_scheme =~= Seq::<char>::empty());
    if !even_lid {
        return Ok(values);
    }
    match platform {
        Platform::Windows => {
            assert(ks[10] == "guardianPid"@ && ks[11] == "guardianStart"@ && ks[12]
                == "originalScheme"@ && ks[13] == "originalAc"@ && ks[14] == "originalDc"@);
            values.guardian_pid = parse_positive(field(properties, "guardianPid")?, "guardianPid")?;
            values.guardian_start =
            parse_positive(field(properties, "guardianStart")?, "guardianStart")?;
            let scheme = field(properties, "originalScheme")?;
            match platform::windows::parse_guid(scheme) {
                Err(e) => return Err(e),
                Ok(_) => {},
            }
            values.original_scheme = scheme.to_owned();
            values.original_ac = parse_u32(field(properties, "originalAc")?, "originalAc")?;
            values.original_dc = parse_u32(field(properties, "originalDc")?, "originalDc")?;
        },
        _ => {
            assert(ks[10] == "priorDisableSleep"@);
            values.prior_disable_sleep = disable_sleep(field(properties, "priorDisableSleep")?)?;
        },
    }
    Ok(values)
}

/// The session that a saved state says.
pub fn parse_session(platform: Platform, bytes: &[u8]) -> (r: Result<Session, AppError>)
    ensures
        viewed(r) == decoded(platform, bytes@),
        r matches Ok(s) ==> s@.well_formed(),
{
    let state = match utf8_text(bytes) {
        None => return Err(AppError::fail("state is not UTF-8")),
        Some(state) => state,
    };
    let properties = match properties(state) {
        Err(e) => return Err(e),
        Ok(p) => p,
    };
    if !text::same(field(&properties, "version")?, "2") {
        return Err(AppError::fail("unsupported state version"));
    }
    let even_lid = parse_bool(field(&properties, "evenLid")?, "evenLid")?;
    if !check_keys(&properties, &key_names(platform, even_lid)) {
        return Err(AppError::fail("state has missing or unknown fields"));
    }
    let ghost ks = keys(platform, even_lid);
    assert(ks[1] == "pid"@ && ks[2] == "mode"@ && ks[3] == "trigger"@ && ks[4] == "detail"@ && ks[5]
        == "startedAt"@ && ks[6] == "endsAt"@ && ks[7] == "processStart"@ && ks[8]
        == "processCommand"@);
    let pid: u32 = parse_positive(field(&properties, "pid")?, "pid")?;
    let started_at = parse_utc(field(&properties, "startedAt")?, "startedAt")?;
    let raw_end = field(&properties, "endsAt")?;
    let ends_at = if raw_end.is_empty() {
        None
    } else {
        Some(parse_utc(raw_end, "endsAt")?)
    };
    let process_start: u64 = parse_positive(field(&properties, "processStart")?, "processStart")?;
    let lid = match lid_values(platform, &properties, even_lid) {
        Err(e) => return Err(e),
        Ok(lid) => lid,
    };
    let session = Session {
        pid,
        mode: field(&properties, "mode")?.to_owned(),
        trigger: field(&properties, "trigger")?.to_owned(),
        detail: field(&properties, "detail")?.to_owned(),
        started_at: Some(started_at),
        ends_at,
        process_start,
        process_command: field(&properties, "processCommand")?.to_owned(),
        even_lid,
        prior_disable_sleep: lid.prior_disable_sleep,
        guardian_pid: lid.guardian_pid,
        guardian_start: lid.guardian_start,
        original_scheme: lid.original_scheme,
        original_ac: lid.original_ac,
        original_dc: lid.original_dc,
    };
    match validate(platform, &session) {
        Err(e) => Err(e),
        Ok(()) => Ok(session),
    }
}

/// A key and its value on a line.
pub open spec fn state_line(field: (Seq<char>, Seq<char>)) -> Seq<char> {
    field.0 + seq!['='] + field.1
}

/// The text of a state with these fields.
pub open spec fn state_text(fields: Seq<(Seq<char>, Seq<char>)>) -> Seq<char>
    decreases fields.len(),
{
    if fields.len() == 0 {
        Seq::empty()
    } else {
        state_text(fields.drop_last()) + state_line(fields.last()) + seq!['\n']
    }
}

/// The text of a truth value.
pub open spec fn bool_text(b: bool) -> Seq<char> {
    if b {
        "true"@
    } else {
        "false"@
    }
}

/// The text of an instant.
pub open spec fn instant_text(t: Timestamp) -> Seq<char> {
    time::rfc3339_text(t.seconds, t.nanos)
}

/// The text of an instant that may be missing.
pub open spec fn optional_instant_text(t: Option<Timestamp>) -> Seq<char> {
    match t {
        Some(t) => instant_text(t),
        None => Seq::empty(),
    }
}

/// The fields that are written for every session; it has a start.
pub open spec fn common_fields(s: Record) -> Seq<(Seq<char>, Seq<char>)> {
    seq![
        ("version"@, "2"@),
        ("pid"@, text::decimal(s.pid as nat)),
        ("mode"@, s.mode),
        ("trigger"@, s.trigger),
        ("detail"@, s.detail),
        ("startedAt"@, instant_text(s.started_at->0)),
        ("endsAt"@, optional_instant_text(s.ends_at)),
        ("processStart"@, text::decimal(s.process_start as nat)),
        ("processCommand"@, s.process_command),
        ("evenLid"@, bool_text(s.even_lid)),
    ]
}

/// The fields that are written for a session with the lid.
pub open spec fn lid_fields(platform: Platform, lid: LidRecord) -> Seq<(Seq<char>, Seq<char>)> {
    if platform == Platform::Windows {
        seq![
            ("guardianPid"@, text::decimal(lid.guardian_pid as nat)),
            ("guardianStart"@, text::decimal(lid.guardian_start as nat)),
            ("originalScheme"@, lid.original_scheme),
            ("originalAc"@, text::decimal(lid.original_ac as nat)),
            ("originalDc"@, text::decimal(lid.original_dc as nat)),
        ]
    } else {
        seq![("priorDisableSleep"@, text::signed_decimal(lid.prior_disable_sleep as int))]
    }
}

/// The fields that are written for a session which has a start.
pub open spec fn fields_of(platform: Platform, s: Record) -> Seq<(Seq<char>, Seq<char>)> {
    if s.even_lid {
        common_fields(s) + lid_fields(platform, s.lid)
    } else {
        common_fields(s)
    }
}

/// The fields that are written for a session, or why it is not written.
pub open spec fn stored(platform: Platform, s: Record) -> Result<
    Seq<(Seq<char>, Seq<char>)>,
    Fault,
> {
    match validated(platform, s) {
        Err(e) => Err(e),
        Ok(()) => if s.pid == 0 || s.process_start == 0 || s.started_at is None {
            Err(Fault::Fail("session identity or start time is missing"@))
        } else if !s.even_lid {
            Ok(fields_of(platform, s))
        } else if platform == Platform::Windows {
            if s.lid.guardian_pid == 0 || s.lid.guardian_start == 0 {
                Err(Fault::Fail("guardian identity is missing"@))
            } else {
                match platform::windows::guid_of(s.lid.original_scheme) {
                    Err(e) => Err(e),
                    Ok(_) => Ok(fields_of(platform, s)),
                }
            }
        } else {
            match disable_sleep_of(text::signed_decimal(s.lid.prior_disable_sleep as int)) {
                Err(e) => Err(e),
                Ok(_) => Ok(fields_of(platform, s)),
            }
        },
    }
}

/// What is kept of a session when it is written: of the lid only what the platform has, and that only
/// where the session has the lid.
pub open spec fn kept(platform: Platform, s: Record) -> Record {
    Record {
        lid: if !s.even_lid {
            no_lid()
        } else if platform == Platform::Windows {
            LidRecord { prior_disable_sleep: 0, ..s.lid }
        } else {
            LidRecord { prior_disable_sleep: s.lid.prior_disable_sleep, ..no_lid() }
        },
        ..s
    }
}

/// Whether a text is made of ASCII letters.
spec fn letters(k: Seq<char>) -> bool {
    k.len() > 0 && forall|i: int|
        0 <= i < k.len() ==> 'a' <= #[trigger] k[i] <= 'z' || 'A' <= k[i] <= 'Z'
}

proof fn lemma_letters(k: Seq<char>)
    requires
        letters(k),
    ensures
        text::trimmed(k) == k,
        !k.contains('='),
        !k.contains('\n'),
{
    assert(!text::white(k[0]));
    assert(!text::white(k.last()));
    assert(text::trim_front(k) == k);
    assert(text::trim_back(k) == k);
}

/// A number that tells the keys apart.
spec fn key_mark(k: Seq<char>) -> int {
    if k.len() == 10 {
        k[8] as int
    } else {
        1000 * k.len() + k[0] as int
    }
}

proof fn lemma_keys(platform: Platform, even_lid: bool)
    ensures
        forall|i: int|
            0 <= i < keys(platform, even_lid).len() ==> letters(
                #[trigger] keys(platform, even_lid)[i],
            ),
        forall|i: int, j: int|
            0 <= i < j < keys(platform, even_lid).len() ==> #[trigger] keys(platform, even_lid)[i]
                != #[trigger] keys(platform, even_lid)[j],
        letters("pending"@),
        !keys(platform, even_lid).contains("pending"@),
{
    reveal_strlit("pending");
    reveal_strlit("version");
    reveal_strlit("pid");
    reveal_strlit("mode");
    reveal_strlit("trigger");
    reveal_strlit("detail");
    reveal_strlit("startedAt");
    reveal_strlit("endsAt");
    reveal_strlit("processStart");
    reveal_strlit("processCommand");
    reveal_strlit("evenLid");
    reveal_strlit("guardianPid");
    reveal_strlit("guardianStart");
    reveal_strlit("originalScheme");
    reveal_strlit("originalAc");
    reveal_strlit("originalDc");
    reveal_strlit("priorDisableSleep");
    let ks = keys(platform, even_lid);
    assert(letters("version"@) && letters("pid"@) && letters("mode"@) && letters("trigger"@));
    assert(letters("detail"@) && letters("startedAt"@) && letters("endsAt"@));
    assert(letters("processStart"@) && letters("processCommand"@) && letters("evenLid"@));
    assert(letters("guardianPid"@) && letters("guardianStart"@) && letters("originalScheme"@));
    assert(letters("originalAc"@) && letters("originalDc"@) && letters("priorDisableSleep"@));
    assert(key_mark("version"@) == 7118 && key_mark("pid"@) == 3112 && key_mark("mode"@) == 4109);
    assert(key_mark("trigger"@) == 7116 && key_mark("detail"@) == 6100);
    assert(key_mark("startedAt"@) == 9115 && key_mark("endsAt"@) == 6101);
    assert(key_mark("processStart"@) == 12112 && key_mark("processCommand"@) == 14112);
    assert(key_mark("evenLid"@) == 7101 && key_mark("guardianPid"@) == 11103);
    assert(key_mark("guardianStart"@) == 13103 && key_mark("originalScheme"@) == 14111);
    assert(key_mark("originalAc"@) == 65 && key_mark("originalDc"@) == 68);
    assert(key_mark("priorDisableSleep"@) == 17112);
    assert(letters("pending"@) && key_mark("pending"@) == 7112);
    assert forall|i: int| 0 <= i < ks.len() implies #[trigger] ks[i] != "pending"@ by {
        assert(key_mark(ks[i]) != 7112);
    }
    assert forall|i: int, j: int| 0 <= i < j < ks.len() implies #[trigger] ks[i]
        != #[trigger] ks[j] by {
        assert(key_mark(ks[i]) != key_mark(ks[j]));
    }
}

/// The fields as a map; of two with the same key the later one counts.
spec fn fields_map(fields: Seq<(Seq<char>, Seq<char>)>) -> Map<Seq<char>, Seq<char>>
    decreases fields.len(),
{
    if fields.len() == 0 {
        Map::empty()
    } else {
        fields_map(fields.drop_last()).insert(fields.last().0, fields.last().1)
    }
}

/// Whether fields can be read back: each key is a word of its own, and no value breaks its line.
spec fn readable(fields: Seq<(Seq<char>, Seq<char>)>) -> bool {
    &&& forall|i: int|
        0 <= i < fields.len() ==> {
            let f = #[trigger] fields[i];
            letters(f.0) && !f.1.contains('\r') && !f.1.contains('\n')
        }
    &&& forall|i: int, j: int|
        0 <= i < j < fields.len() ==> (#[trigger] fields[i]).0 != (#[trigger] fields[j]).0
}

proof fn lemma_fields_map(fields: Seq<(Seq<char>, Seq<char>)>)
    requires
        readable(fields),
    ensures
        forall|i: int|
            0 <= i < fields.len() ==> fields_map(fields).dom().contains((#[trigger] fields[i]).0)
                && fields_map(fields)[fields[i].0] == fields[i].1,
        forall|k: Seq<char>|
            fields_map(fields).dom().contains(k) ==> exists|i: int|
                0 <= i < fields.len() && (#[trigger] fields[i]).0 == k,
    decreases fields.len(),
{
    if fields.len() > 0 {
        let front = fields.drop_last();
        let last = fields.len() - 1;
        assert forall|i: int| 0 <= i < front.len() implies #[trigger] front[i] == fields[i] by {}
        assert(readable(front));
        lemma_fields_map(front);
        assert forall|i: int| 0 <= i < fields.len() implies fields_map(fields).dom().contains(
            (#[trigger] fields[i]).0,
        ) && fields_map(fields)[fields[i].0] == fields[i].1 by {
            if i < last {
                assert(front[i] == fields[i]);
                assert(fields[i].0 != fields[last].0);
            }
        }
        assert forall|k: Seq<char>| fields_map(fields).dom().contains(k) implies exists|i: int|
            0 <= i < fields.len() && (#[trigger] fields[i]).0 == k by {
            if k == fields[last].0 {
                assert(fields[last].0 == k);
            } else {
                assert(fields_map(front).dom().contains(k));
                let i = choose|i: int| 0 <= i < front.len() && (#[trigger] front[i]).0 == k;
                assert(fields[i] == front[i]);
            }
        }
    }
}

/// The text of readable fields is read back as the fields.
proof fn lemma_state_text(fields: Seq<(Seq<char>, Seq<char>)>)
    requires
        readable(fields),
    ensures
        text::whole_lines(state_text(fields)),
        text::lines(state_text(fields)).len() == fields.len(),
        properties_of(text::lines(state_text(fields))) == Ok::<Map<Seq<char>, Seq<char>>, Fault>(
            fields_map(fields),
        ),
    decreases fields.len(),
{
    if fields.len() == 0 {
        assert(text::lines(Seq::<char>::empty()) =~= Seq::<Seq<char>>::empty());
    } else {
        let front = fields.drop_last();
        let last = fields.last();
        assert forall|i: int| 0 <= i < front.len() implies #[trigger] front[i] == fields[i] by {}
        assert(readable(front));
        lemma_state_text(front);
        lemma_fields_map(front);
        lemma_letters(last.0);
        let line = state_line(last);
        assert forall|k: int| 0 <= k < line.len() implies line[k] != '\n' by {
            if k < last.0.len() {
                assert(last.0.contains(last.0[k]));
            } else if k > last.0.len() {
                assert(last.1.contains(last.1[k - last.0.len() - 1]));
            }
        }
        if line.last() == '\r' {
            assert(last.1.len() > 0);
            assert(last.1.contains(last.1.last()));
        }
        text::lemma_lines_push(state_text(front), line);
        assert forall|k: int| 0 <= k < last.0.len() implies #[trigger] line[k] != '=' by {
            assert(last.0.contains(last.0[k]));
        }
        text::lemma_find_is(line, '=', last.0.len() as int);
        assert(line.take(last.0.len() as int) =~= last.0);
        assert(line.skip(last.0.len() as int + 1) =~= last.1);
        let ls = text::lines(state_text(fields));
        assert(ls.drop_last() =~= text::lines(state_text(front)));
        if fields_map(front).dom().contains(last.0) {
            let i = choose|i: int| 0 <= i < front.len() && (#[trigger] front[i]).0 == last.0;
            assert(fields[i].0 != fields[fields.len() - 1].0);
        }
    }
}

/// A number is read back from its digits.
proof fn lemma_number(n: nat, most: int)
    requires
        n <= most,
    ensures
        text::integer_between(text::decimal(n), 0, most) == Some(n as int),
        !text::decimal(n).contains('\r'),
        !text::decimal(n).contains('\n'),
{
    text::lemma_decimal(n);
    let d = text::decimal(n);
    assert(text::digit(d[0]));
    assert forall|i: int| 0 <= i < d.len() implies d[i] != '\r' && d[i] != '\n' by {
        assert(text::digit(d[i]));
    }
}

/// The text of an instant that is written on one line and read back.
pub open spec fn instant_round_trips(t: Timestamp) -> bool {
    let raw = instant_text(t);
    &&& raw.len() > 0
    &&& !raw.contains('\r')
    &&& !raw.contains('\n')
    &&& time::rfc3339_instant(raw) == Some((t.seconds, t.nanos))
}

/// Whether a stored session has instants that are read back from their texts.
pub open spec fn instants_round_trip(s: Record) -> bool {
    &&& s.started_at matches Some(t) ==> instant_round_trips(t)
    &&& s.ends_at matches Some(t) ==> instant_round_trips(t)
}

proof fn lemma_fields_have_keys(platform: Platform, s: Record)
    ensures
        fields_of(platform, s).len() == keys(platform, s.even_lid).len(),
        forall|i: int|
            0 <= i < fields_of(platform, s).len() ==> (#[trigger] fields_of(platform, s)[i]).0
                == keys(platform, s.even_lid)[i],
{
}

/// Whether a value breaks no line.
spec fn unbroken(v: Seq<char>) -> bool {
    !v.contains('\r') && !v.contains('\n')
}

proof fn lemma_common_values_are_unbroken(s: Record)
    requires
        one_line(s.mode),
        one_line(s.trigger),
        one_line(s.detail),
        one_line(s.process_command),
        s.started_at is Some,
        instants_round_trip(s),
    ensures
        unbroken("2"@),
        unbroken(text::decimal(s.pid as nat)),
        unbroken(s.mode),
        unbroken(s.trigger),
        unbroken(s.detail),
        unbroken(instant_text(s.started_at->0)),
        unbroken(optional_instant_text(s.ends_at)),
        unbroken(text::decimal(s.process_start as nat)),
        unbroken(s.process_command),
        unbroken(bool_text(s.even_lid)),
{
    lemma_number(s.pid as nat, u32::MAX as int);
    lemma_number(s.process_start as nat, u64::MAX as int);
    reveal_strlit("2");
    reveal_strlit("true");
    reveal_strlit("false");
}

proof fn lemma_lid_values_are_unbroken(platform: Platform, s: Record)
    requires
        stored(platform, s) is Ok,
        s.even_lid,
    ensures
        unbroken(text::decimal(s.lid.guardian_pid as nat)),
        unbroken(text::decimal(s.lid.guardian_start as nat)),
        unbroken(text::decimal(s.lid.original_ac as nat)),
        unbroken(text::decimal(s.lid.original_dc as nat)),
        platform == Platform::Windows ==> unbroken(s.lid.original_scheme),
        platform != Platform::Windows ==> unbroken(
            text::signed_decimal(s.lid.prior_disable_sleep as int),
        ),
{
    lemma_number(s.lid.guardian_pid as nat, u32::MAX as int);
    lemma_number(s.lid.guardian_start as nat, u64::MAX as int);
    lemma_number(s.lid.original_ac as nat, u32::MAX as int);
    lemma_number(s.lid.original_dc as nat, u32::MAX as int);
    if platform == Platform::Windows {
        lemma_scheme_is_one_line(s.lid.original_scheme);
    } else {
        lemma_prior(s.lid.prior_disable_sleep);
    }
}

proof fn lemma_values_are_unbroken(platform: Platform, s: Record)
    requires
        stored(platform, s) is Ok,
        instants_round_trip(s),
    ensures
        forall|i: int|
            0 <= i < fields_of(platform, s).len() ==> unbroken(
                (#[trigger] fields_of(platform, s)[i]).1,
            ),
{
    let fields = fields_of(platform, s);
    lemma_common_values_are_unbroken(s);
    if s.even_lid {
        lemma_lid_values_are_unbroken(platform, s);
    }
    assert forall|i: int| 0 <= i < fields.len() implies unbroken((#[trigger] fields[i]).1) by {
        if i < 5 {
        } else if i < 10 {
        } else if i < 15 {
        }
    }
}

proof fn lemma_fields_are_readable(platform: Platform, s: Record)
    requires
        stored(platform, s) is Ok,
        instants_round_trip(s),
    ensures
        readable(fields_of(platform, s)),
{
    let fields = fields_of(platform, s);
    let ks = keys(platform, s.even_lid);
    lemma_keys(platform, s.even_lid);
    lemma_fields_have_keys(platform, s);
    lemma_values_are_unbroken(platform, s);
    assert forall|i: int| 0 <= i < fields.len() implies {
        let f = #[trigger] fields[i];
        letters(f.0) && !f.1.contains('\r') && !f.1.contains('\n')
    } by {
        assert(letters(ks[i]));
        assert(unbroken(fields[i].1));
    }
    assert forall|i: int, j: int| 0 <= i < j < fields.len() implies (#[trigger] fields[i]).0 != (
    #[trigger] fields[j]).0 by {
        assert(ks[i] != ks[j]);
    }
}

proof fn lemma_fields_have_just_keys(platform: Platform, s: Record)
    requires
        readable(fields_of(platform, s)),
    ensures
        has_keys(fields_map(fields_of(platform, s)), keys(platform, s.even_lid)),
{
    let fields = fields_of(platform, s);
    let ks = keys(platform, s.even_lid);
    let p = fields_map(fields);
    lemma_fields_have_keys(platform, s);
    lemma_fields_map(fields);
    assert forall|k: Seq<char>| p.dom().contains(k) implies #[trigger] ks.contains(k) by {
        let i = choose|i: int| 0 <= i < fields.len() && (#[trigger] fields[i]).0 == k;
        assert(ks[i] == k);
    }
    assert forall|i: int| 0 <= i < ks.len() implies p.dom().contains(#[trigger] ks[i]) by {
        assert(fields[i].0 == ks[i]);
    }
}

/// The lid's part of a stored session is read back.
proof fn lemma_lid_is_read_back(platform: Platform, s: Record)
    requires
        stored(platform, s) is Ok,
        readable(fields_of(platform, s)),
    ensures
        lid_of(platform, fields_map(fields_of(platform, s)), s.even_lid) == Ok::<LidRecord, Fault>(
            kept(platform, s).lid,
        ),
{
    let fields = fields_of(platform, s);
    lemma_fields_map(fields);
    if s.even_lid && platform == Platform::Windows {
        lemma_number(s.lid.guardian_pid as nat, u32::MAX as int);
        lemma_number(s.lid.guardian_start as nat, u64::MAX as int);
        lemma_number(s.lid.original_ac as nat, u32::MAX as int);
        lemma_number(s.lid.original_dc as nat, u32::MAX as int);
        assert(fields[10] == ("guardianPid"@, text::decimal(s.lid.guardian_pid as nat)));
        assert(fields[11] == ("guardianStart"@, text::decimal(s.lid.guardian_start as nat)));
        assert(fields[12] == ("originalScheme"@, s.lid.original_scheme));
        assert(fields[13] == ("originalAc"@, text::decimal(s.lid.original_ac as nat)));
        assert(fields[14] == ("originalDc"@, text::decimal(s.lid.original_dc as nat)));
    } else if s.even_lid {
        lemma_prior(s.lid.prior_disable_sleep);
        assert(fields[10] == (
            "priorDisableSleep"@,
            text::signed_decimal(s.lid.prior_disable_sleep as int),
        ));
    }
}

/// The fields of a stored session are read back as what is kept of it.
#[verifier::spinoff_prover]
#[verifier::rlimit(40)]
proof fn lemma_values_are_read_back(platform: Platform, s: Record)
    requires
        stored(platform, s) is Ok,
        instants_round_trip(s),
        readable(fields_of(platform, s)),
    ensures
        record_of(platform, fields_map(fields_of(platform, s))) == Ok::<Record, Fault>(
            kept(platform, s),
        ),
{
    let fields = fields_of(platform, s);
    let p = fields_map(fields);
    lemma_fields_map(fields);
    lemma_fields_have_just_keys(platform, s);
    lemma_lid_is_read_back(platform, s);
    lemma_number(s.pid as nat, u32::MAX as int);
    lemma_number(s.process_start as nat, u64::MAX as int);
    assert(fields[0] == ("version"@, "2"@));
    assert(fields[1] == ("pid"@, text::decimal(s.pid as nat)));
    assert(fields[2] == ("mode"@, s.mode));
    assert(fields[3] == ("trigger"@, s.trigger));
    assert(fields[4] == ("detail"@, s.detail));
    assert(fields[5] == ("startedAt"@, instant_text(s.started_at->0)));
    assert(fields[6] == ("endsAt"@, optional_instant_text(s.ends_at)));
    assert(fields[7] == ("processStart"@, text::decimal(s.process_start as nat)));
    assert(fields[8] == ("processCommand"@, s.process_command));
    assert(fields[9] == ("evenLid"@, bool_text(s.even_lid)));
    assert(bool_of(bool_text(s.even_lid), "evenLid"@) == Ok::<bool, Fault>(s.even_lid)) by {
        reveal_strlit("true");
        reveal_strlit("false");
        assert("true"@.len() != "false"@.len());
    }
    assert(values_of(platform, p, s.even_lid) == Ok::<Record, Fault>(kept(platform, s)));
}

/// What is written for a session is read back as what is kept of it, where its instants are read
/// back from their texts.
pub proof fn law_sessions_are_read_back(platform: Platform, s: Record)
    requires
        stored(platform, s) is Ok,
        instants_round_trip(s),
    ensures
        decoded(platform, vstd::utf8::encode_utf8(state_text(stored(platform, s)->Ok_0))) == Ok::<
            Record,
            Fault,
        >(kept(platform, s)),
{
    let fields = fields_of(platform, s);
    lemma_fields_are_readable(platform, s);
    lemma_values_are_read_back(platform, s);
    lemma_state_text(fields);
    let written = state_text(fields);
    vstd::utf8::encode_utf8_valid_utf8(written);
    vstd::utf8::encode_utf8_decode_utf8(written);
}

/// The identifier of a power scheme stands on one line.
proof fn lemma_scheme_is_one_line(scheme: Seq<char>)
    requires
        platform::windows::guid_of(scheme) is Ok,
    ensures
        !scheme.contains('\r'),
        !scheme.contains('\n'),
{
    platform::windows::lemma_guid_is_one_line(scheme);
}

/// A sleep setting that is stored is read back from its digits.
pub proof fn lemma_prior(prior: i32)
    requires
        disable_sleep_of(text::signed_decimal(prior as int)) is Ok,
    ensures
        disable_sleep_of(text::signed_decimal(prior as int)) == Ok::<i32, Fault>(prior),
        !text::signed_decimal(prior as int).contains('\r'),
        !text::signed_decimal(prior as int).contains('\n'),
{
    if prior < 0 {
        let raw = text::signed_decimal(prior as int);
        assert(raw[0] == '-');
        assert(!text::digit(raw[0]));
    } else {
        lemma_number(prior as nat, u32::MAX as int);
    }
}

/// A session that was read can be written again, all of it.
pub proof fn law_read_sessions_can_be_written(platform: Platform, bytes: Seq<u8>)
    ensures
        decoded(platform, bytes) matches Ok(s) ==> stored(platform, s) == Ok::<
            Seq<(Seq<char>, Seq<char>)>,
            Fault,
        >(fields_of(platform, s)) && kept(platform, s) == s,
{
    if decoded(platform, bytes) is Ok {
        let p = text_properties(vstd::utf8::decode_utf8(bytes))->Ok_0;
        let even_lid = bool_of(p["evenLid"@], "evenLid"@)->Ok_0;
        let lid = lid_of(platform, p, even_lid)->Ok_0;
        if even_lid && platform != Platform::Windows {
            let raw = p["priorDisableSleep"@];
            assert(u32_of(raw, "priorDisableSleep"@) is Ok);
            assert(text::signed_decimal(lid.prior_disable_sleep as int) == raw);
        }
    }
}

/// What a state that is about the lid has in it.
pub open spec fn lid_hint_texts() -> Seq<Seq<char>> {
    seq![
        "evenLid=true"@,
        "priorDisableSleep="@,
        "guardianPid="@,
        "originalScheme="@,
        "originalAc="@,
        "originalDc="@,
    ]
}

/// Whether the bytes `needle` stand in `hay` at `at`.
pub open spec fn bytes_at(needle: Seq<u8>, hay: Seq<u8>, at: int) -> bool {
    0 <= at && at + needle.len() <= hay.len() && hay.subrange(at, at + needle.len()) == needle
}

/// Whether the bytes `needle` stand somewhere in `hay`.
pub open spec fn bytes_occur(needle: Seq<u8>, hay: Seq<u8>) -> bool {
    exists|at: int| bytes_at(needle, hay, at)
}

fn contains_bytes(hay: &[u8], needle: &[u8]) -> (r: bool)
    ensures
        r == bytes_occur(needle@, hay@),
{
    let mut at: usize = 0;
    while needle.len() <= hay.len() - at
        invariant
            at <= hay.len(),
            forall|k: int| 0 <= k < at ==> !bytes_at(needle@, hay@, k),
        decreases hay.len() - at,
    {
        let mut i: usize = 0;
        while i < needle.len() && hay[at + i] == needle[i]
            invariant
                i <= needle.len(),
                at + needle.len() <= hay.len(),
                forall|k: int| 0 <= k < i ==> hay@[at + k] == needle@[k],
            decreases needle.len() - i,
        {
            i = i + 1;
        }
        if i == needle.len() {
            assert(hay@.subrange(at as int, at + needle@.len()) =~= needle@);
            assert(bytes_at(needle@, hay@, at as int));
            return true;
        }
        assert(hay@.subrange(at as int, at + needle@.len())[i as int] != needle@[i as int]);
        at = at + 1;
    }
    false
}

/// Whether the bytes of a state that cannot be read hint at the lid.
pub open spec fn hinted(bytes: Seq<u8>) -> bool {
    exists|i: int|
        0 <= i < lid_hint_texts().len() && bytes_occur(
            vstd::utf8::encode_utf8(#[trigger] lid_hint_texts()[i]),
            bytes,
        )
}

/// Whether the bytes of a state that cannot be read hint at the lid.
pub fn lid_hints(bytes: &[u8]) -> (r: bool)
    ensures
        r == hinted(bytes@),
{
    let hints = vec![
        "evenLid=true",
        "priorDisableSleep=",
        "guardianPid=",
        "originalScheme=",
        "originalAc=",
        "originalDc=",
    ];
    assert(text::strs(hints@) =~= lid_hint_texts());
    let mut i: usize = 0;
    while i < hints.len()
        invariant
            i <= hints@.len(),
            text::strs(hints@) == lid_hint_texts(),
            forall|k: int|
                0 <= k < i ==> !bytes_occur(
                    vstd::utf8::encode_utf8(#[trigger] lid_hint_texts()[k]),
                    bytes@,
                ),
        decreases hints@.len() - i,
    {
        assert(lid_hint_texts()[i as int] == hints@[i as int]@);
        if contains_bytes(bytes, hints[i].as_bytes()) {
            return true;
        }
        i = i + 1;
    }
    false
}

fn append_field(out: &mut String, Ghost(fields): Ghost<Seq<(Seq<char>, Seq<char>)>>, key: &str, value: &str)
    requires
        old(out)@ == state_text(fields),
    ensures
        final(out)@ == state_text(fields.push((key@, value@))),
{
    let ghost before = out@;
    out.append(key);
    out.push('=');
    out.append(value);
    out.push('\n');
    assert(fields.push((key@, value@)).drop_last() =~= fields);
    assert(out@ =~= before + state_line((key@, value@)) + seq!['\n']);
}

fn optional_utc_text(t: &Option<Timestamp>) -> (r: String)
    requires
        t matches Some(t) ==> t.valid(),
    ensures
        r@ == optional_instant_text(*t),
        t matches Some(t) ==> (t.common_year() ==> instant_round_trips(*t)),
{
    match t {
        Some(t) => time::utc_text(t),
        None => {
            let r = String::new();
            assert(r@ =~= Seq::<char>::empty());
            r
        },
    }
}

fn write_common(session: &Session, start: &str, end: &str) -> (r: String)
    requires
        start@ == instant_text(session@.started_at->0),
        end@ == optional_instant_text(session@.ends_at),
    ensures
        r@ == state_text(common_fields(session@)),
{
    let ghost f = common_fields(session@);
    let mut out = String::new();
    assert(out@ =~= state_text(Seq::empty()));
    append_field(&mut out, Ghost(Seq::empty()), "version", "2");
    let pid = text::decimal_text(session.pid as u64);
    assert(f.take(1) =~= Seq::empty().push(("version"@, "2"@)));
    append_field(&mut out, Ghost(f.take(1)), "pid", pid.as_str());
    assert(f.take(2) =~= f.take(1).push(("pid"@, pid@)));
    append_field(&mut out, Ghost(f.take(2)), "mode", session.mode.as_str());
    assert(f.take(3) =~= f.take(2).push(("mode"@, session@.mode)));
    append_field(&mut out, Ghost(f.take(3)), "trigger", session.trigger.as_str());
    assert(f.take(4) =~= f.take(3).push(("trigger"@, session@.trigger)));
    append_field(&mut out, Ghost(f.take(4)), "detail", session.detail.as_str());
    assert(f.take(5) =~= f.take(4).push(("detail"@, session@.detail)));
    append_field(&mut out, Ghost(f.take(5)), "startedAt", start);
    assert(f.take(6) =~= f.take(5).push(("startedAt"@, start@)));
    append_field(&mut out, Ghost(f.take(6)), "endsAt", end);
    assert(f.take(7) =~= f.take(6).push(("endsAt"@, end@)));
    let process_start = text::decimal_text(session.process_start);
    append_field(&mut out, Ghost(f.take(7)), "processStart", process_start.as_str());
    assert(f.take(8) =~= f.take(7).push(("processStart"@, process_start@)));
    append_field(&mut out, Ghost(f.take(8)), "processCommand", session.process_command.as_str());
    assert(f.take(9) =~= f.take(8).push(("processCommand"@, session@.process_command)));
    let lid = if session.even_lid {
        "true"
    } else {
        "false"
    };
    append_field(&mut out, Ghost(f.take(9)), "evenLid", lid);
    assert(f =~= f.take(9).push(("evenLid"@, lid@)));
    out
}

fn write_lid(
    out: &mut String,
    Ghost(fields): Ghost<Seq<(Seq<char>, Seq<char>)>>,
    platform: Platform,
    session: &Session,
)
    requires
        old(out)@ == state_text(fields),
    ensures
        final(out)@ == state_text(fields + lid_fields(platform, session@.lid)),
{
    let ghost f = fields + lid_fields(platform, session@.lid);
    let ghost n = fields.len() as int;
    assert(f.take(n) =~= fields);
    match platform {
        Platform::Windows => {
            let pid = text::decimal_text(session.guardian_pid as u64);
            append_field(out, Ghost(fields), "guardianPid", pid.as_str());
            assert(f.take(n + 1) =~= fields.push(("guardianPid"@, pid@)));
            let start = text::decimal_text(session.guardian_start);
            append_field(out, Ghost(f.take(n + 1)), "guardianStart", start.as_str());
            assert(f.take(n + 2) =~= f.take(n + 1).push(("guardianStart"@, start@)));
            let scheme = session.original_scheme.as_str();
            append_field(out, Ghost(f.take(n + 2)), "originalScheme", scheme);
            assert(f.take(n + 3) =~= f.take(n + 2).push(("originalScheme"@, scheme@)));
            let ac = text::decimal_text(session.original_ac as u64);
            append_field(out, Ghost(f.take(n + 3)), "originalAc", ac.as_str());
            assert(f.take(n + 4) =~= f.take(n + 3).push(("originalAc"@, ac@)));
            let dc = text::decimal_text(session.original_dc as u64);
            append_field(out, Ghost(f.take(n + 4)), "originalDc", dc.as_str());
            assert(f =~= f.take(n + 4).push(("originalDc"@, dc@)));
        },
        _ => {
            let prior = text::signed_decimal_text(session.prior_disable_sleep as i64);
            append_field(out, Ghost(fields), "priorDisableSleep", prior.as_str());
            assert(f =~= fields.push(("priorDisableSleep"@, prior@)));
        },
    }
}

/// The text that is written for a session, or why it is not written.
fn state_of(platform: Platform, session: &Session) -> (r: Result<String, AppError>)
    requires
        session@.well_formed(),
    ensures
        match stored(platform, session@) {
            Ok(fields) => r matches Ok(state) && state@ == state_text(fields),
            Err(e) => r matches Err(error) && error@ == e,
        },
        r is Ok && session@.common_years() ==> instants_round_trip(session@),
{
    match validate(platform, session) {
        Err(e) => return Err(e),
        Ok(()) => {},
    }
    let started_at = match session.started_at {
        None => return Err(AppError::fail("session identity or start time is missing")),
        Some(t) => t,
    };
    if session.pid == 0 || session.process_start == 0 {
        return Err(AppError::fail("session identity or start time is missing"));
    }
    let start = time::utc_text(&started_at);
    let end = optional_utc_text(&session.ends_at);
    let mut out = write_common(session, start.as_str(), end.as_str());
    if session.even_lid {
        match platform {
            Platform::Windows => {
                if session.guardian_pid == 0 || session.guardian_start == 0 {
                    return Err(AppError::fail("guardian identity is missing"));
                }
                match platform::windows::parse_guid(session.original_scheme.as_str()) {
                    Err(e) => return Err(e),
                    Ok(_) => {},
                }
            },
            _ => {
                let prior = text::signed_decimal_text(session.prior_disable_sleep as i64);
                match disable_sleep(prior.as_str()) {
                    Err(e) => return Err(e),
                    Ok(_) => {},
                }
            },
        }
        write_lid(&mut out, Ghost(common_fields(session@)), platform, session);
    }
    Ok(out)
}

/// The bytes that are written for a session, or why it is not written. In years of four digits
/// they are read back as what is kept of the session.
pub fn serialize(platform: Platform, session: &Session) -> (r: Result<Vec<u8>, AppError>)
    requires
        session@.well_formed(),
    ensures
        match stored(platform, session@) {
            Ok(fields) => r matches Ok(bytes) && bytes@ == vstd::utf8::encode_utf8(
                state_text(fields),
            ),
            Err(e) => r matches Err(error) && error@ == e,
        },
        r matches Ok(bytes) ==> session@.common_years() ==> decoded(platform, bytes@) == Ok::<
            Record,
            Fault,
        >(kept(platform, session@)),
{
    let state = match state_of(platform, session) {
        Err(e) => return Err(e),
        Ok(state) => state,
    };
    proof {
        if session@.common_years() {
            law_sessions_are_read_back(platform, session@);
        }
    }
    Ok(state.as_str().as_bytes_vec())
}

/// The fields of a record that only announces a session: the session's own, and one that no session has.
pub open spec fn pending_fields(fields: Seq<(Seq<char>, Seq<char>)>) -> Seq<
    (Seq<char>, Seq<char>),
> {
    fields.push(("pending"@, "true"@))
}

/// What is encoded next to each other is the encoding of what stands next to each other.
proof fn lemma_encoding_parts(a: Seq<char>, b: Seq<char>)
    ensures
        vstd::utf8::encode_utf8(a + b) == vstd::utf8::encode_utf8(a) + vstd::utf8::encode_utf8(b),
    decreases a.len(),
{
    if a.len() == 0 {
        assert(a + b =~= b);
        assert(vstd::utf8::encode_utf8(a) =~= Seq::<u8>::empty());
    } else {
        lemma_encoding_parts(a.drop_first(), b);
        assert((a + b).drop_first() =~= a.drop_first() + b);
        assert((a + b)[0] == a[0]);
        assert(vstd::utf8::encode_utf8(a + b) =~= vstd::utf8::encode_utf8(a)
            + vstd::utf8::encode_utf8(b));
    }
}

/// The line of a field stands in the text.
proof fn lemma_line_stands(fields: Seq<(Seq<char>, Seq<char>)>, i: int) -> (r: (
    Seq<char>,
    Seq<char>,
))
    requires
        0 <= i < fields.len(),
    ensures
        state_text(fields) == r.0 + (state_line(fields[i]) + r.1),
    decreases fields.len(),
{
    let front = fields.drop_last();
    if i == fields.len() - 1 {
        assert(state_text(fields) =~= state_text(front) + (state_line(fields[i]) + seq!['\n']));
        (state_text(front), seq!['\n'])
    } else {
        let (before, after) = lemma_line_stands(front, i);
        let rest = after + state_line(fields.last()) + seq!['\n'];
        assert(state_text(fields) =~= before + (state_line(fields[i]) + rest));
        (before, rest)
    }
}

/// A record that announces a session with the lid hints at the lid.
proof fn lemma_lid_is_hinted(platform: Platform, s: Record)
    requires
        s.even_lid,
    ensures
        hinted(vstd::utf8::encode_utf8(state_text(pending_fields(fields_of(platform, s))))),
{
    let all = pending_fields(fields_of(platform, s));
    let line = "evenLid=true"@;
    assert(all[9] == ("evenLid"@, "true"@));
    assert(state_line(all[9]) =~= line) by {
        reveal_strlit("evenLid");
        reveal_strlit("true");
        reveal_strlit("evenLid=true");
    }
    let (before, after) = lemma_line_stands(all, 9);
    lemma_encoding_parts(before, line + after);
    lemma_encoding_parts(line, after);
    let bytes = vstd::utf8::encode_utf8(state_text(all));
    let hint = vstd::utf8::encode_utf8(line);
    let at = vstd::utf8::encode_utf8(before).len() as int;
    assert(bytes.subrange(at, at + hint.len()) =~= hint);
    assert(bytes_at(hint, bytes, at));
    assert(lid_hint_texts()[0] == line);
}

/// A record that only announces a session with the lid is read as no session, and as one that hints
/// at the lid: it is kept, and nothing is done in its name. The session's instants are ones that
/// are read back from their texts.
pub proof fn law_announcements_grant_nothing(platform: Platform, s: Record)
    requires
        stored(platform, s) is Ok,
        s.even_lid,
        instants_round_trip(s),
    ensures
        ({
            let bytes = vstd::utf8::encode_utf8(
                state_text(pending_fields(stored(platform, s)->Ok_0)),
            );
            decoded(platform, bytes) is Err && hinted(bytes)
        }),
{
    let fields = fields_of(platform, s);
    let all = pending_fields(fields);
    lemma_fields_are_readable(platform, s);
    lemma_fields_have_keys(platform, s);
    lemma_keys(platform, s.even_lid);
    assert(unbroken("true"@)) by {
        reveal_strlit("true");
    }
    let ks = keys(platform, s.even_lid);
    assert forall|i: int| 0 <= i < fields.len() implies (#[trigger] fields[i]).0 != "pending"@ by {
        assert(ks.contains(ks[i]));
    }
    assert(readable(all));
    lemma_state_text(all);
    lemma_fields_map(all);
    let p = fields_map(all);
    let written = state_text(all);
    vstd::utf8::encode_utf8_valid_utf8(written);
    vstd::utf8::encode_utf8_decode_utf8(written);
    assert(all.last() == ("pending"@, "true"@));
    assert(p.dom().contains(all[all.len() - 1].0));
    lemma_keys(platform, true);
    lemma_keys(platform, false);
    lemma_lid_is_hinted(platform, s);
}

/// The bytes of a record that only announces a session, or why it is not written. Where the session is
/// with the lid, in years of four digits, they are read as something that hints at the lid and
/// grants nothing.
pub fn serialize_pending(platform: Platform, session: &Session) -> (r: Result<Vec<u8>, AppError>)
    requires
        session@.well_formed(),
    ensures
        match stored(platform, session@) {
            Ok(fields) => r matches Ok(bytes) && bytes@ == vstd::utf8::encode_utf8(
                state_text(pending_fields(fields)),
            ),
            Err(e) => r matches Err(error) && error@ == e,
        },
        r matches Ok(bytes) ==> session@.even_lid && session@.common_years() ==> decoded(
            platform,
            bytes@,
        ) is Err && hinted(bytes@),
{
    let mut state = match state_of(platform, session) {
        Err(e) => return Err(e),
        Ok(state) => state,
    };
    append_field(&mut state, Ghost(stored(platform, session@)->Ok_0), "pending", "true");
    proof {
        if session@.even_lid && session@.common_years() {
            law_announcements_grant_nothing(platform, session@);
        }
    }
    Ok(state.as_str().as_bytes_vec())
}

/// What became of reading the saved state.
pub enum Read {
    Bytes(Vec<u8>),
    Missing,
    Unreadable,
}

/// A saved state: a session, or something else that may hint at the lid.
pub enum SavedState {
    Valid(Session),
    Malformed(bool),
}

/// What a saved state is.
pub enum Saved {
    Valid(Record),
    Malformed(bool),
}

impl View for SavedState {
    type V = Saved;

    open spec fn view(&self) -> Saved {
        match *self {
            SavedState::Valid(s) => Saved::Valid(s@),
            SavedState::Malformed(hints) => Saved::Malformed(hints),
        }
    }
}

/// What a saved state is, if there is one.
pub open spec fn maybe_saved(saved: Option<SavedState>) -> Option<Saved> {
    match saved {
        Some(state) => Some(state@),
        None => None,
    }
}

/// What is known of a state that was read. One that cannot be read may well be about the lid.
pub open spec fn saved_of(platform: Platform, read: Read) -> Option<Saved> {
    match read {
        Read::Missing => None,
        Read::Unreadable => Some(Saved::Malformed(true)),
        Read::Bytes(bytes) => Some(
            match decoded(platform, bytes@) {
                Ok(s) => Saved::Valid(s),
                Err(_) => Saved::Malformed(hinted(bytes@)),
            },
        ),
    }
}

/// What is known of a state that was read.
pub fn read_saved_at(platform: Platform, read: Read) -> (r: Option<SavedState>)
    ensures
        maybe_saved(r) == saved_of(platform, read),
        r matches Some(SavedState::Valid(s)) ==> s@.well_formed(),
{
    match read {
        Read::Missing => None,
        Read::Unreadable => Some(SavedState::Malformed(true)),
        Read::Bytes(bytes) => Some(
            match parse_session(platform, bytes.as_slice()) {
                Ok(session) => SavedState::Valid(session),
                Err(_) => SavedState::Malformed(lid_hints(bytes.as_slice())),
            },
        ),
    }
}

/// The saved session if its process is alive, and whether the saved state is to be deleted. `live` is
/// the process that has the session's number now.
pub fn read_if_alive(
    platform: Platform,
    delete_unhinted_malformed: bool,
    saved: Option<SavedState>,
    live: Option<Identity>,
) -> (r: (Option<Session>, bool))
    ensures
        match maybe_saved(saved) {
            Some(Saved::Valid(s)) => {
                let alive = live matches Some(process) && s.is_process(platform, process@);
                &&& alive ==> (r.0 matches Some(session) && session@ == s)
                &&& !alive ==> r.0 is None
                &&& r.1 == !alive
            },
            Some(Saved::Malformed(hints)) => r.0 is None && r.1 == (delete_unhinted_malformed
                && !hints),
            None => r.0 is None && !r.1,
        },
{
    match saved {
        Some(SavedState::Valid(session)) => {
            let alive = match &live {
                Some(process) => session.matches_identity(platform, process),
                None => false,
            };
            if alive {
                (Some(session), false)
            } else {
                (None, true)
            }
        },
        Some(SavedState::Malformed(hints)) => (None, delete_unhinted_malformed && !hints),
        None => (None, false),
    }
}

/// The error of a failed access to the saved state.
pub fn io_error(path: &str, error: &str) -> (r: AppError)
    ensures
        r@ == Fault::Fail(
            "state IO failed at "@ + path@ + ": "@ + error@
                + "; set WAKE_STATE_DIR to a writable directory"@,
        ),
{
    let mut m = "state IO failed at ".to_owned();
    m.append(path);
    m.append(": ");
    m.append(error);
    m.append("; set WAKE_STATE_DIR to a writable directory");
    AppError::Fail(m)
}

/// The name of the file that a process writes the state to before it takes the state's place.
pub fn temporary_name(pid: u32) -> (r: String)
    ensures
        r@ == "session.properties.tmp-"@ + text::decimal(pid as nat),
{
    let mut name = "session.properties.tmp-".to_owned();
    name.append(text::decimal_text(pid as u64).as_str());
    name
}

/// What became of an attempt at the lock that one invocation holds at a time.
pub enum LockAttempt {
    Held,
    Busy,
    Failed(String),
}

/// Whether the lock was taken.
pub fn lock_outcome(attempt: LockAttempt) -> (r: Result<(), AppError>)
    ensures
        outcome(r) == (match attempt {
            LockAttempt::Held => Ok::<(), Fault>(()),
            LockAttempt::Busy => Err(
                Fault::Usage("another wake invocation is in progress; try again"@),
            ),
            LockAttempt::Failed(error) => Err(Fault::Fail(error@)),
        }),
{
    match attempt {
        LockAttempt::Held => Ok(()),
        LockAttempt::Busy => Err(
            AppError::usage("another wake invocation is in progress; try again"),
        ),
        LockAttempt::Failed(error) => Err(AppError::Fail(error)),
    }
}

/// Where the saved state lives.
#[derive(Clone, Copy, Debug, PartialEq, Eq, Structural)]
pub enum StateDir {
    /// The directory that the user names.
    Override,
    /// A directory `wake` under the state directory of the desktop.
    XdgState,
    /// A directory `wake` under `.local/state` of the user's home.
    HomeState,
    /// A directory `wake` under the local application data.
    LocalAppData,
    /// A directory `wake` under `AppData/Local` of the user's profile.
    ProfileAppData,
}

/// Where the saved state lives, by what the environment sets.
pub fn state_dir(
    platform: Platform,
    override_is_not_empty: bool,
    xdg_is_absolute: bool,
    has_local_app_data: bool,
) -> (r: StateDir)
    ensures
        r == (if override_is_not_empty {
            StateDir::Override
        } else if platform == Platform::Windows {
            if has_local_app_data {
                StateDir::LocalAppData
            } else {
                StateDir::ProfileAppData
            }
        } else if xdg_is_absolute {
            StateDir::XdgState
        } else {
            StateDir::HomeState
        }),
{
    if override_is_not_empty {
        return StateDir::Override;
    }
    match platform {
        Platform::Windows => if has_local_app_data {
            StateDir::LocalAppData
        } else {
            StateDir::ProfileAppData
        },
        _ => if xdg_is_absolute {
            StateDir::XdgState
        } else {
            StateDir::HomeState
        },
    }
}

/// Nothing of a session is lost when it is written and read: its process, what it keeps awake, what it waits
/// for and when, and what it has to put back; the latter where it has the lid.
pub proof fn law_nothing_of_a_session_is_lost(platform: Platform, s: Record)
    requires
        stored(platform, s) is Ok,
        instants_round_trip(s),
    ensures
        ({
            let bytes = vstd::utf8::encode_utf8(state_text(stored(platform, s)->Ok_0));
            decoded(platform, bytes) matches Ok(r) && {
                &&& r.pid == s.pid && r.process_start == s.process_start && r.process_command
                    == s.process_command
                &&& r.mode == s.mode && r.trigger == s.trigger && r.detail == s.detail
                &&& r.started_at == s.started_at && r.ends_at == s.ends_at
                &&& r.even_lid == s.even_lid
                &&& s.even_lid && platform != Platform::Windows ==> r.lid.prior_disable_sleep
                    == s.lid.prior_disable_sleep
                &&& s.even_lid && platform == Platform::Windows ==> r.lid.guardian_pid
                    == s.lid.guardian_pid && r.lid.guardian_start == s.lid.guardian_start
                    && r.lid.original_scheme == s.lid.original_scheme && r.lid.original_ac
                    == s.lid.original_ac && r.lid.original_dc == s.lid.original_dc
                &&& !s.even_lid ==> r.lid.guardian_pid == 0 && r.lid.prior_disable_sleep == 0
            }
        }),
{
    law_sessions_are_read_back(platform, s);
}

/// A session that is written tells its process from others by number and time of creation, has a start, and
/// with the lid says what is to be put back.
pub proof fn law_written_sessions_can_be_ended(platform: Platform, s: Record)
    ensures
        stored(platform, s) is Ok ==> {
            &&& s.pid != 0 && s.process_start != 0 && s.started_at is Some
            &&& s.ends_at is Some <==> s.trigger == "timed"@ || s.trigger == "until-time"@
            &&& s.ends_at matches Some(end) ==> s.started_at->0.precedes(end)
            &&& s.mode == "system-only"@ || s.mode == "display+system"@
            &&& s.even_lid && platform == Platform::Windows ==> s.lid.guardian_pid != 0
                && s.lid.guardian_start != 0 && platform::windows::guid_of(s.lid.original_scheme)
                is Ok
            &&& s.even_lid && platform != Platform::Windows ==> s.lid.prior_disable_sleep == 0
                || s.lid.prior_disable_sleep == 1
        },
{
    if s.even_lid && platform != Platform::Windows && stored(platform, s) is Ok {
        lemma_prior(s.lid.prior_disable_sleep);
    }
}

/// A session makes sense exactly where its texts stand on a line each, its mode and its trigger are known, its
/// program is one that may hold the machine awake, and it ends after it starts where its trigger has
/// an end, and not by itself otherwise.
pub proof fn law_sessions_make_sense(platform: Platform, s: Record)
    ensures
        validated(platform, s) is Ok <==> {
            &&& one_line(s.mode) && one_line(s.trigger) && one_line(s.detail) && one_line(
                s.process_command,
            )
            &&& s.mode == "system-only"@ || s.mode == "display+system"@
            &&& s.trigger == "timed"@ || s.trigger == "until-time"@ || s.trigger == "indefinite"@
                || s.trigger == "until-charge"@ || s.trigger == "while-pid"@ || s.trigger
                == "while-app"@
            &&& expected(platform, s.process_command)
            &&& s.ends_at is Some <==> s.trigger == "timed"@ || s.trigger == "until-time"@
            &&& s.started_at matches Some(start) ==> (s.ends_at matches Some(end) ==> (start.seconds
                < end.seconds || (start.seconds == end.seconds && start.nanos < end.nanos)))
        },
{
}

/// A session is the one of a process only where that was created when the session says, runs the program that
/// the session says and is one that may hold the machine awake; letter case counts but on Windows.
pub proof fn law_sessions_know_their_process(
    platform: Platform,
    s: Record,
    live: (u64, Seq<char>),
)
    ensures
        s.is_process(platform, live) ==> live.0 == s.process_start && expected(platform, live.1),
        platform != Platform::Windows && s.is_process(platform, live) ==> live.1
            == s.process_command,
        live == (s.process_start, s.process_command) && expected(platform, s.process_command)
            ==> s.is_process(platform, live),
        platform == Platform::Windows && live.0 == s.process_start && expected(platform, live.1)
            && text::ascii_lower(live.1) == text::ascii_lower(s.process_command) ==> s.is_process(
            platform,
            live,
        ),
        platform == Platform::Windows && s.is_process(platform, live) ==> text::ascii_lower(live.1)
            == text::ascii_lower(s.process_command),
{
}

/// A session may run as this program on any system; beside it as the commands that hold a machine awake on just
/// their own.
pub proof fn law_sessions_run_as_known_programs(platform: Platform, command: Seq<char>)
    ensures
        expected(platform, command) <==> (platform::file_name_of(platform, command) matches Some(
            name,
        ) && {
            let name = text::lowered(name);
            ||| name == "wake"@
            ||| platform == Platform::Windows && name == "wake.exe"@
            ||| platform == Platform::Macos && name == "caffeinate"@
            ||| platform == Platform::Linux && (name == "systemd-inhibit"@ || name == "sleep"@
                || name == "tail"@)
        }),
{
    let names = platform::basenames(platform);
    match platform {
        Platform::Linux => {
            assert(names[0] == "systemd-inhibit"@ && names[1] == "sleep"@ && names[2] == "tail"@
                && names[3] == "wake"@);
        },
        Platform::Macos => {
            assert(names[0] == "caffeinate"@ && names[1] == "wake"@);
        },
        Platform::Windows => {
            assert(names[0] == "wake.exe"@ && names[1] == "wake"@);
        },
    }
}

/// The saved session is active exactly where its process runs; then it is kept, and otherwise deleted. A state
/// that cannot be read is no session; it is deleted only where that is wanted and nothing hints at the
/// lid.
pub proof fn law_sessions_live_as_long_as_their_process(
    platform: Platform,
    delete: bool,
    saved: Option<SavedState>,
    live: Option<Identity>,
    r: (Option<Session>, bool),
)
    requires
        call_ensures(read_if_alive, (platform, delete, saved, live), r),
    ensures
        r.0 matches Some(session) ==> !r.1 && (maybe_saved(saved) == Some(Saved::Valid(session@)))
            && (live matches Some(process) && session@.is_process(platform, process@)),
        maybe_saved(saved) matches Some(Saved::Valid(s)) ==> (r.0 is Some <==> (live matches Some(
            process,
        ) && s.is_process(platform, process@))),
        maybe_saved(saved) matches Some(Saved::Valid(_)) ==> (r.1 <==> r.0 is None),
        maybe_saved(saved) matches Some(Saved::Malformed(hints)) ==> (r.1 <==> delete && !hints),
        maybe_saved(saved) is None ==> !r.1,
{
}

/// A state that is not there is none, one that cannot be read may be about the lid, and one that was written is
/// read back as the session that it was written for.
pub proof fn law_saved_states_are_known(platform: Platform, bytes: Vec<u8>, s: Record)
    requires
        stored(platform, s) is Ok,
        instants_round_trip(s),
        bytes@ == vstd::utf8::encode_utf8(state_text(stored(platform, s)->Ok_0)),
    ensures
        saved_of(platform, Read::Missing) is None,
        saved_of(platform, Read::Unreadable) == Some(Saved::Malformed(true)),
        saved_of(platform, Read::Bytes(bytes)) matches Some(Saved::Valid(r)) && r.pid == s.pid
            && r.even_lid == s.even_lid && r.process_start == s.process_start,
{
    law_sessions_are_read_back(platform, s);
}

/// Wherever a field that only a session with the lid has stands in a state, the state hints at the lid.
pub proof fn law_lid_fields_are_hints(before: Seq<u8>, field: Seq<char>, after: Seq<u8>)
    requires
        field == "evenLid=true"@ || field == "priorDisableSleep="@ || field == "guardianPid="@
            || field == "originalScheme="@ || field == "originalAc="@ || field == "originalDc="@,
    ensures
        hinted(before + vstd::utf8::encode_utf8(field) + after),
{
    let hints = lid_hint_texts();
    let needle = vstd::utf8::encode_utf8(field);
    let hay = before + needle + after;
    let at = before.len() as int;
    assert(hay.subrange(at, at + needle.len()) =~= needle);
    assert(bytes_at(needle, hay, at));
    assert(hints[0] == "evenLid=true"@ && hints[1] == "priorDisableSleep="@ && hints[2]
        == "guardianPid="@ && hints[3] == "originalScheme="@ && hints[4] == "originalAc="@
        && hints[5] == "originalDc="@);
    let i = choose|i: int| 0 <= i < hints.len() && hints[i] == field;
    assert(bytes_occur(vstd::utf8::encode_utf8(hints[i]), hay));
}

/// Numbers are read in the one way that they are written, and no other: what is read is within the bounds and
/// not nought, and is written just as it was read.
pub proof fn law_numbers_have_one_text(
    raw: Seq<char>,
    name: Seq<char>,
    least: int,
    greatest: int,
    n: int,
)
    requires
        n < 0 ==> least < 0,
    ensures
        positive_of(raw, name, least, greatest) matches Ok(i) ==> i != 0 && least <= i <= greatest
            && raw == text::signed_decimal(i),
        n != 0 && least <= n <= greatest ==> positive_of(
            text::signed_decimal(n),
            name,
            least,
            greatest,
        ) == Ok::<int, Fault>(n),
        u32_of(raw, name) matches Ok(i) ==> raw == text::decimal(i as nat),
        0 <= n <= u32::MAX ==> u32_of(text::decimal(n as nat), name) == Ok::<u32, Fault>(n as u32),
        disable_sleep_of(raw) matches Ok(i) ==> (i == 0 || i == 1) && raw == text::signed_decimal(
            i as int,
        ),
        n == 0 || n == 1 ==> disable_sleep_of(text::decimal(n as nat)) == Ok::<i32, Fault>(
            n as i32,
        ),
{
    text::law_integers_are_read_back(n, least, greatest);
    if 0 <= n {
        text::law_integers_are_read_back(n, 0, u32::MAX as int);
    }
}

/// A line adds its value under its key, where the key is a new one without space around it; a line without a
/// key or with one that is there already spoils the state.
pub proof fn law_lines_add_up(lines: Seq<Seq<char>>, key: Seq<char>, value: Seq<char>)
    requires
        !key.contains('='),
    ensures
        ({
            let r = properties_of(lines.push(key + seq!['='] + value));
            match properties_of(lines) {
                Err(_) => r is Err,
                Ok(p) => if key.len() > 0 && text::trimmed(key) == key && !p.dom().contains(key) {
                    r == Ok::<Map<Seq<char>, Seq<char>>, Fault>(p.insert(key, value))
                } else {
                    r is Err
                },
            }
        }),
{
    let line = key + seq!['='] + value;
    let all = lines.push(line);
    assert(all.drop_last() =~= lines);
    let at = key.len() as int;
    assert(line[at] == '=');
    assert forall|i: int| 0 <= i < at implies line[i] != '=' by {
        assert(line[i] == key[i]);
        assert(key.contains(key[i]));
    }
    text::lemma_find_is(line, '=', at);
    assert(line.take(at) =~= key);
    assert(line.skip(at + 1) =~= value);
}

/// The saved state lives where the user names a directory; otherwise where the system has the state of programs,
/// and the desktop's own directory is used only where it is an absolute one.
pub proof fn law_states_live_where_they_should(
    platform: Platform,
    named: bool,
    xdg: bool,
    local: bool,
    r: StateDir,
)
    requires
        call_ensures(state_dir, (platform, named, xdg, local), r),
    ensures
        r == StateDir::Override <==> named,
        r == StateDir::LocalAppData <==> !named && platform == Platform::Windows && local,
        r == StateDir::ProfileAppData <==> !named && platform == Platform::Windows && !local,
        r == StateDir::XdgState <==> !named && platform != Platform::Windows && xdg,
        r == StateDir::HomeState <==> !named && platform != Platform::Windows && !xdg,
{
}

/// The lock is taken exactly where it is held; one that another invocation holds is the user's to wait for.
pub proof fn law_locks_are_held_or_not(attempt: LockAttempt, r: Result<(), AppError>)
    requires
        call_ensures(lock_outcome, (attempt,), r),
    ensures
        r is Ok <==> attempt is Held,
        attempt is Busy <==> (r matches Err(e) && e is Usage),
{
}

/// A session without the lid belongs to just the process of its number and time of creation; and one with the lid
/// is granted to just the worker, the guardian and the values that it names.
pub proof fn law_sessions_belong_to_their_process(
    s: Session,
    pid: u32,
    start: u64,
    owned: bool,
    guardian: (u32, u64),
    snapshot: (&str, u32, u32),
    granted: bool,
)
    requires
        call_ensures(Session::owned_non_lid_by, (&s, pid, start), owned),
        call_ensures(Session::matches_lid_authority, (&s, (pid, start), guardian, snapshot), granted),
    ensures
        owned <==> !s.even_lid && s.pid == pid && s.process_start == start,
        granted <==> s.even_lid && s.pid == pid && s.process_start == start && s.guardian_pid
            == guardian.0 && s.guardian_start == guardian.1 && s.original_scheme@ == snapshot.0@
            && s.original_ac == snapshot.1 && s.original_dc == snapshot.2,
        !(owned && granted),
{
}

/// A state has a line for each field, its key before the first equals sign and its value behind, in order.
pub proof fn law_fields_stand_on_lines(
    fields: Seq<(Seq<char>, Seq<char>)>,
    key: Seq<char>,
    value: Seq<char>,
)
    ensures
        state_text(fields.push((key, value))) == state_text(fields) + (key + seq!['='] + value)
            + seq!['\n'],
        state_text(Seq::empty()).len() == 0,
{
    assert(fields.push((key, value)).drop_last() =~= fields);
}

/// What is told of a session stands under its own key in what is written of it.
pub proof fn law_sessions_are_written_by_name(platform: Platform, s: Record)
    requires
        stored(platform, s) is Ok,
    ensures
        ({
            let fields = stored(platform, s)->Ok_0;
            &&& fields.contains(("version"@, "2"@))
            &&& fields.contains(("pid"@, text::decimal(s.pid as nat)))
            &&& fields.contains(("mode"@, s.mode)) && fields.contains(("trigger"@, s.trigger))
                && fields.contains(("detail"@, s.detail))
            &&& fields.contains(("processStart"@, text::decimal(s.process_start as nat)))
                && fields.contains(("processCommand"@, s.process_command))
            &&& s.even_lid ==> fields.contains(("evenLid"@, "true"@))
            &&& !s.even_lid ==> fields.contains(("evenLid"@, "false"@)) && fields.len() == 10
            &&& s.even_lid && platform != Platform::Windows ==> fields.contains(
                ("priorDisableSleep"@, text::decimal(s.lid.prior_disable_sleep as nat)),
            ) && fields.len() == 11
            &&& s.even_lid && platform == Platform::Windows ==> fields.contains(
                ("guardianPid"@, text::decimal(s.lid.guardian_pid as nat)),
            ) && fields.contains(("originalScheme"@, s.lid.original_scheme)) && fields.contains(
                ("originalAc"@, text::decimal(s.lid.original_ac as nat)),
            ) && fields.contains(("originalDc"@, text::decimal(s.lid.original_dc as nat)))
                && fields.len() == 15
        }),
{
    let fields = fields_of(platform, s);
    assert(fields[0] == ("version"@, "2"@));
    assert(fields[1] == ("pid"@, text::decimal(s.pid as nat)));
    assert(fields[2] == ("mode"@, s.mode));
    assert(fields[3] == ("trigger"@, s.trigger));
    assert(fields[4] == ("detail"@, s.detail));
    assert(fields[7] == ("processStart"@, text::decimal(s.process_start as nat)));
    assert(fields[8] == ("processCommand"@, s.process_command));
    assert(fields[9] == ("evenLid"@, bool_text(s.even_lid)));
    if s.even_lid && platform == Platform::Windows {
        assert(fields[10] == ("guardianPid"@, text::decimal(s.lid.guardian_pid as nat)));
        assert(fields[12] == ("originalScheme"@, s.lid.original_scheme));
        assert(fields[13] == ("originalAc"@, text::decimal(s.lid.original_ac as nat)));
        assert(fields[14] == ("originalDc"@, text::decimal(s.lid.original_dc as nat)));
    } else if s.even_lid {
        law_written_sessions_can_be_ended(platform, s);
        assert(fields[10] == (
            "priorDisableSleep"@,
            text::signed_decimal(s.lid.prior_disable_sleep as int),
        ));
    }
}

} // verus!
