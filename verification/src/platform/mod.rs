//! What differs between the systems: their command names, their paths and their power controls.

use vstd::prelude::*;
use vstd::string::*;

use crate::error::{AppError, Fault, viewed};
use crate::text;

pub mod linux;
pub mod macos;
pub mod windows;

verus! {

/// The systems that `wake` runs on.
#[derive(Clone, Copy, Debug, PartialEq, Eq, Structural)]
pub enum Platform {
    Linux,
    Macos,
    Windows,
}

/// The names that the process of a session may have, in lower case.
pub open spec fn basenames(platform: Platform) -> Seq<Seq<char>> {
    match platform {
        Platform::Linux => seq!["systemd-inhibit"@, "sleep"@, "tail"@, "wake"@],
        Platform::Macos => seq!["caffeinate"@, "wake"@],
        Platform::Windows => seq!["wake.exe"@, "wake"@],
    }
}

/// The names that the process of a session may have, in lower case.
pub fn expected_command_basenames(platform: Platform) -> (r: Vec<&'static str>)
    ensures
        text::strs(r@) == basenames(platform),
{
    let r = match platform {
        Platform::Linux => vec!["systemd-inhibit", "sleep", "tail", "wake"],
        Platform::Macos => vec!["caffeinate", "wake"],
        Platform::Windows => vec!["wake.exe", "wake"],
    };
    assert(text::strs(r@) =~= basenames(platform));
    r
}

/// What separates the components of a path. In a verbatim Windows path a slash does not.
pub open spec fn separator(platform: Platform, verbatim: bool, c: char) -> bool {
    match platform {
        Platform::Windows => c == '\\' || (!verbatim && c == '/'),
        _ => c == '/',
    }
}

fn is_separator(platform: Platform, verbatim: bool, c: char) -> (r: bool)
    ensures
        r == separator(platform, verbatim, c),
{
    match platform {
        Platform::Windows => c == '\\' || (!verbatim && c == '/'),
        _ => c == '/',
    }
}

/// Where the component of `s` that starts at `from` ends.
pub open spec fn component_end(platform: Platform, verbatim: bool, s: Seq<char>, from: int) -> int
    decreases s.len() - from,
{
    if from >= s.len() || separator(platform, verbatim, s[from]) {
        from
    } else {
        component_end(platform, verbatim, s, from + 1)
    }
}

fn find_component_end(platform: Platform, verbatim: bool, s: &Vec<char>, from: usize) -> (r: usize)
    requires
        from <= s@.len(),
    ensures
        r == component_end(platform, verbatim, s@, from as int),
        from <= r <= s@.len(),
{
    let mut at: usize = from;
    while at < s.len() && !is_separator(platform, verbatim, s[at])
        invariant
            from <= at <= s@.len(),
            component_end(platform, verbatim, s@, from as int) == component_end(
                platform,
                verbatim,
                s@,
                at as int,
            ),
        decreases s@.len() - at,
    {
        at = at + 1;
    }
    at
}

/// `at` plus one, unless that is past the end of `s`.
pub open spec fn step(s: Seq<char>, at: int) -> int {
    if at < s.len() {
        at + 1
    } else {
        at
    }
}

fn step_in(s: &Vec<char>, at: usize) -> (r: usize)
    requires
        at <= s@.len(),
    ensures
        r == step(s@, at as int),
        at <= r <= s@.len(),
{
    if at < s.len() {
        at + 1
    } else {
        at
    }
}

/// Whether `s` starts with the two separators and the character that open a namespace, such as
/// the question mark of a verbatim path.
pub open spec fn namespace(s: Seq<char>, verbatim: bool, c: char) -> bool {
    &&& s.len() >= 4
    &&& separator(Platform::Windows, verbatim, s[0])
    &&& separator(Platform::Windows, verbatim, s[1])
    &&& s[2] == c
    &&& separator(Platform::Windows, verbatim, s[3])
}

fn in_namespace(s: &Vec<char>, verbatim: bool, c: char) -> (r: bool)
    ensures
        r == namespace(s@, verbatim, c),
{
    s.len() >= 4 && is_separator(Platform::Windows, verbatim, s[0]) && is_separator(
        Platform::Windows,
        verbatim,
        s[1],
    ) && s[2] == c && is_separator(Platform::Windows, verbatim, s[3])
}

/// Where a drive such as `C:` stands.
pub open spec fn drive_at(s: Seq<char>, at: int) -> bool {
    at + 1 < s.len() && ('a' <= s[at] <= 'z' || 'A' <= s[at] <= 'Z') && s[at + 1] == ':'
}

fn is_drive_at(s: &Vec<char>, at: usize) -> (r: bool)
    requires
        at <= s@.len(),
    ensures
        r == drive_at(s@, at as int),
{
    if s.len() - at < 2 {
        return false;
    }
    let c = s[at];
    (('a' <= c && c <= 'z') || ('A' <= c && c <= 'Z')) && s[at + 1] == ':'
}

/// Whether `s` goes on at `at` with `UNC` and a backslash.
pub open spec fn unc_at(s: Seq<char>, at: int) -> bool {
    at + 3 < s.len() && s[at] == 'U' && s[at + 1] == 'N' && s[at + 2] == 'C' && s[at + 3] == '\\'
}

fn is_unc_at(s: &Vec<char>, at: usize) -> (r: bool)
    requires
        at <= s@.len(),
    ensures
        r == unc_at(s@, at as int),
{
    if s.len() - at < 4 {
        return false;
    }
    s[at] == 'U' && s[at + 1] == 'N' && s[at + 2] == 'C' && s[at + 3] == '\\'
}

/// Where two components of `s` end that follow each other from `at`.
pub open spec fn two_components_end(verbatim: bool, s: Seq<char>, at: int) -> int {
    let first = component_end(Platform::Windows, verbatim, s, at);
    component_end(Platform::Windows, verbatim, s, step(s, first))
}

/// Where the components of a Windows path begin: behind its drive, its server and share, or
/// the name of its namespace.
pub open spec fn prefix_end(s: Seq<char>) -> int {
    if namespace(s, true, '?') {
        if unc_at(s, 4) {
            two_components_end(true, s, 8)
        } else if drive_at(s, 4) && (s.len() == 6 || s[6] == '\\') {
            6
        } else {
            component_end(Platform::Windows, true, s, 4)
        }
    } else if namespace(s, false, '.') {
        component_end(Platform::Windows, false, s, 4)
    } else if s.len() >= 2 && separator(Platform::Windows, false, s[0]) && separator(
        Platform::Windows,
        false,
        s[1],
    ) {
        let server = component_end(Platform::Windows, false, s, 2);
        let share = component_end(Platform::Windows, false, s, step(s, server));
        if server > 2 && share > step(s, server) {
            share
        } else {
            0
        }
    } else if drive_at(s, 0) {
        2
    } else {
        0
    }
}

fn find_prefix_end(s: &Vec<char>) -> (r: usize)
    ensures
        r == prefix_end(s@),
        r <= s@.len(),
{
    if in_namespace(s, true, '?') {
        if is_unc_at(s, 4) {
            let server = find_component_end(Platform::Windows, true, s, 8);
            let share = step_in(s, server);
            find_component_end(Platform::Windows, true, s, share)
        } else if is_drive_at(s, 4) && (s.len() == 6 || s[6] == '\\') {
            6
        } else {
            find_component_end(Platform::Windows, true, s, 4)
        }
    } else if in_namespace(s, false, '.') {
        find_component_end(Platform::Windows, false, s, 4)
    } else if s.len() >= 2 && is_separator(Platform::Windows, false, s[0]) && is_separator(
        Platform::Windows,
        false,
        s[1],
    ) {
        let server = find_component_end(Platform::Windows, false, s, 2);
        let start = step_in(s, server);
        let share = find_component_end(Platform::Windows, false, s, start);
        if server > 2 && share > start {
            share
        } else {
            0
        }
    } else if is_drive_at(s, 0) {
        2
    } else {
        0
    }
}

/// The last component of `s` from `from` on that names something, if there is one. Empty components
/// name nothing, nor does a single dot outside a verbatim path.
pub open spec fn last_component(
    platform: Platform,
    verbatim: bool,
    s: Seq<char>,
    from: int,
    found: Option<Seq<char>>,
) -> Option<Seq<char>>
    decreases s.len() + 1 - from,
    via last_component_decreases
{
    if from >= s.len() {
        found
    } else {
        let end = component_end(platform, verbatim, s, from);
        let part = s.subrange(from, end);
        last_component(
            platform,
            verbatim,
            s,
            end + 1,
            if part.len() == 0 || (!verbatim && part == seq!['.']) {
                found
            } else {
                Some(part)
            },
        )
    }
}

#[via_fn]
proof fn last_component_decreases(
    platform: Platform,
    verbatim: bool,
    s: Seq<char>,
    from: int,
    found: Option<Seq<char>>,
) {
    if from < s.len() {
        lemma_component_end(platform, verbatim, s, from);
    }
}

proof fn lemma_component_end(platform: Platform, verbatim: bool, s: Seq<char>, from: int)
    requires
        from <= s.len(),
    ensures
        from <= component_end(platform, verbatim, s, from) <= s.len(),
    decreases s.len() - from,
{
    if from < s.len() && !separator(platform, verbatim, s[from]) {
        lemma_component_end(platform, verbatim, s, from + 1);
    }
}

/// The file name at the end of a path, if it ends in one: its last component, unless that goes up.
pub open spec fn file_name_of(platform: Platform, path: Seq<char>) -> Option<Seq<char>> {
    let windows = platform == Platform::Windows;
    let verbatim = windows && namespace(path, true, '?');
    let from = if windows {
        prefix_end(path)
    } else {
        0
    };
    match last_component(platform, verbatim, path, from, None) {
        None => None,
        Some(part) => if part == seq!['.', '.'] || part == seq!['.'] {
            None
        } else {
            Some(part)
        },
    }
}

/// The file name at the end of a path, if it ends in one.
pub fn file_name(platform: Platform, path: &str) -> (r: Option<String>)
    ensures
        file_name_of(platform, path@) == (match r {
            Some(name) => Some(name@),
            None => None,
        }),
{
    let chars = text::chars_of(path);
    let on_windows = match platform {
        Platform::Windows => true,
        _ => false,
    };
    let verbatim = on_windows && in_namespace(&chars, true, '?');
    let from: usize = if on_windows {
        find_prefix_end(&chars)
    } else {
        0
    };
    let mut at: usize = from;
    let mut found: Option<&str> = None;
    while at < chars.len()
        invariant
            chars@ == path@,
            last_component(platform, verbatim, path@, from as int, None) == last_component(
                platform,
                verbatim,
                path@,
                at as int,
                match found {
                    Some(name) => Some(name@),
                    None => None,
                },
            ),
        decreases chars@.len() - at,
    {
        let end = find_component_end(platform, verbatim, &chars, at);
        let part = path.substring_char(at, end);
        proof {
            reveal_strlit(".");
        }
        assert("."@ =~= seq!['.']);
        if end > at && (verbatim || !text::same(part, ".")) {
            found = Some(part);
        }
        if end == chars.len() {
            assert(last_component(
                platform,
                verbatim,
                path@,
                end + 1,
                match found {
                    Some(name) => Some(name@),
                    None => None,
                },
            ) == match found {
                Some(name) => Some(name@),
                None => None,
            });
            at = end;
        } else {
            at = end + 1;
        }
    }
    match found {
        None => None,
        Some(name) => {
            proof {
                reveal_strlit(".");
                reveal_strlit("..");
            }
            assert("."@ =~= seq!['.']);
            assert(".."@ =~= seq!['.', '.']);
            if text::same(name, "..") || text::same(name, ".") {
                None
            } else {
                Some(name.to_owned())
            }
        },
    }
}

/// A command that keeps the machine awake while it runs, and what to tell the user of it.
pub struct KeepAwake {
    pub cmd: Vec<String>,
    pub note: Option<String>,
}

impl View for KeepAwake {
    type V = (Seq<Seq<char>>, Option<Seq<char>>);

    open spec fn view(&self) -> (Seq<Seq<char>>, Option<Seq<char>>) {
        (text::texts(self.cmd@), text::maybe(self.note))
    }
}

/// Where a directory of the search path would have an executable.
pub struct PathEntry {
    /// Whether the directory is named at all.
    pub named: bool,
    pub candidate: String,
    /// Whether the candidate is a file that can be run.
    pub runnable: bool,
}

/// The first candidate that can be run, from `from` on.
pub open spec fn first_runnable(entries: Seq<PathEntry>, from: int) -> Option<Seq<char>>
    decreases entries.len() - from,
{
    if from >= entries.len() {
        None
    } else if entries[from].named && entries[from].runnable {
        Some(entries[from].candidate@)
    } else {
        first_runnable(entries, from + 1)
    }
}

/// The executable that the search path gives.
pub fn resolve_on_path(entries: &Vec<PathEntry>, missing_message: &str) -> (r: Result<
    String,
    AppError,
>)
    ensures
        viewed(r) == (match first_runnable(entries@, 0) {
            Some(path) => Ok::<Seq<char>, Fault>(path),
            None => Err(Fault::Fail(missing_message@)),
        }),
{
    let mut i: usize = 0;
    while i < entries.len()
        invariant
            i <= entries@.len(),
            first_runnable(entries@, 0) == first_runnable(entries@, i as int),
        decreases entries@.len() - i,
    {
        if entries[i].named && entries[i].runnable {
            return Ok(entries[i].candidate.clone());
        }
        i = i + 1;
    }
    Err(AppError::fail(missing_message))
}

/// What is always said when a session starts.
pub open spec fn start_note(platform: Platform) -> Option<Seq<char>> {
    match platform {
        Platform::Macos => Some(
            "note: closing the lid still sleeps the mac unless you use --even-lid"@,
        ),
        _ => None,
    }
}

pub fn static_start_note(platform: Platform) -> (r: Option<String>)
    ensures
        text::maybe(r) == start_note(platform),
{
    match platform {
        Platform::Macos => Some(
            "note: closing the lid still sleeps the mac unless you use --even-lid".to_owned(),
        ),
        _ => None,
    }
}

/// Whether a path is absolute. On Windows it needs a drive with a root, or a server or namespace.
pub open spec fn absolute(platform: Platform, path: Seq<char>) -> bool {
    if platform == Platform::Windows {
        let end = prefix_end(path);
        end > 2 || (end == 2 && path.len() > 2 && separator(platform, false, path[2]))
    } else {
        path.len() > 0 && path[0] == '/'
    }
}

pub fn is_absolute(platform: Platform, path: &str) -> (r: bool)
    ensures
        r == absolute(platform, path@),
{
    let chars = text::chars_of(path);
    match platform {
        Platform::Windows => {
            let end = find_prefix_end(&chars);
            end > 2 || (end == 2 && chars.len() > 2 && is_separator(platform, false, chars[2]))
        },
        _ => chars.len() > 0 && chars[0] == '/',
    }
}

/// The program that is run is the first on the search path that can be run: one that a named directory has,
/// with none before it; and there is none exactly where no directory has one.
pub proof fn law_the_first_program_is_run(entries: Seq<PathEntry>, from: int)
    requires
        0 <= from,
    ensures
        match first_runnable(entries, from) {
            Some(path) => exists|i: int|
                {
                    &&& from <= i < entries.len()
                    &&& (#[trigger] entries[i]).named && entries[i].runnable
                    &&& path == entries[i].candidate@
                    &&& forall|j: int|
                        from <= j < i ==> !((#[trigger] entries[j]).named && entries[j].runnable)
                },
            None => forall|i: int|
                from <= i < entries.len() ==> !((#[trigger] entries[i]).named
                    && entries[i].runnable),
        },
    decreases entries.len() - from,
{
    if from < entries.len() && !(entries[from].named && entries[from].runnable) {
        law_the_first_program_is_run(entries, from + 1);
    }
}

proof fn lemma_component_end_is(platform: Platform, verbatim: bool, s: Seq<char>, from: int, at: int)
    requires
        0 <= from <= at <= s.len(),
        forall|i: int| from <= i < at ==> !separator(platform, verbatim, #[trigger] s[i]),
        at < s.len() ==> separator(platform, verbatim, s[at]),
    ensures
        component_end(platform, verbatim, s, from) == at,
    decreases at - from,
{
    if from < at {
        lemma_component_end_is(platform, verbatim, s, from + 1, at);
    }
}

proof fn lemma_last_component_is(
    platform: Platform,
    s: Seq<char>,
    from: int,
    at: int,
    found: Option<Seq<char>>,
)
    requires
        0 <= from <= at < s.len(),
        at > from ==> separator(platform, false, s[at - 1]),
        forall|i: int| at <= i < s.len() ==> !separator(platform, false, #[trigger] s[i]),
        s.skip(at) != seq!['.'],
    ensures
        last_component(platform, false, s, from, found) == Some(s.skip(at)),
    decreases s.len() + 1 - from,
{
    lemma_component_end(platform, false, s, from);
    let end = component_end(platform, false, s, from);
    if from == at {
        lemma_component_end_is(platform, false, s, from, s.len() as int);
        assert(s.subrange(from, s.len() as int) =~= s.skip(at));
        reveal_with_fuel(last_component, 2);
    } else {
        lemma_component_stops(platform, s, from, at - 1);
        let part = s.subrange(from, end);
        let next = if part.len() == 0 || part == seq!['.'] {
            found
        } else {
            Some(part)
        };
        lemma_last_component_is(platform, s, end + 1, at, next);
    }
}

proof fn lemma_component_stops(platform: Platform, s: Seq<char>, from: int, at: int)
    requires
        0 <= from <= at < s.len(),
        separator(platform, false, s[at]),
    ensures
        component_end(platform, false, s, from) <= at,
    decreases at - from,
{
    if from < at && !separator(platform, false, s[from]) {
        lemma_component_stops(platform, s, from + 1, at);
    }
}

/// The name of a file is what stands behind the last separator of its path, whatever the directory.
pub proof fn law_files_are_named_last(platform: Platform, dir: Seq<char>, name: Seq<char>)
    requires
        name.len() > 0,
        name != seq!['.'] && name != seq!['.', '.'],
        forall|i: int| 0 <= i < name.len() ==> #[trigger] name[i] != '/' && name[i] != '\\',
        platform == Platform::Windows ==> dir.len() >= 2 && ('a' <= dir[0] <= 'z' || 'A' <= dir[0]
            <= 'Z') && dir[1] == ':',
    ensures
        file_name_of(platform, dir + seq!['/'] + name) == Some(name),
        platform == Platform::Windows ==> file_name_of(platform, dir + seq!['\\'] + name) == Some(
            name,
        ),
{
    let from = if platform == Platform::Windows {
        2int
    } else {
        0
    };
    let at: int = dir.len() as int + 1;
    let plain = dir + seq!['/'] + name;
    assert(plain.skip(at) =~= name);
    assert forall|i: int| at <= i < plain.len() implies !separator(
        platform,
        false,
        #[trigger] plain[i],
    ) by {
        assert(plain[i] == name[i - at]);
    }
    if platform == Platform::Windows {
        assert(plain[0] == dir[0] && plain[1] == dir[1]);
    }
    lemma_last_component_is(platform, plain, from, at, None);
    if platform == Platform::Windows {
        let back = dir + seq!['\\'] + name;
        assert(back.skip(at) =~= name);
        assert forall|i: int| at <= i < back.len() implies !separator(
            platform,
            false,
            #[trigger] back[i],
        ) by {
            assert(back[i] == name[i - at]);
        }
        assert(back[0] == dir[0] && back[1] == dir[1]);
        lemma_last_component_is(platform, back, from, at, None);
    }
}

/// A name alone is its own file name.
pub proof fn law_names_alone_are_file_names(platform: Platform, name: Seq<char>)
    requires
        name.len() > 0,
        name != seq!['.'] && name != seq!['.', '.'],
        forall|i: int|
            0 <= i < name.len() ==> #[trigger] name[i] != '/' && name[i] != '\\' && name[i] != ':',
    ensures
        file_name_of(platform, name) == Some(name),
{
    assert(name.skip(0) =~= name);
    lemma_last_component_is(platform, name, 0, 0, None);
}

/// A path is absolute where it begins at a root: with a slash, or on Windows with a drive and a slash of either
/// kind; a name alone and a path below a drive's current directory are not.
pub proof fn law_absolute_paths_begin_at_a_root(rest: Seq<char>, drive: char)
    requires
        'a' <= drive <= 'z' || 'A' <= drive <= 'Z',
        rest.len() > 0 ==> rest[0] != '/' && rest[0] != '\\' && rest[0] != ':',
        rest.len() > 1 ==> rest[1] != ':',
    ensures
        absolute(Platform::Linux, seq!['/'] + rest) && absolute(Platform::Macos, seq!['/'] + rest),
        !absolute(Platform::Linux, rest) && !absolute(Platform::Macos, rest),
        absolute(Platform::Windows, seq![drive, ':', '\\'] + rest),
        absolute(Platform::Windows, seq![drive, ':', '/'] + rest),
        !absolute(Platform::Windows, seq![drive, ':'] + rest),
        !absolute(Platform::Windows, rest),
{
    let a = seq![drive, ':', '\\'] + rest;
    let b = seq![drive, ':', '/'] + rest;
    let c = seq![drive, ':'] + rest;
    assert(a[0] == drive && a[1] == ':' && a[2] == '\\');
    assert(b[0] == drive && b[1] == ':' && b[2] == '/');
    assert(c[0] == drive && c[1] == ':');
    if rest.len() > 0 {
        assert(c[2] == rest[0]);
    }
    assert((seq!['/'] + rest)[0] == '/');
}

/// The programs that a session may run as are known ones of the system, this one among them.
pub proof fn law_this_program_is_known(platform: Platform)
    ensures
        basenames(platform).contains("wake"@),
        platform == Platform::Macos <==> start_note(platform) is Some,
{
    let names = basenames(platform);
    assert(names[names.len() - 1] == "wake"@);
}

} // verus!
