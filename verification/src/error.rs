//! Errors, the messages they carry and the exit codes they lead to.

use vstd::prelude::*;
use vstd::string::*;

verus! {

pub const INHIBITOR_STARTUP_EXIT_CODE: i32 = 3;

#[derive(Debug)]
pub enum AppError {
    Usage(String),
    Fail(String),
    InhibitorStartup(String),
}

/// What an `AppError` says: its kind and the characters of its message.
pub enum Fault {
    Usage(Seq<char>),
    Fail(Seq<char>),
    InhibitorStartup(Seq<char>),
}

impl Fault {
    pub open spec fn message(self) -> Seq<char> {
        match self {
            Fault::Usage(m) => m,
            Fault::Fail(m) => m,
            Fault::InhibitorStartup(m) => m,
        }
    }
}

impl View for AppError {
    type V = Fault;

    open spec fn view(&self) -> Fault {
        match *self {
            AppError::Usage(m) => Fault::Usage(m@),
            AppError::Fail(m) => Fault::Fail(m@),
            AppError::InhibitorStartup(m) => Fault::InhibitorStartup(m@),
        }
    }
}

/// A result with its error seen as a `Fault`.
pub open spec fn outcome<T>(r: Result<T, AppError>) -> Result<T, Fault> {
    match r {
        Ok(v) => Ok(v),
        Err(e) => Err(e@),
    }
}

/// A result with its value seen by its view and its error as a `Fault`.
pub open spec fn viewed<T: View>(r: Result<T, AppError>) -> Result<T::V, Fault> {
    match r {
        Ok(v) => Ok(v@),
        Err(e) => Err(e@),
    }
}

impl AppError {
    pub fn usage(msg: &str) -> (r: Self)
        ensures
            r@ == Fault::Usage(msg@),
    {
        AppError::Usage(msg.to_owned())
    }

    pub fn fail(msg: &str) -> (r: Self)
        ensures
            r@ == Fault::Fail(msg@),
    {
        AppError::Fail(msg.to_owned())
    }

    pub fn inhibitor_startup(msg: &str) -> (r: Self)
        ensures
            r@ == Fault::InhibitorStartup(msg@),
    {
        AppError::InhibitorStartup(msg.to_owned())
    }

    pub fn message(&self) -> (r: &str)
        ensures
            r@ == self@.message(),
    {
        match self {
            AppError::Usage(m) => m.as_str(),
            AppError::Fail(m) => m.as_str(),
            AppError::InhibitorStartup(m) => m.as_str(),
        }
    }

    pub fn exit_code(&self) -> (r: i32)
        ensures
            r == (match self@ {
                Fault::Usage(_) => 2i32,
                Fault::Fail(_) => 1i32,
                Fault::InhibitorStartup(_) => 3i32,
            }),
    {
        match self {
            AppError::Usage(_) => 2,
            AppError::Fail(_) => 1,
            AppError::InhibitorStartup(_) => INHIBITOR_STARTUP_EXIT_CODE,
        }
    }
}

impl Clone for AppError {
    fn clone(&self) -> (r: Self)
        ensures
            r@ == self@,
    {
        match self {
            AppError::Usage(m) => AppError::Usage(m.clone()),
            AppError::Fail(m) => AppError::Fail(m.clone()),
            AppError::InhibitorStartup(m) => AppError::InhibitorStartup(m.clone()),
        }
    }
}

/// The fault of `first` with that of `second` after it, `between` in the middle.
pub open spec fn chained(first: Fault, between: Seq<char>, second: Fault) -> Fault {
    Fault::Fail(first.message() + between + second.message())
}

/// Both messages in one error, with `between` in the middle.
pub fn chain(first: &AppError, between: &str, second: &AppError) -> (r: AppError)
    ensures
        r@ == chained(first@, between@, second@),
{
    let mut m = first.message().to_owned();
    m.append(between);
    m.append(second.message());
    AppError::Fail(m)
}

/// What is left of `primary` once `cleanup` has run after it: its value where both succeeded, the
/// one error where one failed, and both messages where both did.
pub open spec fn combined<T>(primary: Result<T, Fault>, cleanup: Result<(), Fault>) -> Result<
    T,
    Fault,
> {
    match (primary, cleanup) {
        (Ok(v), Ok(())) => Ok(v),
        (Ok(_), Err(c)) => Err(c),
        (Err(p), Ok(())) => Err(p),
        (Err(p), Err(c)) => Err(chained(p, "; cleanup failed: "@, c)),
    }
}

pub fn combine_cleanup<T>(primary: Result<T, AppError>, cleanup: Result<(), AppError>) -> (r:
    Result<T, AppError>)
    ensures
        outcome(r) == combined(outcome(primary), outcome(cleanup)),
{
    match (primary, cleanup) {
        (Err(primary), Err(cleanup)) => Err(chain(&primary, "; cleanup failed: ", &cleanup)),
        (Err(error), Ok(())) => Err(error),
        (Ok(_), Err(error)) => Err(error),
        (Ok(value), Ok(())) => Ok(value),
    }
}

/// A cleanup never turns a failure into a success, and a success survives only a clean one.
pub proof fn law_cleanup_never_hides_a_failure<T>(
    primary: Result<T, Fault>,
    cleanup: Result<(), Fault>,
)
    ensures
        combined(primary, cleanup) is Ok <==> primary is Ok && cleanup is Ok,
        primary is Ok && cleanup is Ok ==> combined(primary, cleanup) == primary,
{
}

/// Where both fail, both are told of, the first one first; where one fails, just that one is.
pub proof fn law_cleanup_tells_of_both<T>(primary: Result<T, Fault>, cleanup: Result<(), Fault>)
    ensures
        primary is Err && cleanup is Ok ==> combined(primary, cleanup) == primary,
        primary is Ok && cleanup is Err ==> combined(primary, cleanup) == Err::<T, Fault>(
            cleanup->Err_0,
        ),
        primary is Err && cleanup is Err ==> (combined(primary, cleanup) matches Err(both)
            && both.message() == primary->Err_0.message() + "; cleanup failed: "@
            + cleanup->Err_0.message()),
{
}

/// Each kind of error ends the program with a code of its own, and none with the one of a success.
pub proof fn law_errors_have_their_codes(a: AppError, b: AppError, x: i32, y: i32)
    requires
        call_ensures(AppError::exit_code, (&a,), x),
        call_ensures(AppError::exit_code, (&b,), y),
    ensures
        x != 0,
        a is Usage ==> x == 2,
        a is Fail ==> x == 1,
        x == y <==> (a is Usage && b is Usage) || (a is Fail && b is Fail) || (a is InhibitorStartup
            && b is InhibitorStartup),
{
}

} // verus!
