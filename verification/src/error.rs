//! The error model: a call into the `exec` family either never returns
//! (the process image was replaced) or reports exactly one of two failures,
//! a malformed argument or an operating-system error code.

use vstd::prelude::*;
use vstd::string::StringExecFns;

verus! {

/// The spelled-out decimal digit.
pub open spec fn digit_char(d: int) -> char {
    if d == 0 {
        '0'
    } else if d == 1 {
        '1'
    } else if d == 2 {
        '2'
    } else if d == 3 {
        '3'
    } else if d == 4 {
        '4'
    } else if d == 5 {
        '5'
    } else if d == 6 {
        '6'
    } else if d == 7 {
        '7'
    } else if d == 8 {
        '8'
    } else {
        '9'
    }
}

/// The decimal rendering of `n`, most significant digit first, no sign and
/// no leading zero except for `n == 0` itself.
pub open spec fn decimal_rep(n: nat) -> Seq<char>
    decreases n,
{
    if n < 10 {
        seq![digit_char(n as int)]
    } else {
        decimal_rep(n / 10).push(digit_char((n % 10) as int))
    }
}

/// The message a [`NulError`] renders: the fixed text followed by the
/// decimal position of the offending byte.
pub open spec fn nul_error_text(position: nat) -> Seq<char> {
    "nul byte found in provided data at position: "@ + decimal_rep(position)
}

/// `p` is an initial segment of `s`.
pub open spec fn prefix_of(p: Seq<char>, s: Seq<char>) -> bool {
    p.len() <= s.len() && s.subrange(0, p.len() as int) == p
}

/// A string passed to an `exec` call contained a null byte and cannot be
/// given to the operating system, which takes null-terminated strings.
///
/// `position` is the index of the first null byte within `bytes`, the
/// rejected string.
#[derive(Debug)]
pub struct NulError {
    /// Index of the first null byte of `bytes`.
    pub position: usize,
    /// The rejected string, in full.
    pub bytes: Vec<u8>,
}

impl NulError {
    /// The rejected string's first null byte is at this index.
    pub fn nul_position(&self) -> (r: usize)
        ensures
            r == self.position,
    {
        self.position
    }

    /// Consume the error, handing the rejected string back.
    pub fn into_vec(self) -> (r: Vec<u8>)
        ensures
            r@ == self.bytes@,
    {
        self.bytes
    }

    /// Render the violation: where the null byte sat.
    pub fn message(&self) -> (r: String)
        ensures
            r@ == nul_error_text(self.position as nat),
    {
        let mut s = String::from_str("nul byte found in provided data at position: ");
        append_decimal(&mut s, self.position);
        s
    }
}

/// Represents an error calling `exec`.
///
/// It is returned bare, not inside a `Result`: the operations that produce
/// it only return at all when they have failed, so any returned value is a
/// failure signal.
#[derive(Debug)]
#[must_use]
pub enum Error {
    /// One of the strings passed to the call contained an interior null
    /// byte and cannot be passed correctly to the operating system.
    BadArgument(NulError),
    /// The operating system refused the call and reported this error code.
    Errno(i32),
}

impl Error {
    /// A fixed one-line description of the failure kind.
    pub fn description(&self) -> (r: &'static str)
        ensures
            self matches Error::BadArgument(_) ==> r@ == "bad argument to exec"@,
            self matches Error::Errno(_) ==> r@ == "couldn't exec process"@,
    {
        match self {
            Error::BadArgument(_) => "bad argument to exec",
            Error::Errno(_) => "couldn't exec process",
        }
    }

    /// The underlying argument violation, where there is one.
    pub fn cause(&self) -> (r: Option<&NulError>)
        ensures
            match self {
                Error::BadArgument(e) => {
                    r matches Some(c) && c.position == e.position && c.bytes@ == e.bytes@
                },
                Error::Errno(_) => r is None,
            },
    {
        match self {
            Error::BadArgument(e) => Some(e),
            Error::Errno(_) => None,
        }
    }

    /// Render the failure for a human reader.
    ///
    /// An argument violation renders in full from the data alone.  An
    /// operating-system code renders through the platform's own description
    /// of the code, of which only the fixed prefix is promised here: the
    /// text after it is whatever the platform reports.
    pub fn message(&self) -> (r: String)
        ensures
            self matches Error::BadArgument(e) ==> r@ == "bad argument to exec: "@
                + nul_error_text(e.position as nat),
            self matches Error::Errno(_) ==> prefix_of("couldn't exec process: "@, r@),
    {
        match self {
            Error::BadArgument(e) => {
                let mut s = String::from_str("bad argument to exec: ");
                let detail = e.message();
                s.append(detail.as_str());
                s
            },
            Error::Errno(code) => {
                let description = errno_description(*code);
                let r = errno_rendering(description.as_str());
                proof {
                    assert(r@.subrange(0, "couldn't exec process: "@.len() as int)
                        =~= "couldn't exec process: "@);
                }
                r
            },
        }
    }
}

impl core::convert::From<NulError> for Error {
    /// Wrap an argument violation as an [`Error`].
    fn from(err: NulError) -> (r: Error) {
        Error::BadArgument(err)
    }
}

impl vstd::std_specs::convert::FromSpecImpl<NulError> for Error {
    open spec fn obeys_from_spec() -> bool {
        true
    }

    open spec fn from_spec(err: NulError) -> Error {
        Error::BadArgument(err)
    }
}

/// Classify what the OS-level `exec` call came back with: a negative
/// result means the call failed and the captured `errno` code is the
/// error; the OS contract excludes every other result, so no error value
/// stands for it and the caller must treat `None` as a fatal violation of
/// that contract, never as success.
pub fn classify_exec_return(res: i32, code: i32) -> (r: Option<Error>)
    ensures
        res < 0 ==> r == Some(Error::Errno(code)),
        res >= 0 ==> r is None,
{
    if res < 0 {
        Some(Error::Errno(code))
    } else {
        None
    }
}

/// Render an operating-system failure given the platform's description of
/// the code, exactly: the fixed prefix followed by the description.
pub fn errno_rendering(description: &str) -> (r: String)
    ensures
        r@ == "couldn't exec process: "@ + description@,
{
    let mut s = String::from_str("couldn't exec process: ");
    s.append(description);
    s
}

/// Relies on `errno::Errno`'s `Display` impl, which renders an error code
/// through the platform's `strerror_r`.  The text depends on the platform
/// and its locale, so nothing is promised of it; callers state what holds
/// of any text through [`errno_rendering`].
#[verifier::external_body]
fn errno_description(code: i32) -> String {
    format!("{}", errno::Errno(code))
}

/// The single decimal digit `d`, as a one-character string.
fn digit_str(d: u8) -> (r: &'static str)
    requires
        d < 10,
    ensures
        r@ == seq![digit_char(d as int)],
{
    let r: &'static str = match d {
        0 => "0",
        1 => "1",
        2 => "2",
        3 => "3",
        4 => "4",
        5 => "5",
        6 => "6",
        7 => "7",
        8 => "8",
        _ => "9",
    };
    proof {
        reveal_strlit("0");
        reveal_strlit("1");
        reveal_strlit("2");
        reveal_strlit("3");
        reveal_strlit("4");
        reveal_strlit("5");
        reveal_strlit("6");
        reveal_strlit("7");
        reveal_strlit("8");
        reveal_strlit("9");
        assert(r@ =~= seq![digit_char(d as int)]);
    }
    r
}

/// Append the decimal rendering of `n` to `out`.
fn append_decimal(out: &mut String, n: usize)
    ensures
        final(out)@ == old(out)@ + decimal_rep(n as nat),
    decreases n,
{
    if n >= 10 {
        proof {
            assert(n / 10 < n) by (nonlinear_arith)
                requires
                    n >= 10,
            ;
        }
        append_decimal(out, n / 10);
    }
    let d: u8 = (n % 10) as u8;
    out.append(digit_str(d));
    proof {
        if n >= 10 {
            assert(decimal_rep(n as nat) == decimal_rep(n as nat / 10).push(digit_char(
                (n as nat % 10) as int,
            )));
            assert(old(out)@ + decimal_rep(n as nat / 10) + seq![digit_char(d as int)]
                =~= old(out)@ + decimal_rep(n as nat));
        } else {
            assert(old(out)@ + seq![digit_char(d as int)] =~= old(out)@ + decimal_rep(n as nat));
        }
    }
}

} // verus!
