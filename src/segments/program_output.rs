use vstd::prelude::*;

verus! {

/// What `str::trim` returns for a string: the string without its leading and
/// trailing whitespace.
pub uninterp spec fn trimmed(s: Seq<char>) -> Seq<char>;

/// `part` is a contiguous part of `s`.
pub open spec fn is_slice_of(part: Seq<char>, s: Seq<char>) -> bool {
    exists|i: int, j: int| 0 <= i <= j <= s.len() && part == s.subrange(i, j)
}

/// Relies on `str::trim`: the result is `s` with leading and trailing
/// whitespace removed, so a part of `s` that it cuts out whole.
#[verifier::external_body]
fn trim_whitespace(s: &str) -> (r: String)
    ensures
        r@ == trimmed(s@),
        is_slice_of(r@, s@),
{
    s.trim().to_string()
}

/// The value that a program run yields: its standard output, trimmed if
/// asked, or `"ERROR"` when the program could not be started (`None`).
pub open spec fn output_value(trim: bool, stdout: Option<String>) -> Seq<char> {
    match stdout {
        None => "ERROR"@,
        Some(out) => if trim {
            trimmed(out@)
        } else {
            out@
        },
    }
}

/// A segment value read from what a program prints.
pub struct ProgramOutput {
    program: String,
    args: Vec<String>,
    trim: bool,
}

impl ProgramOutput {
    /// The path of the program.
    pub closed spec fn spec_program(&self) -> Seq<char> {
        self.program@
    }

    /// The arguments that the program is started with.
    pub closed spec fn spec_args(&self) -> Seq<String> {
        self.args@
    }

    /// Whether surrounding whitespace is cut from the output.
    pub closed spec fn spec_trim(&self) -> bool {
        self.trim
    }

    pub fn new(program: String, args: Vec<String>, trim: bool) -> (r: ProgramOutput)
        ensures
            r.spec_program() == program@,
            r.spec_args() == args@,
            r.spec_trim() == trim,
    {
        ProgramOutput { program, args, trim }
    }

    /// The path of the program.
    pub fn program(&self) -> (r: &str)
        ensures
            r@ == self.spec_program(),
    {
        self.program.as_str()
    }

    /// The arguments that the program is started with.
    pub fn args(&self) -> (r: &Vec<String>)
        ensures
            r@ == self.spec_args(),
    {
        &self.args
    }

    /// The segment value for one run of the program: `stdout` is what it
    /// printed, `None` when it could not be started.
    pub fn output_value(&self, stdout: Option<String>) -> (r: String)
        ensures
            r@ == output_value(self.spec_trim(), stdout),
    {
        match stdout {
            None => String::from_str("ERROR"),
            Some(out) => if self.trim {
                trim_whitespace(out.as_str())
            } else {
                out
            },
        }
    }
}

} // verus!
