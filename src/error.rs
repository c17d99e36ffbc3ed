use vstd::prelude::*;
use vstd::string::{to_string_from_display_ensures, StringExecFns};

verus! {

#[verifier::external_type_specification]
#[verifier::external_body]
pub struct ExIoError(std::io::Error);

/// Failures of the renderer's device layer.
#[derive(Debug)]
pub enum Error {
    /// A ray-tracing runtime call failed: its status code and a description.
    Optix((u32, String)),
    Io(std::io::Error),
    Bounds,
    IncompatibleBuilderType,
    /// A file could not be found on the search path.
    SearchPath(String),
    /// A string held a nul byte at this position.
    NulError(usize),
    HandleNotFoundError,
    IncompatibleBufferFormat { given: u32, expected: u32 },
    NvrtcError(String),
    /// The device memory provider refused a request, with its status code.
    Device(u32),
}

/// `s` followed by `t`, as a new string.
fn join(s: &str, t: &str) -> (r: String)
    ensures
        r@ == s@ + t@,
{
    let mut r = String::from_str(s);
    r.append(t);
    r
}

impl Error {
    /// One line of text describing the error. Numbers and wrapped I/O errors
    /// are written by their `Display` impls.
    pub fn message(&self) -> (r: String)
        ensures
            self is Bounds ==> r@ == "[ERROR out of bounds]"@,
            self is IncompatibleBuilderType ==> r@ == "[ERROR incompatible builder type]"@,
            self is HandleNotFoundError ==> r@ == "[ERROR Hande Not Found]"@,
            self matches Error::SearchPath(p) ==> r@ == "[ERROR SearchPath "@ + p@,
            self matches Error::NvrtcError(m) ==> r@ == "[Error nvrtc] "@ + m@,
            self matches Error::Optix((code, text)) ==> exists|d: String|
                to_string_from_display_ensures::<u32>(&code, d) && r@ == "[ERROR OptiX "@ + d@
                    + "] "@ + text@,
            self matches Error::Io(e) ==> exists|d: String|
                to_string_from_display_ensures::<std::io::Error>(&e, d) && r@ == "[ERROR IO] "@
                    + d@,
            self matches Error::NulError(pos) ==> exists|d: String|
                to_string_from_display_ensures::<usize>(&pos, d) && r@
                    == "[ERROR Nul byte at position "@ + d@ + "]"@,
            self matches Error::IncompatibleBufferFormat { given, expected } ==> exists|
                g: String,
                x: String,
            |
                to_string_from_display_ensures::<u32>(&given, g)
                    && to_string_from_display_ensures::<u32>(&expected, x) && r@
                    == "[ERROR Expected buffer format of "@ + g@ + ", given "@ + x@,
            self matches Error::Device(code) ==> exists|d: String|
                to_string_from_display_ensures::<u32>(&code, d) && r@ == "[ERROR device memory "@
                    + d@ + "]"@,
    {
        proof {
            reveal_strlit("[ERROR out of bounds]");
            reveal_strlit("[ERROR incompatible builder type]");
            reveal_strlit("[ERROR Hande Not Found]");
            reveal_strlit("[ERROR SearchPath ");
            reveal_strlit("[Error nvrtc] ");
            reveal_strlit("[ERROR OptiX ");
            reveal_strlit("] ");
            reveal_strlit("[ERROR IO] ");
            reveal_strlit("[ERROR Nul byte at position ");
            reveal_strlit("]");
            reveal_strlit("[ERROR Expected buffer format of ");
            reveal_strlit(", given ");
            reveal_strlit("[ERROR device memory ");
        }
        match self {
            Error::Optix((code, text)) => {
                let d = code.to_string();
                let mut r = join("[ERROR OptiX ", d.as_str());
                r.append("] ");
                r.append(text.as_str());
                r
            },
            Error::Io(e) => {
                let d = e.to_string();
                join("[ERROR IO] ", d.as_str())
            },
            Error::Bounds => String::from_str("[ERROR out of bounds]"),
            Error::IncompatibleBuilderType => String::from_str("[ERROR incompatible builder type]"),
            Error::SearchPath(p) => join("[ERROR SearchPath ", p.as_str()),
            Error::NulError(pos) => {
                let d = pos.to_string();
                let mut r = join("[ERROR Nul byte at position ", d.as_str());
                r.append("]");
                r
            },
            Error::HandleNotFoundError => String::from_str("[ERROR Hande Not Found]"),
            Error::IncompatibleBufferFormat { given, expected } => {
                let g = given.to_string();
                let x = expected.to_string();
                let mut r = join("[ERROR Expected buffer format of ", g.as_str());
                r.append(", given ");
                r.append(x.as_str());
                r
            },
            Error::NvrtcError(m) => join("[Error nvrtc] ", m.as_str()),
            Error::Device(code) => {
                let d = code.to_string();
                let mut r = join("[ERROR device memory ", d.as_str());
                r.append("]");
                r
            },
        }
    }
}

impl From<std::io::Error> for Error {
    fn from(err: std::io::Error) -> (r: Error)
        ensures
            r == Error::Io(err),
    {
        Error::Io(err)
    }
}

impl vstd::std_specs::convert::FromSpecImpl<std::io::Error> for Error {
    open spec fn obeys_from_spec() -> bool {
        true
    }

    open spec fn from_spec(v: std::io::Error) -> Error {
        Error::Io(v)
    }
}

/// The error for a failed runtime call with status `result`; `description` is
/// the runtime's own text for that status.
pub fn optix_error(msg: &str, description: &str, result: u32) -> (r: Error)
    ensures
        r matches Error::Optix((code, text)) && code == result && text@ == msg@ + seq![':', ' ']
            + description@,
{
    proof {
        reveal_strlit(": ");
    }
    let mut text = join(msg, ": ");
    text.append(description);
    Error::Optix((result, text))
}

} // verus!
