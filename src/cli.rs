//! The choices of the command line: which tool to wrap and in which format
//! to write the cookies.
use crate::text::str_eq;
use vstd::prelude::*;
use vstd::string::*;

verus! {

/// A command that can be run with the imported cookies.
#[derive(Debug, Clone, Copy, PartialEq, Eq, Structural)]
pub enum WrappedCmd {
    Curl,
    Wget,
    HttpieHttp,
    HttpieHttps,
}

/// A format in which the cookies are written.
#[derive(Debug, Clone, Copy, PartialEq, Eq, Structural)]
pub enum OutputFormat {
    /// `cookies.txt`, read by curl and wget.
    Netscape,
    /// A format for people to read.
    Human,
    /// An HTTPie session file.
    HttpieSession,
}

pub open spec fn wrapped_cmd_of_name(s: Seq<char>) -> Option<WrappedCmd> {
    if s == "curl"@ {
        Some(WrappedCmd::Curl)
    } else if s == "wget"@ {
        Some(WrappedCmd::Wget)
    } else if s == "httpie"@ || s == "https"@ {
        Some(WrappedCmd::HttpieHttps)
    } else if s == "http"@ {
        Some(WrappedCmd::HttpieHttp)
    } else {
        None
    }
}

pub open spec fn output_format_of_name(s: Seq<char>) -> Option<OutputFormat> {
    if s == "netscape"@ {
        Some(OutputFormat::Netscape)
    } else if s == "human"@ {
        Some(OutputFormat::Human)
    } else if s == "httpie-session"@ || s == "httpie"@ {
        Some(OutputFormat::HttpieSession)
    } else {
        None
    }
}

impl WrappedCmd {
    /// Parse `curl`, `wget`, `http`, or `https` (also `httpie`); any other
    /// name gives a message that lists them.
    pub fn parse(s: &str) -> (r: Result<WrappedCmd, String>)
        ensures
            wrapped_cmd_of_name(s@) is Some ==> r == Ok::<WrappedCmd, String>(wrapped_cmd_of_name(s@)->Some_0),
            wrapped_cmd_of_name(s@) is None ==> r is Err && r->Err_0@ == "'"@ + s@
                + "' is not one of the supported commands (curl, wget, http(s))"@,
    {
        if str_eq(s, "curl") {
            Ok(WrappedCmd::Curl)
        } else if str_eq(s, "wget") {
            Ok(WrappedCmd::Wget)
        } else if str_eq(s, "httpie") || str_eq(s, "https") {
            Ok(WrappedCmd::HttpieHttps)
        } else if str_eq(s, "http") {
            Ok(WrappedCmd::HttpieHttp)
        } else {
            let mut message = "'".to_owned();
            message.append(s);
            message.append("' is not one of the supported commands (curl, wget, http(s))");
            Err(message)
        }
    }

    /// The program to run, the option that passes it the cookie file, and the
    /// format that file is written in.
    pub fn invocation(&self) -> (r: (&'static str, &'static str, OutputFormat))
        ensures
            *self == WrappedCmd::Curl ==> r.0@ == "curl"@ && r.1@ == "-b"@ && r.2 == OutputFormat::Netscape,
            *self == WrappedCmd::Wget ==> r.0@ == "wget"@ && r.1@ == "--load-cookies"@ && r.2
                == OutputFormat::Netscape,
            *self == WrappedCmd::HttpieHttp ==> r.0@ == "http"@ && r.1@ == "--session"@ && r.2
                == OutputFormat::HttpieSession,
            *self == WrappedCmd::HttpieHttps ==> r.0@ == "https"@ && r.1@ == "--session"@ && r.2
                == OutputFormat::HttpieSession,
    {
        match self {
            WrappedCmd::Curl => ("curl", "-b", OutputFormat::Netscape),
            WrappedCmd::Wget => ("wget", "--load-cookies", OutputFormat::Netscape),
            WrappedCmd::HttpieHttp => ("http", "--session", OutputFormat::HttpieSession),
            WrappedCmd::HttpieHttps => ("https", "--session", OutputFormat::HttpieSession),
        }
    }
}

impl OutputFormat {
    /// Parse `netscape`, `human`, or `httpie-session` (also `httpie`); any
    /// other name gives a message that lists them.
    pub fn parse(s: &str) -> (r: Result<OutputFormat, String>)
        ensures
            output_format_of_name(s@) is Some ==> r == Ok::<OutputFormat, String>(
                output_format_of_name(s@)->Some_0,
            ),
            output_format_of_name(s@) is None ==> r is Err && r->Err_0@ == "'"@ + s@
                + "' is not one of the supported output formats (netscape, human, httpie-session)"@,
    {
        if str_eq(s, "netscape") {
            Ok(OutputFormat::Netscape)
        } else if str_eq(s, "human") {
            Ok(OutputFormat::Human)
        } else if str_eq(s, "httpie-session") || str_eq(s, "httpie") {
            Ok(OutputFormat::HttpieSession)
        } else {
            let mut message = "'".to_owned();
            message.append(s);
            message.append("' is not one of the supported output formats (netscape, human, httpie-session)");
            Err(message)
        }
    }
}

impl std::str::FromStr for WrappedCmd {
    type Err = String;

    fn from_str(s: &str) -> Result<WrappedCmd, String> {
        WrappedCmd::parse(s)
    }
}

impl std::str::FromStr for OutputFormat {
    type Err = String;

    fn from_str(s: &str) -> Result<OutputFormat, String> {
        OutputFormat::parse(s)
    }
}

} // verus!
