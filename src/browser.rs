//! The browsers whose cookies can be read.
use crate::chrome::ChromeVariant;
use crate::text::str_eq;
use vstd::prelude::*;
use vstd::string::*;

verus! {

/// A supported browser.
#[derive(Debug, Clone, Copy, PartialEq, Eq, Hash, Structural)]
pub enum Browser {
    Firefox,
    ChromeVariant(ChromeVariant),
}

/// The browser that a command-line name stands for.
pub open spec fn browser_of_name(s: Seq<char>) -> Option<Browser> {
    if s == "firefox"@ {
        Some(Browser::Firefox)
    } else if s == "chromium"@ {
        Some(Browser::ChromeVariant(ChromeVariant::Chromium))
    } else if s == "chrome"@ {
        Some(Browser::ChromeVariant(ChromeVariant::Chrome))
    } else if s == "edge"@ {
        Some(Browser::ChromeVariant(ChromeVariant::Edge))
    } else {
        None
    }
}

/// The display name of a browser.
pub open spec fn display_name_of(b: Browser) -> Seq<char> {
    match b {
        Browser::Firefox => "Firefox"@,
        Browser::ChromeVariant(ChromeVariant::Chromium) => "Chromium"@,
        Browser::ChromeVariant(ChromeVariant::Chrome) => "Google Chrome"@,
        Browser::ChromeVariant(ChromeVariant::Edge) => "Microsoft Edge"@,
    }
}

impl Browser {
    /// Parse a browser from one of the names `firefox`, `chromium`, `chrome`
    /// and `edge`; any other name gives a message that lists them.
    pub fn parse(s: &str) -> (r: Result<Browser, String>)
        ensures
            browser_of_name(s@) is Some ==> r == Ok::<Browser, String>(browser_of_name(s@)->Some_0),
            browser_of_name(s@) is None ==> r is Err && r->Err_0@ == "'"@ + s@
                + "' is not one of the supported browsers (firefox, chromium, chrome, edge)"@,
    {
        if str_eq(s, "firefox") {
            Ok(Browser::Firefox)
        } else if str_eq(s, "chromium") {
            Ok(Browser::ChromeVariant(ChromeVariant::Chromium))
        } else if str_eq(s, "chrome") {
            Ok(Browser::ChromeVariant(ChromeVariant::Chrome))
        } else if str_eq(s, "edge") {
            Ok(Browser::ChromeVariant(ChromeVariant::Edge))
        } else {
            let mut message = "'".to_owned();
            message.append(s);
            message.append("' is not one of the supported browsers (firefox, chromium, chrome, edge)");
            Err(message)
        }
    }

    /// The name under which the browser is shown to users.
    pub fn display_name(&self) -> (r: &'static str)
        ensures
            r@ == display_name_of(*self),
    {
        match self {
            Browser::Firefox => "Firefox",
            Browser::ChromeVariant(ChromeVariant::Chromium) => "Chromium",
            Browser::ChromeVariant(ChromeVariant::Chrome) => "Google Chrome",
            Browser::ChromeVariant(ChromeVariant::Edge) => "Microsoft Edge",
        }
    }
}

impl std::str::FromStr for Browser {
    type Err = String;

    fn from_str(s: &str) -> Result<Browser, String> {
        Browser::parse(s)
    }
}

} // verus!
