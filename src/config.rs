use vstd::prelude::*;

verus! {

/// Colours of the interface, as `#rrggbb` strings.
#[derive(Debug, Clone)]
pub struct Theme {
    pub bg: String,
    pub main: String,
    pub caret: String,
    pub text: String,
    pub sub: String,
    pub sub_alt: String,
    pub error: String,
}

impl Default for Theme {
    fn default() -> (r: Theme)
        ensures
            r.bg@ == "#2c2e34"@,
            r.main@ == "#e2b714"@,
            r.caret@ == "#e2b714"@,
            r.text@ == "#d1d0c5"@,
            r.sub@ == "#646669"@,
            r.sub_alt@ == "#45474d"@,
            r.error@ == "#ca4754"@,
    {
        Theme {
            bg: "#2c2e34".to_owned(),
            main: "#e2b714".to_owned(),
            caret: "#e2b714".to_owned(),
            text: "#d1d0c5".to_owned(),
            sub: "#646669".to_owned(),
            sub_alt: "#45474d".to_owned(),
            error: "#ca4754".to_owned(),
        }
    }
}

#[derive(Debug, Clone)]
pub struct AppConfig {
    pub theme: Theme,
}

} // verus!
