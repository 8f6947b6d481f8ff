//! What to search for and where.
use vstd::prelude::*;

verus! {

#[derive(Clone)]
pub struct SearchConfig {
    pub pattern: String,
    /// The file or directory to search.
    pub path: String,
    pub case_insensitive: bool,
    pub case_smart: bool,
}

impl SearchConfig {
    /// A configuration that searches `path` for `pattern`, case sensitively.
    pub fn from(pattern: &str, path: &str) -> (c: Self)
        ensures
            c.pattern@ == pattern@,
            c.path@ == path@,
            !c.case_insensitive,
            !c.case_smart,
    {
        Self {
            pattern: pattern.to_owned(),
            path: path.to_owned(),
            case_insensitive: false,
            case_smart: false,
        }
    }

    pub fn case_insensitive(self, case_insensitive: bool) -> (c: Self)
        ensures
            c == (Self { case_insensitive, ..self }),
    {
        let mut c = self;
        c.case_insensitive = case_insensitive;
        c
    }

    pub fn case_smart(self, case_smart: bool) -> (c: Self)
        ensures
            c == (Self { case_smart, ..self }),
    {
        let mut c = self;
        c.case_smart = case_smart;
        c
    }
}

} // verus!
