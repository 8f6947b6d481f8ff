//! The popup in which a new search pattern is typed.
use vstd::prelude::*;

use crate::text::push_char;

verus! {

/// Removes the last character of a string (`String::pop`).
#[verifier::external_body]
fn pop_char(s: &mut String) -> (c: Option<char>)
    ensures
        old(s)@.len() == 0 ==> c is None && final(s)@ == old(s)@,
        old(s)@.len() > 0 ==> c == Some(old(s)@.last()) && final(s)@ == old(s)@.drop_last(),
{
    s.pop()
}

/// `p` without its last character; an empty `p` stays empty.
pub open spec fn without_last(p: Seq<char>) -> Seq<char> {
    if p.len() == 0 {
        p
    } else {
        p.drop_last()
    }
}

/// Removing a character right after typing it gives back the pattern as it
/// was.
pub proof fn law_remove_undoes_insert(p: Seq<char>, c: char)
    ensures
        without_last(p.push(c)) == p,
{
    assert(p.push(c).drop_last() =~= p);
}

pub struct SearchPopup {
    visible: bool,
    pattern: String,
}

impl Default for SearchPopup {
    fn default() -> (p: Self)
        ensures
            !p.is_visible(),
            p.pattern().len() == 0,
    {
        SearchPopup { visible: false, pattern: String::new() }
    }
}

impl SearchPopup {
    pub closed spec fn is_visible(&self) -> bool {
        self.visible
    }

    pub closed spec fn pattern(&self) -> Seq<char> {
        self.pattern@
    }

    pub fn toggle(&mut self)
        ensures
            final(self).is_visible() == !old(self).is_visible(),
            final(self).pattern() == old(self).pattern(),
    {
        self.visible = !self.visible;
    }

    pub fn set_pattern(&mut self, pattern: String)
        ensures
            final(self).pattern() == pattern@,
            final(self).is_visible() == old(self).is_visible(),
    {
        self.pattern = pattern;
    }

    pub fn get_pattern(&self) -> (p: String)
        ensures
            p@ == self.pattern(),
    {
        self.pattern.clone()
    }

    pub fn insert_char(&mut self, c: char)
        ensures
            final(self).pattern() == old(self).pattern().push(c),
            final(self).is_visible() == old(self).is_visible(),
    {
        push_char(&mut self.pattern, c);
    }

    pub fn remove_char(&mut self)
        ensures
            final(self).pattern() == without_last(old(self).pattern()),
            final(self).is_visible() == old(self).is_visible(),
    {
        pop_char(&mut self.pattern);
    }

    pub fn is_shown(&self) -> (b: bool)
        ensures
            b == self.is_visible(),
    {
        self.visible
    }
}

} // verus!
