//! Filtering subtitle lines by their ASS `Style` and `Name` fields.
//!
//! A line is dropped when its style is on the style blocklist, or when the
//! style allowlist is not empty and does not hold its style; the same holds
//! of its name and the name lists. An empty allowlist filters nothing.

use vstd::prelude::*;
use crate::text::{parse_list, parse_list_spec};

verus! {

/// Per-track blocklists and allowlists of ASS `Style` and `Name` values.
pub struct StyleFilter {
    pub style_blocklist: Vec<String>,
    pub style_allowlist: Vec<String>,
    pub name_blocklist: Vec<String>,
    pub name_allowlist: Vec<String>,
}

/// Whether `value` is on `list`.
pub open spec fn on_list(list: Seq<String>, value: Seq<char>) -> bool {
    exists|i: int| 0 <= i < list.len() && #[trigger] list[i]@ == value
}

/// Whether a field value passes a blocklist and an allowlist.
pub open spec fn passes_spec(block: Seq<String>, allow: Seq<String>, value: Seq<char>) -> bool {
    &&& !on_list(block, value)
    &&& (allow.len() == 0 || on_list(allow, value))
}

/// The views of a list of strings.
pub open spec fn list_view(l: Seq<String>) -> Seq<Seq<char>> {
    l.map_values(|s: String| s@)
}

impl StyleFilter {
    /// Whether a line with this style and name is kept.
    pub open spec fn allows_spec(&self, style: Seq<char>, name: Seq<char>) -> bool {
        &&& passes_spec(self.style_blocklist@, self.style_allowlist@, style)
        &&& passes_spec(self.name_blocklist@, self.name_allowlist@, name)
    }

    /// A filter built from four comma-separated lists, each read as
    /// [`parse_list`] reads it.
    pub fn from_lists(
        style_blocklist: &str,
        style_allowlist: &str,
        name_blocklist: &str,
        name_allowlist: &str,
    ) -> (f: StyleFilter)
        ensures
            list_view(f.style_blocklist@) == parse_list_spec(style_blocklist@),
            list_view(f.style_allowlist@) == parse_list_spec(style_allowlist@),
            list_view(f.name_blocklist@) == parse_list_spec(name_blocklist@),
            list_view(f.name_allowlist@) == parse_list_spec(name_allowlist@),
    {
        StyleFilter {
            style_blocklist: parse_list(style_blocklist),
            style_allowlist: parse_list(style_allowlist),
            name_blocklist: parse_list(name_blocklist),
            name_allowlist: parse_list(name_allowlist),
        }
    }

    /// Whether a line with this style and name is kept.
    pub fn allows(&self, style: &str, name: &str) -> (r: bool)
        ensures
            r == self.allows_spec(style@, name@),
    {
        let style = String::from_str(style);
        let name = String::from_str(name);
        passes(&self.style_blocklist, &self.style_allowlist, &style) && passes(
            &self.name_blocklist,
            &self.name_allowlist,
            &name,
        )
    }
}

/// Whether `value` is on `list`.
fn contains(list: &Vec<String>, value: &String) -> (r: bool)
    ensures
        r == on_list(list@, value@),
{
    let mut i: usize = 0;
    while i < list.len()
        invariant
            i <= list@.len(),
            forall|j: int| 0 <= j < i ==> list@[j]@ != value@,
        decreases list@.len() - i,
    {
        if list[i] == *value {
            assert(list@[i as int]@ == value@);
            return true;
        }
        i = i + 1;
    }
    false
}

fn passes(block: &Vec<String>, allow: &Vec<String>, value: &String) -> (r: bool)
    ensures
        r == passes_spec(block@, allow@, value@),
{
    !contains(block, value) && (allow.len() == 0 || contains(allow, value))
}

/// A value on the blocklist is dropped, whatever the allowlist holds.
pub proof fn law_blocklist_wins(f: StyleFilter, style: Seq<char>, name: Seq<char>)
    requires
        on_list(f.style_blocklist@, style) || on_list(f.name_blocklist@, name),
    ensures
        !f.allows_spec(style, name),
{
}

/// A filter with empty allowlists keeps every line whose style and name
/// are not blocklisted; a filter with all four lists empty keeps every
/// line.
pub proof fn law_empty_allowlists_filter_nothing(f: StyleFilter, style: Seq<char>, name: Seq<char>)
    requires
        f.style_allowlist@.len() == 0,
        f.name_allowlist@.len() == 0,
    ensures
        f.allows_spec(style, name) == (!on_list(f.style_blocklist@, style) && !on_list(
            f.name_blocklist@,
            name,
        )),
        f.style_blocklist@.len() == 0 && f.name_blocklist@.len() == 0 ==> f.allows_spec(
            style,
            name,
        ),
{
}

/// With a non-empty allowlist, a line is kept only where its value is on
/// that allowlist, whatever the value (an empty Style or Name too); a line
/// whose style or name is on a blocklist is never kept; and a line is kept
/// exactly when neither rule drops it.
pub proof fn law_allowlist_restricts(f: StyleFilter, style: Seq<char>, name: Seq<char>)
    ensures
        f.style_allowlist@.len() > 0 && !(exists|i: int|
            0 <= i < f.style_allowlist@.len() && #[trigger] f.style_allowlist@[i]@ == style)
            ==> !f.allows_spec(style, name),
        f.name_allowlist@.len() > 0 && !(exists|i: int|
            0 <= i < f.name_allowlist@.len() && #[trigger] f.name_allowlist@[i]@ == name)
            ==> !f.allows_spec(style, name),
        (exists|i: int| 0 <= i < f.style_blocklist@.len() && #[trigger] f.style_blocklist@[i]@ == style)
            ==> !f.allows_spec(style, name),
        (exists|i: int| 0 <= i < f.name_blocklist@.len() && #[trigger] f.name_blocklist@[i]@ == name)
            ==> !f.allows_spec(style, name),
        f.allows_spec(style, name) <== ({
            &&& !(exists|i: int|
                0 <= i < f.style_blocklist@.len() && #[trigger] f.style_blocklist@[i]@ == style)
            &&& !(exists|i: int|
                0 <= i < f.name_blocklist@.len() && #[trigger] f.name_blocklist@[i]@ == name)
            &&& (f.style_allowlist@.len() == 0 || exists|i: int|
                0 <= i < f.style_allowlist@.len() && #[trigger] f.style_allowlist@[i]@ == style)
            &&& (f.name_allowlist@.len() == 0 || exists|i: int|
                0 <= i < f.name_allowlist@.len() && #[trigger] f.name_allowlist@[i]@ == name)
        }),
{
}

} // verus!
