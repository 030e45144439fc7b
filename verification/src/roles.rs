//! Accessibility roles that make an element a target of semantic lookup.
use vstd::prelude::*;
use crate::text::same_text;

verus! {

/// Roles of elements a user interacts with; such elements are always
/// candidates.
pub open spec fn is_interactive_role_spec(role: Seq<char>) -> bool {
    ||| role == "button"@
    ||| role == "link"@
    ||| role == "textbox"@
    ||| role == "checkbox"@
    ||| role == "radio"@
    ||| role == "combobox"@
    ||| role == "listbox"@
    ||| role == "menuitem"@
    ||| role == "menuitemcheckbox"@
    ||| role == "menuitemradio"@
    ||| role == "option"@
    ||| role == "searchbox"@
    ||| role == "slider"@
    ||| role == "spinbutton"@
    ||| role == "switch"@
    ||| role == "tab"@
    ||| role == "treeitem"@
}

/// Roles of content elements; such elements are candidates when named.
pub open spec fn is_content_role_spec(role: Seq<char>) -> bool {
    ||| role == "heading"@
    ||| role == "cell"@
    ||| role == "gridcell"@
    ||| role == "columnheader"@
    ||| role == "rowheader"@
    ||| role == "listitem"@
    ||| role == "article"@
    ||| role == "region"@
    ||| role == "main"@
    ||| role == "navigation"@
}

/// Whether `role` is one of the interactive roles.
pub fn is_interactive_role(role: &str) -> (r: bool)
    ensures
        r == is_interactive_role_spec(role@),
{
    same_text(role, "button") || same_text(role, "link") || same_text(role, "textbox")
        || same_text(role, "checkbox") || same_text(role, "radio") || same_text(role, "combobox")
        || same_text(role, "listbox") || same_text(role, "menuitem") || same_text(
        role,
        "menuitemcheckbox",
    ) || same_text(role, "menuitemradio") || same_text(role, "option") || same_text(
        role,
        "searchbox",
    ) || same_text(role, "slider") || same_text(role, "spinbutton") || same_text(role, "switch")
        || same_text(role, "tab") || same_text(role, "treeitem")
}

/// Whether `role` is one of the content roles.
pub fn is_content_role(role: &str) -> (r: bool)
    ensures
        r == is_content_role_spec(role@),
{
    same_text(role, "heading") || same_text(role, "cell") || same_text(role, "gridcell")
        || same_text(role, "columnheader") || same_text(role, "rowheader") || same_text(
        role,
        "listitem",
    ) || same_text(role, "article") || same_text(role, "region") || same_text(role, "main")
        || same_text(role, "navigation")
}

} // verus!
