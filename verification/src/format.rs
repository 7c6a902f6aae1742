//! The inventory as text: one line for each component.

use vstd::prelude::*;
use crate::clock::{display_instant, instant_display};
use crate::component::{component_views, Component, ComponentView, Kind};
use crate::text::{push_str, string_from_chars};

verus! {

/// The name of a kind.
pub open spec fn kind_text(kind: Kind) -> Seq<char> {
    match kind {
        Kind::Application => "Application"@,
        Kind::Driver => "Driver"@,
        Kind::OS => "OS"@,
        Kind::Other => "Other"@,
    }
}

/// The name of a kind.
pub fn kind_name(kind: Kind) -> (name: &'static str)
    ensures
        name@ == kind_text(kind),
{
    match kind {
        Kind::Application => "Application",
        Kind::Driver => "Driver",
        Kind::OS => "OS",
        Kind::Other => "Other",
    }
}

/// The line of a component: when it was last changed, what it is, its
/// name, its version and its path, and a line feed.
pub open spec fn text_line(c: ComponentView) -> Seq<char> {
    "<"@ + instant_display(c.modified) + "> ["@ + kind_text(c.kind) + "] name="@ + c.name
        + " version="@ + c.version + " path="@ + c.path + "\n"@
}

/// The lines of a list of components, in their order.
pub open spec fn text_of(list: Seq<ComponentView>) -> Seq<char>
    decreases list.len(),
{
    if list.len() == 0 {
        Seq::empty()
    } else {
        text_of(list.drop_last()) + text_line(list.last())
    }
}

/// Appends the line of a component to `out`.
pub fn push_line(out: &mut Vec<char>, component: &Component)
    ensures
        final(out)@ == old(out)@ + text_line(component@),
{
    push_str(out, "<");
    let modified: String = display_instant(component.modified);
    push_str(out, modified.as_str());
    push_str(out, "> [");
    push_str(out, kind_name(component.kind));
    push_str(out, "] name=");
    push_str(out, component.name.as_str());
    push_str(out, " version=");
    push_str(out, component.version.as_str());
    push_str(out, " path=");
    push_str(out, component.path.as_str());
    push_str(out, "\n");
    proof {
        assert(out@ =~= old(out)@ + text_line(component@));
    }
}

/// Renders the inventory as text, one line for each component.
pub fn to_text(components: &Vec<Component>) -> (text: String)
    ensures
        text@ == text_of(component_views(components@)),
{
    let mut out: Vec<char> = Vec::new();
    let mut i: usize = 0;
    proof {
        assert(component_views(components@).take(0) =~= Seq::<ComponentView>::empty());
    }
    while i < components.len()
        invariant
            i <= components@.len(),
            out@ == text_of(component_views(components@).take(i as int)),
        decreases components@.len() - i,
    {
        proof {
            assert(component_views(components@).take(i + 1).drop_last() =~= component_views(
                components@,
            ).take(i as int));
            assert(component_views(components@).take(i + 1).last() == components@[i as int]@);
        }
        push_line(&mut out, &components[i]);
        i = i + 1;
    }
    proof {
        assert(component_views(components@).take(components@.len() as int) =~= component_views(
            components@,
        ));
    }
    string_from_chars(&out)
}

} // verus!
