//! The shared component model: one normalised record for every installed
//! application, driver or operating system that a collector finds.

use vstd::prelude::*;
use crate::text::{clone_strings, texts};

verus! {

/// What a component is; decides how its other fields are read.
#[derive(Clone, Copy, Debug, PartialEq, Eq, Structural)]
pub enum Kind {
    Application,
    Driver,
    OS,
    Other,
}

impl Default for Kind {
    fn default() -> (k: Kind)
        ensures
            k == Kind::Application,
    {
        Kind::Application
    }
}

/// An instant in UTC: whole seconds since 1970-01-01T00:00:00Z and the
/// nanoseconds within the second.
#[derive(Clone, Copy, Debug, PartialEq, Eq, Structural)]
pub struct Timestamp {
    pub secs: i64,
    pub nanos: u32,
}

impl Timestamp {
    /// The zero instant, which stands for "unknown".
    pub open spec fn zero_instant() -> Timestamp {
        Timestamp { secs: 0, nanos: 0 }
    }

    /// The zero instant.
    pub fn zero() -> (t: Timestamp)
        ensures
            t == Timestamp::zero_instant(),
    {
        Timestamp { secs: 0, nanos: 0 }
    }
}

impl Default for Timestamp {
    fn default() -> (t: Timestamp)
        ensures
            t == Timestamp::zero_instant(),
    {
        Timestamp::zero()
    }
}

/// What a component says, as plain values.
pub struct ComponentView {
    pub kind: Kind,
    pub name: Seq<char>,
    pub id: Seq<char>,
    pub version: Seq<char>,
    pub path: Seq<char>,
    pub modified: Timestamp,
    pub publishers: Seq<Seq<char>>,
}

/// The identifier of a record: its own where it has one, and its name
/// where it has none. An identifier is so never empty but where the name
/// is empty too.
pub open spec fn id_or_name(id: Seq<char>, name: Seq<char>) -> Seq<char> {
    if id.len() == 0 {
        name
    } else {
        id
    }
}

/// An identifier that was filled in is empty only where both the
/// identifier of the record and its name are empty, and filling it in
/// again changes nothing.
pub proof fn lemma_id_or_name(id: Seq<char>, name: Seq<char>)
    ensures
        id_or_name(id, name).len() == 0 ==> id.len() == 0 && name.len() == 0,
        name.len() > 0 ==> id_or_name(id, name).len() > 0,
        id_or_name(id_or_name(id, name), name) == id_or_name(id, name),
{
}

/// Picks the identifier of a record: its own, or its name where it has
/// none.
pub fn identifier<'a>(id: &'a str, name: &'a str) -> (res: &'a str)
    ensures
        res@ == id_or_name(id@, name@),
{
    if id.is_empty() {
        name
    } else {
        id
    }
}

impl ComponentView {
    /// The record with the identifier filled in: a source that has no
    /// identifier of its own is identified by its name.
    pub open spec fn normalized(self) -> ComponentView {
        ComponentView { id: id_or_name(self.id, self.name), ..self }
    }
}

/// A source record that can be read as a component.
pub trait ComponentTrait {
    /// The fields of the record as the getters give them.
    spec fn fields(&self) -> ComponentView;

    fn kind(&self) -> (k: Kind)
        ensures
            k == self.fields().kind,
    ;

    fn name(&self) -> (s: &str)
        ensures
            s@ == self.fields().name,
    ;

    fn id(&self) -> (s: &str)
        ensures
            s@ == self.fields().id,
    ;

    fn version(&self) -> (s: &str)
        ensures
            s@ == self.fields().version,
    ;

    fn path(&self) -> (s: &str)
        ensures
            s@ == self.fields().path,
    ;

    fn modified(&self) -> (t: Timestamp)
        ensures
            t == self.fields().modified,
    ;

    fn publishers(&self) -> (p: &Vec<String>)
        ensures
            texts(p@) == self.fields().publishers,
    ;
}

/// The unit of inventory.
#[derive(Clone, Debug, PartialEq, Eq)]
pub struct Component {
    pub kind: Kind,
    pub name: String,
    pub id: String,
    pub version: String,
    pub path: String,
    pub modified: Timestamp,
    pub publishers: Vec<String>,
}

impl View for Component {
    type V = ComponentView;

    open spec fn view(&self) -> ComponentView {
        ComponentView {
            kind: self.kind,
            name: self.name@,
            id: self.id@,
            version: self.version@,
            path: self.path@,
            modified: self.modified,
            publishers: texts(self.publishers@),
        }
    }
}

impl Component {
    /// Whether the record keeps the rule of the model: an identifier is
    /// empty only where the name is empty too.
    pub open spec fn well_formed(&self) -> bool {
        self.id@.len() == 0 ==> self.name@.len() == 0
    }

    /// Normalises a source record of any kind.
    ///
    /// Every field is taken as the record gives it, but for the
    /// identifier: where the record has none, the name stands in for it.
    ///
    /// This is the entry for unverified callers that hold a record of a
    /// type they do not know. Verified callers should call `from_record`,
    /// which takes a reference of any kind: Verus hands the first clause
    /// of this function on where the argument is a reference to a known
    /// type, but not where the caller already holds a trait object, while
    /// it hands the same clause of `from_record` on in both cases.
    pub fn from_trait(comp: &dyn ComponentTrait) -> (c: Component)
        ensures
            c@ == comp.fields().normalized(),
            c.well_formed(),
    {
        Component::from_record(comp)
    }

    /// Normalises a source record of a known type.
    ///
    /// Every field is taken as the record gives it, but for the
    /// identifier: where the record has none, the name stands in for it.
    pub fn from_record<T: ComponentTrait + ?Sized>(comp: &T) -> (c: Component)
        ensures
            c@ == comp.fields().normalized(),
            c.well_formed(),
    {
        let name: String = comp.name().to_owned();
        let own_id: &str = comp.id();
        let id: String = if own_id.is_empty() {
            name.clone()
        } else {
            own_id.to_owned()
        };
        Component {
            kind: comp.kind(),
            name,
            id,
            version: comp.version().to_owned(),
            path: comp.path().to_owned(),
            modified: comp.modified(),
            publishers: clone_strings(comp.publishers()),
        }
    }
}

impl ComponentTrait for Component {
    /// A component gives its own fields, and its name for its identifier
    /// where it holds none.
    open spec fn fields(&self) -> ComponentView {
        self@.normalized()
    }

    fn kind(&self) -> (k: Kind) {
        self.kind
    }

    fn name(&self) -> (s: &str) {
        self.name.as_str()
    }

    fn id(&self) -> (s: &str) {
        identifier(self.id.as_str(), self.name.as_str())
    }

    fn version(&self) -> (s: &str) {
        self.version.as_str()
    }

    fn path(&self) -> (s: &str) {
        self.path.as_str()
    }

    fn modified(&self) -> (t: Timestamp) {
        self.modified
    }

    fn publishers(&self) -> (p: &Vec<String>) {
        &self.publishers
    }
}

/// The views of a list of components.
pub open spec fn component_views(list: Seq<Component>) -> Seq<ComponentView> {
    list.map_values(|c: Component| c@)
}

/// The normalised fields of a list of source records.
pub open spec fn normalized_fields<T: ComponentTrait>(list: Seq<T>) -> Seq<ComponentView> {
    list.map_values(|record: T| record.fields().normalized())
}

/// Whether every component of a list keeps the rule of the model.
pub open spec fn all_well_formed(list: Seq<Component>) -> bool {
    forall|i: int| 0 <= i < list.len() ==> (#[trigger] list[i]).well_formed()
}

/// Appends the components of a list of source records, in their order.
pub fn push_components<T: ComponentTrait>(out: &mut Vec<Component>, list: &Vec<T>)
    ensures
        component_views(final(out)@) == component_views(old(out)@) + normalized_fields(list@),
        all_well_formed(old(out)@) ==> all_well_formed(final(out)@),
{
    let mut i: usize = 0;
    proof {
        assert(normalized_fields(list@).take(0) =~= Seq::<ComponentView>::empty());
        assert(component_views(out@) + Seq::<ComponentView>::empty() =~= component_views(out@));
    }
    while i < list.len()
        invariant
            i <= list@.len(),
            component_views(out@) == component_views(old(out)@) + normalized_fields(list@).take(
                i as int,
            ),
            all_well_formed(old(out)@) ==> all_well_formed(out@),
        decreases list@.len() - i,
    {
        let component: Component = Component::from_record(&list[i]);
        let ghost before = out@;
        out.push(component);
        proof {
            assert(component_views(out@) =~= component_views(before).push(component@));
            assert(normalized_fields(list@).take(i + 1) =~= normalized_fields(list@).take(
                i as int,
            ).push(component@));
            if all_well_formed(old(out)@) {
                assert forall|k: int| 0 <= k < out@.len() implies (
                #[trigger] out@[k]).well_formed() by {
                    if k < before.len() {
                        assert(out@[k] == before[k]);
                    }
                }
            }
        }
        i = i + 1;
    }
    proof {
        assert(normalized_fields(list@).take(list@.len() as int) =~= normalized_fields(list@));
    }
}

/// Normalising a record twice changes nothing more. A normalised record
/// has an empty identifier only where its name is empty; a record without
/// an identifier of its own, or whose identifier is its name, is
/// identified by its name; a record with an identifier is left as it is.
pub proof fn lemma_normalized_idempotent(v: ComponentView)
    ensures
        v.normalized().normalized() == v.normalized(),
        v.normalized().id.len() == 0 ==> v.normalized().name.len() == 0,
        v.id.len() == 0 ==> v.normalized().id == v.name,
        v.id == v.name ==> v.normalized().id == v.name,
        v.id.len() > 0 ==> v.normalized() == v,
{
}

} // verus!
