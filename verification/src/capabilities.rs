//! Capabilities the model may be allowed to use in a session, and the grants
//! that allow them.
//!
//! A capability is off until the user turns it on with `/permit <capability>`
//! and off again with `/deny <capability>`. Grants live in the session's own
//! extension data under [`PERMISSIONS_EXTENSION`], a key the agent owns: no
//! tool and no extension can write it, so a model cannot grant itself a
//! capability, and a session can never reach into another session's grants.

use vstd::prelude::*;
use vstd::seq_lib::seq_to_set_is_finite;
use vstd::string::*;

use crate::extension_data::{ExtensionData, Key};
use crate::json::{array_view, field, field_views, item_views, object_view, Json, JsonView};
use crate::text::{
    before, is_before, lemma_before_is_total, lemma_before_is_transitive, same, views,
};

verus! {

/// The extension-data key grants are stored under. Owned by the agent.
pub const PERMISSIONS_EXTENSION: &'static str = "permissions";

/// The version of the record that grants are stored in.
pub const PERMISSIONS_VERSION: &'static str = "v0";

/// Let the model compact the session's history on its own judgement.
pub const SESSION_MODIFICATION: &'static str = "session-modification";

#[derive(Debug, Clone, Copy, PartialEq, Eq)]
pub struct CapabilityDef {
    pub name: &'static str,
    pub description: &'static str,
}

/// Every capability: its name and its description.
pub open spec fn capabilities() -> Seq<(Seq<char>, Seq<char>)> {
    seq![
        (
            SESSION_MODIFICATION@,
            "Let the model compact the conversation when it judges the work needs it"@,
        ),
    ]
}

pub open spec fn capability_view(def: CapabilityDef) -> (Seq<char>, Seq<char>) {
    (def.name@, def.description@)
}

pub fn list_capabilities() -> (r: Vec<CapabilityDef>)
    ensures
        r@.map_values(|def: CapabilityDef| capability_view(def)) == capabilities(),
{
    let mut out: Vec<CapabilityDef> = Vec::new();
    out.push(
        CapabilityDef {
            name: SESSION_MODIFICATION,
            description: "Let the model compact the conversation when it judges the work needs it",
        },
    );
    assert(out@.map_values(|def: CapabilityDef| capability_view(def)) =~= capabilities());
    out
}

/// Whether there is a capability called `name`.
pub open spec fn capability_called(name: Seq<char>) -> bool {
    exists|i: int| 0 <= i < capabilities().len() && (#[trigger] capabilities()[i]).0 == name
}

pub fn find_capability(name: &str) -> (r: Option<CapabilityDef>)
    ensures
        r is Some == capability_called(name@),
        r is Some ==> r->0.name@ == name@ && capabilities().contains(capability_view(r->0)),
{
    let all: Vec<CapabilityDef> = list_capabilities();
    let ghost shown = all@.map_values(|def: CapabilityDef| capability_view(def));
    let mut i: usize = 0;
    while i < all.len()
        invariant
            i <= all@.len(),
            shown == capabilities(),
            shown == all@.map_values(|def: CapabilityDef| capability_view(def)),
            forall|j: int| 0 <= j < i ==> (#[trigger] capabilities()[j]).0 != name@,
        decreases all@.len() - i,
    {
        assert(shown[i as int] == capability_view(all@[i as int]));
        if same(all[i].name, name) {
            return Some(all[i]);
        }
        i += 1;
    }
    None
}

pub fn capability_names() -> (r: Vec<&'static str>)
    ensures
        r@.map_values(|name: &'static str| name@) == capabilities().map_values(
            |def: (Seq<char>, Seq<char>)| def.0,
        ),
{
    let all: Vec<CapabilityDef> = list_capabilities();
    let ghost shown = all@.map_values(|def: CapabilityDef| capability_view(def));
    let mut out: Vec<&'static str> = Vec::new();
    let mut i: usize = 0;
    while i < all.len()
        invariant
            i <= all@.len(),
            out@.len() == i,
            shown == capabilities(),
            shown == all@.map_values(|def: CapabilityDef| capability_view(def)),
            forall|j: int| 0 <= j < i ==> (#[trigger] out@[j])@ == capabilities()[j].0,
        decreases all@.len() - i,
    {
        assert(shown[i as int] == capability_view(all@[i as int]));
        out.push(all[i].name);
        i += 1;
    }
    assert(out@.map_values(|name: &'static str| name@) =~= capabilities().map_values(
        |def: (Seq<char>, Seq<char>)| def.0,
    ));
    out
}

/// Whether a list is in dictionary order, with nothing in it twice.
pub open spec fn ascending(list: Seq<Seq<char>>) -> bool {
    forall|i: int, j: int| 0 <= i < j < list.len() ==> before(#[trigger] list[i], #[trigger] list[j])
}

/// Whether `list` holds the names of `set`, in dictionary order.
pub open spec fn lists(list: Seq<Seq<char>>, set: Set<Seq<char>>) -> bool {
    &&& ascending(list)
    &&& forall|name: Seq<char>| set.contains(name) == #[trigger] list.contains(name)
}

/// The capabilities a session has been granted. Nothing is granted by default.
#[derive(Debug, PartialEq, Eq)]
pub struct SessionPermissions {
    granted: Vec<String>,
}

impl View for SessionPermissions {
    type V = Set<Seq<char>>;

    closed spec fn view(&self) -> Set<Seq<char>> {
        Set::new(|name: Seq<char>| views(self.granted@).contains(name))
    }
}

impl Default for SessionPermissions {
    fn default() -> (r: Self)
        ensures
            r@ == Set::<Seq<char>>::empty(),
    {
        let r = SessionPermissions { granted: Vec::new() };
        assert(r@ =~= Set::empty());
        r
    }
}

impl SessionPermissions {
    #[verifier::type_invariant]
    spec fn in_order(self) -> bool {
        ascending(views(self.granted@))
    }

    pub fn is_granted(&self, capability: &str) -> (r: bool)
        ensures
            r == self@.contains(capability@),
    {
        let mut i: usize = 0;
        while i < self.granted.len()
            invariant
                i <= self.granted@.len(),
                forall|j: int| 0 <= j < i ==> #[trigger] views(self.granted@)[j] != capability@,
            decreases self.granted@.len() - i,
        {
            assert(views(self.granted@)[i as int] == self.granted@[i as int]@);
            if same(self.granted[i].as_str(), capability) {
                return true;
            }
            i += 1;
        }
        false
    }

    /// Grants a capability. Says whether it was not granted before.
    pub fn grant(&mut self, capability: &str) -> (r: bool)
        ensures
            r == !old(self)@.contains(capability@),
            final(self)@ == old(self)@.insert(capability@),
    {
        proof {
            use_type_invariant(&*self);
        }
        let ghost was = views(self.granted@);
        let mut i: usize = 0;
        while i < self.granted.len() && is_before(self.granted[i].as_str(), capability)
            invariant
                i <= self.granted@.len(),
                self.granted == old(self).granted,
                was == views(self.granted@),
                forall|j: int| 0 <= j < i ==> before(#[trigger] was[j], capability@),
            decreases self.granted@.len() - i,
        {
            assert(was[i as int] == self.granted@[i as int]@);
            i += 1;
        }
        if i < self.granted.len() && same(self.granted[i].as_str(), capability) {
            assert(was[i as int] == capability@);
            assert(self@ =~= old(self)@.insert(capability@));
            return false;
        }
        proof {
            assert forall|j: int| 0 <= j < was.len() implies #[trigger] was[j] != capability@ by {
                lemma_before_is_total(capability@, was[j]);
                if i < was.len() {
                    assert(was[i as int] == self.granted@[i as int]@);
                    lemma_before_is_total(capability@, was[i as int]);
                    if i < j {
                        lemma_before_is_transitive(capability@, was[i as int], was[j]);
                    }
                }
            }
        }
        let mut list: Vec<String> = Vec::new();
        std::mem::swap(&mut list, &mut self.granted);
        list.insert(i, capability.to_owned());
        proof {
            let now = views(list@);
            assert(now =~= was.insert(i as int, capability@));
            assert forall|a: int, b: int| 0 <= a < b < now.len() implies before(
                #[trigger] now[a],
                #[trigger] now[b],
            ) by {
                lemma_insert_keeps_order(was, i as int, capability@, a, b);
            }
        }
        self.granted = list;
        proof {
            let now = views(self.granted@);
            assert(now[i as int] == capability@);
            assert forall|name: Seq<char>| #[trigger] self@.contains(name) == old(self)@.insert(
                capability@,
            ).contains(name) by {
                if was.contains(name) {
                    let k = was.index_of(name);
                    if k < i {
                        assert(now[k] == name);
                    } else {
                        assert(now[k + 1] == name);
                    }
                }
                if now.contains(name) && name != capability@ {
                    let k = now.index_of(name);
                    if k < i {
                        assert(was[k] == name);
                    } else {
                        assert(was[k - 1] == name);
                    }
                }
            }
            assert(self@ =~= old(self)@.insert(capability@));
        }
        true
    }

    /// Takes a grant back. Says whether there was one.
    pub fn revoke(&mut self, capability: &str) -> (r: bool)
        ensures
            r == old(self)@.contains(capability@),
            final(self)@ == old(self)@.remove(capability@),
    {
        proof {
            use_type_invariant(&*self);
        }
        let ghost was = views(self.granted@);
        let mut i: usize = 0;
        while i < self.granted.len() && !same(self.granted[i].as_str(), capability)
            invariant
                i <= self.granted@.len(),
                self.granted == old(self).granted,
                was == views(self.granted@),
                forall|j: int| 0 <= j < i ==> #[trigger] was[j] != capability@,
            decreases self.granted@.len() - i,
        {
            assert(was[i as int] == self.granted@[i as int]@);
            i += 1;
        }
        if i == self.granted.len() {
            assert(self@ =~= old(self)@.remove(capability@));
            return false;
        }
        assert(was[i as int] == capability@);
        let mut list: Vec<String> = Vec::new();
        std::mem::swap(&mut list, &mut self.granted);
        list.remove(i);
        proof {
            let now = views(list@);
            assert(now =~= was.remove(i as int));
            assert forall|a: int, b: int| 0 <= a < b < now.len() implies before(
                #[trigger] now[a],
                #[trigger] now[b],
            ) by {
                let x = if a < i { a } else { a + 1 };
                let y = if b < i { b } else { b + 1 };
                assert(before(was[x], was[y]));
            }
        }
        self.granted = list;
        proof {
            let now = views(self.granted@);
            assert forall|name: Seq<char>| #[trigger] self@.contains(name) == old(self)@.remove(
                capability@,
            ).contains(name) by {
                if was.contains(name) && name != capability@ {
                    let k = was.index_of(name);
                    if k < i {
                        assert(now[k] == name);
                    } else {
                        assert(now[k - 1] == name);
                    }
                }
                if now.contains(name) {
                    let k = now.index_of(name);
                    let x = if k < i { k } else { k + 1 };
                    assert(was[x] == name);
                    if x < i {
                        lemma_before_is_total(was[x], was[i as int]);
                        assert(before(was[x], was[i as int]));
                    } else {
                        lemma_before_is_total(was[i as int], was[x]);
                        assert(before(was[i as int], was[x]));
                    }
                }
            }
            assert(self@ =~= old(self)@.remove(capability@));
        }
        true
    }

    /// The granted capabilities, in dictionary order.
    pub fn granted(&self) -> (r: Vec<&str>)
        ensures
            lists(r@.map_values(|name: &str| name@), self@),
    {
        proof {
            use_type_invariant(self);
        }
        let mut out: Vec<&str> = Vec::new();
        let mut i: usize = 0;
        while i < self.granted.len()
            invariant
                i <= self.granted@.len(),
                out@.len() == i,
                forall|j: int| 0 <= j < i ==> (#[trigger] out@[j])@ == self.granted@[j]@,
            decreases self.granted@.len() - i,
        {
            out.push(self.granted[i].as_str());
            i += 1;
        }
        assert(out@.map_values(|name: &str| name@) =~= views(self.granted@));
        out
    }
}

impl Clone for SessionPermissions {
    fn clone(&self) -> (r: Self)
        ensures
            r@ == self@,
    {
        proof {
            use_type_invariant(self);
        }
        let mut granted: Vec<String> = Vec::new();
        let mut i: usize = 0;
        while i < self.granted.len()
            invariant
                i <= self.granted@.len(),
                granted@.len() == i,
                forall|j: int| 0 <= j < i ==> (#[trigger] granted@[j])@ == self.granted@[j]@,
            decreases self.granted@.len() - i,
        {
            granted.push(self.granted[i].clone());
            i += 1;
        }
        assert(views(granted@) =~= views(self.granted@));
        SessionPermissions { granted }
    }
}

proof fn lemma_insert_keeps_order(
    was: Seq<Seq<char>>,
    i: int,
    name: Seq<char>,
    a: int,
    b: int,
)
    requires
        ascending(was),
        0 <= i <= was.len(),
        forall|j: int| 0 <= j < i ==> before(#[trigger] was[j], name),
        i < was.len() ==> !before(was[i], name) && was[i] != name,
        0 <= a < b < was.len() + 1,
    ensures
        before(was.insert(i, name)[a], was.insert(i, name)[b]),
{
    let now = was.insert(i, name);
    if i < was.len() {
        lemma_before_is_total(was[i], name);
    }
    if a < i && b < i {
        assert(before(was[a], was[b]));
    } else if a < i && b == i {
        assert(before(was[a], name));
    } else if a < i {
        assert(before(was[a], was[b - 1]));
    } else if a == i {
        if b - 1 > i {
            assert(before(was[i], was[b - 1]));
            lemma_before_is_transitive(name, was[i], was[b - 1]);
        }
    } else {
        assert(before(was[a - 1], was[b - 1]));
    }
}

// ---------------------------------------------------------------------------
// The record that grants are stored in
// ---------------------------------------------------------------------------

/// Where a session keeps its grants.
pub open spec fn permissions_key() -> Key {
    (PERMISSIONS_EXTENSION@, PERMISSIONS_VERSION@)
}

/// The record for a list of names: an object whose field `granted` is the array
/// of them.
pub open spec fn permissions_record(list: Seq<Seq<char>>) -> JsonView {
    JsonView::Object(
        seq![
            ("granted"@, JsonView::Array(list.map_values(|name: Seq<char>| JsonView::Text(name)))),
        ],
    )
}

/// The names of a set of grants in dictionary order.
pub open spec fn listing(grants: Set<Seq<char>>) -> Seq<Seq<char>> {
    choose|list: Seq<Seq<char>>| lists(list, grants)
}

/// The records of a session, with `grants` as what is granted.
pub open spec fn with_grants(data: Map<Key, JsonView>, grants: Set<Seq<char>>) -> Map<
    Key,
    JsonView,
> {
    data.insert(permissions_key(), permissions_record(listing(grants)))
}

/// The strings of an array that holds nothing else.
pub open spec fn string_set(value: JsonView) -> Option<Set<Seq<char>>> {
    match value {
        JsonView::Array(items) => if forall|i: int|
            0 <= i < items.len() ==> #[trigger] items[i] is Text {
            Some(Set::new(|name: Seq<char>| items.contains(JsonView::Text(name))))
        } else {
            None
        },
        _ => None,
    }
}

/// The grants that a record stands for. An object may leave the field out, which
/// grants nothing; an array stands for the fields in order. Anything else is not
/// a record of grants.
pub open spec fn recorded_grants(state: JsonView) -> Option<Set<Seq<char>>> {
    match state {
        JsonView::Object(fields) => match field(fields, "granted"@) {
            Some(value) => string_set(value),
            None => Some(Set::empty()),
        },
        JsonView::Array(items) => if items.len() == 0 {
            Some(Set::empty())
        } else if items.len() == 1 {
            string_set(items[0])
        } else {
            None
        },
        _ => None,
    }
}

/// The grants in a session's extension data. An absent or unreadable record
/// means nothing is granted.
pub open spec fn grants_in(data: Map<Key, JsonView>) -> Set<Seq<char>> {
    if data.contains_key(permissions_key()) {
        match recorded_grants(data[permissions_key()]) {
            Some(grants) => grants,
            None => Set::empty(),
        }
    } else {
        Set::empty()
    }
}

fn decode_strings(value: &Json) -> (r: Option<SessionPermissions>)
    ensures
        match (r, string_set(value@)) {
            (Some(p), Some(set)) => p@ == set,
            (None, None) => true,
            _ => false,
        },
{
    match value {
        Json::Array(items) => {
            let ghost shown = item_views(items@);
            proof {
                array_view(*items);
            }
            let mut out: SessionPermissions = SessionPermissions::default();
            let mut i: usize = 0;
            while i < items.len()
                invariant
                    i <= items@.len(),
                    shown == item_views(items@),
                    value@ == JsonView::Array(shown),
                    forall|j: int| 0 <= j < i ==> #[trigger] shown[j] is Text,
                    forall|name: Seq<char>|
                        #![trigger out@.contains(name)]
                        out@.contains(name) == shown.take(i as int).contains(JsonView::Text(name)),
                decreases items@.len() - i,
            {
                assert(shown[i as int] == items@[i as int]@);
                match items[i].as_str() {
                    Some(name) => {
                        let ghost so_far = out@;
                        out.grant(name);
                        proof {
                            let next = shown.take(i + 1);
                            assert(next =~= shown.take(i as int).push(shown[i as int]));
                            assert forall|other: Seq<char>|
                                #![trigger out@.contains(other)]
                                out@.contains(other) == next.contains(JsonView::Text(other)) by {
                                let prev = shown.take(i as int);
                                if prev.contains(JsonView::Text(other)) {
                                    assert(so_far.contains(other));
                                    let k = prev.index_of(JsonView::Text(other));
                                    assert(next[k] == JsonView::Text(other));
                                }
                                if other == name@ {
                                    assert(next[i as int] == JsonView::Text(other));
                                }
                                if next.contains(JsonView::Text(other)) && other != name@ {
                                    let k = next.index_of(JsonView::Text(other));
                                    assert(prev[k] == JsonView::Text(other));
                                    assert(so_far.contains(other));
                                }
                                assert(so_far.contains(other) == prev.contains(
                                    JsonView::Text(other),
                                ));
                            }
                        }
                    },
                    None => {
                        assert(!(shown[i as int] is Text));
                        return None;
                    },
                }
                i += 1;
            }
            assert(shown.take(items@.len() as int) =~= shown);
            assert(out@ =~= string_set(value@)->0);
            Some(out)
        },
        _ => None,
    }
}

impl SessionPermissions {
    /// The grants that a record stands for.
    pub fn from_value(state: &Json) -> (r: Option<Self>)
        ensures
            match (r, recorded_grants(state@)) {
                (Some(p), Some(grants)) => p@ == grants,
                (None, None) => true,
                _ => false,
            },
    {
        match state {
            Json::Object(_) => match state.get("granted") {
                Some(value) => decode_strings(value),
                None => Some(SessionPermissions::default()),
            },
            Json::Array(items) => {
                proof {
                    array_view(*items);
                }
                if items.len() == 0 {
                    Some(SessionPermissions::default())
                } else if items.len() == 1 {
                    assert(item_views(items@)[0] == items@[0]@);
                    decode_strings(&items[0])
                } else {
                    None
                }
            },
            _ => None,
        }
    }

    /// The record that stands for the grants.
    pub fn to_value(&self) -> (r: Json)
        ensures
            lists(listing(self@), self@),
            r@ == permissions_record(listing(self@)),
    {
        let names: Vec<&str> = self.granted();
        let ghost list = names@.map_values(|name: &str| name@);
        let mut items: Vec<Json> = Vec::new();
        let mut i: usize = 0;
        while i < names.len()
            invariant
                i <= names@.len(),
                items@.len() == i,
                forall|j: int| 0 <= j < i ==> (#[trigger] items@[j])@ == JsonView::Text(names@[j]@),
            decreases names@.len() - i,
        {
            items.push(Json::text(names[i]));
            i += 1;
        }
        let mut fields: Vec<(String, Json)> = Vec::new();
        fields.push(("granted".to_owned(), Json::Array(items)));
        proof {
            array_view(items);
            object_view(fields);
            assert(item_views(items@) =~= list.map_values(|name: Seq<char>| JsonView::Text(name)));
            assert(field_views(fields@) =~= permissions_record(list)->Object_0);
            grants_are_listed_in_one_way(list, listing(self@), self@);
        }
        Json::Object(fields)
    }

    /// Read the grants out of a session's extension data. An absent or
    /// unreadable record means nothing is granted.
    pub fn read(extension_data: &ExtensionData) -> (r: Self)
        ensures
            r@ == grants_in(extension_data@),
    {
        match extension_data.get_extension_state(PERMISSIONS_EXTENSION, PERMISSIONS_VERSION) {
            Some(state) => match SessionPermissions::from_value(state) {
                Some(permissions) => permissions,
                None => SessionPermissions::default(),
            },
            None => SessionPermissions::default(),
        }
    }

    /// Write the grants back, leaving other extensions' data alone.
    pub fn write_into(&self, extension_data: &mut ExtensionData) -> (r: Result<(), String>)
        ensures
            r is Ok,
            final(extension_data)@ == with_grants(old(extension_data)@, self@),
            grants_in(final(extension_data)@) == self@,
    {
        let state: Json = self.to_value();
        proof {
            grants_round_trip(listing(self@), self@);
        }
        extension_data.set_extension_state(PERMISSIONS_EXTENSION, PERMISSIONS_VERSION, state);
        Ok(())
    }
}

/// A record gives back the grants it was made for.
pub proof fn grants_round_trip(list: Seq<Seq<char>>, grants: Set<Seq<char>>)
    requires
        lists(list, grants),
    ensures
        recorded_grants(permissions_record(list)) == Some(grants),
{
    let items = list.map_values(|name: Seq<char>| JsonView::Text(name));
    let fields = permissions_record(list)->Object_0;
    assert(field(fields, "granted"@) == Some(JsonView::Array(items)));
    assert forall|name: Seq<char>| #[trigger] grants.contains(name) == items.contains(
        JsonView::Text(name),
    ) by {
        assert(grants.contains(name) == list.contains(name));
        if list.contains(name) {
            let k = list.index_of(name);
            assert(items[k] == JsonView::Text(name));
        }
        if items.contains(JsonView::Text(name)) {
            let k = items.index_of(JsonView::Text(name));
            assert(list[k] == name);
        }
    }
    assert(string_set(JsonView::Array(items))->0 =~= grants);
}

/// There is one list for a set of grants, so there is one record for it.
pub proof fn grants_are_listed_in_one_way(
    a: Seq<Seq<char>>,
    b: Seq<Seq<char>>,
    grants: Set<Seq<char>>,
)
    requires
        lists(a, grants),
        lists(b, grants),
    ensures
        a == b,
    decreases a.len(),
{
    if a.len() == 0 {
        if b.len() > 0 {
            assert(b.contains(b[0]));
            assert(a.contains(b[0]));
        }
        assert(a =~= b);
    } else {
        assert(a.contains(a[0]));
        assert(b.contains(a[0]));
        assert(b.contains(b[0]));
        assert(a.contains(b[0]));
        let i = a.index_of(b[0]);
        let j = b.index_of(a[0]);
        if i > 0 && j > 0 {
            assert(before(a[0], a[i]));
            assert(before(b[0], b[j]));
            lemma_before_is_total(a[0], b[0]);
        }
        assert(a[0] == b[0]);
        let first = a[0];
        let rest = grants.remove(first);
        lemma_lists_rest(a, grants);
        lemma_lists_rest(b, grants);
        grants_are_listed_in_one_way(a.drop_first(), b.drop_first(), rest);
        assert(a =~= seq![first] + a.drop_first());
        assert(b =~= seq![first] + b.drop_first());
    }
}

proof fn lemma_lists_rest(a: Seq<Seq<char>>, grants: Set<Seq<char>>)
    requires
        a.len() > 0,
        lists(a, grants),
    ensures
        lists(a.drop_first(), grants.remove(a[0])),
{
    let rest = a.drop_first();
    assert forall|i: int, j: int| 0 <= i < j < rest.len() implies before(
        #[trigger] rest[i],
        #[trigger] rest[j],
    ) by {
        assert(before(a[i + 1], a[j + 1]));
    }
    assert forall|name: Seq<char>| grants.remove(a[0]).contains(name) == #[trigger] rest.contains(
        name,
    ) by {
        assert(grants.contains(name) == a.contains(name));
        if rest.contains(name) {
            let k = rest.index_of(name);
            assert(a[k + 1] == name);
            assert(before(a[0], a[k + 1]));
            lemma_before_is_total(a[0], a[k + 1]);
        }
        if a.contains(name) && name != a[0] {
            let k = a.index_of(name);
            assert(rest[k - 1] == name);
        }
    }
}

proof fn lemma_place(list: Seq<Seq<char>>, name: Seq<char>) -> (i: int)
    ensures
        0 <= i <= list.len(),
        forall|j: int| 0 <= j < i ==> before(#[trigger] list[j], name),
        i < list.len() ==> !before(list[i], name),
    decreases list.len(),
{
    if list.len() == 0 || !before(list[0], name) {
        0
    } else {
        let rest = list.drop_first();
        let k = lemma_place(rest, name);
        assert forall|j: int| 0 <= j < k + 1 implies before(#[trigger] list[j], name) by {
            if j > 0 {
                assert(rest[j - 1] == list[j]);
            }
        }
        if k + 1 < list.len() {
            assert(rest[k] == list[k + 1]);
        }
        k + 1
    }
}

/// Every finite set of names has a list.
pub proof fn finite_grants_are_listed(grants: Set<Seq<char>>)
    requires
        grants.finite(),
    ensures
        lists(listing(grants), grants),
    decreases grants.len(),
{
    if grants.len() == 0 {
        let list = Seq::<Seq<char>>::empty();
        assert(grants =~= Set::empty());
        assert(lists(list, grants));
    } else {
        let name = grants.choose();
        let rest = grants.remove(name);
        finite_grants_are_listed(rest);
        let was = listing(rest);
        let i = lemma_place(was, name);
        assert forall|j: int| 0 <= j < was.len() implies #[trigger] was[j] != name by {
            assert(was.contains(was[j]));
        }
        let now = was.insert(i, name);
        assert forall|a: int, b: int| 0 <= a < b < now.len() implies before(
            #[trigger] now[a],
            #[trigger] now[b],
        ) by {
            lemma_insert_keeps_order(was, i, name, a, b);
        }
        assert forall|other: Seq<char>| grants.contains(other) == #[trigger] now.contains(
            other,
        ) by {
            assert(rest.contains(other) == was.contains(other));
            assert(now[i] == name);
            if was.contains(other) {
                let k = was.index_of(other);
                if k < i {
                    assert(now[k] == other);
                } else {
                    assert(now[k + 1] == other);
                }
            }
            if now.contains(other) && other != name {
                let k = now.index_of(other);
                if k < i {
                    assert(was[k] == other);
                } else {
                    assert(was[k - 1] == other);
                }
            }
        }
        assert(lists(now, grants));
    }
}

proof fn lemma_string_set_is_finite(value: JsonView)
    ensures
        string_set(value) is Some ==> string_set(value)->0.finite(),
{
    if let JsonView::Array(items) = value {
        if string_set(value) is Some {
            let names = items.map_values(|item: JsonView| item->Text_0);
            seq_to_set_is_finite(names);
            assert forall|name: Seq<char>| #[trigger] string_set(value)->0.contains(name)
                == names.to_set().contains(name) by {
                if items.contains(JsonView::Text(name)) {
                    let k = items.index_of(JsonView::Text(name));
                    assert(names[k] == name);
                }
                if names.contains(name) {
                    let k = names.index_of(name);
                    assert(items[k] is Text);
                    assert(items[k] == JsonView::Text(name));
                }
            }
            assert(string_set(value)->0 =~= names.to_set());
        }
    }
}

/// A session has finitely many grants, whatever its records hold.
pub proof fn grants_are_finite(data: Map<Key, JsonView>)
    ensures
        grants_in(data).finite(),
{
    if data.contains_key(permissions_key()) {
        let state = data[permissions_key()];
        if let JsonView::Object(fields) = state {
            if let Some(value) = field(fields, "granted"@) {
                lemma_string_set_is_finite(value);
            }
        }
        if let JsonView::Array(items) = state {
            if items.len() == 1 {
                lemma_string_set_is_finite(items[0]);
            }
        }
    }
}

/// What is written as a session's grants is what is read back, and no other
/// record is touched.
pub proof fn written_grants_are_read_back(data: Map<Key, JsonView>, grants: Set<Seq<char>>)
    requires
        grants.finite(),
    ensures
        grants_in(with_grants(data, grants)) == grants,
        forall|key: Key|
            key != permissions_key() ==> with_grants(data, grants).contains_key(key)
                == data.contains_key(key) && (data.contains_key(key) ==> #[trigger] with_grants(
                data,
                grants,
            )[key] == data[key]),
{
    finite_grants_are_listed(grants);
    grants_round_trip(listing(grants), grants);
}

/// There is one capability, to modify the session.
pub proof fn there_is_one_capability(name: Seq<char>)
    ensures
        capability_called(name) == (name == "session-modification"@),
        capabilities().len() == 1,
        capabilities()[0].1.len() > 0,
{
    assert(capabilities()[0].0 == SESSION_MODIFICATION@);
    reveal_strlit("Let the model compact the conversation when it judges the work needs it");
}

/// A record grants exactly the names that it lists, and nothing at all where it
/// lists anything but names.
pub proof fn a_record_grants_what_it_lists(
    fields: Seq<(Seq<char>, JsonView)>,
    items: Seq<JsonView>,
    name: Seq<char>,
)
    requires
        field(fields, "granted"@) == Some(JsonView::Array(items)),
    ensures
        (forall|i: int| 0 <= i < items.len() ==> #[trigger] items[i] is Text) ==> recorded_grants(
            JsonView::Object(fields),
        ) is Some && recorded_grants(JsonView::Object(fields))->0.contains(name) == exists|i: int|
            0 <= i < items.len() && #[trigger] items[i] == JsonView::Text(name),
        (exists|i: int| 0 <= i < items.len() && !(#[trigger] items[i] is Text)) ==> recorded_grants(
            JsonView::Object(fields),
        ) is None,
{
    if exists|i: int| 0 <= i < items.len() && #[trigger] items[i] == JsonView::Text(name) {
        assert(items.contains(JsonView::Text(name)));
    }
    if items.contains(JsonView::Text(name)) {
        let k = items.index_of(JsonView::Text(name));
        assert(items[k] == JsonView::Text(name));
    }
}

/// A session grants what its record of grants says, whatever else it records, and
/// nothing where there is none or it cannot be read.
pub proof fn grants_come_from_their_record_alone(
    data: Map<Key, JsonView>,
    other: Map<Key, JsonView>,
    name: Seq<char>,
)
    ensures
        grants_in(data).contains(name) ==> data.contains_key(("permissions"@, "v0"@))
            && recorded_grants(data[("permissions"@, "v0"@)]) is Some && recorded_grants(
            data[("permissions"@, "v0"@)],
        )->0.contains(name),
        data.contains_key(("permissions"@, "v0"@)) && recorded_grants(
            data[("permissions"@, "v0"@)],
        ) is Some && recorded_grants(data[("permissions"@, "v0"@)])->0.contains(name)
            ==> grants_in(data).contains(name),
        data.contains_key(("permissions"@, "v0"@)) == other.contains_key(("permissions"@, "v0"@))
            && data[("permissions"@, "v0"@)] == other[("permissions"@, "v0"@)] ==> grants_in(data)
            == grants_in(other),
{
}

/// What is no record grants nothing: neither a text nor a number, nor a list of
/// more than one member. A record that says nothing of grants grants nothing.
pub proof fn what_is_no_record_grants_nothing(state: JsonView)
    ensures
        !(state is Object) && !(state is Array) ==> recorded_grants(state) is None,
        state is Array && state->Array_0.len() > 1 ==> recorded_grants(state) is None,
        state is Object && field(state->Object_0, "granted"@) is None ==> recorded_grants(state)
            == Some(Set::<Seq<char>>::empty()),
        state is Object && field(state->Object_0, "granted"@) is Some && !(field(
            state->Object_0,
            "granted"@,
        )->0 is Array) ==> recorded_grants(state) is None,
        state is Array && state->Array_0.len() == 0 ==> recorded_grants(state) == Some(
            Set::<Seq<char>>::empty(),
        ),
        state is Array && state->Array_0.len() == 1 ==> recorded_grants(state) == recorded_grants(
            JsonView::Object(seq![("granted"@, state->Array_0[0])]),
        ),
{
    reveal_with_fuel(field, 2);
    if state is Array && state->Array_0.len() == 1 {
        let fields = seq![("granted"@, state->Array_0[0])];
        assert(field(fields, "granted"@) == Some(state->Array_0[0]));
    }
}

} // verus!
