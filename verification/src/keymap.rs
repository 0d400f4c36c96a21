//! Key remapping data: events, actions, layer sets and the mapping table.
//!
//! A mapping table takes a `Source` — an input event together with the set
//! of layers it is active on — to an `Action`.  The table keeps insertion
//! order and holds each source at most once; a layer set is kept strictly
//! sorted.  Each type renders itself to text exactly as specified.

use vstd::prelude::*;
use vstd::string::StringExecFns;

use crate::text::{dec_string, dec_string_usize, spec_dec};

verus! {

/// A key, by its index on the device.
#[derive(Clone, Copy, Debug, PartialEq, Eq, Hash, Structural)]
pub struct Key {
    pub key_index: usize,
}

impl Key {
    /// The key's rendering: its index in decimal.
    pub fn label(&self) -> (r: String)
        ensures
            r@ == spec_dec(self.key_index as nat),
    {
        dec_string_usize(self.key_index)
    }
}

/// A macro invocation, by function name.
#[derive(Clone, Debug)]
pub struct Macro {
    pub function_name: String,
}

impl Macro {
    /// The macro's rendering: `function <name>`.
    pub fn label(&self) -> (r: String)
        ensures
            r@ == "function "@ + self.function_name@,
    {
        let mut r = "function ".to_owned();
        r.append(self.function_name.as_str());
        r
    }
}

/// A mouse-wheel direction.
#[derive(Clone, Copy, Debug, PartialEq, Eq, Hash, Structural)]
pub enum Direction {
    Up,
    Down,
    Left,
    Right,
}

impl Direction {
    /// The direction's rendering.
    pub fn label(&self) -> (r: String)
        ensures
            r@ == match self {
                Direction::Up => "Up"@,
                Direction::Down => "Down"@,
                Direction::Left => "Left"@,
                Direction::Right => "Right"@,
            },
    {
        match self {
            Direction::Up => "Up".to_owned(),
            Direction::Down => "Down".to_owned(),
            Direction::Left => "Left".to_owned(),
            Direction::Right => "Right".to_owned(),
        }
    }
}

/// An input event a mapping listens for.
#[derive(Clone, Copy, Debug, PartialEq, Eq, Hash, Structural)]
pub enum Event {
    Null,
    HidKeyDown(Key),
    HidKeyUp(Key),
    HidMouseDown(Key),
    HidMouseUp(Key),
    EasyShiftKeyDown(Key),
    EasyShiftKeyUp(Key),
    EasyShiftMouseDown(Key),
    EasyShiftMouseUp(Key),
    EasyShiftMouseWheel(Direction),
    SimpleKeyDown(Key),
    SimpleKeyUp(Key),
    SimpleMouseDown(Key),
    SimpleMouseUp(Key),
    SimpleMouseWheel(Direction),
}

/// The rendering of an event.
pub open spec fn spec_event_text(e: Event) -> Seq<char> {
    match e {
        Event::Null => "<No action>"@,
        Event::HidKeyDown(key) => "hid+key-down: "@ + spec_dec(key.key_index as nat),
        Event::HidKeyUp(key) => "hid+key-up: "@ + spec_dec(key.key_index as nat),
        Event::HidMouseDown(key) => "hid+mouse-down: "@ + spec_dec(key.key_index as nat),
        Event::HidMouseUp(key) => "hid+mouse-up: "@ + spec_dec(key.key_index as nat),
        Event::EasyShiftKeyDown(key) => "es+key-down: "@ + spec_dec(key.key_index as nat),
        Event::EasyShiftKeyUp(key) => "es+key-up: "@ + spec_dec(key.key_index as nat),
        Event::EasyShiftMouseDown(key) => "es+mouse-down: "@ + spec_dec(key.key_index as nat),
        Event::EasyShiftMouseUp(key) => "es+mouse-up: "@ + spec_dec(key.key_index as nat),
        Event::EasyShiftMouseWheel(d) => "es+mouse-wheel: "@ + match d {
            Direction::Up => "Up"@,
            Direction::Down => "Down"@,
            Direction::Left => "Left"@,
            Direction::Right => "Right"@,
        },
        Event::SimpleKeyDown(key) => "key-down: "@ + spec_dec(key.key_index as nat),
        Event::SimpleKeyUp(key) => "key-up: "@ + spec_dec(key.key_index as nat),
        Event::SimpleMouseDown(key) => "mouse-down: "@ + spec_dec(key.key_index as nat),
        Event::SimpleMouseUp(key) => "mouse-up: "@ + spec_dec(key.key_index as nat),
        Event::SimpleMouseWheel(d) => "mouse-wheel: "@ + match d {
            Direction::Up => "Up"@,
            Direction::Down => "Down"@,
            Direction::Left => "Left"@,
            Direction::Right => "Right"@,
        },
    }
}

impl Event {
    /// The event's rendering.
    pub fn describe(&self) -> (r: String)
        ensures
            r@ == spec_event_text(*self),
    {
        match self {
            Event::Null => "<No action>".to_owned(),
            Event::HidKeyDown(key) => {
                let mut r = "hid+key-down: ".to_owned();
                r.append(key.label().as_str());
                r
            },
            Event::HidKeyUp(key) => {
                let mut r = "hid+key-up: ".to_owned();
                r.append(key.label().as_str());
                r
            },
            Event::HidMouseDown(key) => {
                let mut r = "hid+mouse-down: ".to_owned();
                r.append(key.label().as_str());
                r
            },
            Event::HidMouseUp(key) => {
                let mut r = "hid+mouse-up: ".to_owned();
                r.append(key.label().as_str());
                r
            },
            Event::EasyShiftKeyDown(key) => {
                let mut r = "es+key-down: ".to_owned();
                r.append(key.label().as_str());
                r
            },
            Event::EasyShiftKeyUp(key) => {
                let mut r = "es+key-up: ".to_owned();
                r.append(key.label().as_str());
                r
            },
            Event::EasyShiftMouseDown(key) => {
                let mut r = "es+mouse-down: ".to_owned();
                r.append(key.label().as_str());
                r
            },
            Event::EasyShiftMouseUp(key) => {
                let mut r = "es+mouse-up: ".to_owned();
                r.append(key.label().as_str());
                r
            },
            Event::EasyShiftMouseWheel(d) => {
                let mut r = "es+mouse-wheel: ".to_owned();
                r.append(d.label().as_str());
                r
            },
            Event::SimpleKeyDown(key) => {
                let mut r = "key-down: ".to_owned();
                r.append(key.label().as_str());
                r
            },
            Event::SimpleKeyUp(key) => {
                let mut r = "key-up: ".to_owned();
                r.append(key.label().as_str());
                r
            },
            Event::SimpleMouseDown(key) => {
                let mut r = "mouse-down: ".to_owned();
                r.append(key.label().as_str());
                r
            },
            Event::SimpleMouseUp(key) => {
                let mut r = "mouse-up: ".to_owned();
                r.append(key.label().as_str());
                r
            },
            Event::SimpleMouseWheel(d) => {
                let mut r = "mouse-wheel: ".to_owned();
                r.append(d.label().as_str());
                r
            },
        }
    }
}

/// An action a mapping performs.
#[derive(Clone, Debug)]
pub enum Action {
    Null,
    InjectKey(Key),
    Call(Macro),
}

/// The abstract value of an `Action`.
pub ghost enum ActionModel {
    Null,
    InjectKey(Key),
    Call(Seq<char>),
}

impl View for Action {
    type V = ActionModel;

    open spec fn view(&self) -> ActionModel {
        match self {
            Action::Null => ActionModel::Null,
            Action::InjectKey(key) => ActionModel::InjectKey(*key),
            Action::Call(call) => ActionModel::Call(call.function_name@),
        }
    }
}

impl Action {
    /// An equal copy of this action.
    pub fn duplicate(&self) -> (r: Action)
        ensures
            r@ == self@,
    {
        match self {
            Action::Null => Action::Null,
            Action::InjectKey(key) => Action::InjectKey(*key),
            Action::Call(call) => Action::Call(
                Macro { function_name: call.function_name.clone() },
            ),
        }
    }
    /// The action's rendering.
    pub fn describe(&self) -> (r: String)
        ensures
            r@ == match self {
                Action::Null => "<No action>"@,
                Action::InjectKey(key) => "Key: "@ + spec_dec(key.key_index as nat),
                Action::Call(call) => "Call: "@ + "function "@ + call.function_name@,
            },
    {
        match self {
            Action::Null => "<No action>".to_owned(),
            Action::InjectKey(key) => {
                let mut r = "Key: ".to_owned();
                r.append(key.label().as_str());
                r
            },
            Action::Call(call) => {
                let mut r = "Call: ".to_owned();
                r.append(call.label().as_str());
                r
            },
        }
    }
}

/// A set of layer numbers, kept strictly sorted.
#[derive(Clone, Debug)]
pub struct LayerSet(pub Vec<usize>);

/// Strictly ascending: sorted with no duplicates.
pub open spec fn strictly_sorted(s: Seq<usize>) -> bool {
    forall|i: int, j: int| 0 <= i < j < s.len() ==> s[i] < s[j]
}

/// The rendering of a layer set: each member in order, each followed by one
/// space.
pub open spec fn spec_layers_text(s: Seq<usize>) -> Seq<char>
    decreases s.len(),
{
    if s.len() == 0 {
        Seq::empty()
    } else {
        spec_layers_text(s.drop_last()) + spec_dec(s.last() as nat) + " "@
    }
}

impl LayerSet {
    pub open spec fn wf(&self) -> bool {
        strictly_sorted(self.0@)
    }

    /// The set as a mathematical set of layer numbers.
    pub open spec fn as_set(&self) -> Set<usize> {
        self.0@.to_set()
    }

    /// The layer set's rendering.
    pub fn describe(&self) -> (r: String)
        ensures
            r@ == spec_layers_text(self.0@),
    {
        let mut r = String::new();
        let n = self.0.len();
        let mut i: usize = 0;
        while i < n
            invariant
                i <= n,
                n == self.0@.len(),
                r@ == spec_layers_text(self.0@.subrange(0, i as int)),
            decreases n - i,
        {
            r.append(dec_string_usize(self.0[i]).as_str());
            r.append(" ");
            proof {
                assert(self.0@.subrange(0, i + 1 as int).drop_last() =~= self.0@.subrange(
                    0,
                    i as int,
                ));
                assert(self.0@.subrange(0, i + 1 as int).last() == self.0@[i as int]);
            }
            i = i + 1;
        }
        proof {
            assert(self.0@.subrange(0, n as int) =~= self.0@);
        }
        r
    }
}

/// A sequence extended by one element holds exactly the old elements and
/// the new one.
proof fn lemma_to_set_push(s: Seq<usize>, x: usize)
    ensures
        s.push(x).to_set() == s.to_set().insert(x),
{
    assert forall|y: usize| #[trigger] s.push(x).to_set().contains(y) implies s.to_set().insert(
        x,
    ).contains(y) by {
        let idx = choose|idx: int| 0 <= idx < s.push(x).len() && s.push(x)[idx] == y;
        if idx < s.len() {
            assert(s[idx] == y);
        }
    }
    assert forall|y: usize| #[trigger] s.to_set().insert(x).contains(y) implies s.push(
        x,
    ).to_set().contains(y) by {
        if y == x {
            assert(s.push(x)[s.len() as int] == y);
        } else {
            let idx = choose|idx: int| 0 <= idx < s.len() && s[idx] == y;
            assert(s.push(x)[idx] == y);
        }
    }
    assert(s.push(x).to_set() =~= s.to_set().insert(x));
}

/// Inserts a layer into a strictly sorted vector, keeping it strictly
/// sorted; a layer already present is left alone.
fn layer_insert(v: &mut Vec<usize>, x: usize)
    requires
        strictly_sorted(old(v)@),
    ensures
        strictly_sorted(final(v)@),
        final(v)@.to_set() == old(v)@.to_set().insert(x),
{
    let n = v.len();
    let mut i: usize = 0;
    while i < n && v[i] < x
        invariant
            i <= n,
            n == v@.len(),
            strictly_sorted(v@),
            forall|j: int| 0 <= j < i ==> v@[j] < x,
        decreases n - i,
    {
        i = i + 1;
    }
    if i < n && v[i] == x {
        proof {
            assert(v@.to_set().insert(x) =~= v@.to_set()) by {
                assert(v@.to_set().contains(x));
            }
        }
        return ;
    }
    let ghost before = v@;
    v.insert(i, x);
    proof {
        assert forall|a: int, b: int| 0 <= a < b < v@.len() implies v@[a] < v@[b] by {
            if b < i {
            } else if a < i && b == i {
                assert(v@[a] == before[a]);
            } else if a < i {
                assert(v@[a] == before[a]);
                assert(v@[b] == before[b - 1]);
                assert(before[a] < x);
                if b - 1 >= i {
                    assert(before[i as int] != x);
                    assert(before[i as int] >= x);
                }
            } else if a == i {
                assert(v@[b] == before[b - 1]);
                assert(before[b - 1] >= before[i as int]);
                assert(before[i as int] != x);
                assert(before[i as int] >= x);
            } else {
                assert(v@[a] == before[a - 1]);
                assert(v@[b] == before[b - 1]);
            }
        }
        assert(v@.to_set() =~= before.to_set().insert(x)) by {
            assert forall|y: usize| #[trigger] v@.to_set().contains(y) implies before.to_set().insert(
                x,
            ).contains(y) by {
                let idx = choose|idx: int| 0 <= idx < v@.len() && v@[idx] == y;
                if idx < i {
                    assert(before[idx] == y);
                    assert(before.to_set().contains(y));
                } else if idx == i {
                } else {
                    assert(before[idx - 1] == y);
                    assert(before.to_set().contains(y));
                }
            }
            assert forall|y: usize| #[trigger] before.to_set().insert(x).contains(y) implies v@.to_set().contains(
                y,
            ) by {
                if y == x {
                    assert(v@[i as int] == x);
                } else {
                    let idx = choose|idx: int| 0 <= idx < before.len() && before[idx] == y;
                    if idx < i {
                        assert(v@[idx] == y);
                    } else {
                        assert(v@[idx + 1] == y);
                    }
                }
            }
        }
    }
}

/// The abstract value of a `Source`.
pub ghost struct SourceModel {
    pub event: Event,
    pub layers: Seq<usize>,
}

/// An input event together with the layers it is active on.
#[derive(Clone, Debug)]
pub struct Source {
    pub event: Event,
    pub layers: LayerSet,
}

impl View for Source {
    type V = SourceModel;

    open spec fn view(&self) -> SourceModel {
        SourceModel { event: self.event, layers: self.layers.0@ }
    }
}

impl Source {
    pub open spec fn wf(&self) -> bool {
        self.layers.wf()
    }

    /// A source active on layer 1 only.
    pub fn new(event: Event) -> (s: Source)
        ensures
            s.wf(),
            s@.event == event,
            s@.layers == seq![1usize],
    {
        let mut layers: Vec<usize> = Vec::new();
        layers.push(1);
        proof {
            assert(layers@ =~= seq![1usize]);
        }
        Source { event, layers: LayerSet(layers) }
    }

    /// A source active on exactly the given layers.
    pub fn new_with_layers(event: Event, active_layers: &Vec<usize>) -> (s: Source)
        ensures
            s.wf(),
            s@.event == event,
            s@.layers.to_set() == active_layers@.to_set(),
    {
        let mut layers: Vec<usize> = Vec::new();
        let mut i: usize = 0;
        while i < active_layers.len()
            invariant
                i <= active_layers@.len(),
                strictly_sorted(layers@),
                layers@.to_set() == active_layers@.subrange(0, i as int).to_set(),
            decreases active_layers@.len() - i,
        {
            layer_insert(&mut layers, active_layers[i]);
            proof {
                assert(active_layers@.subrange(0, i + 1 as int) =~= active_layers@.subrange(
                    0,
                    i as int,
                ).push(active_layers@[i as int]));
                lemma_to_set_push(active_layers@.subrange(0, i as int), active_layers@[i as int]);
            }
            i = i + 1;
        }
        proof {
            assert(active_layers@.subrange(0, active_layers@.len() as int) =~= active_layers@);
        }
        Source { event, layers: LayerSet(layers) }
    }

    /// The layer vector, for in-place editing; the caller is responsible
    /// for keeping it strictly sorted.
    pub fn get_layers_mut(&mut self) -> (layers: &mut Vec<usize>)
        ensures
            *layers == old(self).layers.0,
            final(self).event == old(self).event,
            final(self).layers.0 == *final(layers),
    {
        &mut self.layers.0
    }

    /// An equal copy of this source.
    pub fn duplicate(&self) -> (r: Source)
        ensures
            r@ == self@,
    {
        let mut layers: Vec<usize> = Vec::new();
        let mut i: usize = 0;
        while i < self.layers.0.len()
            invariant
                i <= self.layers.0@.len(),
                layers@ == self.layers.0@.subrange(0, i as int),
            decreases self.layers.0@.len() - i,
        {
            layers.push(self.layers.0[i]);
            proof {
                assert(layers@ =~= self.layers.0@.subrange(0, i + 1 as int));
            }
            i = i + 1;
        }
        proof {
            assert(self.layers.0@.subrange(0, self.layers.0@.len() as int) =~= self.layers.0@);
        }
        Source { event: self.event, layers: LayerSet(layers) }
    }

    /// The source's rendering.
    pub fn describe(&self) -> (r: String)
        ensures
            r@ == "Source: event: "@ + spec_event_text(self.event) + ", on layers: [ "@
                + spec_layers_text(self.layers.0@) + "]"@,
    {
        let mut r = "Source: event: ".to_owned();
        r.append(self.event.describe().as_str());
        r.append(", on layers: [ ");
        r.append(self.layers.describe().as_str());
        r.append("]");
        r
    }
}

/// Whether two sources are the same mapping key: same event, same layers.
pub fn source_eq(a: &Source, b: &Source) -> (r: bool)
    ensures
        r == (a@ == b@),
{
    if a.event == b.event {
        let n = a.layers.0.len();
        if n != b.layers.0.len() {
            proof {
                assert(a@.layers.len() != b@.layers.len());
            }
            return false;
        }
        let mut i: usize = 0;
        while i < n
            invariant
                i <= n,
                n == a.layers.0@.len(),
                n == b.layers.0@.len(),
                forall|j: int| 0 <= j < i ==> a.layers.0@[j] == b.layers.0@[j],
            decreases n - i,
        {
            if a.layers.0[i] != b.layers.0[i] {
                return false;
            }
            i = i + 1;
        }
        proof {
            assert(a@.layers =~= b@.layers);
        }
        true
    } else {
        false
    }
}

/// Table metadata: where the table lives and where it came from, with its
/// creation time in milliseconds since the epoch.
#[derive(Clone, Debug)]
pub struct TableMetadata {
    pub file_name: String,
    pub description: String,
    pub creation_date: u64,
}

impl TableMetadata {
    pub fn new(file_name: String, description: String, creation_date: u64) -> (m: TableMetadata)
        ensures
            m.file_name == file_name,
            m.description == description,
            m.creation_date == creation_date,
    {
        TableMetadata { file_name, description, creation_date }
    }

    /// The metadata's rendering, one field per line.
    pub fn describe(&self) -> (r: String)
        ensures
            r@ == "File: "@ + self.file_name@ + "\nDescription: "@ + self.description@
                + "\nCreation date: "@ + spec_dec(self.creation_date as nat),
    {
        let mut r = "File: ".to_owned();
        r.append(self.file_name.as_str());
        r.append("\nDescription: ");
        r.append(self.description.as_str());
        r.append("\nCreation date: ");
        r.append(dec_string(self.creation_date).as_str());
        r
    }
}

impl Default for TableMetadata {
    /// A fresh table: the default file name, a placeholder description, and
    /// a creation date still to be stamped by the caller.
    fn default() -> (m: TableMetadata)
        ensures
            m.file_name@ == "default.keymap"@,
            m.description@ == "<no description specified>"@,
            m.creation_date == 0,
    {
        TableMetadata {
            file_name: "default.keymap".to_owned(),
            description: "<no description specified>".to_owned(),
            creation_date: 0,
        }
    }
}

/// A mapping table: sources to actions, in insertion order, each source at
/// most once.
#[derive(Clone, Debug)]
pub struct KeyMappingTable {
    pub metadata: TableMetadata,
    pub mappings: Vec<(Source, Action)>,
}

/// The abstract value of a table's entry list: source and action models, in
/// entry order.
pub open spec fn spec_entries(ms: Seq<(Source, Action)>) -> Seq<(SourceModel, ActionModel)> {
    Seq::new(ms.len(), |i: int| (ms[i].0@, ms[i].1@))
}

impl KeyMappingTable {
    /// The table's entries as abstract values, in insertion order.
    pub open spec fn entries(&self) -> Seq<(SourceModel, ActionModel)> {
        spec_entries(self.mappings@)
    }

    /// Every entry's layer set is sorted and no two entries share a source.
    pub open spec fn wf(&self) -> bool {
        &&& forall|i: int| 0 <= i < self.mappings@.len() ==> (#[trigger] self.mappings@[i].0).wf()
        &&& forall|i: int, j: int|
            0 <= i < j < self.mappings@.len() ==> self.mappings@[i].0@ != self.mappings@[j].0@
    }

    /// An empty table with default metadata.
    pub fn new() -> (t: KeyMappingTable)
        ensures
            t.wf(),
            t.mappings@.len() == 0,
            t.metadata.file_name@ == "default.keymap"@,
    {
        KeyMappingTable { metadata: TableMetadata::default(), mappings: Vec::new() }
    }

    /// The file the table was loaded from.
    pub fn file_name(&self) -> (r: &String)
        ensures
            r == self.metadata.file_name,
    {
        &self.metadata.file_name
    }

    /// The table's description.
    pub fn description(&self) -> (r: &String)
        ensures
            r == self.metadata.description,
    {
        &self.metadata.description
    }

    /// Points the table at another file.
    pub fn set_file_name(&mut self, file_name: String)
        ensures
            final(self).metadata.file_name == file_name,
            final(self).metadata.description == old(self).metadata.description,
            final(self).metadata.creation_date == old(self).metadata.creation_date,
            final(self).mappings == old(self).mappings,
    {
        self.metadata.file_name = file_name;
    }

    /// Replaces the table's description.
    pub fn set_description(&mut self, description: &str)
        ensures
            final(self).metadata.description@ == description@,
            final(self).metadata.file_name == old(self).metadata.file_name,
            final(self).metadata.creation_date == old(self).metadata.creation_date,
            final(self).mappings == old(self).mappings,
    {
        self.metadata.description = description.to_owned();
    }

    /// Maps `source` to `action`: replaces the action of an entry already
    /// keyed by `source` (returning the action it had), or appends a new
    /// entry.  Entry order is kept.
    pub fn insert(&mut self, source: Source, action: Action) -> (prev: Option<Action>)
        requires
            old(self).wf(),
            source.wf(),
        ensures
            final(self).wf(),
            final(self).metadata == old(self).metadata,
            match prev {
                Some(a) => exists|i: int|
                    {
                        &&& 0 <= i < old(self).entries().len()
                        &&& (#[trigger] old(self).entries()[i]).0 == source@
                        &&& a@ == old(self).entries()[i].1
                        &&& final(self).entries() == old(self).entries().update(i, (source@, action@))
                    },
                None => {
                    &&& forall|i: int|
                        0 <= i < old(self).entries().len() ==> (#[trigger] old(
                            self,
                        ).entries()[i]).0 != source@
                    &&& final(self).entries() == old(self).entries().push((source@, action@))
                },
            },
    {
        let n = self.mappings.len();
        let mut i: usize = 0;
        while i < n
            invariant
                i <= n,
                n == self.mappings@.len(),
                *self == *old(self),
                self.wf(),
                source.wf(),
                forall|j: int| 0 <= j < i ==> (#[trigger] self.mappings@[j].0@) != source@,
            decreases n - i,
        {
            if source_eq(&self.mappings[i].0, &source) {
                let prev = self.mappings[i].1.duplicate();
                let ghost before = self.mappings@;
                let kept = self.mappings[i].0.duplicate();
                self.mappings.set(i, (kept, action));
                proof {
                    assert forall|a: int, b: int|
                        0 <= a < b < self.mappings@.len() implies self.mappings@[a].0@
                        != self.mappings@[b].0@ by {
                        assert(self.mappings@[a].0@ == before[a].0@);
                        assert(self.mappings@[b].0@ == before[b].0@);
                    }
                    assert forall|k: int|
                        0 <= k < self.mappings@.len() implies (#[trigger] self.mappings@[k].0).wf() by {
                        if k != i {
                            assert(self.mappings@[k] == before[k]);
                        }
                    }
                    assert(spec_entries(self.mappings@) =~= spec_entries(before).update(
                        i as int,
                        (source@, action@),
                    ));
                    assert(old(self).entries()[i as int].0 == source@);
                    assert(prev@ == old(self).entries()[i as int].1);
                    assert(final(self).entries() == old(self).entries().update(
                        i as int,
                        (source@, action@),
                    ));
                }
                return Some(prev);
            }
            i = i + 1;
        }
        self.mappings.push((source, action));
        proof {
            let pushed = self.mappings@;
            let before = old(self).mappings@;
            assert forall|a: int, b: int| 0 <= a < b < pushed.len() implies pushed[a].0@
                != pushed[b].0@ by {
                if b < before.len() {
                } else {
                    assert(pushed[b].0@ == source@);
                    assert(before[a].0@ != source@);
                }
            }
            assert forall|k: int| 0 <= k < pushed.len() implies (#[trigger] pushed[k].0).wf() by {
                if k < before.len() {
                    assert(pushed[k] == before[k]);
                }
            }
            assert(spec_entries(pushed) =~= spec_entries(before).push((source@, action@)));
        }
        None
    }

    /// Removes the entry keyed by `source`, returning its action; a source
    /// not in the table leaves it unchanged.
    pub fn remove(&mut self, source: &Source) -> (removed: Option<Action>)
        requires
            old(self).wf(),
        ensures
            final(self).wf(),
            final(self).metadata == old(self).metadata,
            match removed {
                Some(a) => exists|i: int|
                    {
                        &&& 0 <= i < old(self).entries().len()
                        &&& (#[trigger] old(self).entries()[i]).0 == source@
                        &&& a@ == old(self).entries()[i].1
                        &&& final(self).entries() == old(self).entries().remove(i)
                    },
                None => {
                    &&& forall|i: int|
                        0 <= i < old(self).entries().len() ==> (#[trigger] old(
                            self,
                        ).entries()[i]).0 != source@
                    &&& final(self).entries() == old(self).entries()
                },
            },
    {
        let n = self.mappings.len();
        let mut i: usize = 0;
        while i < n
            invariant
                i <= n,
                n == self.mappings@.len(),
                *self == *old(self),
                self.wf(),
                forall|j: int| 0 <= j < i ==> (#[trigger] self.mappings@[j].0@) != source@,
            decreases n - i,
        {
            if source_eq(&self.mappings[i].0, source) {
                let removed = self.mappings[i].1.duplicate();
                let ghost before = self.mappings@;
                let _ = self.mappings.remove(i);
                proof {
                    assert forall|a: int, b: int|
                        0 <= a < b < self.mappings@.len() implies self.mappings@[a].0@
                        != self.mappings@[b].0@ by {
                        let a0: int = if a < i { a } else { a + 1 };
                        let b0: int = if b < i { b } else { b + 1 };
                        assert(self.mappings@[a] == before[a0]);
                        assert(self.mappings@[b] == before[b0]);
                    }
                    assert forall|k: int|
                        0 <= k < self.mappings@.len() implies (#[trigger] self.mappings@[k].0).wf() by {
                        let k0: int = if k < i { k } else { k + 1 };
                        assert(self.mappings@[k] == before[k0]);
                    }
                    assert(spec_entries(self.mappings@) =~= spec_entries(before).remove(i as int));
                    assert(old(self).entries()[i as int].0 == source@);
                    assert(removed@ == old(self).entries()[i as int].1);
                    assert(final(self).entries() == old(self).entries().remove(i as int));
                }
                return Some(removed);
            }
            i = i + 1;
        }
        None
    }

    /// The table's metadata.
    pub fn metadata(&self) -> (r: &TableMetadata)
        ensures
            r == self.metadata,
    {
        &self.metadata
    }

    /// The table's entries, in insertion order.
    pub fn mappings(&self) -> (r: &Vec<(Source, Action)>)
        ensures
            r == self.mappings,
    {
        &self.mappings
    }

    /// The metadata, for in-place editing.
    pub fn metadata_mut(&mut self) -> (r: &mut TableMetadata)
        ensures
            *r == old(self).metadata,
            final(self).metadata == *final(r),
            final(self).mappings == old(self).mappings,
    {
        &mut self.metadata
    }

    /// The entries, for in-place editing; the caller is responsible for
    /// keeping the sources distinct.
    pub fn mappings_mut(&mut self) -> (r: &mut Vec<(Source, Action)>)
        ensures
            *r == old(self).mappings,
            final(self).mappings == *final(r),
            final(self).metadata == old(self).metadata,
    {
        &mut self.mappings
    }
}

/// One assignment into a per-layer, per-key table:
/// `TABLE[layer+1][key] = rhs`.
pub open spec fn spec_layer_key_line(table: Seq<char>, layer: usize, key: usize, rhs: Seq<char>) -> Seq<char> {
    table + "["@ + spec_dec((layer + 1) as nat) + "]["@ + spec_dec(key as nat) + "] = "@ + rhs
}

/// One assignment into a per-layer table: `TABLE[layer+1] = rhs`.
pub open spec fn spec_layer_line(table: Seq<char>, layer: usize, rhs: Seq<char>) -> Seq<char> {
    table + "["@ + spec_dec((layer + 1) as nat) + "] = "@ + rhs
}

/// One assignment into a per-key table: `TABLE[key] = rhs`.
pub open spec fn spec_key_line(table: Seq<char>, key: usize, rhs: Seq<char>) -> Seq<char> {
    table + "["@ + spec_dec(key as nat) + "] = "@ + rhs
}

/// Two numbers separated by a space.
pub open spec fn spec_pair_line(a: usize, b: usize) -> Seq<char> {
    spec_dec(a as nat) + " "@ + spec_dec(b as nat)
}

/// One `spec_layer_key_line` per active layer, in layer order.
pub open spec fn spec_layer_key_lines(
    table: Seq<char>,
    layers: Seq<usize>,
    key: usize,
    rhs: Seq<char>,
) -> Seq<Seq<char>> {
    Seq::new(layers.len(), |i: int| spec_layer_key_line(table, layers[i], key, rhs))
}

/// One `spec_layer_line` per active layer, in layer order.
pub open spec fn spec_layer_lines(table: Seq<char>, layers: Seq<usize>, rhs: Seq<char>) -> Seq<
    Seq<char>,
> {
    Seq::new(layers.len(), |i: int| spec_layer_line(table, layers[i], rhs))
}

/// The generated code for one mapping: which table assignments (if any) the
/// pair of trigger event and action compiles to.  Combinations the compiler
/// does not support yield a comment; disabled ones say so; a few yield
/// nothing.
pub open spec fn spec_stanza_lines(event: Event, action: ActionModel, layers: Seq<usize>) -> Seq<
    Seq<char>,
> {
    match action {
        ActionModel::Null => seq!["-- ACTION IS DISABLED"@],
        ActionModel::InjectKey(dest) => match event {
            Event::Null => seq!["-- ACTION IS DISABLED"@],
            Event::HidKeyDown(_) => seq!["-- ACTION IS NOT IMPLEMENTED"@],
            Event::HidKeyUp(_) => seq!["-- ACTION IS NOT IMPLEMENTED"@],
            Event::HidMouseDown(key) => seq![
                spec_key_line(
                    "MOUSE_HID_REMAPPING_TABLE"@,
                    key.key_index,
                    spec_dec(dest.key_index as nat),
                ),
            ],
            Event::HidMouseUp(_) => seq!["-- ACTION IS NOT IMPLEMENTED"@],
            Event::EasyShiftKeyDown(key) => spec_layer_key_lines(
                "EASY_SHIFT_REMAPPING_TABLE"@,
                layers,
                key.key_index,
                spec_dec(dest.key_index as nat),
            ),
            Event::EasyShiftKeyUp(_) => seq!["-- ACTION IS NOT IMPLEMENTED"@],
            Event::EasyShiftMouseDown(_) => seq!["-- ACTION IS NOT IMPLEMENTED"@],
            Event::EasyShiftMouseUp(_) => seq!["-- ACTION IS NOT IMPLEMENTED"@],
            Event::EasyShiftMouseWheel(_) => Seq::empty(),
            Event::SimpleKeyDown(key) => seq![
                spec_key_line("REMAPPING_TABLE"@, key.key_index, spec_dec(dest.key_index as nat)),
            ],
            Event::SimpleKeyUp(key) => seq![spec_pair_line(key.key_index, dest.key_index)],
            Event::SimpleMouseDown(key) => seq![spec_pair_line(key.key_index, dest.key_index)],
            Event::SimpleMouseUp(key) => seq![spec_pair_line(key.key_index, dest.key_index)],
            Event::SimpleMouseWheel(_) => Seq::empty(),
        },
        ActionModel::Call(function_name) => match event {
            Event::Null => seq!["-- ACTION IS DISABLED"@],
            Event::HidKeyDown(_) => seq!["-- ACTION IS NOT IMPLEMENTED"@],
            Event::HidKeyUp(_) => seq!["-- ACTION IS DISABLED"@],
            Event::HidMouseDown(_) => Seq::empty(),
            Event::HidMouseUp(_) => seq!["-- ACTION IS NOT IMPLEMENTED"@],
            Event::EasyShiftKeyDown(key) => spec_layer_key_lines(
                "EASY_SHIFT_MACRO_TABLE"@,
                layers,
                key.key_index,
                function_name,
            ),
            Event::EasyShiftKeyUp(_) => seq!["-- ACTION IS DISABLED"@],
            Event::EasyShiftMouseDown(key) => spec_layer_key_lines(
                "EASY_SHIFT_MOUSE_DOWN_MACRO_TABLE"@,
                layers,
                key.key_index,
                function_name,
            ),
            Event::EasyShiftMouseUp(key) => spec_layer_key_lines(
                "EASY_SHIFT_MOUSE_UP_MACRO_TABLE"@,
                layers,
                key.key_index,
                function_name,
            ),
            Event::EasyShiftMouseWheel(_) => spec_layer_lines(
                "EASY_SHIFT_MOUSE_WHEEL_MACRO_TABLE"@,
                layers,
                function_name,
            ),
            Event::SimpleKeyDown(_) => seq!["-- ACTION IS DISABLED"@],
            Event::SimpleKeyUp(_) => seq!["-- ACTION IS DISABLED"@],
            Event::SimpleMouseDown(_) => Seq::empty(),
            Event::SimpleMouseUp(_) => Seq::empty(),
            Event::SimpleMouseWheel(_) => Seq::empty(),
        },
    }
}

/// Builds one `TABLE[layer+1][key] = rhs` line.
fn layer_key_line(table: &str, layer: usize, key: usize, rhs: &str) -> (r: String)
    requires
        layer < usize::MAX,
    ensures
        r@ == spec_layer_key_line(table@, layer, key, rhs@),
{
    let mut r = table.to_owned();
    r.append("[");
    r.append(dec_string_usize(layer + 1).as_str());
    r.append("][");
    r.append(dec_string_usize(key).as_str());
    r.append("] = ");
    r.append(rhs);
    r
}

/// Builds the per-layer lines for a layered, keyed table.
fn layer_key_lines(table: &str, layers: &Vec<usize>, key: usize, rhs: &str) -> (lines: Vec<String>)
    requires
        forall|i: int| 0 <= i < layers@.len() ==> (#[trigger] layers@[i]) < usize::MAX,
    ensures
        lines.deep_view() == spec_layer_key_lines(table@, layers@, key, rhs@),
{
    let mut lines: Vec<String> = Vec::new();
    let mut i: usize = 0;
    while i < layers.len()
        invariant
            i <= layers@.len(),
            forall|k: int| 0 <= k < layers@.len() ==> (#[trigger] layers@[k]) < usize::MAX,
            lines@.len() == i,
            lines.deep_view() == spec_layer_key_lines(table@, layers@, key, rhs@).subrange(
                0,
                i as int,
            ),
        decreases layers@.len() - i,
    {
        let line = layer_key_line(table, layers[i], key, rhs);
        let ghost prev_view = lines@;
        let ghost prev_deep = lines.deep_view();
        lines.push(line);
        proof {
            assert(lines@[i as int]@ == spec_layer_key_line(table@, layers@[i as int], key, rhs@));
            assert forall|j: int| 0 <= j < i implies lines.deep_view()[j] == prev_deep[j] by {
                assert(lines@[j] == prev_view[j]);
            }
            assert(lines.deep_view() =~= spec_layer_key_lines(table@, layers@, key, rhs@).subrange(
                0,
                i + 1 as int,
            ));
        }
        i = i + 1;
    }
    proof {
        assert(spec_layer_key_lines(table@, layers@, key, rhs@).subrange(0, layers@.len() as int)
            =~= spec_layer_key_lines(table@, layers@, key, rhs@));
    }
    lines
}

/// Builds the per-layer lines for a layered table without a key index.
fn layer_lines(table: &str, layers: &Vec<usize>, rhs: &str) -> (lines: Vec<String>)
    requires
        forall|i: int| 0 <= i < layers@.len() ==> (#[trigger] layers@[i]) < usize::MAX,
    ensures
        lines.deep_view() == spec_layer_lines(table@, layers@, rhs@),
{
    let mut lines: Vec<String> = Vec::new();
    let mut i: usize = 0;
    while i < layers.len()
        invariant
            i <= layers@.len(),
            forall|k: int| 0 <= k < layers@.len() ==> (#[trigger] layers@[k]) < usize::MAX,
            lines@.len() == i,
            lines.deep_view() == spec_layer_lines(table@, layers@, rhs@).subrange(0, i as int),
        decreases layers@.len() - i,
    {
        let mut r = table.to_owned();
        r.append("[");
        r.append(dec_string_usize(layers[i] + 1).as_str());
        r.append("] = ");
        r.append(rhs);
        lines.push(r);
        proof {
            assert(lines.deep_view() =~= spec_layer_lines(table@, layers@, rhs@).subrange(
                0,
                i + 1 as int,
            ));
        }
        i = i + 1;
    }
    proof {
        assert(spec_layer_lines(table@, layers@, rhs@).subrange(0, layers@.len() as int)
            =~= spec_layer_lines(table@, layers@, rhs@));
    }
    lines
}

/// Builds one `TABLE[key] = rhs` line.
fn key_line(table: &str, key: usize, rhs: &str) -> (r: String)
    ensures
        r@ == spec_key_line(table@, key, rhs@),
{
    let mut r = table.to_owned();
    r.append("[");
    r.append(dec_string_usize(key).as_str());
    r.append("] = ");
    r.append(rhs);
    r
}

/// A vector holding one line.
fn one_line(line: String) -> (lines: Vec<String>)
    ensures
        lines.deep_view() == seq![line@],
{
    let mut lines: Vec<String> = Vec::new();
    lines.push(line);
    proof {
        assert(lines.deep_view() =~= seq![lines@[0]@]);
    }
    lines
}

/// The generated code for one mapping of the table; exactly
/// `spec_stanza_lines` over the source's event, the action and the source's
/// layers.
pub fn stanza_lines(source: &Source, action: &Action) -> (lines: Vec<String>)
    requires
        forall|i: int| 0 <= i < source.layers.0@.len() ==> (#[trigger] source.layers.0@[i]) < usize::MAX,
    ensures
        lines.deep_view() == spec_stanza_lines(source@.event, action@, source@.layers),
{
    match action {
        Action::Null => one_line("-- ACTION IS DISABLED".to_owned()),
        Action::InjectKey(dest) => {
            let rhs = dec_string_usize(dest.key_index);
            match &source.event {
                Event::Null => one_line("-- ACTION IS DISABLED".to_owned()),
                Event::HidKeyDown(_) => one_line("-- ACTION IS NOT IMPLEMENTED".to_owned()),
                Event::HidKeyUp(_) => one_line("-- ACTION IS NOT IMPLEMENTED".to_owned()),
                Event::HidMouseDown(key) => one_line(
                    key_line("MOUSE_HID_REMAPPING_TABLE", key.key_index, rhs.as_str()),
                ),
                Event::HidMouseUp(_) => one_line("-- ACTION IS NOT IMPLEMENTED".to_owned()),
                Event::EasyShiftKeyDown(key) => layer_key_lines(
                    "EASY_SHIFT_REMAPPING_TABLE",
                    &source.layers.0,
                    key.key_index,
                    rhs.as_str(),
                ),
                Event::EasyShiftKeyUp(_) => one_line("-- ACTION IS NOT IMPLEMENTED".to_owned()),
                Event::EasyShiftMouseDown(_) => one_line(
                    "-- ACTION IS NOT IMPLEMENTED".to_owned(),
                ),
                Event::EasyShiftMouseUp(_) => one_line("-- ACTION IS NOT IMPLEMENTED".to_owned()),
                Event::EasyShiftMouseWheel(_) => {
                    let lines: Vec<String> = Vec::new();
                    proof {
                        assert(lines.deep_view() =~= Seq::<Seq<char>>::empty());
                    }
                    lines
                },
                Event::SimpleKeyDown(key) => one_line(
                    key_line("REMAPPING_TABLE", key.key_index, rhs.as_str()),
                ),
                Event::SimpleKeyUp(key) => {
                    let mut r = dec_string_usize(key.key_index);
                    r.append(" ");
                    r.append(rhs.as_str());
                    one_line(r)
                },
                Event::SimpleMouseDown(key) => {
                    let mut r = dec_string_usize(key.key_index);
                    r.append(" ");
                    r.append(rhs.as_str());
                    one_line(r)
                },
                Event::SimpleMouseUp(key) => {
                    let mut r = dec_string_usize(key.key_index);
                    r.append(" ");
                    r.append(rhs.as_str());
                    one_line(r)
                },
                Event::SimpleMouseWheel(_) => {
                    let lines: Vec<String> = Vec::new();
                    proof {
                        assert(lines.deep_view() =~= Seq::<Seq<char>>::empty());
                    }
                    lines
                },
            }
        },
        Action::Call(call) => {
            let rhs = &call.function_name;
            match &source.event {
                Event::Null => one_line("-- ACTION IS DISABLED".to_owned()),
                Event::HidKeyDown(_) => one_line("-- ACTION IS NOT IMPLEMENTED".to_owned()),
                Event::HidKeyUp(_) => one_line("-- ACTION IS DISABLED".to_owned()),
                Event::HidMouseDown(_) => {
                    let lines: Vec<String> = Vec::new();
                    proof {
                        assert(lines.deep_view() =~= Seq::<Seq<char>>::empty());
                    }
                    lines
                },
                Event::HidMouseUp(_) => one_line("-- ACTION IS NOT IMPLEMENTED".to_owned()),
                Event::EasyShiftKeyDown(key) => layer_key_lines(
                    "EASY_SHIFT_MACRO_TABLE",
                    &source.layers.0,
                    key.key_index,
                    rhs.as_str(),
                ),
                Event::EasyShiftKeyUp(_) => one_line("-- ACTION IS DISABLED".to_owned()),
                Event::EasyShiftMouseDown(key) => layer_key_lines(
                    "EASY_SHIFT_MOUSE_DOWN_MACRO_TABLE",
                    &source.layers.0,
                    key.key_index,
                    rhs.as_str(),
                ),
                Event::EasyShiftMouseUp(key) => layer_key_lines(
                    "EASY_SHIFT_MOUSE_UP_MACRO_TABLE",
                    &source.layers.0,
                    key.key_index,
                    rhs.as_str(),
                ),
                Event::EasyShiftMouseWheel(_) => layer_lines(
                    "EASY_SHIFT_MOUSE_WHEEL_MACRO_TABLE",
                    &source.layers.0,
                    rhs.as_str(),
                ),
                Event::SimpleKeyDown(_) => one_line("-- ACTION IS DISABLED".to_owned()),
                Event::SimpleKeyUp(_) => one_line("-- ACTION IS DISABLED".to_owned()),
                Event::SimpleMouseDown(_) => {
                    let lines: Vec<String> = Vec::new();
                    proof {
                        assert(lines.deep_view() =~= Seq::<Seq<char>>::empty());
                    }
                    lines
                },
                Event::SimpleMouseUp(_) => {
                    let lines: Vec<String> = Vec::new();
                    proof {
                        assert(lines.deep_view() =~= Seq::<Seq<char>>::empty());
                    }
                    lines
                },
                Event::SimpleMouseWheel(_) => {
                    let lines: Vec<String> = Vec::new();
                    proof {
                        assert(lines.deep_view() =~= Seq::<Seq<char>>::empty());
                    }
                    lines
                },
            }
        },
    }
}

/// The Lua code generator for mapping tables.  The per-mapping assignments
/// come from `stanza_lines`; the surrounding application frames them with
/// the generated-file header, which carries the wall-clock compile time.
#[derive(Debug)]
pub struct LuaBackend {}

impl LuaBackend {
    pub fn new() -> (b: LuaBackend) {
        LuaBackend {}
    }
}

} // verus!
