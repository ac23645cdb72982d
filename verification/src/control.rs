//! Control identifiers and the control registry.
//!
//! Every controllable parameter is identified by a `(group, key)` pair such
//! as `("[Channel1]", "volume")`. The registry maps each registered id to the
//! value cell shared by the UI and audio threads; an id is registered at most
//! once.

use vstd::prelude::*;
use vstd::string::*;

verus! {

/// Identifies a control parameter by group and key.
#[derive(Debug, Clone, PartialEq, Eq, Hash)]
pub struct ControlId {
    pub group: String,
    pub key: String,
}

impl View for ControlId {
    type V = (Seq<char>, Seq<char>);

    open spec fn view(&self) -> (Seq<char>, Seq<char>) {
        (self.group@, self.key@)
    }
}

impl ControlId {
    /// A control id from its group and key.
    pub fn new(group: &str, key: &str) -> (r: Self)
        ensures
            r@ == (group@, key@),
    {
        ControlId { group: group.to_owned(), key: key.to_owned() }
    }

    /// Whether two ids name the same control.
    pub fn is_same(&self, other: &ControlId) -> (r: bool)
        ensures
            r == (self@ == other@),
    {
        self.group == other.group && self.key == other.key
    }

    /// The id as text: group, a comma, key (e.g. `"[Master],crossfader"`).
    pub fn to_string(&self) -> (r: String)
        ensures
            r@ == self.group@ + seq![','] + self.key@,
    {
        let mut s = self.group.clone();
        proof {
            reveal_strlit(",");
        }
        s.append(",");
        s.append(self.key.as_str());
        s
    }
}

/// Registry of controls: each registered id with its value cell.
pub struct ControlRegistry<V> {
    ids: Vec<ControlId>,
    values: Vec<V>,
}

impl<V> ControlRegistry<V> {
    #[verifier::type_invariant]
    spec fn distinct_ids(self) -> bool {
        &&& self.ids@.len() == self.values@.len()
        &&& self.keys().no_duplicates()
    }

    /// The registered ids, in registration order.
    pub closed spec fn keys(self) -> Seq<(Seq<char>, Seq<char>)> {
        self.ids@.map_values(|id: ControlId| id@)
    }

    /// The registered controls and their values.
    pub closed spec fn controls(self) -> Map<(Seq<char>, Seq<char>), V> {
        Map::new(
            |k: (Seq<char>, Seq<char>)| self.keys().contains(k),
            |k: (Seq<char>, Seq<char>)| self.values@[self.keys().index_of(k)],
        )
    }

    /// An empty registry.
    pub fn new() -> (r: Self)
        ensures
            r.controls() == Map::<(Seq<char>, Seq<char>), V>::empty(),
    {
        let r = ControlRegistry { ids: Vec::new(), values: Vec::new() };
        assert(r.controls() =~= Map::<(Seq<char>, Seq<char>), V>::empty());
        r
    }

    /// Position of `id` among the registered ids.
    fn position(&self, id: &ControlId) -> (r: Option<usize>)
        ensures
            r matches Some(i) ==> i < self.ids@.len() && self.keys()[i as int] == id@
                && self.controls().contains_key(id@) && self.controls()[id@] == self.values@[i as int],
            r is None ==> !self.controls().contains_key(id@),
    {
        proof {
            use_type_invariant(self);
        }
        let mut i: usize = 0;
        while i < self.ids.len()
            invariant
                i <= self.ids@.len(),
                self.ids@.len() == self.values@.len(),
                self.keys().no_duplicates(),
                forall|j: int| 0 <= j < i ==> self.keys()[j] != id@,
            decreases self.ids@.len() - i,
        {
            if self.ids[i].is_same(id) {
                proof {
                    let k = id@;
                    assert(self.keys()[i as int] == k);
                    assert(self.keys().contains(k));
                    let j = self.keys().index_of(k);
                    assert(self.keys()[j] == k);
                    assert(j == i);
                }
                return Some(i);
            }
            i += 1;
        }
        None
    }

    /// Whether `id` is registered.
    pub fn contains(&self, id: &ControlId) -> (r: bool)
        ensures
            r == self.controls().contains_key(id@),
    {
        self.position(id).is_some()
    }

    /// The value registered under `id`.
    pub fn get(&self, id: &ControlId) -> (r: Option<&V>)
        ensures
            r matches Some(v) ==> self.controls().contains_key(id@) && *v == self.controls()[id@],
            r is None ==> !self.controls().contains_key(id@),
    {
        proof {
            use_type_invariant(self);
        }
        match self.position(id) {
            Some(i) => Some(&self.values[i]),
            None => None,
        }
    }

    /// Register `id` with `value`. The id must not be registered yet.
    pub fn register(&mut self, id: ControlId, value: V)
        requires
            !old(self).controls().contains_key(id@),
        ensures
            final(self).controls() == old(self).controls().insert(id@, value),
    {
        let mut taken = ControlRegistry::new();
        std::mem::swap(self, &mut taken);
        proof {
            use_type_invariant(&taken);
        }
        let ghost old_keys = taken.keys();
        let ghost old_map = taken.controls();
        let ControlRegistry { mut ids, mut values } = taken;
        let ghost k = id@;
        ids.push(id);
        values.push(value);
        let ghost new_keys = ids@.map_values(|i: ControlId| i@);
        proof {
            assert(new_keys =~= old_keys.push(k));
            assert forall|i: int, j: int|
                0 <= i < new_keys.len() && 0 <= j < new_keys.len() && i != j implies new_keys[i]
                != new_keys[j] by {
                if i == old_keys.len() {
                    assert(!old_keys.contains(k));
                    assert(old_keys[j] == new_keys[j]);
                } else if j == old_keys.len() {
                    assert(!old_keys.contains(k));
                    assert(old_keys[i] == new_keys[i]);
                }
            }
        }
        let r = ControlRegistry { ids, values };
        proof {
            assert(r.keys() == new_keys);
            assert forall|q: (Seq<char>, Seq<char>)| r.keys().contains(q) <==> old_map.insert(k, value).contains_key(q) by {
                if r.keys().contains(q) {
                    let j = choose|j: int| 0 <= j < r.keys().len() && r.keys()[j] == q;
                    if j < old_keys.len() {
                        assert(old_keys[j] == q);
                    }
                }
                if old_keys.contains(q) {
                    let j = choose|j: int| 0 <= j < old_keys.len() && old_keys[j] == q;
                    assert(r.keys()[j] == q);
                }
                if q == k {
                    assert(r.keys()[old_keys.len() as int] == k);
                }
            }
            assert forall|q: (Seq<char>, Seq<char>)| #[trigger] r.controls().contains_key(q) implies r.controls()[q] == old_map.insert(k, value)[q] by {
                let j = r.keys().index_of(q);
                assert(r.keys()[j] == q);
                if q == k {
                    assert(r.keys()[old_keys.len() as int] == k);
                } else {
                    assert(j < old_keys.len());
                    assert(old_keys[j] == q);
                    assert(old_keys.contains(q));
                    let j0 = old_keys.index_of(q);
                    assert(old_keys[j0] == q);
                    assert(r.keys()[j0] == q);
                }
            }
            assert(r.controls() =~= old_map.insert(k, value));
        }
        *self = r;
    }

    /// Number of registered controls.
    pub fn len(&self) -> (r: usize)
        ensures
            r == self.controls().len(),
            self.controls().dom().finite(),
    {
        proof {
            use_type_invariant(self);
            self.keys().unique_seq_to_set();
            assert(self.controls().dom() =~= self.keys().to_set());
        }
        self.ids.len()
    }

    /// Whether no control is registered.
    pub fn is_empty(&self) -> (r: bool)
        ensures
            r == (self.controls().len() == 0),
    {
        self.len() == 0
    }
}

impl<V> Default for ControlRegistry<V> {
    fn default() -> (r: Self)
        ensures
            r.controls() == Map::<(Seq<char>, Seq<char>), V>::empty(),
    {
        Self::new()
    }
}

/// The role of one of the standard mixer controls; it decides the control's
/// default value and range.
#[derive(Debug, Clone, Copy, PartialEq, Eq, Structural)]
pub enum StandardControlKind {
    /// `[Master],crossfader`.
    Crossfader,
    /// `[Master],volume`.
    MasterVolume,
    /// A channel's `volume`.
    Volume,
    /// A channel's `play`.
    Play,
    /// A channel's `cue_point`.
    CuePoint,
    /// A channel's `playposition`.
    PlayPosition,
    /// A channel's `rate`.
    Rate,
    /// A channel's `orientation`.
    Orientation,
    /// A channel's `track_loaded`.
    TrackLoaded,
    /// A channel's `duration`.
    Duration,
}

/// One entry of the standard control set.
pub struct StandardControl {
    pub id: ControlId,
    pub kind: StandardControlKind,
}

/// The per-channel controls of channel group `g`, in registration order.
pub open spec fn channel_control_spec(g: Seq<char>) -> Seq<((Seq<char>, Seq<char>), StandardControlKind)> {
    seq![
        ((g, "volume"@), StandardControlKind::Volume),
        ((g, "play"@), StandardControlKind::Play),
        ((g, "cue_point"@), StandardControlKind::CuePoint),
        ((g, "playposition"@), StandardControlKind::PlayPosition),
        ((g, "rate"@), StandardControlKind::Rate),
        ((g, "orientation"@), StandardControlKind::Orientation),
        ((g, "track_loaded"@), StandardControlKind::TrackLoaded),
        ((g, "duration"@), StandardControlKind::Duration),
    ]
}

/// The standard DJ mixer controls in registration order: the two master
/// controls, then the eight controls of `[Channel1]` and of `[Channel2]`.
pub open spec fn standard_control_spec() -> Seq<((Seq<char>, Seq<char>), StandardControlKind)> {
    seq![
        (("[Master]"@, "crossfader"@), StandardControlKind::Crossfader),
        (("[Master]"@, "volume"@), StandardControlKind::MasterVolume),
    ] + channel_control_spec("[Channel1]"@) + channel_control_spec("[Channel2]"@)
}

/// The view of a standard control entry.
pub open spec fn standard_control_view(c: StandardControl) -> ((Seq<char>, Seq<char>), StandardControlKind) {
    (c.id@, c.kind)
}

fn push_control(v: &mut Vec<StandardControl>, group: &str, key: &str, kind: StandardControlKind)
    ensures
        final(v)@.len() == old(v)@.len() + 1,
        forall|i: int| 0 <= i < old(v)@.len() ==> final(v)@[i] == old(v)@[i],
        standard_control_view(final(v)@[old(v)@.len() as int]) == ((group@, key@), kind),
{
    v.push(StandardControl { id: ControlId::new(group, key), kind });
}

fn push_channel_controls(v: &mut Vec<StandardControl>, group: &str)
    ensures
        final(v)@.map_values(|c: StandardControl| standard_control_view(c)) == old(v)@.map_values(
            |c: StandardControl| standard_control_view(c),
        ) + channel_control_spec(group@),
{
    let ghost start = v@;
    push_control(v, group, "volume", StandardControlKind::Volume);
    push_control(v, group, "play", StandardControlKind::Play);
    push_control(v, group, "cue_point", StandardControlKind::CuePoint);
    push_control(v, group, "playposition", StandardControlKind::PlayPosition);
    push_control(v, group, "rate", StandardControlKind::Rate);
    push_control(v, group, "orientation", StandardControlKind::Orientation);
    push_control(v, group, "track_loaded", StandardControlKind::TrackLoaded);
    push_control(v, group, "duration", StandardControlKind::Duration);
    assert(v@.map_values(|c: StandardControl| standard_control_view(c)) =~= start.map_values(
        |c: StandardControl| standard_control_view(c),
    ) + channel_control_spec(group@));
}

/// The standard set of DJ mixer controls, in registration order.
pub fn standard_controls() -> (r: Vec<StandardControl>)
    ensures
        r@.map_values(|c: StandardControl| standard_control_view(c)) == standard_control_spec(),
{
    let mut v: Vec<StandardControl> = Vec::new();
    push_control(&mut v, "[Master]", "crossfader", StandardControlKind::Crossfader);
    push_control(&mut v, "[Master]", "volume", StandardControlKind::MasterVolume);
    assert(v@.map_values(|c: StandardControl| standard_control_view(c)) =~= seq![
        (("[Master]"@, "crossfader"@), StandardControlKind::Crossfader),
        (("[Master]"@, "volume"@), StandardControlKind::MasterVolume),
    ]);
    push_channel_controls(&mut v, "[Channel1]");
    push_channel_controls(&mut v, "[Channel2]");
    v
}

/// The standard controls name eighteen distinct ids, so all of them can be
/// registered into an empty registry.
pub proof fn law_standard_controls_distinct()
    ensures
        standard_control_spec().len() == 18,
        standard_control_spec().map_values(|e: ((Seq<char>, Seq<char>), StandardControlKind)| e.0).no_duplicates(),
{
    reveal_strlit("[Master]");
    reveal_strlit("[Channel1]");
    reveal_strlit("[Channel2]");
    reveal_strlit("crossfader");
    reveal_strlit("volume");
    reveal_strlit("play");
    reveal_strlit("cue_point");
    reveal_strlit("playposition");
    reveal_strlit("rate");
    reveal_strlit("orientation");
    reveal_strlit("track_loaded");
    reveal_strlit("duration");
    let ids = standard_control_spec().map_values(|e: ((Seq<char>, Seq<char>), StandardControlKind)| e.0);
    assert(ids.len() == 18);
    assert forall|i: int, j: int| 0 <= i < ids.len() && 0 <= j < ids.len() && i != j implies ids[i] != ids[j] by {
        if ids[i] == ids[j] {
            assert(ids[i].0 == ids[j].0 && ids[i].1 == ids[j].1);
            assert(ids[i].0.len() == ids[j].0.len());
            assert(ids[i].1.len() == ids[j].1.len());
            assert(ids[i].0[0] == ids[j].0[0]);
            assert(ids[i].1[0] == ids[j].1[0]);
            assert(ids[i].0[8] == ids[j].0[8]);
        }
    }
}

/// Whether a standard control named `(g, k)` has the role `kind` its name
/// says: each key names one role, and `volume` is the master volume in
/// `[Master]` and a channel's volume elsewhere.
pub open spec fn kind_matches_name(g: Seq<char>, k: Seq<char>, kind: StandardControlKind) -> bool {
    let master = g == "[Master]"@;
    &&& (kind == StandardControlKind::Crossfader <==> k == "crossfader"@)
    &&& (kind == StandardControlKind::MasterVolume <==> (master && k == "volume"@))
    &&& (kind == StandardControlKind::Volume <==> (!master && k == "volume"@))
    &&& (kind == StandardControlKind::Play <==> k == "play"@)
    &&& (kind == StandardControlKind::CuePoint <==> k == "cue_point"@)
    &&& (kind == StandardControlKind::PlayPosition <==> k == "playposition"@)
    &&& (kind == StandardControlKind::Rate <==> k == "rate"@)
    &&& (kind == StandardControlKind::Orientation <==> k == "orientation"@)
    &&& (kind == StandardControlKind::TrackLoaded <==> k == "track_loaded"@)
    &&& (kind == StandardControlKind::Duration <==> k == "duration"@)
}

/// Each standard control has the role its name says (so `rate` gets the
/// rate's default and range, `playposition` the play position's), and the
/// master controls are exactly those of group `[Master]`.
pub proof fn law_standard_control_kinds()
    ensures
        forall|i: int|
            #![trigger standard_control_spec()[i]]
            0 <= i < standard_control_spec().len() ==> kind_matches_name(
                standard_control_spec()[i].0.0,
                standard_control_spec()[i].0.1,
                standard_control_spec()[i].1,
            ),
        forall|i: int|
            #![trigger standard_control_spec()[i]]
            0 <= i < standard_control_spec().len() ==> ((standard_control_spec()[i].0.0 == "[Master]"@)
                <==> (i < 2)),
{
    reveal_strlit("[Master]");
    reveal_strlit("[Channel1]");
    reveal_strlit("[Channel2]");
    reveal_strlit("crossfader");
    reveal_strlit("volume");
    reveal_strlit("play");
    reveal_strlit("cue_point");
    reveal_strlit("playposition");
    reveal_strlit("rate");
    reveal_strlit("orientation");
    reveal_strlit("track_loaded");
    reveal_strlit("duration");
    let sp = standard_control_spec();
    assert(sp.len() == 18);
    assert("[Master]"@.len() == 8 && "[Channel1]"@.len() == 10 && "[Channel2]"@.len() == 10);
    assert("crossfader"@.len() == 10 && "volume"@.len() == 6 && "play"@.len() == 4);
    assert("cue_point"@.len() == 9 && "playposition"@.len() == 12 && "rate"@.len() == 4);
    assert("orientation"@.len() == 11 && "track_loaded"@.len() == 12 && "duration"@.len() == 8);
    assert("play"@[0] == 'p' && "rate"@[0] == 'r');
    assert("playposition"@[0] == 'p' && "track_loaded"@[0] == 't');
    assert forall|i: int| 0 <= i < sp.len() implies kind_matches_name(sp[i].0.0, sp[i].0.1, sp[i].1)
        && ((sp[i].0.0 == "[Master]"@) <==> (i < 2)) by {
        if i < 2 {
        } else if i < 10 {
            assert(sp[i] == channel_control_spec("[Channel1]"@)[i - 2]);
        } else {
            assert(sp[i] == channel_control_spec("[Channel2]"@)[i - 10]);
        }
    }
}

/// What a lookup gives back of a registration: after registering `id` with
/// `value` in a registry without it, `id` holds `value`, every other id
/// keeps what it held, and there is one control more.
pub proof fn law_registry_get_after_register<V>(
    controls: Map<(Seq<char>, Seq<char>), V>,
    id: (Seq<char>, Seq<char>),
    value: V,
    other: (Seq<char>, Seq<char>),
)
    requires
        !controls.contains_key(id),
        controls.dom().finite(),
    ensures
        controls.insert(id, value).contains_key(id),
        controls.insert(id, value)[id] == value,
        other != id ==> (controls.insert(id, value).contains_key(other) == controls.contains_key(
            other,
        )),
        other != id && controls.contains_key(other) ==> controls.insert(id, value)[other]
            == controls[other],
        controls.insert(id, value).len() == controls.len() + 1,
{
}

} // verus!
