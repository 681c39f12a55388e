//! The entity store: the sector, its systems, black holes and planets, and
//! the relational queries over them.
//!
//! Entities are held as identifier-keyed collections; iteration order is the
//! stored order. Free-form metadata travels as `serde_json::Value`, opaque to
//! every query here and passed through unread.

use vstd::prelude::*;

verus! {

/// The error kinds surfaced by the core.
#[derive(Clone, Copy, PartialEq, Eq, Structural, Debug)]
pub enum CoreError {
    /// The world contains no sector: a construction-time fatal condition.
    MissingSector,
    /// A coordinate query fell outside the sector's extent.
    OutOfBounds,
    /// A relational query referenced an identifier absent from the store.
    UnknownId,
}

#[verifier::external_type_specification]
#[verifier::external_body]
pub struct ExValue(serde_json::Value);

/// Relies on the `Clone` impl of `serde_json::Value`: a deep copy of a tree
/// of owned data, structurally identical to the original.
pub assume_specification[ <serde_json::Value as Clone>::clone ](
    v: &serde_json::Value,
) -> (r: serde_json::Value)
    ensures
        r == *v,
;

/// Relies on the `PartialEq` impl of `serde_json::Value`: structural
/// equality over a tree of owned data (no NaN can inhabit a JSON number, so
/// it is an equivalence).
pub assume_specification[ <serde_json::Value as PartialEq>::eq ](
    a: &serde_json::Value,
    b: &serde_json::Value,
) -> (r: bool)
    ensures
        r == (*a == *b),
;

/// The rectangular hex-grid map container.
#[derive(Debug, Clone)]
pub struct Sector {
    pub attributes: Option<serde_json::Value>,
    pub columns: u8,
    pub rows: u8,
    pub created: Option<String>,
    pub creator: Option<String>,
    pub name: String,
    pub updated: Option<String>,
}

impl Sector {
    /// A sector's extent has at least one column and one row.
    pub open spec fn wf(self) -> bool {
        1 <= self.columns && 1 <= self.rows
    }
}

/// A star system, or a black hole: the two are shaped identically and are
/// told apart by the collection that holds them.
#[derive(Debug, Clone, PartialEq)]
pub struct System {
    pub attributes: Option<serde_json::Value>,
    pub created: Option<String>,
    pub creator: Option<String>,
    pub is_hidden: bool,
    pub name: String,
    pub parent: String,
    pub parent_entity: String,
    pub updated: Option<String>,
    pub x: u8,
    pub y: u8,
}

/// A planet, owned by exactly one system, referenced by identifier.
#[derive(Debug, Clone)]
pub struct Planet {
    pub attributes: Option<serde_json::Value>,
    pub created: Option<String>,
    pub creator: Option<String>,
    pub is_hidden: bool,
    pub name: String,
    pub parent: String,
    pub parent_entity: String,
    pub updated: Option<String>,
}

/// Equality of optional strings by their character content.
pub open spec fn opt_string_eq(a: Option<String>, b: Option<String>) -> bool {
    match (a, b) {
        (Option::None, Option::None) => true,
        (Option::Some(x), Option::Some(y)) => x@ == y@,
        _ => false,
    }
}

/// Value equality of two systems: every attribute equal, strings by content.
pub open spec fn sys_eq(a: System, b: System) -> bool {
    &&& a.attributes == b.attributes
    &&& opt_string_eq(a.created, b.created)
    &&& opt_string_eq(a.creator, b.creator)
    &&& a.is_hidden == b.is_hidden
    &&& a.name@ == b.name@
    &&& a.parent@ == b.parent@
    &&& a.parent_entity@ == b.parent_entity@
    &&& opt_string_eq(a.updated, b.updated)
    &&& a.x == b.x
    &&& a.y == b.y
}

fn clone_opt_string(o: &Option<String>) -> (r: Option<String>)
    ensures
        r == *o,
{
    match o {
        Option::None => Option::None,
        Option::Some(s) => Option::Some(s.clone()),
    }
}

fn clone_opt_value(o: &Option<serde_json::Value>) -> (r: Option<serde_json::Value>)
    ensures
        r == *o,
{
    match o {
        Option::None => Option::None,
        Option::Some(v) => Option::Some(v.clone()),
    }
}

fn opt_string_equals(a: &Option<String>, b: &Option<String>) -> (r: bool)
    ensures
        r == opt_string_eq(*a, *b),
{
    match (a, b) {
        (Option::None, Option::None) => true,
        (Option::Some(x), Option::Some(y)) => *x == *y,
        _ => false,
    }
}

impl System {
    /// The system's 1-based hex coordinate.
    pub fn hex(&self) -> (h: (u8, u8))
        ensures
            h == (self.x, self.y),
    {
        (self.x, self.y)
    }

    /// An exact copy of the system.
    pub fn duplicate(&self) -> (r: System)
        ensures
            r == *self,
    {
        System {
            attributes: clone_opt_value(&self.attributes),
            created: clone_opt_string(&self.created),
            creator: clone_opt_string(&self.creator),
            is_hidden: self.is_hidden,
            name: self.name.clone(),
            parent: self.parent.clone(),
            parent_entity: self.parent_entity.clone(),
            updated: clone_opt_string(&self.updated),
            x: self.x,
            y: self.y,
        }
    }

    /// Decides value equality of two systems.
    pub fn equals(&self, other: &System) -> (r: bool)
        ensures
            r == sys_eq(*self, *other),
    {
        let attrs_eq = match (&self.attributes, &other.attributes) {
            (Option::None, Option::None) => true,
            (Option::Some(a), Option::Some(b)) => *a == *b,
            _ => false,
        };
        attrs_eq && opt_string_equals(&self.created, &other.created) && opt_string_equals(
            &self.creator,
            &other.creator,
        ) && self.is_hidden == other.is_hidden && self.name == other.name && self.parent
            == other.parent && self.parent_entity == other.parent_entity && opt_string_equals(
            &self.updated,
            &other.updated,
        ) && self.x == other.x && self.y == other.y
    }
}

/// The first value stored under `id`, scanning from the front.
pub open spec fn lookup_first<V>(entries: Seq<(String, V)>, id: Seq<char>) -> Option<V>
    decreases entries.len(),
{
    if entries.len() == 0 {
        Option::None
    } else if entries[0].0@ == id {
        Option::Some(entries[0].1)
    } else {
        lookup_first(entries.drop_first(), id)
    }
}

/// The key of the first stored system value-equal to `s`, scanning from the
/// front.
pub open spec fn matching_key(entries: Seq<(String, System)>, s: System) -> Option<Seq<char>>
    decreases entries.len(),
{
    if entries.len() == 0 {
        Option::None
    } else if sys_eq(entries[0].1, s) {
        Option::Some(entries[0].0@)
    } else {
        matching_key(entries.drop_first(), s)
    }
}

/// The planets parented to the entity `id` (with the system discriminator
/// tag), in stored order.
pub open spec fn children_of(planets: Seq<(String, Planet)>, id: Seq<char>) -> Seq<Planet>
    decreases planets.len(),
{
    if planets.len() == 0 {
        Seq::empty()
    } else {
        let prefix = children_of(planets.drop_last(), id);
        let last = planets.last().1;
        if last.parent@ == id && last.parent_entity@ == "system"@ {
            prefix.push(last)
        } else {
            prefix
        }
    }
}

/// No two entries share a key.
pub open spec fn unique_keys<V>(entries: Seq<(String, V)>) -> bool {
    forall|i: int, j: int|
        0 <= i < j < entries.len() ==> (#[trigger] entries[i]).0@ != (#[trigger] entries[j]).0@
}

/// A system sits within the sector's extent.
pub open spec fn in_extent(s: System, sec: Sector) -> bool {
    1 <= s.x <= sec.columns && 1 <= s.y <= sec.rows
}

/// The entity store: every loaded entity, keyed by opaque identifiers.
#[derive(Debug)]
pub struct World {
    planet: Vec<(String, Planet)>,
    sector: Vec<(String, Sector)>,
    system: Vec<(String, System)>,
    black_hole: Vec<(String, System)>,
}

impl World {
    pub closed spec fn spec_planets(self) -> Seq<(String, Planet)> {
        self.planet@
    }

    pub closed spec fn spec_sectors(self) -> Seq<(String, Sector)> {
        self.sector@
    }

    pub closed spec fn spec_systems(self) -> Seq<(String, System)> {
        self.system@
    }

    pub closed spec fn spec_black_holes(self) -> Seq<(String, System)> {
        self.black_hole@
    }

    /// Structural validity, as the data-loading collaborator guarantees it:
    /// keys unique within each collection, the sector extent at least 1x1,
    /// and every system and black hole within that extent.
    pub open spec fn wf(self) -> bool {
        &&& unique_keys(self.spec_planets())
        &&& unique_keys(self.spec_sectors())
        &&& unique_keys(self.spec_systems())
        &&& unique_keys(self.spec_black_holes())
        &&& self.spec_sectors().len() > 0 ==> {
            let sec = self.spec_sectors()[0].1;
            &&& sec.wf()
            &&& forall|i: int|
                0 <= i < self.spec_systems().len() ==> in_extent(
                    (#[trigger] self.spec_systems()[i]).1,
                    sec,
                )
            &&& forall|i: int|
                0 <= i < self.spec_black_holes().len() ==> in_extent(
                    (#[trigger] self.spec_black_holes()[i]).1,
                    sec,
                )
        }
    }

    /// Builds a world from its identifier-keyed collections.
    pub fn new(
        sector: Vec<(String, Sector)>,
        system: Vec<(String, System)>,
        black_hole: Vec<(String, System)>,
        planet: Vec<(String, Planet)>,
    ) -> (w: World)
        ensures
            w.spec_sectors() == sector@,
            w.spec_systems() == system@,
            w.spec_black_holes() == black_hole@,
            w.spec_planets() == planet@,
    {
        World { planet, sector, system, black_hole }
    }

    /// The single sector of the world, or `MissingSector` if none was
    /// loaded.
    pub fn sector(&self) -> (r: Result<&Sector, CoreError>)
        ensures
            match r {
                Ok(s) => self.spec_sectors().len() > 0 && *s == self.spec_sectors()[0].1,
                Err(e) => self.spec_sectors().len() == 0 && e == CoreError::MissingSector,
            },
    {
        if self.sector.len() > 0 {
            Ok(&self.sector[0].1)
        } else {
            Err(CoreError::MissingSector)
        }
    }

    /// A snapshot of all planets, in stored order.
    pub fn planets(&self) -> (r: Vec<&Planet>)
        ensures
            r@.len() == self.spec_planets().len(),
            forall|i: int| 0 <= i < r@.len() ==> *(#[trigger] r@[i]) == self.spec_planets()[i].1,
    {
        let mut out: Vec<&Planet> = Vec::new();
        let mut i: usize = 0;
        while i < self.planet.len()
            invariant
                i <= self.planet.len(),
                out@.len() == i,
                forall|k: int| 0 <= k < i ==> *(#[trigger] out@[k]) == self.spec_planets()[k].1,
            decreases self.planet.len() - i,
        {
            out.push(&self.planet[i].1);
            i = i + 1;
        }
        out
    }

    /// A snapshot of all systems, in stored order.
    pub fn systems(&self) -> (r: Vec<&System>)
        ensures
            r@.len() == self.spec_systems().len(),
            forall|i: int| 0 <= i < r@.len() ==> *(#[trigger] r@[i]) == self.spec_systems()[i].1,
    {
        let mut out: Vec<&System> = Vec::new();
        let mut i: usize = 0;
        while i < self.system.len()
            invariant
                i <= self.system.len(),
                out@.len() == i,
                forall|k: int| 0 <= k < i ==> *(#[trigger] out@[k]) == self.spec_systems()[k].1,
            decreases self.system.len() - i,
        {
            out.push(&self.system[i].1);
            i = i + 1;
        }
        out
    }

    /// A snapshot of all black holes, in stored order.
    pub fn black_holes(&self) -> (r: Vec<&System>)
        ensures
            r@.len() == self.spec_black_holes().len(),
            forall|i: int|
                0 <= i < r@.len() ==> *(#[trigger] r@[i]) == self.spec_black_holes()[i].1,
    {
        let mut out: Vec<&System> = Vec::new();
        let mut i: usize = 0;
        while i < self.black_hole.len()
            invariant
                i <= self.black_hole.len(),
                out@.len() == i,
                forall|k: int| 0 <= k < i ==> *(#[trigger] out@[k]) == self.spec_black_holes()[k].1,
            decreases self.black_hole.len() - i,
        {
            out.push(&self.black_hole[i].1);
            i = i + 1;
        }
        out
    }

    /// The planet stored under `id`, if any.
    pub fn parent_planet(&self, id: &str) -> (r: Option<&Planet>)
        ensures
            match r {
                Option::Some(p) => lookup_first(self.spec_planets(), id@) == Option::Some(*p),
                Option::None => lookup_first(self.spec_planets(), id@) is None,
            },
    {
        let key: String = id.to_owned();
        let mut i: usize = 0;
        while i < self.planet.len()
            invariant
                i <= self.planet.len(),
                key@ == id@,
                forall|m: int| 0 <= m < i ==> (#[trigger] self.spec_planets()[m]).0@ != id@,
            decreases self.planet.len() - i,
        {
            if self.planet[i].0 == key {
                proof {
                    lemma_lookup_first_hit(self.spec_planets(), id@, i as int);
                }
                return Option::Some(&self.planet[i].1);
            }
            i = i + 1;
        }
        proof {
            lemma_lookup_first_miss(self.spec_planets(), id@);
        }
        Option::None
    }

    /// The system stored under `id`, or `UnknownId` if the identifier is
    /// absent from the store.
    pub fn parent_system(&self, id: &str) -> (r: Result<&System, CoreError>)
        ensures
            match r {
                Ok(s) => lookup_first(self.spec_systems(), id@) == Option::Some(*s),
                Err(e) => lookup_first(self.spec_systems(), id@) is None && e
                    == CoreError::UnknownId,
            },
    {
        let key: String = id.to_owned();
        let mut i: usize = 0;
        while i < self.system.len()
            invariant
                i <= self.system.len(),
                key@ == id@,
                forall|m: int| 0 <= m < i ==> (#[trigger] self.spec_systems()[m]).0@ != id@,
            decreases self.system.len() - i,
        {
            if self.system[i].0 == key {
                proof {
                    lemma_lookup_first_hit(self.spec_systems(), id@, i as int);
                }
                return Ok(&self.system[i].1);
            }
            i = i + 1;
        }
        proof {
            lemma_lookup_first_miss(self.spec_systems(), id@);
        }
        Err(CoreError::UnknownId)
    }

    /// All planets parented to the given system, resolved by reverse lookup
    /// from the system value back to its key; `None` if the value is not in
    /// the store.
    pub fn child_planets<'a>(&'a self, system: &System) -> (r: Option<Vec<&'a Planet>>)
        ensures
            match r {
                Option::None => matching_key(self.spec_systems(), *system) is None,
                Option::Some(v) => {
                    &&& matching_key(self.spec_systems(), *system) is Some
                    &&& v@.len() == children_of(
                        self.spec_planets(),
                        matching_key(self.spec_systems(), *system).unwrap(),
                    ).len()
                    &&& forall|k: int|
                        0 <= k < v@.len() ==> *(#[trigger] v@[k]) == children_of(
                            self.spec_planets(),
                            matching_key(self.spec_systems(), *system).unwrap(),
                        )[k]
                },
            },
    {
        let found = self.find_system_key(system);
        match found {
            Option::None => Option::None,
            Option::Some(id) => {
                let ghost key = matching_key(self.spec_systems(), *system).unwrap();
                assert(id@ == key);
                let tag: String = "system".to_owned();
                let mut out: Vec<&Planet> = Vec::new();
                let mut j: usize = 0;
                while j < self.planet.len()
                    invariant
                        j <= self.planet.len(),
                        id@ == key,
                        tag@ == "system"@,
                        out@.len() == children_of(self.spec_planets().take(j as int), key).len(),
                        forall|k: int|
                            0 <= k < out@.len() ==> *(#[trigger] out@[k]) == children_of(
                                self.spec_planets().take(j as int),
                                key,
                            )[k],
                    decreases self.planet.len() - j,
                {
                    proof {
                        assert(self.spec_planets().take(j + 1).drop_last() =~= self.spec_planets()
                            .take(j as int));
                        assert(self.spec_planets().take(j + 1).last() == self.spec_planets()[
                            j as int]);
                    }
                    let p = &self.planet[j].1;
                    if p.parent == *id && p.parent_entity == tag {
                        out.push(p);
                    }
                    j = j + 1;
                }
                proof {
                    assert(self.spec_planets().take(self.spec_planets().len() as int)
                        =~= self.spec_planets());
                }
                Option::Some(out)
            },
        }
    }

    /// The key of the first stored system value-equal to `system`, if any.
    fn find_system_key<'a>(&'a self, system: &System) -> (r: Option<&'a String>)
        ensures
            match r {
                Option::Some(id) => matching_key(self.spec_systems(), *system) == Option::Some(
                    id@,
                ),
                Option::None => matching_key(self.spec_systems(), *system) is None,
            },
    {
        let mut i: usize = 0;
        while i < self.system.len()
            invariant
                i <= self.system.len(),
                forall|m: int|
                    0 <= m < i ==> !sys_eq((#[trigger] self.spec_systems()[m]).1, *system),
            decreases self.system.len() - i,
        {
            if self.system[i].1.equals(system) {
                proof {
                    lemma_matching_key_hit(self.spec_systems(), *system, i as int);
                }
                return Option::Some(&self.system[i].0);
            }
            i = i + 1;
        }
        proof {
            lemma_matching_key_miss(self.spec_systems(), *system);
        }
        Option::None
    }
}

proof fn lemma_lookup_first_hit<V>(entries: Seq<(String, V)>, id: Seq<char>, i: int)
    requires
        0 <= i < entries.len(),
        entries[i].0@ == id,
        forall|m: int| 0 <= m < i ==> (#[trigger] entries[m]).0@ != id,
    ensures
        lookup_first(entries, id) == Option::Some(entries[i].1),
    decreases i,
{
    if i > 0 {
        lemma_lookup_first_hit(entries.drop_first(), id, i - 1);
    }
}

proof fn lemma_lookup_first_miss<V>(entries: Seq<(String, V)>, id: Seq<char>)
    requires
        forall|m: int| 0 <= m < entries.len() ==> (#[trigger] entries[m]).0@ != id,
    ensures
        lookup_first(entries, id) is None,
    decreases entries.len(),
{
    if entries.len() > 0 {
        lemma_lookup_first_miss(entries.drop_first(), id);
    }
}

proof fn lemma_matching_key_hit(entries: Seq<(String, System)>, s: System, i: int)
    requires
        0 <= i < entries.len(),
        sys_eq(entries[i].1, s),
        forall|m: int| 0 <= m < i ==> !sys_eq((#[trigger] entries[m]).1, s),
    ensures
        matching_key(entries, s) == Option::Some(entries[i].0@),
    decreases i,
{
    if i > 0 {
        lemma_matching_key_hit(entries.drop_first(), s, i - 1);
    }
}

proof fn lemma_matching_key_miss(entries: Seq<(String, System)>, s: System)
    requires
        forall|m: int| 0 <= m < entries.len() ==> !sys_eq((#[trigger] entries[m]).1, s),
    ensures
        matching_key(entries, s) is None,
    decreases entries.len(),
{
    if entries.len() > 0 {
        lemma_matching_key_miss(entries.drop_first(), s);
    }
}

} // verus!
