//! Module containing the Galaxy implementation: the top-level structure that
//! owns every celestial body and an index from body ID to its place.

use vstd::prelude::*;

use std::collections::HashMap;

use super::comet::Comet;
use super::planet::Planet;
use super::star::Star;
use super::CelestialBodyKind;

verus! {

/// A struct representing the type of the celestial body and the index in the
/// corresponding vector for said celestial body.
#[derive(Debug, Clone, Copy, PartialEq, Eq, PartialOrd, Ord, Structural)]
pub struct CelestialBodyIndex {
    /// The kind of celestial body it is.
    pub kind: CelestialBodyKind,
    /// The index into the associated vector.
    pub index: usize,
}

impl CelestialBodyIndex {
    /// Pairs a body kind with its position in that kind's vector.
    pub fn new(kind: CelestialBodyKind, index: usize) -> (r: Self)
        ensures
            r.kind == kind,
            r.index == index,
    {
        CelestialBodyIndex { kind, index }
    }
}

/// The Galaxy is the top-level structure. It contains all celestial bodies
/// within the project.
#[derive(Debug)]
pub struct Galaxy {
    pub title: String,
    pub description: String,
    /// The ID of the next created celestial body.
    pub next_id: u64,
    /// Vector of all comets that exist within the Galaxy (even those that
    /// are "owned" by a star). No elements should ever be removed from this
    /// vector.
    pub comets: Vec<Comet>,
    /// Vector of all planets that exist within the Galaxy (even those that
    /// are "owned" by a star). No elements should ever be removed from this
    /// vector.
    pub planets: Vec<Planet>,
    /// Vector of all stars that exist within the Galaxy (even those that
    /// are "owned" by a star). No elements should ever be removed from this
    /// vector.
    pub stars: Vec<Star>,
    /// A map from the celestial body's id to the index within the
    /// corresponding vector (`comets`, `planets`, or `stars`).
    pub id_to_index: HashMap<u64, CelestialBodyIndex>,
}

impl Galaxy {
    /// Well-formed galaxy: every body's id is fresh below `next_id` and
    /// indexed at the body's place, and every index entry points back at a
    /// body carrying that id.
    pub open spec fn wf(self) -> bool {
        &&& forall|i: int|
            0 <= i < self.comets@.len() ==> {
                let body = #[trigger] self.comets@[i];
                &&& body.id < self.next_id
                &&& self.id_to_index@.contains_key(body.id)
                &&& self.id_to_index@[body.id] == (CelestialBodyIndex {
                    kind: CelestialBodyKind::Comet,
                    index: i as usize,
                })
            }
        &&& forall|i: int|
            0 <= i < self.planets@.len() ==> {
                let body = #[trigger] self.planets@[i];
                &&& body.id < self.next_id
                &&& self.id_to_index@.contains_key(body.id)
                &&& self.id_to_index@[body.id] == (CelestialBodyIndex {
                    kind: CelestialBodyKind::Planet,
                    index: i as usize,
                })
            }
        &&& forall|i: int|
            0 <= i < self.stars@.len() ==> {
                let body = #[trigger] self.stars@[i];
                &&& body.id < self.next_id
                &&& self.id_to_index@.contains_key(body.id)
                &&& self.id_to_index@[body.id] == (CelestialBodyIndex {
                    kind: CelestialBodyKind::Star,
                    index: i as usize,
                })
            }
        &&& forall|id: u64| #[trigger] self.entry_ok(id)
    }

    /// The index entry under `id`, if present, points back at a body of the
    /// indexed kind carrying that id.
    pub open spec fn entry_ok(self, id: u64) -> bool {
        self.id_to_index@.contains_key(id) ==> {
            let entry = self.id_to_index@[id];
            match entry.kind {
                CelestialBodyKind::Comet => entry.index < self.comets@.len()
                    && self.comets@[entry.index as int].id == id,
                CelestialBodyKind::Planet => entry.index < self.planets@.len()
                    && self.planets@[entry.index as int].id == id,
                CelestialBodyKind::Star => entry.index < self.stars@.len()
                    && self.stars@[entry.index as int].id == id,
            }
        }
    }

    /// Creates an empty galaxy with no bodies and the first id at zero.
    pub fn new() -> (r: Self)
        ensures
            r.title@ == Seq::<char>::empty(),
            r.description@ == Seq::<char>::empty(),
            r.next_id == 0,
            r.comets@ == Seq::<Comet>::empty(),
            r.planets@ == Seq::<Planet>::empty(),
            r.stars@ == Seq::<Star>::empty(),
            r.id_to_index@ == Map::<u64, CelestialBodyIndex>::empty(),
            r.wf(),
    {
        broadcast use vstd::std_specs::hash::group_hash_axioms;

        Galaxy {
            title: String::new(),
            description: String::new(),
            next_id: 0,
            comets: Vec::new(),
            planets: Vec::new(),
            stars: Vec::new(),
            id_to_index: HashMap::new(),
        }
    }

    /// Sets the `title` field and returns `self`.
    pub fn title(self, title: String) -> (r: Self)
        ensures
            r.title == title,
            r.description == self.description,
            r.next_id == self.next_id,
            r.comets == self.comets,
            r.planets == self.planets,
            r.stars == self.stars,
            r.id_to_index == self.id_to_index,
    {
        let mut s = self;
        s.title = title;
        s
    }

    /// Sets the `description` field and returns `self`.
    pub fn description(self, description: String) -> (r: Self)
        ensures
            r.description == description,
            r.title == self.title,
            r.next_id == self.next_id,
            r.comets == self.comets,
            r.planets == self.planets,
            r.stars == self.stars,
            r.id_to_index == self.id_to_index,
    {
        let mut s = self;
        s.description = description;
        s
    }

    /// Creates a new `Comet` object and registers it with the `Galaxy`.
    ///
    /// # Returns
    /// The new `Comet` object, with the next fresh id and everything else
    /// default.
    pub fn comet(&mut self) -> (r: &mut Comet)
        requires
            old(self).next_id < u64::MAX,
        ensures
            r.id == old(self).next_id,
            r.parent is None,
            r.title@ == Seq::<char>::empty(),
            r.description@ == Seq::<char>::empty(),
            r.status == super::Status::Todo,
            r.history@ == Seq::<super::StatusHistory>::empty(),
            final(self).comets@ == old(self).comets@.push(*final(r)),
            final(self).planets == old(self).planets,
            final(self).stars == old(self).stars,
            final(self).title == old(self).title,
            final(self).description == old(self).description,
            final(self).next_id == old(self).next_id + 1,
            final(self).id_to_index@ == old(self).id_to_index@.insert(
                old(self).next_id,
                CelestialBodyIndex {
                    kind: CelestialBodyKind::Comet,
                    index: old(self).comets@.len() as usize,
                },
            ),
    {
        broadcast use vstd::std_specs::hash::group_hash_axioms;

        let id = self.take_next_id();
        let index = self.comets.len();
        let mut comet = Comet::default();
        comet.id = id;
        self.comets.push(comet);
        self.id_to_index.insert(id, CelestialBodyIndex::new(CelestialBodyKind::Comet, index));
        &mut self.comets[index]
    }

    /// Creates a new `Planet` object and registers it with the `Galaxy`.
    ///
    /// # Returns
    /// The new `Planet` object, with the next fresh id and everything else
    /// default.
    pub fn planet(&mut self) -> (r: &mut Planet)
        requires
            old(self).next_id < u64::MAX,
        ensures
            r.id == old(self).next_id,
            r.parent is None,
            r.title@ == Seq::<char>::empty(),
            r.description@ == Seq::<char>::empty(),
            r.status == super::Status::Todo,
            r.history@ == Seq::<super::StatusHistory>::empty(),
            r.tags@ == Seq::<String>::empty(),
            r.fields@ == Seq::<(String, String)>::empty(),
            final(self).planets@ == old(self).planets@.push(*final(r)),
            final(self).comets == old(self).comets,
            final(self).stars == old(self).stars,
            final(self).title == old(self).title,
            final(self).description == old(self).description,
            final(self).next_id == old(self).next_id + 1,
            final(self).id_to_index@ == old(self).id_to_index@.insert(
                old(self).next_id,
                CelestialBodyIndex {
                    kind: CelestialBodyKind::Planet,
                    index: old(self).planets@.len() as usize,
                },
            ),
    {
        broadcast use vstd::std_specs::hash::group_hash_axioms;

        let id = self.take_next_id();
        let index = self.planets.len();
        let mut planet = Planet::default();
        planet.id = id;
        self.planets.push(planet);
        self.id_to_index.insert(id, CelestialBodyIndex::new(CelestialBodyKind::Planet, index));
        &mut self.planets[index]
    }

    /// Creates a new `Star` object and registers it with the `Galaxy`.
    ///
    /// # Returns
    /// The new `Star` object, with the next fresh id and everything else
    /// default.
    pub fn star(&mut self) -> (r: &mut Star)
        requires
            old(self).next_id < u64::MAX,
        ensures
            r.id == old(self).next_id,
            r.parent is None,
            r.title@ == Seq::<char>::empty(),
            r.description@ == Seq::<char>::empty(),
            r.status == super::Status::Todo,
            r.history@ == Seq::<super::StatusHistory>::empty(),
            r.children@ == Seq::<u64>::empty(),
            final(self).stars@ == old(self).stars@.push(*final(r)),
            final(self).comets == old(self).comets,
            final(self).planets == old(self).planets,
            final(self).title == old(self).title,
            final(self).description == old(self).description,
            final(self).next_id == old(self).next_id + 1,
            final(self).id_to_index@ == old(self).id_to_index@.insert(
                old(self).next_id,
                CelestialBodyIndex {
                    kind: CelestialBodyKind::Star,
                    index: old(self).stars@.len() as usize,
                },
            ),
    {
        broadcast use vstd::std_specs::hash::group_hash_axioms;

        let id = self.take_next_id();
        let index = self.stars.len();
        let mut star = Star::default();
        star.id = id;
        self.stars.push(star);
        self.id_to_index.insert(id, CelestialBodyIndex::new(CelestialBodyKind::Star, index));
        &mut self.stars[index]
    }

    /// Assembles a galaxy from its stored parts, rebuilding the index map:
    /// comets first, then planets, then stars, each registered under its id
    /// at its position — a duplicated id keeps the registration made last.
    pub fn from_parts(
        title: String,
        description: String,
        next_id: u64,
        comets: Vec<Comet>,
        planets: Vec<Planet>,
        stars: Vec<Star>,
    ) -> (r: Galaxy)
        ensures
            r.title == title,
            r.description == description,
            r.next_id == next_id,
            r.comets == comets,
            r.planets == planets,
            r.stars == stars,
            r.id_to_index@ == star_index(
                planet_index(comet_index(Map::empty(), comets@), planets@),
                stars@,
            ),
    {
        broadcast use vstd::std_specs::hash::group_hash_axioms;

        let mut id_to_index: HashMap<u64, CelestialBodyIndex> = HashMap::new();
        let mut i: usize = 0;
        let n = comets.len();
        while i < n
            invariant
                n == comets@.len(),
                i <= n,
                id_to_index@ == comet_index(Map::empty(), comets@.take(i as int)),
            decreases n - i,
        {
            broadcast use vstd::std_specs::hash::group_hash_axioms;

            id_to_index.insert(
                comets[i].id,
                CelestialBodyIndex::new(CelestialBodyKind::Comet, i),
            );
            proof {
                assert(comets@.take(i + 1).drop_last() =~= comets@.take(i as int));
                assert(comets@.take(i + 1).last() == comets@[i as int]);
            }
            i = i + 1;
        }
        proof {
            assert(comets@.take(n as int) =~= comets@);
        }
        let ghost after_comets = id_to_index@;
        let mut i: usize = 0;
        let n = planets.len();
        while i < n
            invariant
                n == planets@.len(),
                i <= n,
                id_to_index@ == planet_index(after_comets, planets@.take(i as int)),
            decreases n - i,
        {
            broadcast use vstd::std_specs::hash::group_hash_axioms;

            id_to_index.insert(
                planets[i].id,
                CelestialBodyIndex::new(CelestialBodyKind::Planet, i),
            );
            proof {
                assert(planets@.take(i + 1).drop_last() =~= planets@.take(i as int));
                assert(planets@.take(i + 1).last() == planets@[i as int]);
            }
            i = i + 1;
        }
        proof {
            assert(planets@.take(n as int) =~= planets@);
        }
        let ghost after_planets = id_to_index@;
        let mut i: usize = 0;
        let n = stars.len();
        while i < n
            invariant
                n == stars@.len(),
                i <= n,
                id_to_index@ == star_index(after_planets, stars@.take(i as int)),
            decreases n - i,
        {
            broadcast use vstd::std_specs::hash::group_hash_axioms;

            id_to_index.insert(
                stars[i].id,
                CelestialBodyIndex::new(CelestialBodyKind::Star, i),
            );
            proof {
                assert(stars@.take(i + 1).drop_last() =~= stars@.take(i as int));
                assert(stars@.take(i + 1).last() == stars@[i as int]);
            }
            i = i + 1;
        }
        proof {
            assert(stars@.take(n as int) =~= stars@);
        }
        Galaxy { title, description, next_id, comets, planets, stars, id_to_index }
    }

    /// Returns the index associated with the celestial body ID if it exists.
    pub fn index(&self, id: u64) -> (r: Option<CelestialBodyIndex>)
        ensures
            match r {
                Some(entry) => self.id_to_index@.contains_key(id) && self.id_to_index@[id]
                    == entry,
                None => !self.id_to_index@.contains_key(id),
            },
    {
        broadcast use vstd::std_specs::hash::group_hash_axioms;

        match self.id_to_index.get(&id) {
            Some(entry) => Some(*entry),
            None => None,
        }
    }

    /// Helper function for retrieving and incrementing the next id.
    fn take_next_id(&mut self) -> (id: u64)
        requires
            old(self).next_id < u64::MAX,
        ensures
            id == old(self).next_id,
            final(self).next_id == old(self).next_id + 1,
            final(self).title == old(self).title,
            final(self).description == old(self).description,
            final(self).comets == old(self).comets,
            final(self).planets == old(self).planets,
            final(self).stars == old(self).stars,
            final(self).id_to_index == old(self).id_to_index,
    {
        let id = self.next_id;
        self.next_id = self.next_id + 1;
        id
    }
}

/// Registering one fresh comet — pushed at the end of its vector, indexed
/// under the fresh id, as `Galaxy::comet` ensures — keeps the galaxy
/// well-formed, provided the id of the new body was left unchanged.
pub proof fn lemma_registration_keeps_wf_comet(g1: Galaxy, g2: Galaxy, body: Comet)
    requires
        g1.wf(),
        g1.comets@.len() < usize::MAX,
        body.id == g1.next_id,
        g2.comets@ == g1.comets@.push(body),
        g2.planets == g1.planets,
        g2.stars == g1.stars,
        g2.next_id == g1.next_id + 1,
        g2.id_to_index@ == g1.id_to_index@.insert(
            g1.next_id,
            CelestialBodyIndex { kind: CelestialBodyKind::Comet, index: g1.comets@.len() as usize },
        ),
    ensures
        g2.wf(),
{
    lemma_registration_frame(g1, g2, CelestialBodyKind::Comet);
}

/// Registering one fresh planet, as `Galaxy::planet` ensures, keeps the
/// galaxy well-formed, provided the id of the new body was left unchanged.
pub proof fn lemma_registration_keeps_wf_planet(g1: Galaxy, g2: Galaxy, body: Planet)
    requires
        g1.wf(),
        g1.planets@.len() < usize::MAX,
        body.id == g1.next_id,
        g2.planets@ == g1.planets@.push(body),
        g2.comets == g1.comets,
        g2.stars == g1.stars,
        g2.next_id == g1.next_id + 1,
        g2.id_to_index@ == g1.id_to_index@.insert(
            g1.next_id,
            CelestialBodyIndex {
                kind: CelestialBodyKind::Planet,
                index: g1.planets@.len() as usize,
            },
        ),
    ensures
        g2.wf(),
{
    lemma_registration_frame(g1, g2, CelestialBodyKind::Planet);
}

/// Registering one fresh star, as `Galaxy::star` ensures, keeps the galaxy
/// well-formed, provided the id of the new body was left unchanged.
pub proof fn lemma_registration_keeps_wf_star(g1: Galaxy, g2: Galaxy, body: Star)
    requires
        g1.wf(),
        g1.stars@.len() < usize::MAX,
        body.id == g1.next_id,
        g2.stars@ == g1.stars@.push(body),
        g2.comets == g1.comets,
        g2.planets == g1.planets,
        g2.next_id == g1.next_id + 1,
        g2.id_to_index@ == g1.id_to_index@.insert(
            g1.next_id,
            CelestialBodyIndex { kind: CelestialBodyKind::Star, index: g1.stars@.len() as usize },
        ),
    ensures
        g2.wf(),
{
    lemma_registration_frame(g1, g2, CelestialBodyKind::Star);
}


impl Default for Galaxy {
    /// An empty galaxy, exactly as `Galaxy::new` builds it.
    fn default() -> (r: Self)
        ensures
            r.title@ == Seq::<char>::empty(),
            r.description@ == Seq::<char>::empty(),
            r.next_id == 0,
            r.comets@ == Seq::<Comet>::empty(),
            r.planets@ == Seq::<Planet>::empty(),
            r.stars@ == Seq::<Star>::empty(),
            r.id_to_index@ == Map::<u64, CelestialBodyIndex>::empty(),
            r.wf(),
    {
        Galaxy::new()
    }
}

/// The shared frame argument behind the three registration lemmas: one
/// vector gained one fresh body at its end, the others are untouched, and
/// the index map gained exactly the fresh id.
proof fn lemma_registration_frame(g1: Galaxy, g2: Galaxy, kind: CelestialBodyKind)
    requires
        g1.wf(),
        g2.next_id == g1.next_id + 1,
        match kind {
            CelestialBodyKind::Comet => {
                &&& g1.comets@.len() < usize::MAX
                &&& g2.comets@.len() == g1.comets@.len() + 1
                &&& g2.comets@.last().id == g1.next_id
                &&& forall|i: int|
                    0 <= i < g1.comets@.len() ==> #[trigger] g2.comets@[i] == g1.comets@[i]
                &&& g2.planets == g1.planets
                &&& g2.stars == g1.stars
                &&& g2.id_to_index@ == g1.id_to_index@.insert(
                    g1.next_id,
                    CelestialBodyIndex {
                        kind: CelestialBodyKind::Comet,
                        index: g1.comets@.len() as usize,
                    },
                )
            },
            CelestialBodyKind::Planet => {
                &&& g1.planets@.len() < usize::MAX
                &&& g2.planets@.len() == g1.planets@.len() + 1
                &&& g2.planets@.last().id == g1.next_id
                &&& forall|i: int|
                    0 <= i < g1.planets@.len() ==> #[trigger] g2.planets@[i] == g1.planets@[i]
                &&& g2.comets == g1.comets
                &&& g2.stars == g1.stars
                &&& g2.id_to_index@ == g1.id_to_index@.insert(
                    g1.next_id,
                    CelestialBodyIndex {
                        kind: CelestialBodyKind::Planet,
                        index: g1.planets@.len() as usize,
                    },
                )
            },
            CelestialBodyKind::Star => {
                &&& g1.stars@.len() < usize::MAX
                &&& g2.stars@.len() == g1.stars@.len() + 1
                &&& g2.stars@.last().id == g1.next_id
                &&& forall|i: int|
                    0 <= i < g1.stars@.len() ==> #[trigger] g2.stars@[i] == g1.stars@[i]
                &&& g2.comets == g1.comets
                &&& g2.planets == g1.planets
                &&& g2.id_to_index@ == g1.id_to_index@.insert(
                    g1.next_id,
                    CelestialBodyIndex {
                        kind: CelestialBodyKind::Star,
                        index: g1.stars@.len() as usize,
                    },
                )
            },
        },
    ensures
        g2.wf(),
{
    let m1 = g1.id_to_index@;
    let m2 = g2.id_to_index@;
    assert forall|i: int| 0 <= i < g2.comets@.len() implies {
        let body = #[trigger] g2.comets@[i];
        &&& body.id < g2.next_id
        &&& m2.contains_key(body.id)
        &&& m2[body.id] == (CelestialBodyIndex { kind: CelestialBodyKind::Comet, index: i as usize })
    } by {
        if kind is Comet && i == g2.comets@.len() - 1 {
            assert(g2.comets@[i] == g2.comets@.last());
        } else {
            assert(g2.comets@[i] == g1.comets@[i]);
            let body = g1.comets@[i];
            assert(body.id < g1.next_id);
            assert(m2[body.id] == m1[body.id]);
        }
    }
    assert forall|i: int| 0 <= i < g2.planets@.len() implies {
        let body = #[trigger] g2.planets@[i];
        &&& body.id < g2.next_id
        &&& m2.contains_key(body.id)
        &&& m2[body.id] == (CelestialBodyIndex {
            kind: CelestialBodyKind::Planet,
            index: i as usize,
        })
    } by {
        if kind is Planet && i == g2.planets@.len() - 1 {
            assert(g2.planets@[i] == g2.planets@.last());
        } else {
            assert(g2.planets@[i] == g1.planets@[i]);
            let body = g1.planets@[i];
            assert(body.id < g1.next_id);
            assert(m2[body.id] == m1[body.id]);
        }
    }
    assert forall|i: int| 0 <= i < g2.stars@.len() implies {
        let body = #[trigger] g2.stars@[i];
        &&& body.id < g2.next_id
        &&& m2.contains_key(body.id)
        &&& m2[body.id] == (CelestialBodyIndex { kind: CelestialBodyKind::Star, index: i as usize })
    } by {
        if kind is Star && i == g2.stars@.len() - 1 {
            assert(g2.stars@[i] == g2.stars@.last());
        } else {
            assert(g2.stars@[i] == g1.stars@[i]);
            let body = g1.stars@[i];
            assert(body.id < g1.next_id);
            assert(m2[body.id] == m1[body.id]);
        }
    }
    assert forall|id: u64| #[trigger] g2.entry_ok(id) by {
        assert(g1.entry_ok(id));
        if m2.contains_key(id) {
            if id == g1.next_id {
                match kind {
                    CelestialBodyKind::Comet => {
                        assert(m2[id] == (CelestialBodyIndex {
                            kind: CelestialBodyKind::Comet,
                            index: g1.comets@.len() as usize,
                        }));
                        assert(g2.comets@[g1.comets@.len() as int] == g2.comets@.last());
                    },
                    CelestialBodyKind::Planet => {
                        assert(m2[id] == (CelestialBodyIndex {
                            kind: CelestialBodyKind::Planet,
                            index: g1.planets@.len() as usize,
                        }));
                        assert(g2.planets@[g1.planets@.len() as int] == g2.planets@.last());
                    },
                    CelestialBodyKind::Star => {
                        assert(m2[id] == (CelestialBodyIndex {
                            kind: CelestialBodyKind::Star,
                            index: g1.stars@.len() as usize,
                        }));
                        assert(g2.stars@[g1.stars@.len() as int] == g2.stars@.last());
                    },
                }
            } else {
                assert(m1.contains_key(id));
                assert(m2[id] == m1[id]);
                let entry = m1[id];
                match entry.kind {
                    CelestialBodyKind::Comet => {
                        assert(g2.comets@[entry.index as int] == g1.comets@[entry.index as int]);
                    },
                    CelestialBodyKind::Planet => {
                        assert(g2.planets@[entry.index as int] == g1.planets@[entry.index as int]);
                    },
                    CelestialBodyKind::Star => {
                        assert(g2.stars@[entry.index as int] == g1.stars@[entry.index as int]);
                    },
                }
            }
        }
    }
}


/// The index map after registering every comet of `comets`, in order, on
/// top of `m`.
pub open spec fn comet_index(
    m: Map<u64, CelestialBodyIndex>,
    comets: Seq<Comet>,
) -> Map<u64, CelestialBodyIndex>
    decreases comets.len(),
{
    if comets.len() == 0 {
        m
    } else {
        comet_index(m, comets.drop_last()).insert(
            comets.last().id,
            CelestialBodyIndex {
                kind: CelestialBodyKind::Comet,
                index: (comets.len() - 1) as usize,
            },
        )
    }
}

/// The index map after registering every planet of `planets`, in order, on
/// top of `m`.
pub open spec fn planet_index(
    m: Map<u64, CelestialBodyIndex>,
    planets: Seq<Planet>,
) -> Map<u64, CelestialBodyIndex>
    decreases planets.len(),
{
    if planets.len() == 0 {
        m
    } else {
        planet_index(m, planets.drop_last()).insert(
            planets.last().id,
            CelestialBodyIndex {
                kind: CelestialBodyKind::Planet,
                index: (planets.len() - 1) as usize,
            },
        )
    }
}

/// The index map after registering every star of `stars`, in order, on top
/// of `m`.
pub open spec fn star_index(
    m: Map<u64, CelestialBodyIndex>,
    stars: Seq<Star>,
) -> Map<u64, CelestialBodyIndex>
    decreases stars.len(),
{
    if stars.len() == 0 {
        m
    } else {
        star_index(m, stars.drop_last()).insert(
            stars.last().id,
            CelestialBodyIndex { kind: CelestialBodyKind::Star, index: (stars.len() - 1) as usize },
        )
    }
}

} // verus!
