//! Entities: the IP addresses and domains found in a line of text, with
//! what the databases say of them.

use crate::types::{text_of, CdnProvider, CdnRecord, GeoLocation, GeoRecord};
use vstd::prelude::*;

verus! {

/// What kind of thing an entity is.
#[derive(Clone, Copy, Debug, PartialEq, Eq, Structural)]
pub enum EntityType {
    /// An IPv4 address.
    IPv4,
    /// An IPv6 address.
    IPv6,
    /// A domain name.
    Domain,
    /// Text between the others.
    Plain,
}

/// An entity, as mathematical values.
pub ghost struct EntityView {
    pub location: (usize, usize),
    pub entity_type: EntityType,
    pub text: Seq<char>,
    pub geo_info: Option<GeoRecord>,
    pub cdn_info: Option<CdnRecord>,
    pub source: Option<Seq<char>>,
}

/// A piece of a line of text.
#[derive(Debug)]
pub struct Entity {
    /// Where the piece starts and ends in the line, in bytes.
    pub location: (usize, usize),
    pub entity_type: EntityType,
    /// The piece as it stands in the line.
    pub text: String,
    /// What a geolocation lookup found, for an address.
    pub geo_info: Option<GeoLocation>,
    /// What a CDN lookup found, for a domain.
    pub cdn_info: Option<CdnProvider>,
    /// The logical name of the database that answered.
    pub source: Option<String>,
}

impl View for Entity {
    type V = EntityView;

    open spec fn view(&self) -> EntityView {
        EntityView {
            location: self.location,
            entity_type: self.entity_type,
            text: self.text@,
            geo_info: match self.geo_info {
                Some(g) => Some(g@),
                None => None,
            },
            cdn_info: match self.cdn_info {
                Some(c) => Some(c@),
                None => None,
            },
            source: text_of(self.source),
        }
    }
}

/// The view of a bare entity: a piece of text of some kind, not yet looked
/// up.
pub open spec fn bare(start: usize, end: usize, kind: EntityType, text: Seq<char>) -> EntityView {
    EntityView {
        location: (start, end),
        entity_type: kind,
        text: text,
        geo_info: None,
        cdn_info: None,
        source: None,
    }
}

impl Entity {
    /// A piece of plain text.
    pub fn plain(start: usize, end: usize, text: String) -> (e: Self)
        ensures
            e@ == bare(start, end, EntityType::Plain, text@),
    {
        Entity {
            location: (start, end),
            entity_type: EntityType::Plain,
            text,
            geo_info: None,
            cdn_info: None,
            source: None,
        }
    }

    /// An IPv4 address.
    pub fn ipv4(start: usize, end: usize, text: String) -> (e: Self)
        ensures
            e@ == bare(start, end, EntityType::IPv4, text@),
    {
        Entity {
            location: (start, end),
            entity_type: EntityType::IPv4,
            text,
            geo_info: None,
            cdn_info: None,
            source: None,
        }
    }

    /// An IPv6 address.
    pub fn ipv6(start: usize, end: usize, text: String) -> (e: Self)
        ensures
            e@ == bare(start, end, EntityType::IPv6, text@),
    {
        Entity {
            location: (start, end),
            entity_type: EntityType::IPv6,
            text,
            geo_info: None,
            cdn_info: None,
            source: None,
        }
    }

    /// A domain name.
    pub fn domain(start: usize, end: usize, text: String) -> (e: Self)
        ensures
            e@ == bare(start, end, EntityType::Domain, text@),
    {
        Entity {
            location: (start, end),
            entity_type: EntityType::Domain,
            text,
            geo_info: None,
            cdn_info: None,
            source: None,
        }
    }

    /// Whether the entity is an IP address.
    pub fn is_ip(&self) -> (b: bool)
        ensures
            b == (self.entity_type == EntityType::IPv4 || self.entity_type == EntityType::IPv6),
    {
        match self.entity_type {
            EntityType::IPv4 => true,
            EntityType::IPv6 => true,
            _ => false,
        }
    }

    /// Whether the entity is a domain name.
    pub fn is_domain(&self) -> (b: bool)
        ensures
            b == (self.entity_type == EntityType::Domain),
    {
        match self.entity_type {
            EntityType::Domain => true,
            _ => false,
        }
    }

    /// Whether a geolocation lookup found something.
    pub fn has_geo_info(&self) -> (b: bool)
        ensures
            b == self.geo_info is Some,
    {
        self.geo_info.is_some()
    }

    /// Whether a CDN lookup found something.
    pub fn has_cdn_info(&self) -> (b: bool)
        ensures
            b == self.cdn_info is Some,
    {
        self.cdn_info.is_some()
    }
}

/// Where `e` goes in `s` so that it comes behind every entity that does not
/// start after it: the position behind the last such entity.
pub open spec fn insert_position(s: Seq<EntityView>, e: EntityView) -> int
    decreases s.len(),
{
    if s.len() == 0 || s.last().location.0 <= e.location.0 {
        s.len() as int
    } else {
        insert_position(s.drop_last(), e)
    }
}

/// The entities of `s` in the order of their starts; entities with the same
/// start keep their order.
pub open spec fn sorted_by_position(s: Seq<EntityView>) -> Seq<EntityView>
    decreases s.len(),
{
    if s.len() == 0 {
        s
    } else {
        let head = sorted_by_position(s.drop_last());
        head.insert(insert_position(head, s.last()), s.last())
    }
}

/// Whether the starts of `s` never decrease.
pub open spec fn ordered(s: Seq<EntityView>) -> bool {
    forall|a: int, b: int| 0 <= a <= b < s.len() ==> s[a].location.0 <= s[b].location.0
}

/// The insert position lies in range, with no later start before it and
/// only later starts behind it.
pub proof fn lemma_insert_position(s: Seq<EntityView>, e: EntityView)
    ensures
        0 <= insert_position(s, e) <= s.len(),
        forall|k: int|
            insert_position(s, e) <= k < s.len() ==> (#[trigger] s[k]).location.0 > e.location.0,
        insert_position(s, e) > 0 ==> s[insert_position(s, e) - 1].location.0 <= e.location.0,
    decreases s.len(),
{
    if s.len() == 0 || s.last().location.0 <= e.location.0 {
    } else {
        let front = s.drop_last();
        lemma_insert_position(front, e);
        assert forall|k: int| insert_position(s, e) <= k < s.len() implies (#[trigger] s[k]).location.0
            > e.location.0 by {
            if k < front.len() {
                assert(s[k] == front[k]);
            }
        }
        if insert_position(s, e) > 0 {
            assert(s[insert_position(s, e) - 1] == front[insert_position(front, e) - 1]);
        }
    }
}

/// A position with no later start before it and only later starts behind
/// it is the insert position.
pub proof fn lemma_insert_position_is(s: Seq<EntityView>, e: EntityView, j: int)
    requires
        0 <= j <= s.len(),
        forall|k: int| j <= k < s.len() ==> (#[trigger] s[k]).location.0 > e.location.0,
        j > 0 ==> s[j - 1].location.0 <= e.location.0,
    ensures
        insert_position(s, e) == j,
    decreases s.len(),
{
    if s.len() == 0 || s.last().location.0 <= e.location.0 {
        if j < s.len() {
            assert(s[s.len() - 1].location.0 > e.location.0);
        }
    } else {
        assert(j < s.len()) by {
            if j == s.len() {
                assert(s[j - 1] == s.last());
            }
        }
        lemma_insert_position_is(s.drop_last(), e, j);
    }
}

/// Sorting keeps every entity, as often as it occurs, and puts the starts
/// in order.
pub proof fn lemma_sorted_by_position(s: Seq<EntityView>)
    ensures
        sorted_by_position(s).len() == s.len(),
        sorted_by_position(s).to_multiset() == s.to_multiset(),
        ordered(sorted_by_position(s)),
    decreases s.len(),
{
    if s.len() == 0 {
    } else {
        let head = sorted_by_position(s.drop_last());
        let e = s.last();
        let j = insert_position(head, e);
        lemma_sorted_by_position(s.drop_last());
        lemma_insert_position(head, e);
        vstd::seq_lib::to_multiset_insert(head, j, e);
        vstd::seq_lib::to_multiset_build(s.drop_last(), e);
        assert(s.drop_last().push(e) == s);
        let out = head.insert(j, e);
        assert forall|a: int, b: int| 0 <= a <= b < out.len() implies out[a].location.0
            <= out[b].location.0 by {
            if a < j && b > j {
                assert(out[a] == head[a]);
                assert(out[b] == head[b - 1]);
            } else if a < j && b == j {
                assert(head[a].location.0 <= head[j - 1].location.0);
            } else if a < j && b < j {
                assert(out[a] == head[a] && out[b] == head[b]);
            } else if a == j && b > j {
                assert(out[b] == head[b - 1]);
            } else if a > j {
                assert(out[a] == head[a - 1] && out[b] == head[b - 1]);
            }
        }
    }
}

/// Whether `e` starts where every entity of `kept` has ended.
pub open spec fn clear_of(kept: Seq<EntityView>, e: EntityView) -> bool {
    forall|k: int| 0 <= k < kept.len() ==> e.location.0 >= (#[trigger] kept[k]).location.1
}

/// The entities of `s` that do not start before an earlier kept entity has
/// ended, in order.
pub open spec fn without_overlaps(s: Seq<EntityView>) -> Seq<EntityView>
    decreases s.len(),
{
    if s.len() == 0 {
        s
    } else {
        let kept = without_overlaps(s.drop_last());
        if clear_of(kept, s.last()) {
            kept.push(s.last())
        } else {
            kept
        }
    }
}

/// No entity that is kept starts before an earlier kept one has ended.
pub proof fn lemma_without_overlaps(s: Seq<EntityView>)
    ensures
        forall|a: int, b: int|
            0 <= a < b < without_overlaps(s).len() ==> without_overlaps(s)[b].location.0
                >= without_overlaps(s)[a].location.1,
    decreases s.len(),
{
    if s.len() > 0 {
        lemma_without_overlaps(s.drop_last());
    }
}

/// The views of a vector of entities.
pub open spec fn entity_views(v: Seq<Entity>) -> Seq<EntityView> {
    Seq::new(v.len(), |i: int| v[i]@)
}

/// The entities of a line.
#[derive(Debug)]
pub struct Entities {
    pub entities: Vec<Entity>,
}

impl Entities {
    /// No entities.
    pub fn new() -> (r: Self)
        ensures
            r.entities@.len() == 0,
    {
        Entities { entities: Vec::new() }
    }

    /// Adds an entity at the end.
    pub fn push(&mut self, entity: Entity)
        ensures
            final(self).entities@ == old(self).entities@.push(entity),
            entity_views(final(self).entities@) == entity_views(old(self).entities@).push(
                entity@,
            ),
    {
        self.entities.push(entity);
        assert(entity_views(self.entities@) == entity_views(old(self).entities@).push(entity@));
    }

    /// Puts the entities in the order of their starts; entities with the
    /// same start keep their order.
    pub fn sort_by_position(&mut self)
        ensures
            entity_views(final(self).entities@) == sorted_by_position(
                entity_views(old(self).entities@),
            ),
    {
        let len: usize = self.entities.len();
        let ghost before = entity_views(self.entities@);
        let mut i: usize = 0;
        assert(before.take(0) == Seq::<EntityView>::empty());
        assert(before.skip(0) == before);
        while i < len
            invariant
                i <= len,
                len == before.len(),
                self.entities@.len() == len,
                entity_views(self.entities@) == sorted_by_position(before.take(i as int))
                    + before.skip(i as int),
                sorted_by_position(before.take(i as int)).len() == i,
            decreases len - i,
        {
            let ghost head = sorted_by_position(before.take(i as int));
            assert(entity_views(self.entities@)[i as int] == before[i as int]);
            let key: usize = self.entities[i].location.0;
            let mut j: usize = i;
            while j > 0 && self.entities[j - 1].location.0 > key
                invariant
                    j <= i < len,
                    self.entities@.len() == len,
                    entity_views(self.entities@) == head + before.skip(i as int),
                    head.len() == i,
                    key == before[i as int].location.0,
                    forall|k: int| j <= k < i ==> (#[trigger] head[k]).location.0 > key,
                decreases j,
            {
                assert(entity_views(self.entities@)[j - 1] == head[j - 1]);
                j = j - 1;
            }
            proof {
                if j > 0 {
                    assert(entity_views(self.entities@)[j - 1] == head[j - 1]);
                }
                lemma_insert_position_is(head, before[i as int], j as int);
                assert(before.take(i + 1).drop_last() == before.take(i as int));
                assert(before.take(i + 1).last() == before[i as int]);
            }
            let ghost current = self.entities@;
            let e: Entity = self.entities.remove(i);
            self.entities.insert(j, e);
            proof {
                let target = head.insert(j as int, before[i as int]) + before.skip(i + 1);
                let got = entity_views(self.entities@);
                assert(self.entities@ == current.remove(i as int).insert(j as int, e));
                assert(got.len() == target.len());
                assert forall|k: int| 0 <= k < got.len() implies got[k] == target[k] by {
                    if k < j {
                        assert(self.entities@[k] == current[k]);
                        assert(entity_views(current)[k] == head[k]);
                    } else if k == j {
                        assert(e == current[i as int]);
                        assert(entity_views(current)[i as int] == before[i as int]);
                    } else if k <= i {
                        assert(self.entities@[k] == current[k - 1]);
                        assert(entity_views(current)[k - 1] == head[k - 1]);
                    } else {
                        assert(self.entities@[k] == current[k]);
                        assert(entity_views(current)[k] == before.skip(i as int)[k - i]);
                    }
                }
                assert(got == target);
            }
            i = i + 1;
        }
        assert(before.take(len as int) == before);
    }

    /// Sorts the entities and drops each one that starts before an earlier
    /// kept one has ended.
    pub fn remove_overlaps(&mut self)
        ensures
            entity_views(final(self).entities@) == without_overlaps(
                sorted_by_position(entity_views(old(self).entities@)),
            ),
    {
        self.sort_by_position();
        let mut rest: Vec<Entity> = Vec::new();
        core::mem::swap(&mut self.entities, &mut rest);
        let ghost sorted = entity_views(rest@);
        let ghost mut done: int = 0;
        assert(sorted.take(0) == Seq::<EntityView>::empty());
        assert(sorted.skip(0) == sorted);
        assert(entity_views(self.entities@) == Seq::<EntityView>::empty());
        while rest.len() > 0
            invariant
                0 <= done <= sorted.len(),
                entity_views(rest@) == sorted.skip(done),
                entity_views(self.entities@) == without_overlaps(sorted.take(done)),
            decreases rest@.len(),
        {
            let ghost prior = rest@;
            let ghost kept = self.entities@;
            proof {
                assert(entity_views(prior).len() == prior.len());
                assert(sorted.skip(done).len() == sorted.len() - done);
            }
            let e: Entity = rest.remove(0);
            proof {
                assert(entity_views(prior)[0] == sorted.skip(done)[0]);
                assert(e@ == sorted[done]);
                assert(sorted.take(done + 1).drop_last() == sorted.take(done));
                assert(sorted.take(done + 1).last() == e@);
                assert(entity_views(rest@) == sorted.skip(done + 1)) by {
                    assert forall|k: int| 0 <= k < rest@.len() implies entity_views(rest@)[k]
                        == sorted.skip(done + 1)[k] by {
                        assert(rest@[k] == prior[k + 1]);
                        assert(entity_views(prior)[k + 1] == sorted.skip(done)[k + 1]);
                    }
                }
            }
            if starts_clear(&self.entities, &e) {
                self.entities.push(e);
                assert(entity_views(self.entities@) == entity_views(kept).push(e@));
            }
            proof {
                done = done + 1;
            }
        }
        assert(sorted.take(sorted.len() as int) == sorted);
    }

    /// The entities that are IP addresses, in order.
    pub fn ips(&self) -> (r: Vec<&Entity>)
        ensures
            r@.map_values(|e: &Entity| *e) == self.entities@.filter(
                |e: Entity| e.entity_type == EntityType::IPv4 || e.entity_type == EntityType::IPv6,
            ),
    {
        let mut out: Vec<&Entity> = Vec::new();
        let mut i: usize = 0;
        let ghost pred = |e: Entity|
            e.entity_type == EntityType::IPv4 || e.entity_type == EntityType::IPv6;
        assert(self.entities@.take(0).filter(pred) == Seq::<Entity>::empty());
        while i < self.entities.len()
            invariant
                i <= self.entities@.len(),
                pred == |e: Entity|
                    e.entity_type == EntityType::IPv4 || e.entity_type == EntityType::IPv6,
                out@.map_values(|e: &Entity| *e) == self.entities@.take(i as int).filter(pred),
            decreases self.entities@.len() - i,
        {
            proof {
                assert(self.entities@.take(i + 1).drop_last() == self.entities@.take(i as int));
                reveal(Seq::filter);
            }
            if self.entities[i].is_ip() {
                out.push(&self.entities[i]);
                assert(out@.map_values(|e: &Entity| *e) == self.entities@.take(i as int).filter(
                    pred,
                ).push(self.entities@[i as int]));
            }
            i = i + 1;
        }
        assert(self.entities@.take(self.entities@.len() as int) == self.entities@);
        out
    }

    /// The entities that are domain names, in order.
    pub fn domains(&self) -> (r: Vec<&Entity>)
        ensures
            r@.map_values(|e: &Entity| *e) == self.entities@.filter(
                |e: Entity| e.entity_type == EntityType::Domain,
            ),
    {
        let mut out: Vec<&Entity> = Vec::new();
        let mut i: usize = 0;
        let ghost pred = |e: Entity| e.entity_type == EntityType::Domain;
        assert(self.entities@.take(0).filter(pred) == Seq::<Entity>::empty());
        while i < self.entities.len()
            invariant
                i <= self.entities@.len(),
                pred == |e: Entity| e.entity_type == EntityType::Domain,
                out@.map_values(|e: &Entity| *e) == self.entities@.take(i as int).filter(pred),
            decreases self.entities@.len() - i,
        {
            proof {
                assert(self.entities@.take(i + 1).drop_last() == self.entities@.take(i as int));
                reveal(Seq::filter);
            }
            if self.entities[i].is_domain() {
                out.push(&self.entities[i]);
                assert(out@.map_values(|e: &Entity| *e) == self.entities@.take(i as int).filter(
                    pred,
                ).push(self.entities@[i as int]));
            }
            i = i + 1;
        }
        assert(self.entities@.take(self.entities@.len() as int) == self.entities@);
        out
    }

    /// How many entities there are.
    pub fn len(&self) -> (n: usize)
        ensures
            n == self.entities@.len(),
    {
        self.entities.len()
    }

    /// Whether there are no entities.
    pub fn is_empty(&self) -> (b: bool)
        ensures
            b == (self.entities@.len() == 0),
    {
        self.entities.len() == 0
    }
}

/// Whether `e` starts where every entity of `kept` has ended.
fn starts_clear(kept: &Vec<Entity>, e: &Entity) -> (r: bool)
    ensures
        r == clear_of(entity_views(kept@), e@),
{
    let mut k: usize = 0;
    while k < kept.len()
        invariant
            k <= kept@.len(),
            forall|m: int|
                0 <= m < k ==> e.location.0 >= (#[trigger] entity_views(kept@)[m]).location.1,
        decreases kept@.len() - k,
    {
        if e.location.0 < kept[k].location.1 {
            assert(entity_views(kept@)[k as int].location.1 > e.location.0);
            return false;
        }
        assert(entity_views(kept@)[k as int] == kept@[k as int]@);
        k = k + 1;
    }
    true
}

} // verus!
