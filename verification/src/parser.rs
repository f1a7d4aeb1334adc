//! From a line of text to its entities.

use crate::entity::{
    bare, entity_views, sorted_by_position, without_overlaps, Entities, Entity, EntityType,
    EntityView,
};
use crate::finder::{
    find_domains, find_ipv4, find_ipv6, found, matches_view, MatchView, DOMAIN_PATTERN,
    IPV4_PATTERN, IPV6_PATTERN,
};
use crate::text::{utf8_lossy, utf8_lossy_text};
use vstd::prelude::*;
use vstd::slice::slice_subrange;
use vstd::string::StringSliceAdditionalSpecFns;

verus! {

/// The entities of kind `kind` that the matches `ms` stand for.
pub open spec fn as_entities(ms: Seq<MatchView>, kind: EntityType) -> Seq<EntityView> {
    Seq::new(ms.len(), |i: int| bare(ms[i].0, ms[i].1, kind, ms[i].2))
}

/// Whether the match `a` reaches from `start` to `end` or beyond on both
/// sides.
pub open spec fn covers(a: MatchView, start: usize, end: usize) -> bool {
    a.0 <= start && a.1 >= end
}

/// Whether one of the matches `v4` covers the stretch from `start` to `end`.
pub open spec fn covered(v4: Seq<MatchView>, start: usize, end: usize) -> bool {
    exists|k: int| 0 <= k < v4.len() && covers(#[trigger] v4[k], start, end)
}

/// What is found in a line before overlaps are sorted out: the IPv4
/// addresses, the IPv6 addresses, and the domain names that are no part of
/// an IPv4 address.
pub open spec fn candidates(v4: Seq<MatchView>, v6: Seq<MatchView>, domains: Seq<MatchView>) -> Seq<
    EntityView,
> {
    as_entities(v4, EntityType::IPv4) + as_entities(v6, EntityType::IPv6) + as_entities(
        domains.filter(|m: MatchView| !covered(v4, m.0, m.1)),
        EntityType::Domain,
    )
}

/// The entities of a line in which the given matches were found: the
/// candidates in the order of their starts, without those that start
/// before an earlier one has ended.
pub open spec fn line_entities(v4: Seq<MatchView>, v6: Seq<MatchView>, domains: Seq<MatchView>) -> Seq<
    EntityView,
> {
    sorted_by_position(without_overlaps(sorted_by_position(candidates(v4, v6, domains))))
}

/// Whether one of the matches `v4` covers the stretch from `start` to `end`.
fn is_covered(v4: &Vec<(usize, usize, String)>, start: usize, end: usize) -> (r: bool)
    ensures
        r == covered(matches_view(v4@), start, end),
{
    let mut k: usize = 0;
    while k < v4.len()
        invariant
            k <= v4@.len(),
            forall|m: int| 0 <= m < k ==> !covers(#[trigger] matches_view(v4@)[m], start, end),
        decreases v4@.len() - k,
    {
        if v4[k].0 <= start && v4[k].1 >= end {
            assert(covers(matches_view(v4@)[k as int], start, end));
            return true;
        }
        k = k + 1;
    }
    false
}

/// Makes the entities of a line from what was found in it.
pub fn entities_from_matches(
    v4: &Vec<(usize, usize, String)>,
    v6: &Vec<(usize, usize, String)>,
    domains: &Vec<(usize, usize, String)>,
) -> (r: Entities)
    ensures
        entity_views(r.entities@) == line_entities(
            matches_view(v4@),
            matches_view(v6@),
            matches_view(domains@),
        ),
{
    let ghost m4 = matches_view(v4@);
    let ghost m6 = matches_view(v6@);
    let ghost md = matches_view(domains@);
    let mut entities = Entities::new();
    let mut i: usize = 0;
    assert(entity_views(entities.entities@) == as_entities(m4.take(0), EntityType::IPv4));
    while i < v4.len()
        invariant
            i <= v4@.len(),
            m4 == matches_view(v4@),
            entity_views(entities.entities@) == as_entities(m4.take(i as int), EntityType::IPv4),
        decreases v4@.len() - i,
    {
        entities.push(Entity::ipv4(v4[i].0, v4[i].1, v4[i].2.clone()));
        assert(entity_views(entities.entities@) == as_entities(
            m4.take(i + 1),
            EntityType::IPv4,
        ));
        i = i + 1;
    }
    assert(m4.take(v4@.len() as int) == m4);
    let ghost first = as_entities(m4, EntityType::IPv4);
    i = 0;
    assert(entity_views(entities.entities@) == first + as_entities(
        m6.take(0),
        EntityType::IPv6,
    ));
    while i < v6.len()
        invariant
            i <= v6@.len(),
            m6 == matches_view(v6@),
            entity_views(entities.entities@) == first + as_entities(
                m6.take(i as int),
                EntityType::IPv6,
            ),
        decreases v6@.len() - i,
    {
        entities.push(Entity::ipv6(v6[i].0, v6[i].1, v6[i].2.clone()));
        assert(entity_views(entities.entities@) == first + as_entities(
            m6.take(i + 1),
            EntityType::IPv6,
        ));
        i = i + 1;
    }
    assert(m6.take(v6@.len() as int) == m6);
    let ghost second = first + as_entities(m6, EntityType::IPv6);
    let ghost free = |m: MatchView| !covered(m4, m.0, m.1);
    i = 0;
    assert(md.take(0).filter(free) == Seq::<MatchView>::empty());
    assert(entity_views(entities.entities@) == second + as_entities(
        md.take(0).filter(free),
        EntityType::Domain,
    ));
    while i < domains.len()
        invariant
            i <= domains@.len(),
            m4 == matches_view(v4@),
            md == matches_view(domains@),
            free == |m: MatchView| !covered(m4, m.0, m.1),
            entity_views(entities.entities@) == second + as_entities(
                md.take(i as int).filter(free),
                EntityType::Domain,
            ),
        decreases domains@.len() - i,
    {
        proof {
            assert(md.take(i + 1).drop_last() == md.take(i as int));
            assert(md.take(i + 1).last() == md[i as int]);
            reveal(Seq::filter);
        }
        if !is_covered(v4, domains[i].0, domains[i].1) {
            entities.push(Entity::domain(domains[i].0, domains[i].1, domains[i].2.clone()));
            assert(md.take(i + 1).filter(free) == md.take(i as int).filter(free).push(
                md[i as int],
            ));
            assert(entity_views(entities.entities@) == second + as_entities(
                md.take(i + 1).filter(free),
                EntityType::Domain,
            ));
        }
        i = i + 1;
    }
    assert(md.take(domains@.len() as int) == md);
    entities.remove_overlaps();
    entities.sort_by_position();
    entities
}

/// Finds the IP addresses and domain names in a line of text. What the
/// three searches find becomes the entities of the line, in the order of
/// their starts and without overlaps.
pub fn parse_line(text: &str) -> (r: Entities)
    ensures
        entity_views(r.entities@) == line_entities(
            found(IPV4_PATTERN@, text@),
            found(IPV6_PATTERN@, text@),
            found(DOMAIN_PATTERN@, text@),
        ),
{
    let v4 = find_ipv4(text);
    let v6 = find_ipv6(text);
    let domains = find_domains(text);
    entities_from_matches(&v4, &v6, &domains)
}

/// Finds the entities of each line.
pub fn parse_lines(lines: &[String]) -> (r: Vec<Entities>)
    ensures
        r@.len() == lines@.len(),
        forall|i: int|
            0 <= i < lines@.len() ==> entity_views((#[trigger] r@[i]).entities@) == line_entities(
                found(IPV4_PATTERN@, lines@[i]@),
                found(IPV6_PATTERN@, lines@[i]@),
                found(DOMAIN_PATTERN@, lines@[i]@),
            ),
{
    let mut out: Vec<Entities> = Vec::new();
    let mut i: usize = 0;
    while i < lines.len()
        invariant
            i <= lines@.len(),
            out@.len() == i,
            forall|k: int|
                0 <= k < i ==> entity_views((#[trigger] out@[k]).entities@) == line_entities(
                    found(IPV4_PATTERN@, lines@[k]@),
                    found(IPV6_PATTERN@, lines@[k]@),
                    found(DOMAIN_PATTERN@, lines@[k]@),
                ),
        decreases lines@.len() - i,
    {
        out.push(parse_line(lines[i].as_str()));
        i = i + 1;
    }
    out
}

/// A position, but no further than `len`.
pub open spec fn clamp(x: usize, len: nat) -> int {
    if x > len {
        len as int
    } else {
        x as int
    }
}

/// The text of the bytes from `from` to `to`, both taken no further than
/// the end of the bytes; bytes that are no UTF-8 become replacement
/// characters.
pub open spec fn piece(bytes: Seq<u8>, from: usize, to: usize) -> Seq<char> {
    let a = clamp(from, bytes.len());
    let b = clamp(to, bytes.len());
    utf8_lossy_text(
        bytes.subrange(
            a,
            if b < a {
                a
            } else {
                b
            },
        ),
    )
}

/// The plain text between `from` and `to`, as an entity.
pub open spec fn gap(bytes: Seq<u8>, from: usize, to: usize) -> EntityView {
    bare(from, to, EntityType::Plain, piece(bytes, from, to))
}

/// The first `n` entities of `s`, each with the plain text that lies
/// between the end of the one before and its start in front of it, and
/// where the last of them ends.
pub open spec fn filled(bytes: Seq<u8>, s: Seq<EntityView>, n: int) -> (Seq<EntityView>, usize)
    decreases n,
{
    if n <= 0 {
        (Seq::empty(), 0usize)
    } else {
        let (before, last) = filled(bytes, s, n - 1);
        let e = s[n - 1];
        (
            if e.location.0 > last {
                before.push(gap(bytes, last, e.location.0)).push(e)
            } else {
                before.push(e)
            },
            e.location.1,
        )
    }
}

/// The line as a run of entities: the entities found in it, in the order
/// of their starts, with the plain text between them, before the first and
/// behind the last. A line without entities is one piece of plain text.
pub open spec fn completed(text: Seq<char>, bytes: Seq<u8>, s: Seq<EntityView>) -> Seq<EntityView> {
    if s.len() == 0 {
        seq![bare(0, bytes.len() as usize, EntityType::Plain, text)]
    } else {
        let sorted = sorted_by_position(s);
        let (run, last) = filled(bytes, sorted, sorted.len() as int);
        if last < bytes.len() {
            run.push(gap(bytes, last, bytes.len() as usize))
        } else {
            run
        }
    }
}

/// The plain text between `from` and `to`, as an entity.
fn plain_between(bytes: &[u8], from: usize, to: usize) -> (e: Entity)
    ensures
        e@ == gap(bytes@, from, to),
{
    let len: usize = bytes.len();
    let a: usize = if from > len {
        len
    } else {
        from
    };
    let b: usize = if to > len {
        len
    } else {
        to
    };
    let b: usize = if b < a {
        a
    } else {
        b
    };
    Entity::plain(from, to, utf8_lossy(slice_subrange(bytes, a, b)))
}

/// Fills the gaps between the entities of a line with plain text, so that
/// the line can be written again from its entities.
pub fn build_complete_entities(text: &str, entities: Entities) -> (r: Entities)
    ensures
        entity_views(r.entities@) == completed(
            text@,
            text.spec_bytes(),
            entity_views(entities.entities@),
        ),
{
    let bytes: &[u8] = text.as_bytes();
    let len: usize = bytes.len();
    let mut entities = entities;
    let ghost given = entity_views(entities.entities@);
    if entities.is_empty() {
        let mut result = Entities::new();
        result.push(Entity::plain(0, len, text.to_owned()));
        assert(entity_views(result.entities@) == seq![
            bare(0, len, EntityType::Plain, text@),
        ]);
        return result;
    }
    entities.sort_by_position();
    let ghost sorted = entity_views(entities.entities@);
    proof {
        crate::entity::lemma_sorted_by_position(given);
    }
    let mut rest: Vec<Entity> = entities.entities;
    let mut complete = Entities::new();
    let mut last_pos: usize = 0;
    let ghost mut done: int = 0;
    assert(entity_views(complete.entities@) == filled(bytes@, sorted, 0).0);
    assert(sorted.skip(0) == sorted);
    while rest.len() > 0
        invariant
            0 <= done <= sorted.len(),
            entity_views(rest@) == sorted.skip(done),
            entity_views(complete.entities@) == filled(bytes@, sorted, done).0,
            last_pos == filled(bytes@, sorted, done).1,
        decreases rest@.len(),
    {
        let ghost prior = rest@;
        proof {
            assert(entity_views(prior).len() == prior.len());
            assert(sorted.skip(done).len() == sorted.len() - done);
        }
        let entity: Entity = rest.remove(0);
        proof {
            assert(entity_views(prior)[0] == sorted.skip(done)[0]);
            assert(entity@ == sorted[done]);
            assert(entity_views(rest@) == sorted.skip(done + 1)) by {
                assert forall|k: int| 0 <= k < rest@.len() implies entity_views(rest@)[k]
                    == sorted.skip(done + 1)[k] by {
                    assert(rest@[k] == prior[k + 1]);
                    assert(entity_views(prior)[k + 1] == sorted.skip(done)[k + 1]);
                }
            }
        }
        let start: usize = entity.location.0;
        let end: usize = entity.location.1;
        if start > last_pos {
            complete.push(plain_between(bytes, last_pos, start));
        }
        complete.push(entity);
        last_pos = end;
        proof {
            done = done + 1;
        }
    }
    if last_pos < len {
        complete.push(plain_between(bytes, last_pos, len));
    }
    complete
}

} // verus!
