//! Writing entities out as text.

use crate::entity::{entity_views, Entities, Entity, EntityView};
use crate::text::{append_chars, chars_of, join_chars, joined, string_of, views};
use crate::types::{text_of, GeoLocation, GeoRecord};
use vstd::prelude::*;

verus! {

/// How answers are written.
#[derive(Clone, Copy, Debug)]
pub enum OutputFormat {
    /// Plain text with notes in line.
    Text,
    /// JSON.
    Json,
    /// Text with coloured notes.
    Colored,
}

/// The colours of notes.
#[derive(Clone, Copy, Debug)]
pub enum ColorType {
    Green,
    Cyan,
}

/// Calls `colored::Colorize::green` and writes the result out. Whether
/// escape codes are added depends on the terminal and the environment, so
/// nothing is said of the text returned.
#[verifier::external_body]
fn paint_green(text: &str) -> (r: String) {
    colored::Colorize::green(text).to_string()
}

/// Calls `colored::Colorize::cyan` and writes the result out. Whether
/// escape codes are added depends on the terminal and the environment, so
/// nothing is said of the text returned.
#[verifier::external_body]
fn paint_cyan(text: &str) -> (r: String) {
    colored::Colorize::cyan(text).to_string()
}

/// Colours `text` where colours are wanted, and hands it back as it is
/// where they are not.
pub fn apply_color(text: &str, use_color: bool, color_type: ColorType) -> (r: String)
    ensures
        !use_color ==> r@ == text@,
{
    if !use_color {
        return text.to_owned();
    }
    match color_type {
        ColorType::Green => paint_green(text),
        ColorType::Cyan => paint_cyan(text),
    }
}

/// The parts of a geolocation answer that are written out: the country;
/// the region unless it repeats the country; the city unless it repeats the
/// region; the provider.
pub open spec fn geo_parts(g: GeoRecord) -> Seq<Seq<char>> {
    let country: Seq<Seq<char>> = match g.country {
        Some(c) => seq![c],
        None => Seq::empty(),
    };
    let region: Seq<Seq<char>> = match g.region {
        Some(r) => if g.country is None || g.country->0 != r {
            seq![r]
        } else {
            Seq::empty()
        },
        None => Seq::empty(),
    };
    let city: Seq<Seq<char>> = match g.city {
        Some(c) => if g.region is None || g.region->0 != c {
            seq![c]
        } else {
            Seq::empty()
        },
        None => Seq::empty(),
    };
    let isp: Seq<Seq<char>> = match g.isp {
        Some(i) => seq![i],
        None => Seq::empty(),
    };
    country + region + city + isp
}

/// A geolocation answer as one line: its parts with blanks between them.
pub open spec fn geo_text(g: GeoRecord) -> Seq<char> {
    joined(geo_parts(g), seq![' '], 0)
}

/// Whether an optional string is absent or differs from `other`.
fn differs(a: &Option<String>, other: &String) -> (r: bool)
    ensures
        r == (text_of(*a) is None || text_of(*a)->0 != other@),
{
    match a {
        Some(x) => !(*x == *other),
        None => true,
    }
}

/// Writes a geolocation answer as one line.
pub fn format_geo_info(geo: &GeoLocation) -> (r: String)
    ensures
        r@ == geo_text(geo@),
{
    let mut parts: Vec<Vec<char>> = Vec::new();
    assert(views(parts@) == Seq::<Seq<char>>::empty());
    if let Some(country) = &geo.country {
        parts.push(chars_of(country.as_str()));
        assert(views(parts@) == seq![country@]);
    }
    let ghost after_country = views(parts@);
    if let Some(region) = &geo.region {
        if differs(&geo.country, region) {
            parts.push(chars_of(region.as_str()));
            assert(views(parts@) == after_country + seq![region@]);
        }
    }
    let ghost after_region = views(parts@);
    if let Some(city) = &geo.city {
        if differs(&geo.region, city) {
            parts.push(chars_of(city.as_str()));
            assert(views(parts@) == after_region + seq![city@]);
        }
    }
    let ghost after_city = views(parts@);
    if let Some(isp) = &geo.isp {
        parts.push(chars_of(isp.as_str()));
        assert(views(parts@) == after_city + seq![isp@]);
    }
    assert(views(parts@) == geo_parts(geo@));
    let mut blank: Vec<char> = Vec::new();
    blank.push(' ');
    let line: Vec<char> = join_chars(&parts, blank.as_slice(), 0);
    string_of(line.as_slice())
}

/// Writes a geolocation answer as one line; an answer without parts is
/// written as "[Unknown]".
pub fn format_geo_info_compact(geo: &GeoLocation) -> (r: String)
    ensures
        r@ == if geo_text(geo@).len() == 0 {
            "[Unknown]"@
        } else {
            geo_text(geo@)
        },
{
    let result: String = format_geo_info(geo);
    if result.as_str().unicode_len() == 0 {
        "[Unknown]".to_owned()
    } else {
        result
    }
}

/// A note as it stands in a line: in square brackets, with a blank on
/// either side.
pub open spec fn bracketed(note: Option<Seq<char>>) -> Seq<char> {
    match note {
        Some(n) => seq![' ', '['] + n + seq![']', ' '],
        None => Seq::empty(),
    }
}

/// The notes of an entity without colours: the geolocation answer as one
/// line, and the name of the CDN provider.
pub open spec fn plain_notes(e: EntityView) -> (Option<Seq<char>>, Option<Seq<char>>) {
    (
        match e.geo_info {
            Some(g) => Some(geo_text(g)),
            None => None,
        },
        match e.cdn_info {
            Some(c) => Some(c.provider),
            None => None,
        },
    )
}

/// The first `n` entities of a line written out, each followed by its two
/// notes.
pub open spec fn written(
    s: Seq<EntityView>,
    notes: Seq<(Option<Seq<char>>, Option<Seq<char>>)>,
    n: int,
) -> Seq<char>
    decreases n,
{
    if n <= 0 {
        Seq::empty()
    } else {
        written(s, notes, n - 1) + s[n - 1].text + bracketed(note_at(notes, n - 1).0)
            + bracketed(note_at(notes, n - 1).1)
    }
}

/// The notes given for entity `i`; none where the notes end before it.
pub open spec fn note_at(notes: Seq<(Option<Seq<char>>, Option<Seq<char>>)>, i: int) -> (
    Option<Seq<char>>,
    Option<Seq<char>>,
) {
    if 0 <= i < notes.len() {
        notes[i]
    } else {
        (None, None)
    }
}

/// The plain notes of each entity.
pub open spec fn all_plain_notes(s: Seq<EntityView>) -> Seq<(Option<Seq<char>>, Option<Seq<char>>)> {
    Seq::new(s.len(), |i: int| plain_notes(s[i]))
}

/// The views of a vector of notes.
pub open spec fn notes_view(v: Seq<(Option<String>, Option<String>)>) -> Seq<
    (Option<Seq<char>>, Option<Seq<char>>),
> {
    Seq::new(v.len(), |i: int| (text_of(v[i].0), text_of(v[i].1)))
}

/// Appends a note in brackets.
fn append_note(out: &mut Vec<char>, note: &Option<String>)
    ensures
        final(out)@ == old(out)@ + bracketed(text_of(*note)),
{
    match note {
        Some(n) => {
            out.push(' ');
            out.push('[');
            let c: Vec<char> = chars_of(n.as_str());
            append_chars(out, c.as_slice());
            out.push(']');
            out.push(' ');
            assert(out@ == old(out)@ + (seq![' ', '['] + n@ + seq![']', ' ']));
        },
        None => {
            assert(out@ == old(out)@ + Seq::<char>::empty());
        },
    }
}

/// The notes of an entity, coloured where colours are wanted: green for a
/// geolocation answer, cyan for a CDN provider.
pub fn entity_notes(entity: &Entity, use_color: bool) -> (r: (Option<String>, Option<String>))
    ensures
        r.0 is Some == entity.geo_info is Some,
        r.1 is Some == entity.cdn_info is Some,
        !use_color ==> (text_of(r.0), text_of(r.1)) == plain_notes(entity@),
{
    let geo_note: Option<String> = match &entity.geo_info {
        Some(geo) => {
            let info: String = format_geo_info(geo);
            Some(apply_color(info.as_str(), use_color, ColorType::Green))
        },
        None => None,
    };
    let cdn_note: Option<String> = match &entity.cdn_info {
        Some(cdn) => Some(apply_color(cdn.provider.as_str(), use_color, ColorType::Cyan)),
        None => None,
    };
    (geo_note, cdn_note)
}

/// Writes the entities out, each followed by the notes given for it; an
/// entity for which no notes are given is written without.
pub fn format_with_notes(entities: &Entities, notes: &Vec<(Option<String>, Option<String>)>) -> (r:
    String)
    ensures
        r@ == written(
            entity_views(entities.entities@),
            notes_view(notes@),
            entities.entities@.len() as int,
        ),
{
    let mut out: Vec<char> = Vec::new();
    let mut i: usize = 0;
    while i < entities.entities.len()
        invariant
            i <= entities.entities@.len(),
            out@ == written(entity_views(entities.entities@), notes_view(notes@), i as int),
        decreases entities.entities@.len() - i,
    {
        let text: Vec<char> = chars_of(entities.entities[i].text.as_str());
        append_chars(&mut out, text.as_slice());
        if i < notes.len() {
            append_note(&mut out, &notes[i].0);
            append_note(&mut out, &notes[i].1);
        } else {
            assert(out@ == out@ + bracketed(None) + bracketed(None));
        }
        assert(entity_views(entities.entities@)[i as int].text == entities.entities@[i as int].text@);
        i = i + 1;
    }
    string_of(out.as_slice())
}

/// Writes the entities of a line out as text: each entity as it stands in
/// the line, an address followed by its geolocation answer and a domain by
/// its CDN provider, in brackets. Without colours the text is exactly
/// that; with colours the notes are what the terminal library makes of
/// them.
pub fn format_text(entities: &Entities, use_color: bool) -> (r: String)
    ensures
        !use_color ==> r@ == written(
            entity_views(entities.entities@),
            all_plain_notes(entity_views(entities.entities@)),
            entities.entities@.len() as int,
        ),
{
    let mut notes: Vec<(Option<String>, Option<String>)> = Vec::new();
    let mut i: usize = 0;
    while i < entities.entities.len()
        invariant
            i <= entities.entities@.len(),
            notes@.len() == i,
            !use_color ==> forall|k: int|
                0 <= k < i ==> #[trigger] notes_view(notes@)[k] == plain_notes(
                    entities.entities@[k]@,
                ),
        decreases entities.entities@.len() - i,
    {
        let ghost before = notes@;
        let n = entity_notes(&entities.entities[i], use_color);
        notes.push(n);
        proof {
            if !use_color {
                assert forall|k: int| 0 <= k < i + 1 implies #[trigger] notes_view(notes@)[k]
                    == plain_notes(entities.entities@[k]@) by {
                    if k < i {
                        assert(notes@[k] == before[k]);
                        assert(notes_view(before)[k] == plain_notes(entities.entities@[k]@));
                    } else {
                        assert(notes@[k] == n);
                    }
                }
            }
        }
        i = i + 1;
    }
    proof {
        if !use_color {
            assert(notes_view(notes@) == all_plain_notes(entity_views(entities.entities@)));
        }
    }
    format_with_notes(entities, &notes)
}

/// One entity with all that is known of it: its text, then the
/// geolocation answer and the CDN provider behind arrows, then the name of
/// the database in parentheses.
pub open spec fn entity_text(e: EntityView) -> Seq<char> {
    e.text + match e.geo_info {
        Some(g) => " -> "@ + geo_text(g),
        None => Seq::empty(),
    } + match e.cdn_info {
        Some(c) => " -> "@ + c.provider,
        None => Seq::empty(),
    } + match e.source {
        Some(s) => " ("@ + s + ")"@,
        None => Seq::empty(),
    }
}

/// Writes one entity out with all that is known of it.
pub fn format_entity(entity: &Entity) -> (r: String)
    ensures
        r@ == entity_text(entity@),
{
    let mut out: Vec<char> = chars_of(entity.text.as_str());
    let arrow: Vec<char> = chars_of(" -> ");
    if let Some(geo) = &entity.geo_info {
        let info: String = format_geo_info(geo);
        let c: Vec<char> = chars_of(info.as_str());
        append_chars(&mut out, arrow.as_slice());
        append_chars(&mut out, c.as_slice());
        assert(out@ == entity.text@ + (" -> "@ + geo_text(geo@)));
    } else {
        assert(out@ == entity.text@ + Seq::<char>::empty());
    }
    let ghost after_geo = out@;
    if let Some(cdn) = &entity.cdn_info {
        let c: Vec<char> = chars_of(cdn.provider.as_str());
        append_chars(&mut out, arrow.as_slice());
        append_chars(&mut out, c.as_slice());
        assert(out@ == after_geo + (" -> "@ + cdn.provider@));
    } else {
        assert(out@ == after_geo + Seq::<char>::empty());
    }
    let ghost after_cdn = out@;
    if let Some(source) = &entity.source {
        let open: Vec<char> = chars_of(" (");
        let close: Vec<char> = chars_of(")");
        let c: Vec<char> = chars_of(source.as_str());
        append_chars(&mut out, open.as_slice());
        append_chars(&mut out, c.as_slice());
        append_chars(&mut out, close.as_slice());
        assert(out@ == after_cdn + (" ("@ + source@ + ")"@));
    } else {
        assert(out@ == after_cdn + Seq::<char>::empty());
    }
    string_of(out.as_slice())
}

} // verus!
