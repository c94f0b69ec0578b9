//! Extraction rules for the upstream geographic feed.
//!
//! The data producer fetches raw map elements over HTTP and upserts one
//! record per dining location. The fetch, the JSON decoding and the float
//! coordinates stay at the boundary; the rules live here: how an element
//! turns into a location record (stable identifier, name fallback, tag
//! passthrough) and how duplicate identifiers are dropped. The coordinate
//! payload is opaque to these rules and is carried through unchanged.

use vstd::prelude::*;
use vstd::string::*;

verus! {

/// The tags the geographic source attaches to an element.
#[derive(Clone, Debug)]
pub struct Tags {
    pub name: Option<String>,
    pub amenity: Option<String>,
    pub cuisine: Option<String>,
    pub opening_hours: Option<String>,
}

/// One raw element of the feed: a point, or an area that may carry a
/// computed center. `C` is the coordinate payload.
pub enum Element<C> {
    Node { id: i64, pos: C, tags: Option<Tags> },
    Way { id: i64, center: Option<C>, tags: Option<Tags> },
    Relation { id: i64, center: Option<C>, tags: Option<Tags> },
}

/// The decimal digit for a value below ten.
pub open spec fn dec_char(n: int) -> char {
    if n == 0 {
        '0'
    } else if n == 1 {
        '1'
    } else if n == 2 {
        '2'
    } else if n == 3 {
        '3'
    } else if n == 4 {
        '4'
    } else if n == 5 {
        '5'
    } else if n == 6 {
        '6'
    } else if n == 7 {
        '7'
    } else if n == 8 {
        '8'
    } else {
        '9'
    }
}

/// The decimal rendering of a natural number, most significant digit
/// first, no leading zeros.
pub open spec fn spec_dec(n: nat) -> Seq<char>
    decreases n,
{
    if n < 10 {
        seq![dec_char(n as int)]
    } else {
        spec_dec(n / 10).push(dec_char((n % 10) as int))
    }
}

/// The decimal rendering of an integer, with a leading minus sign when
/// negative.
pub open spec fn spec_dec_i64(n: int) -> Seq<char> {
    if n < 0 {
        seq!['-'] + spec_dec((-n) as nat)
    } else {
        spec_dec(n as nat)
    }
}

fn append_digit(s: &mut String, d: u64)
    requires
        d < 10,
    ensures
        final(s)@ == old(s)@ + seq![dec_char(d as int)],
{
    match d {
        0 => {
            s.append("0");
            proof {
                reveal_strlit("0");
                assert(s@ =~= old(s)@ + seq![dec_char(0)]);
            }
        },
        1 => {
            s.append("1");
            proof {
                reveal_strlit("1");
                assert(s@ =~= old(s)@ + seq![dec_char(1)]);
            }
        },
        2 => {
            s.append("2");
            proof {
                reveal_strlit("2");
                assert(s@ =~= old(s)@ + seq![dec_char(2)]);
            }
        },
        3 => {
            s.append("3");
            proof {
                reveal_strlit("3");
                assert(s@ =~= old(s)@ + seq![dec_char(3)]);
            }
        },
        4 => {
            s.append("4");
            proof {
                reveal_strlit("4");
                assert(s@ =~= old(s)@ + seq![dec_char(4)]);
            }
        },
        5 => {
            s.append("5");
            proof {
                reveal_strlit("5");
                assert(s@ =~= old(s)@ + seq![dec_char(5)]);
            }
        },
        6 => {
            s.append("6");
            proof {
                reveal_strlit("6");
                assert(s@ =~= old(s)@ + seq![dec_char(6)]);
            }
        },
        7 => {
            s.append("7");
            proof {
                reveal_strlit("7");
                assert(s@ =~= old(s)@ + seq![dec_char(7)]);
            }
        },
        8 => {
            s.append("8");
            proof {
                reveal_strlit("8");
                assert(s@ =~= old(s)@ + seq![dec_char(8)]);
            }
        },
        _ => {
            s.append("9");
            proof {
                reveal_strlit("9");
                assert(s@ =~= old(s)@ + seq![dec_char(9)]);
            }
        },
    }
}

fn append_dec(s: &mut String, n: u64)
    ensures
        final(s)@ == old(s)@ + spec_dec(n as nat),
    decreases n,
{
    if n >= 10 {
        append_dec(s, n / 10);
        append_digit(s, n % 10);
        proof {
            assert(s@ =~= old(s)@ + spec_dec(n as nat));
        }
    } else {
        append_digit(s, n);
    }
}

fn append_dec_i64(s: &mut String, n: i64)
    ensures
        final(s)@ == old(s)@ + spec_dec_i64(n as int),
{
    if n < 0 {
        s.append("-");
        let magnitude: u64 = ((-(n + 1)) as u64) + 1;
        proof {
            assert(magnitude as int == -(n as int));
        }
        append_dec(s, magnitude);
        proof {
            reveal_strlit("-");
            assert("-"@ =~= seq!['-']);
            assert(s@ =~= old(s)@ + spec_dec_i64(n as int));
        }
    } else {
        append_dec(s, n as u64);
    }
}

/// The stable identifier of a point element.
pub open spec fn spec_node_osm_id(id: int) -> Seq<char> {
    "node:"@ + spec_dec_i64(id)
}

/// The stable identifier of an area element.
pub open spec fn spec_obj_osm_id(id: int) -> Seq<char> {
    "obj:"@ + spec_dec_i64(id)
}

/// The name an unnamed element falls back to.
pub open spec fn spec_fallback_name(id: int) -> Seq<char> {
    "OSM Place "@ + spec_dec_i64(id)
}

/// The name an element's record carries: its tagged name, else the
/// fallback built from its numeric id.
pub open spec fn spec_element_name(tags: Option<Tags>, id: int) -> Seq<char> {
    match tags {
        Some(t) => match t.name {
            Some(n) => n@,
            None => spec_fallback_name(id),
        },
        None => spec_fallback_name(id),
    }
}

/// One dining-location record ready for the store, its coordinate payload
/// untouched.
pub struct HallRecord<C> {
    pub osm_id: String,
    pub name: String,
    pub pos: C,
    pub cuisine: Option<String>,
    pub opening_hours: Option<String>,
}

fn prefixed_id(prefix: &str, id: i64) -> (r: String)
    ensures
        r@ == prefix@ + spec_dec_i64(id as int),
{
    let mut s = String::from_str(prefix);
    append_dec_i64(&mut s, id);
    s
}

fn fallback_name(id: i64) -> (r: String)
    ensures
        r@ == spec_fallback_name(id as int),
{
    let mut s = String::from_str("OSM Place ");
    append_dec_i64(&mut s, id);
    s
}

fn element_name(tags: &Option<Tags>, id: i64) -> (r: String)
    ensures
        r@ == spec_element_name(*tags, id as int),
{
    match tags {
        Some(t) => match &t.name {
            Some(n) => n.clone(),
            None => fallback_name(id),
        },
        None => fallback_name(id),
    }
}

/// Turn one raw element into a location record. A point always yields a
/// record under its `node:` identifier; an area yields one under its
/// `obj:` identifier only when the feed computed a center for it. An
/// unnamed element is named from its numeric id; cuisine and opening
/// hours pass through from the tags.
pub fn hall_record<C>(el: Element<C>) -> (r: Option<HallRecord<C>>)
    ensures
        match el {
            Element::Node { id, pos, tags } => {
                &&& r matches Some(h)
                &&& h.osm_id@ == spec_node_osm_id(id as int)
                &&& h.name@ == spec_element_name(tags, id as int)
                &&& h.pos == pos
                &&& h.cuisine == (match tags {
                    Some(t) => t.cuisine,
                    None => None::<String>,
                })
                &&& h.opening_hours == (match tags {
                    Some(t) => t.opening_hours,
                    None => None::<String>,
                })
            },
            Element::Way { id, center, tags } => match center {
                None => r is None,
                Some(c) => {
                    &&& r matches Some(h)
                    &&& h.osm_id@ == spec_obj_osm_id(id as int)
                    &&& h.name@ == spec_element_name(tags, id as int)
                    &&& h.pos == c
                    &&& h.cuisine == (match tags {
                        Some(t) => t.cuisine,
                        None => None::<String>,
                    })
                    &&& h.opening_hours == (match tags {
                        Some(t) => t.opening_hours,
                        None => None::<String>,
                    })
                },
            },
            Element::Relation { id, center, tags } => match center {
                None => r is None,
                Some(c) => {
                    &&& r matches Some(h)
                    &&& h.osm_id@ == spec_obj_osm_id(id as int)
                    &&& h.name@ == spec_element_name(tags, id as int)
                    &&& h.pos == c
                    &&& h.cuisine == (match tags {
                        Some(t) => t.cuisine,
                        None => None::<String>,
                    })
                    &&& h.opening_hours == (match tags {
                        Some(t) => t.opening_hours,
                        None => None::<String>,
                    })
                },
            },
        },
{
    match el {
        Element::Node { id, pos, tags } => {
            let name = element_name(&tags, id);
            let (cuisine, opening_hours) = match tags {
                Some(t) => (t.cuisine, t.opening_hours),
                None => (None, None),
            };
            Some(HallRecord {
                osm_id: prefixed_id("node:", id),
                name,
                pos,
                cuisine,
                opening_hours,
            })
        },
        Element::Way { id, center, tags } | Element::Relation { id, center, tags } => {
            match center {
                None => None,
                Some(c) => {
                    let name = element_name(&tags, id);
                    let (cuisine, opening_hours) = match tags {
                        Some(t) => (t.cuisine, t.opening_hours),
                        None => (None, None),
                    };
                    Some(HallRecord {
                        osm_id: prefixed_id("obj:", id),
                        name,
                        pos: c,
                        cuisine,
                        opening_hours,
                    })
                },
            }
        },
    }
}

/// Some record in `s` carries the identifier `id`.
pub open spec fn has_osm_id<C>(s: Seq<HallRecord<C>>, id: Seq<char>) -> bool {
    exists|i: int| 0 <= i < s.len() && (#[trigger] s[i]).osm_id@ == id
}

/// The records that survive de-duplication: one stays exactly when no
/// earlier record carries the same identifier, so the first arrival of
/// each identifier is kept, in arrival order.
pub open spec fn spec_dedupe<C>(s: Seq<HallRecord<C>>) -> Seq<HallRecord<C>>
    decreases s.len(),
{
    if s.len() == 0 {
        Seq::<HallRecord<C>>::empty()
    } else {
        let head = spec_dedupe(s.drop_last());
        if has_osm_id(s.drop_last(), s.last().osm_id@) {
            head
        } else {
            head.push(s.last())
        }
    }
}

/// De-duplication keeps exactly the identifiers of the input.
pub proof fn lemma_dedupe_ids<C>(s: Seq<HallRecord<C>>, id: Seq<char>)
    ensures
        has_osm_id(spec_dedupe(s), id) <==> has_osm_id(s, id),
    decreases s.len(),
{
    if s.len() > 0 {
        let rest = s.drop_last();
        lemma_dedupe_ids(rest, id);
        let d = spec_dedupe(s);
        let h = spec_dedupe(rest);
        if has_osm_id(rest, s.last().osm_id@) {
            // the last record's id already occurs earlier, so the id sets
            // of `s` and `rest` agree
            if has_osm_id(s, id) {
                let i = choose|i: int| 0 <= i < s.len() && (#[trigger] s[i]).osm_id@ == id;
                if i == s.len() - 1 {
                    assert(has_osm_id(rest, id));
                } else {
                    assert(rest[i].osm_id@ == id);
                }
            }
            if has_osm_id(rest, id) {
                let i = choose|i: int| 0 <= i < rest.len() && (#[trigger] rest[i]).osm_id@ == id;
                assert(s[i].osm_id@ == id);
            }
        } else {
            assert(d == h.push(s.last()));
            if has_osm_id(s, id) {
                let i = choose|i: int| 0 <= i < s.len() && (#[trigger] s[i]).osm_id@ == id;
                if i == s.len() - 1 {
                    assert(d[d.len() - 1].osm_id@ == id);
                } else {
                    assert(rest[i].osm_id@ == id);
                    let j = choose|j: int| 0 <= j < h.len() && (#[trigger] h[j]).osm_id@ == id;
                    assert(d[j].osm_id@ == id);
                }
            }
            if has_osm_id(d, id) {
                let i = choose|i: int| 0 <= i < d.len() && (#[trigger] d[i]).osm_id@ == id;
                if i == d.len() - 1 {
                    assert(s[s.len() - 1].osm_id@ == id);
                } else {
                    assert(h[i].osm_id@ == id);
                    let j = choose|j: int| 0 <= j < rest.len() && (#[trigger] rest[j]).osm_id@
                        == id;
                    assert(s[j].osm_id@ == id);
                }
            }
        }
    }
}

/// After de-duplication every identifier occurs at most once.
pub proof fn lemma_dedupe_distinct<C>(s: Seq<HallRecord<C>>)
    ensures
        forall|i: int, j: int|
            0 <= i < j < spec_dedupe(s).len() ==> (#[trigger] spec_dedupe(s)[i]).osm_id@ != (
            #[trigger] spec_dedupe(s)[j]).osm_id@,
    decreases s.len(),
{
    if s.len() > 0 {
        let rest = s.drop_last();
        lemma_dedupe_distinct(rest);
        let d = spec_dedupe(s);
        let h = spec_dedupe(rest);
        if !has_osm_id(rest, s.last().osm_id@) {
            lemma_dedupe_ids(rest, s.last().osm_id@);
            assert forall|i: int, j: int| 0 <= i < j < d.len() implies (#[trigger] d[i]).osm_id@
                != (#[trigger] d[j]).osm_id@ by {
                if j == d.len() - 1 {
                    assert(d[i] == h[i]);
                    assert(!has_osm_id(h, s.last().osm_id@));
                } else {
                    assert(d[i] == h[i]);
                    assert(d[j] == h[j]);
                }
            }
        }
    }
}

fn contains_osm_id<C>(out: &Vec<HallRecord<C>>, id: &String) -> (r: bool)
    ensures
        r == has_osm_id(out@, id@),
{
    let mut i: usize = 0;
    while i < out.len()
        invariant
            0 <= i <= out@.len(),
            forall|k: int| 0 <= k < i ==> (#[trigger] out@[k]).osm_id@ != id@,
        decreases out@.len() - i,
    {
        if out[i].osm_id == *id {
            return true;
        }
        i += 1;
    }
    false
}

/// Drop every record whose identifier already arrived: exactly the first
/// arrival of each identifier survives, in arrival order.
pub fn dedupe_halls<C>(halls: Vec<HallRecord<C>>) -> (r: Vec<HallRecord<C>>)
    ensures
        r@ == spec_dedupe(halls@),
        forall|i: int, j: int|
            0 <= i < j < r@.len() ==> (#[trigger] r@[i]).osm_id@ != (#[trigger] r@[j]).osm_id@,
{
    let ghost orig = halls@;
    let mut rest = halls;
    let mut out: Vec<HallRecord<C>> = Vec::new();
    let ghost k: int = 0;
    proof {
        assert(orig.take(0) =~= Seq::<HallRecord<C>>::empty());
    }
    while rest.len() > 0
        invariant
            0 <= k <= orig.len(),
            rest@ == orig.skip(k),
            out@ == spec_dedupe(orig.take(k)),
        decreases rest@.len(),
    {
        let h = rest.remove(0);
        proof {
            assert(h == orig[k]);
            assert(rest@ =~= orig.skip(k + 1));
        }
        let seen = contains_osm_id(&out, &h.osm_id);
        proof {
            lemma_dedupe_ids(orig.take(k), h.osm_id@);
            let next = orig.take(k + 1);
            assert(next.drop_last() =~= orig.take(k));
            assert(next.last() == orig[k]);
        }
        if !seen {
            out.push(h);
        }
        proof {
            k = k + 1;
        }
    }
    proof {
        assert(orig.take(orig.len() as int) =~= orig);
        lemma_dedupe_distinct(orig);
    }
    out
}

} // verus!
