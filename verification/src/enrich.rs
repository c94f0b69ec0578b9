//! Enrichment decisions for the product feed.
//!
//! The data producer looks items up in a product database; the lookup and
//! its JSON are boundary work, but what is made of an answer is a rule:
//! fall back to the bare search term when no product (or no product name)
//! came back, split and tidy the allergen list, and read the dietary
//! flags off the ingredient-analysis tags. Enrichment is best effort, per
//! item: a missing product yields the minimal record and never aborts a
//! run.

use vstd::prelude::*;
use vstd::string::*;

use crate::predicate::{char_is_space, is_space_char};

verus! {

/// `needle` occurs in `hay` starting at position `k`.
pub open spec fn spec_contains_at(hay: Seq<char>, needle: Seq<char>, k: int) -> bool {
    0 <= k && k + needle.len() <= hay.len() && hay.subrange(k, k + needle.len()) == needle
}

/// `needle` occurs somewhere in `hay`.
pub open spec fn spec_contains(hay: Seq<char>, needle: Seq<char>) -> bool {
    exists|k: int| spec_contains_at(hay, needle, k)
}

fn match_at(hay: &str, needle: &str, k: usize) -> (r: bool)
    requires
        k + needle@.len() <= hay@.len(),
    ensures
        r == spec_contains_at(hay@, needle@, k as int),
{
    let hn = hay.unicode_len();
    let nn = needle.unicode_len();
    let mut m: usize = 0;
    while m < nn
        invariant
            hn == hay@.len(),
            nn == needle@.len(),
            k + nn <= hn,
            0 <= m <= nn,
            forall|q: int| 0 <= q < m ==> hay@[k + q] == needle@[q],
        decreases nn - m,
    {
        if hay.get_char(k + m) != needle.get_char(m) {
            proof {
                assert(hay@.subrange(k as int, k + nn) != needle@) by {
                    assert(hay@.subrange(k as int, k + nn)[m as int] == hay@[k + m]);
                }
            }
            return false;
        }
        m += 1;
    }
    proof {
        assert(hay@.subrange(k as int, k + nn) =~= needle@);
    }
    true
}

/// Whether `needle` occurs in `hay` as a contiguous substring.
pub fn contains_sub(hay: &str, needle: &str) -> (r: bool)
    ensures
        r == spec_contains(hay@, needle@),
{
    let hn = hay.unicode_len();
    let nn = needle.unicode_len();
    if nn > hn {
        proof {
            assert forall|k: int| !spec_contains_at(hay@, needle@, k) by {}
        }
        return false;
    }
    if nn == 0 {
        proof {
            assert(hay@.subrange(0, 0) =~= needle@);
            assert(spec_contains_at(hay@, needle@, 0));
        }
        return true;
    }
    let last = hn - nn;
    let mut k: usize = 0;
    while k <= last
        invariant
            hn == hay@.len(),
            nn == needle@.len(),
            1 <= nn <= hn,
            last == hn - nn,
            0 <= k <= last + 1,
            forall|q: int| 0 <= q < k ==> !spec_contains_at(hay@, needle@, q),
        decreases last + 1 - k,
    {
        if match_at(hay, needle, k) {
            return true;
        }
        k += 1;
    }
    proof {
        assert forall|q: int| !spec_contains_at(hay@, needle@, q) by {
            if 0 <= q < k {
            }
        }
    }
    false
}

/// Some tag in the list mentions `needle`.
pub open spec fn spec_any_tag_contains(tags: Seq<String>, needle: Seq<char>) -> bool {
    exists|i: int| 0 <= i < tags.len() && spec_contains((#[trigger] tags[i])@, needle)
}

fn any_tag_contains(tags: &Vec<String>, needle: &str) -> (r: bool)
    ensures
        r == spec_any_tag_contains(tags@, needle@),
{
    let mut i: usize = 0;
    while i < tags.len()
        invariant
            0 <= i <= tags@.len(),
            forall|k: int| 0 <= k < i ==> !spec_contains((#[trigger] tags@[k])@, needle@),
        decreases tags@.len() - i,
    {
        if contains_sub(tags[i].as_str(), needle) {
            return true;
        }
        i += 1;
    }
    false
}

/// The text with leading whitespace removed.
pub open spec fn spec_trim_front(s: Seq<char>) -> Seq<char>
    decreases s.len(),
{
    if s.len() > 0 && is_space_char(s[0]) {
        spec_trim_front(s.drop_first())
    } else {
        s
    }
}

/// The text with trailing whitespace removed.
pub open spec fn spec_trim_back(s: Seq<char>) -> Seq<char>
    decreases s.len(),
{
    if s.len() > 0 && is_space_char(s.last()) {
        spec_trim_back(s.drop_last())
    } else {
        s
    }
}

/// The text with whitespace removed from both ends.
pub open spec fn spec_trim(s: Seq<char>) -> Seq<char> {
    spec_trim_back(spec_trim_front(s))
}

proof fn lemma_trim_front_skip(s: Seq<char>, a: int)
    requires
        0 <= a <= s.len(),
        forall|i: int| 0 <= i < a ==> is_space_char(#[trigger] s[i]),
        a == s.len() || !is_space_char(s[a]),
    ensures
        spec_trim_front(s) == s.skip(a),
    decreases a,
{
    if a == 0 {
        assert(s.skip(0) =~= s);
    } else {
        let rest = s.drop_first();
        assert forall|i: int| 0 <= i < a - 1 implies is_space_char(#[trigger] rest[i]) by {
            assert(rest[i] == s[i + 1]);
        }
        if a - 1 < rest.len() {
            assert(rest[a - 1] == s[a]);
        }
        lemma_trim_front_skip(rest, a - 1);
        assert(rest.skip(a - 1) =~= s.skip(a));
    }
}

proof fn lemma_trim_back_take(s: Seq<char>, b: int)
    requires
        0 <= b <= s.len(),
        forall|i: int| b <= i < s.len() ==> is_space_char(#[trigger] s[i]),
        b == 0 || !is_space_char(s[b - 1]),
    ensures
        spec_trim_back(s) == s.take(b),
    decreases s.len() - b,
{
    if b == s.len() {
        assert(s.take(b) =~= s);
    } else {
        let rest = s.drop_last();
        assert forall|i: int| b <= i < rest.len() implies is_space_char(#[trigger] rest[i]) by {
            assert(rest[i] == s[i]);
        }
        lemma_trim_back_take(rest, b);
        assert(rest.take(b) =~= s.take(b));
    }
}

/// The text with whitespace stripped from both ends, as `str::trim`
/// strips it.
pub fn trim_text(s: &str) -> (r: String)
    ensures
        r@ == spec_trim(s@),
{
    let n = s.unicode_len();
    let mut a: usize = 0;
    while a < n && char_is_space(s.get_char(a))
        invariant
            n == s@.len(),
            0 <= a <= n,
            forall|i: int| 0 <= i < a ==> is_space_char(#[trigger] s@[i]),
        decreases n - a,
    {
        a += 1;
    }
    let mut b: usize = n;
    while b > a && char_is_space(s.get_char(b - 1))
        invariant
            n == s@.len(),
            a <= b <= n,
            forall|i: int| b <= i < n ==> is_space_char(#[trigger] s@[i]),
        decreases b,
    {
        b -= 1;
    }
    proof {
        lemma_trim_front_skip(s@, a as int);
        let tail = s@.skip(a as int);
        assert forall|i: int| b - a <= i < tail.len() implies is_space_char(
            #[trigger] tail[i],
        ) by {
            assert(tail[i] == s@[a + i]);
        }
        if b > a {
            assert(tail[b - a - 1] == s@[b - 1]);
        }
        lemma_trim_back_take(tail, b - a);
        assert(tail.take(b - a) =~= s@.subrange(a as int, b as int));
    }
    let part = s.substring_char(a, b);
    String::from_str(part)
}

/// The fold that splits a text on commas: the parts finished before
/// position `i`, and the part still open.
pub open spec fn spec_split_state(s: Seq<char>, i: int) -> (Seq<Seq<char>>, Seq<char>)
    decreases i,
{
    if i <= 0 {
        (Seq::<Seq<char>>::empty(), Seq::<char>::empty())
    } else {
        let prev = spec_split_state(s, i - 1);
        if s[i - 1] == ',' {
            (prev.0.push(prev.1), Seq::<char>::empty())
        } else {
            (prev.0, prev.1.push(s[i - 1]))
        }
    }
}

/// The comma-separated parts of a text, separators dropped, empties kept.
pub open spec fn spec_split_commas(s: Seq<char>) -> Seq<Seq<char>> {
    let st = spec_split_state(s, s.len() as int);
    st.0.push(st.1)
}

/// Split a text on commas.
pub fn split_commas(s: &str) -> (r: Vec<String>)
    ensures
        r@.map_values(|p: String| p@) == spec_split_commas(s@),
{
    let n = s.unicode_len();
    let mut parts: Vec<String> = Vec::new();
    let mut start: usize = 0;
    let mut i: usize = 0;
    proof {
        assert(parts@.map_values(|p: String| p@) =~= spec_split_state(s@, 0).0);
        assert(spec_split_state(s@, 0).1 =~= s@.subrange(0, 0));
    }
    while i < n
        invariant
            n == s@.len(),
            0 <= start <= i <= n,
            parts@.map_values(|p: String| p@) == spec_split_state(s@, i as int).0,
            spec_split_state(s@, i as int).1 == s@.subrange(start as int, i as int),
        decreases n - i,
    {
        let ghost prev = spec_split_state(s@, i as int);
        if s.get_char(i) == ',' {
            let part = String::from_str(s.substring_char(start, i));
            parts.push(part);
            proof {
                assert(parts@.map_values(|p: String| p@) =~= prev.0.push(prev.1));
                assert(spec_split_state(s@, i as int + 1).1 =~= s@.subrange(
                    i as int + 1,
                    i as int + 1,
                ));
            }
            start = i + 1;
        } else {
            proof {
                assert(s@.subrange(start as int, i as int).push(s@[i as int]) =~= s@.subrange(
                    start as int,
                    i as int + 1,
                ));
            }
        }
        i += 1;
    }
    let last = String::from_str(s.substring_char(start, n));
    parts.push(last);
    proof {
        assert(parts@.map_values(|p: String| p@) =~= spec_split_commas(s@));
    }
    parts
}

/// The cleaned allergen parts: each part trimmed, empties dropped, order
/// kept.
pub open spec fn spec_clean_parts(parts: Seq<Seq<char>>) -> Seq<Seq<char>>
    decreases parts.len(),
{
    if parts.len() == 0 {
        Seq::<Seq<char>>::empty()
    } else {
        let head = spec_clean_parts(parts.drop_last());
        let tidy = spec_trim(parts.last());
        if tidy.len() > 0 {
            head.push(tidy)
        } else {
            head
        }
    }
}

/// Split an allergen list on commas, trim each entry, and drop the empty
/// ones.
pub fn clean_allergens(raw: &str) -> (r: Vec<String>)
    ensures
        r@.map_values(|p: String| p@) == spec_clean_parts(spec_split_commas(raw@)),
{
    let parts = split_commas(raw);
    let ghost all = parts@.map_values(|p: String| p@);
    let mut rest = parts;
    let mut out: Vec<String> = Vec::new();
    let ghost k: int = 0;
    proof {
        assert(all.take(0) =~= Seq::<Seq<char>>::empty());
        assert(out@.map_values(|p: String| p@) =~= spec_clean_parts(all.take(0)));
    }
    while rest.len() > 0
        invariant
            0 <= k <= all.len(),
            rest@.map_values(|p: String| p@) == all.skip(k),
            out@.map_values(|p: String| p@) == spec_clean_parts(all.take(k)),
        decreases rest@.len(),
    {
        let ghost prev_rest = rest@;
        let part = rest.remove(0);
        proof {
            assert(prev_rest.map_values(|p: String| p@).len() == prev_rest.len());
            assert(k < all.len());
            assert(part@ == prev_rest.map_values(|p: String| p@)[0]);
            assert(rest@ =~= prev_rest.drop_first());
            assert forall|i: int| 0 <= i < rest@.len() implies rest@.map_values(|p: String| p@)[i]
                == #[trigger] all.skip(k + 1)[i] by {
                assert(rest@[i] == prev_rest[i + 1]);
                assert(prev_rest.map_values(|p: String| p@)[i + 1] == prev_rest[i + 1]@);
                assert(all.skip(k)[i + 1] == all[k + 1 + i]);
            }
            assert(rest@.map_values(|p: String| p@) =~= all.skip(k + 1));
            assert(all.take(k + 1).drop_last() =~= all.take(k));
            assert(all.take(k + 1).last() == all[k]);
        }
        let tidy = trim_text(part.as_str());
        if !tidy.as_str().is_empty() {
            out.push(tidy);
            proof {
                assert(out@.map_values(|p: String| p@) =~= spec_clean_parts(all.take(k)).push(
                    spec_trim(all[k]),
                ));
            }
        }
        proof {
            k = k + 1;
        }
    }
    proof {
        assert(all.take(all.len() as int) =~= all);
    }
    out
}

/// What the product database answered for one search term, floats and
/// transport already shed at the boundary.
pub struct ProductInfo {
    pub product_name: Option<String>,
    pub brands: Option<String>,
    pub calories: Option<i32>,
    pub allergens: Option<String>,
    pub ingredients_analysis_tags: Vec<String>,
}

/// One enriched menu item, or the minimal fallback record.
pub struct EnrichedItem {
    pub name: String,
    pub brand: Option<String>,
    pub calories: Option<i32>,
    pub allergens: Option<Vec<String>>,
    pub vegan: Option<bool>,
    pub vegetarian: Option<bool>,
}

/// Decide one item's stored fields from a product lookup. No product at
/// all — the lookup failed or found nothing — yields the minimal record:
/// the bare search term and no optional attribute (enrichment is best
/// effort and never aborts the run). With a product, a missing name falls
/// back to the term, the allergen list is split and tidied, and the
/// dietary flags say whether any ingredient-analysis tag mentions the
/// diet.
pub fn enrich(term: &str, product: Option<ProductInfo>) -> (r: EnrichedItem)
    ensures
        match product {
            None => {
                &&& r.name@ == term@
                &&& r.brand is None
                &&& r.calories is None
                &&& r.allergens is None
                &&& r.vegan is None
                &&& r.vegetarian is None
            },
            Some(p) => {
                &&& r.name@ == (match p.product_name {
                    Some(n) => n@,
                    None => term@,
                })
                &&& r.brand == p.brands
                &&& r.calories == p.calories
                &&& (match p.allergens {
                    None => r.allergens is None,
                    Some(a) => r.allergens matches Some(list) && list@.map_values(|x: String| x@)
                        == spec_clean_parts(spec_split_commas(a@)),
                })
                &&& r.vegan == Some(
                    spec_any_tag_contains(p.ingredients_analysis_tags@, "vegan"@),
                )
                &&& r.vegetarian == Some(
                    spec_any_tag_contains(p.ingredients_analysis_tags@, "vegetarian"@),
                )
            },
        },
{
    match product {
        None => EnrichedItem {
            name: String::from_str(term),
            brand: None,
            calories: None,
            allergens: None,
            vegan: None,
            vegetarian: None,
        },
        Some(p) => {
            let name = match p.product_name {
                Some(n) => n,
                None => String::from_str(term),
            };
            let allergens = match p.allergens {
                Some(a) => Some(clean_allergens(a.as_str())),
                None => None,
            };
            let vegan = any_tag_contains(&p.ingredients_analysis_tags, "vegan");
            let vegetarian = any_tag_contains(&p.ingredients_analysis_tags, "vegetarian");
            EnrichedItem {
                name,
                brand: p.brands,
                calories: p.calories,
                allergens,
                vegan: Some(vegan),
                vegetarian: Some(vegetarian),
            }
        },
    }
}

} // verus!
