//! The fixed catalog domain: the decade axis, the mood axis, and the
//! per-decade availability record handed back by the remote catalog.

use crate::order::{has_code, sort_dedup, strictly_sorted};
use std::collections::HashMap;
use vstd::prelude::*;

verus! {

broadcast use vstd::std_specs::hash::group_hash_axioms;

/// Number of selectable decades: 1900 through 2020 in ten-year steps.
pub const NUM_DECADES: usize = 13;

/// Number of moods on the mood axis.
pub const NUM_MOODS: usize = 3;

/// The decade value shown at position `i` of the decade axis.
pub open spec fn spec_decade(i: int) -> int {
    1900 + 10 * i
}

/// Decade value at index `i`: 1900, 1910, ..., 2020.
pub fn decade_value(i: usize) -> (d: i32)
    requires
        i < NUM_DECADES,
    ensures
        d as int == spec_decade(i as int),
{
    1900 + 10 * (i as i32)
}

/// The mood name shown at position `m` of the mood axis.
pub open spec fn spec_mood_name(m: int) -> Seq<char> {
    if m == 0 {
        "SLOW"@
    } else if m == 1 {
        "WEIRD"@
    } else {
        "FAST"@
    }
}

/// Mood name at index `m`: SLOW, WEIRD, FAST.
pub fn mood_name(m: usize) -> (s: String)
    requires
        m < NUM_MOODS,
    ensures
        s@ == spec_mood_name(m as int),
{
    if m == 0 {
        "SLOW".to_owned()
    } else if m == 1 {
        "WEIRD".to_owned()
    } else {
        "FAST".to_owned()
    }
}

/// Failure of a catalog RPC: transport breakdown, a refused status or a
/// malformed payload. Distinct from an ordinary "no match" outcome, which
/// is not an error.
#[derive(Debug, Clone, Copy, PartialEq, Eq)]
pub struct FetchError;

/// Country lists of one decade, one list per mood, as the availability RPC
/// reports them.
#[allow(non_snake_case)]
#[derive(Debug, PartialEq, Clone)]
pub struct CountryForDecade {
    pub SLOW: Vec<String>,
    pub FAST: Vec<String>,
    pub WEIRD: Vec<String>,
}

/// The mood-`m` list of entry `e`, by mood index (SLOW, WEIRD, FAST).
pub open spec fn spec_mood_list(e: CountryForDecade, m: int) -> Seq<String> {
    if m == 0 {
        e.SLOW@
    } else if m == 1 {
        e.WEIRD@
    } else {
        e.FAST@
    }
}

/// An entry is well-formed when each mood's list is strictly ascending in
/// byte-lexicographic order (hence duplicate-free).
pub open spec fn entry_wf(e: CountryForDecade) -> bool {
    forall|m: int| 0 <= m < NUM_MOODS ==> strictly_sorted(#[trigger] spec_mood_list(e, m))
}

impl CountryForDecade {
    /// The same entry with each mood's list sorted ascending and freed of
    /// duplicates; the set of country codes per mood is unchanged.
    pub fn normalized(&self) -> (r: CountryForDecade)
        ensures
            entry_wf(r),
            forall|m: int, y: Seq<u8>|
                0 <= m < NUM_MOODS ==> (#[trigger] has_code(spec_mood_list(r, m), y)
                    <==> has_code(spec_mood_list(*self, m), y)),
    {
        let r = CountryForDecade {
            SLOW: sort_dedup(&self.SLOW),
            FAST: sort_dedup(&self.FAST),
            WEIRD: sort_dedup(&self.WEIRD),
        };
        proof {
            assert forall|m: int| 0 <= m < NUM_MOODS implies strictly_sorted(
                #[trigger] spec_mood_list(r, m),
            ) by {
                if m == 0 {
                    assert(spec_mood_list(r, m) == r.SLOW@);
                } else if m == 1 {
                    assert(spec_mood_list(r, m) == r.WEIRD@);
                } else {
                    assert(spec_mood_list(r, m) == r.FAST@);
                }
            }
        }
        r
    }

    /// The three lists keyed by mood index: 0 for SLOW, 1 for WEIRD, 2 for
    /// FAST.
    pub fn to_hash_map(&self) -> (m: HashMap<u8, Vec<String>>)
        ensures
            m@.dom() == set![0u8, 1u8, 2u8],
            m@[0u8]@ == self.SLOW@,
            m@[1u8]@ == self.WEIRD@,
            m@[2u8]@ == self.FAST@,
    {
        let mut m: HashMap<u8, Vec<String>> = HashMap::new();
        m.insert(0, clone_codes(&self.SLOW));
        m.insert(1, clone_codes(&self.WEIRD));
        m.insert(2, clone_codes(&self.FAST));
        proof {
            assert(m@.dom() =~= set![0u8, 1u8, 2u8]);
        }
        m
    }
}

/// Copy of a list of country codes, element for element.
pub fn clone_codes(v: &Vec<String>) -> (r: Vec<String>)
    ensures
        r@ == v@,
{
    let r = v.clone();
    proof {
        assert forall|i: int| 0 <= i < v@.len() implies r@[i] == v@[i] by {}
        assert(r@ =~= v@);
    }
    r
}

/// One track returned by the catalog's track RPC; immutable once received.
#[derive(Debug, PartialEq, Clone)]
pub struct Track {
    pub _id: String,
    pub mood: String,
    pub title: String,
    pub artist: String,
    pub album: Option<String>,
    pub songwriter: Option<String>,
    pub label: Option<String>,
    pub country: String,
    pub year: String,
    pub decade: i32,
    pub length: u32,
    pub uuid: String,
    pub ext: Option<Ext>,
    pub image: Option<Image>,
    pub likes: u32,
    pub profile_id: String,
    pub cover: Option<Image>,
    pub image_v: u32,
    pub liked: u32,
    pub links: Links,
}

/// File extensions of a track's media and cover.
#[derive(Debug, PartialEq, Clone)]
pub struct Ext {
    pub track: String,
    pub cover: Option<String>,
}

/// A cover image reference.
#[derive(Debug, PartialEq, Clone)]
pub struct Image {
    pub path: String,
    pub filename: String,
    pub color: Option<String>,
}

/// The playable media links of a track.
#[derive(Debug, PartialEq, Clone)]
pub struct Links {
    pub mpeg: String,
    pub ogg: String,
}

} // verus!
