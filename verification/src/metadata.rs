//! Probed media metadata and the trim decisions made from it: width and
//! height in pixels, duration in seconds as a decimal string (fractional
//! part truncated when read), bit-rate as a plain decimal string.

use vstd::prelude::*;

use crate::num::{all_digits, dec_value, parse_decimal_saturating};
use crate::strutil::find_first;

verus! {

/// Probed result for one file. Transient: recomputed per transcode attempt.
pub struct MediaMetadata {
    pub width: u64,
    pub height: u64,
    pub duration: String,
    pub bit_rate: String,
}

/// The mathematical image of a metadata record.
pub ghost struct MetaView {
    pub width: u64,
    pub height: u64,
    pub duration: Seq<char>,
    pub bit_rate: Seq<char>,
}

impl View for MediaMetadata {
    type V = MetaView;

    open spec fn view(&self) -> MetaView {
        MetaView {
            width: self.width,
            height: self.height,
            duration: self.duration@,
            bit_rate: self.bit_rate@,
        }
    }
}

/// The documented fallback used when the probe fails: 320 by 240, fifteen
/// seconds, just over one megabit per second.
pub open spec fn fallback_view() -> MetaView {
    MetaView { width: 320, height: 240, duration: "15.0"@, bit_rate: "1010000"@ }
}

/// The metadata the pipeline proceeds with: the probed record when the
/// probe succeeded, the documented fallback when it did not.
pub open spec fn effective_meta_view(probed: Option<MediaMetadata>) -> MetaView {
    match probed {
        Some(m) => m@,
        None => fallback_view(),
    }
}

/// The part of `s` before its first occurrence of `c` (all of `s` when `c`
/// does not occur).
pub open spec fn prefix_before_first(s: Seq<char>, c: char) -> Seq<char>
    decreases s.len(),
{
    if s.len() == 0 {
        s
    } else if s[0] == c {
        Seq::<char>::empty()
    } else {
        seq![s[0]] + prefix_before_first(s.skip(1), c)
    }
}

/// A duration string exceeds `limit` seconds: its integer part (truncated at
/// the first fractional separator) is a non-empty digit string whose value
/// is over the limit. A malformed duration never adds a cap.
pub open spec fn duration_over(s: Seq<char>, limit: nat) -> bool {
    let p = prefix_before_first(s, '.');
    p.len() > 0 && all_digits(p) && dec_value(p) > limit
}

/// A bit-rate string exceeds `limit`: it is a non-empty digit string whose
/// value is over the limit.
pub open spec fn bit_rate_over(s: Seq<char>, limit: nat) -> bool {
    s.len() > 0 && all_digits(s) && dec_value(s) > limit
}

pub proof fn lemma_prefix_before_first_at(s: Seq<char>, c: char, j: int)
    requires
        0 <= j < s.len(),
        s[j] == c,
        forall|k: int| 0 <= k < j ==> s[k] != c,
    ensures
        prefix_before_first(s, c) == s.subrange(0, j),
    decreases j,
{
    if j == 0 {
        assert(s.subrange(0, 0) =~= Seq::<char>::empty());
    } else {
        lemma_prefix_before_first_at(s.skip(1), c, j - 1);
        assert(seq![s[0]] + s.skip(1).subrange(0, j - 1) =~= s.subrange(0, j));
    }
}

pub proof fn lemma_prefix_before_first_absent(s: Seq<char>, c: char)
    requires
        forall|k: int| 0 <= k < s.len() ==> s[k] != c,
    ensures
        prefix_before_first(s, c) == s,
    decreases s.len(),
{
    if s.len() > 0 {
        lemma_prefix_before_first_absent(s.skip(1), c);
        assert(seq![s[0]] + s.skip(1) =~= s);
    }
}

/// The probe's documented fallback record.
pub fn fallback_metadata() -> (m: MediaMetadata)
    ensures
        m@ == fallback_view(),
{
    MediaMetadata {
        width: 320,
        height: 240,
        duration: String::from_str("15.0"),
        bit_rate: String::from_str("1010000"),
    }
}

/// Chooses the metadata to proceed with: a failed probe falls back to the
/// documented defaults and the pipeline still attempts an encode.
pub fn effective_metadata(probed: Option<MediaMetadata>) -> (m: MediaMetadata)
    ensures
        m@ == effective_meta_view(probed),
{
    match probed {
        Some(m) => m,
        None => fallback_metadata(),
    }
}

/// Does the duration string name more than `limit` whole seconds?
pub fn duration_exceeds(s: &str, limit: u64) -> (r: bool)
    requires
        limit < u64::MAX,
    ensures
        r == duration_over(s@, limit as nat),
{
    let n = s.unicode_len();
    let intpart = match find_first(s, '.') {
        Some(j) => {
            proof {
                lemma_prefix_before_first_at(s@, '.', j as int);
            }
            s.substring_char(0, j)
        },
        None => {
            proof {
                lemma_prefix_before_first_absent(s@, '.');
            }
            s.substring_char(0, n)
        },
    };
    proof {
        assert(s@.subrange(0, s@.len() as int) =~= s@);
    }
    match parse_decimal_saturating(intpart) {
        Some(v) => v > limit,
        None => false,
    }
}

/// Does the bit-rate string name more than `limit` bits per second?
pub fn bit_rate_exceeds(s: &str, limit: u64) -> (r: bool)
    requires
        limit < u64::MAX,
    ensures
        r == bit_rate_over(s@, limit as nat),
{
    match parse_decimal_saturating(s) {
        Some(v) => v > limit,
        None => false,
    }
}

} // verus!
