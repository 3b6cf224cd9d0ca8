//! Choosing the thermal zone to show, and reading the load average.

use crate::text::{
    chars_of, first_word, first_word_bounds, has_prefix, starts_with_at, trim, trim_bounds,
};
use vstd::prelude::*;

verus! {

broadcast use vstd::string::group_string_axioms;

/// What `str::to_lowercase` gives for a string: its Unicode lower case.
pub uninterp spec fn lowercase(s: Seq<char>) -> Seq<char>;

/// Calls `str::to_lowercase`; its result is named [`lowercase`] of the
/// argument.
#[verifier::external_body]
fn to_lowercase(s: &str) -> (r: String)
    ensures
        r@ == lowercase(s@),
{
    s.to_lowercase()
}

/// Whether `p` occurs in `s`.
pub open spec fn contains_seq(s: Seq<char>, p: Seq<char>) -> bool {
    exists|i: int| 0 <= i && i + p.len() <= s.len() && #[trigger] s.subrange(i, i + p.len()) == p
}

pub(crate) fn contains_chars(cs: &Vec<char>, p: &[char]) -> (b: bool)
    ensures
        b == contains_seq(cs@, p@),
{
    let n = cs.len();
    let m = p.len();
    if m > n {
        return false;
    }
    if m == 0 {
        assert(cs@.subrange(0, 0 + p@.len() as int) =~= p@);
        return true;
    }
    let mut i: usize = 0;
    while i <= n - m
        invariant
            n == cs@.len(),
            m == p@.len(),
            0 < m <= n,
            0 <= i <= n - m + 1,
            forall|j: int| 0 <= j < i ==> #[trigger] cs@.subrange(j, j + m) != p@,
        decreases n - m + 1 - i,
    {
        if starts_with_at(cs, i, n, p) {
            assert(cs@.subrange(i as int, n as int).subrange(0, m as int) =~= cs@.subrange(
                i as int,
                i + m,
            ));
            return true;
        }
        assert(cs@.subrange(i as int, n as int).subrange(0, m as int) =~= cs@.subrange(
            i as int,
            i + m,
        ));
        i = i + 1;
    }
    false
}

/// How much a zone of this `type` (its sysfs text) is preferred: CPU and SoC
/// zones most, battery and GPU zones least, any other in between.
pub open spec fn zone_priority(type_text: Seq<char>) -> int {
    lowercase_priority(lowercase(trim(type_text)))
}

/// The priority of a zone whose lower-cased type text is `t`: 2 when it
/// names a CPU or SoC, 0 a battery or GPU, 1 anything else.
pub open spec fn lowercase_priority(t: Seq<char>) -> int {
    if contains_seq(t, "cpu"@) || contains_seq(t, "soc"@) {
        2
    } else if contains_seq(t, "battery"@) || contains_seq(t, "gpu"@) {
        0
    } else {
        1
    }
}

pub open spec fn zone_prefix() -> Seq<char> {
    "thermal_zone"@
}

/// The preferred zone among `zones` (name, type text), with its priority:
/// only names starting with `thermal_zone` count; the first zone of the
/// highest priority wins.
pub open spec fn best_zone(zones: Seq<(String, String)>) -> Option<(Seq<char>, int)>
    decreases zones.len(),
{
    if zones.len() == 0 {
        None
    } else {
        let b = best_zone(zones.drop_last());
        let (n, t) = zones.last();
        if !has_prefix(n@, zone_prefix()) {
            b
        } else {
            let p = zone_priority(t@);
            match b {
                None => Some((n@, p)),
                Some((bn, bp)) => if p > bp {
                    Some((n@, p))
                } else {
                    b
                },
            }
        }
    }
}

fn zone_priority_of(type_text: &str) -> (p: i32)
    ensures
        p == zone_priority(type_text@),
{
    let cs = chars_of(type_text);
    let (lo, hi) = trim_bounds(&cs, 0, cs.len());
    assert(cs@.subrange(0, cs@.len() as int) =~= cs@);
    let lower = to_lowercase(type_text.substring_char(lo, hi));
    priority_of_lowercase(lower.as_str())
}

/// The priority of a zone from its lower-cased type text.
pub fn priority_of_lowercase(t: &str) -> (p: i32)
    ensures
        p == lowercase_priority(t@),
{
    let lc = chars_of(t);
    proof {
        reveal_strlit("cpu");
        reveal_strlit("soc");
        reveal_strlit("battery");
        reveal_strlit("gpu");
    }
    assert(seq!['c', 'p', 'u'] =~= "cpu"@);
    assert(seq!['s', 'o', 'c'] =~= "soc"@);
    assert(seq!['b', 'a', 't', 't', 'e', 'r', 'y'] =~= "battery"@);
    assert(seq!['g', 'p', 'u'] =~= "gpu"@);
    if contains_chars(&lc, &['c', 'p', 'u']) || contains_chars(&lc, &['s', 'o', 'c']) {
        2
    } else if contains_chars(&lc, &['b', 'a', 't', 't', 'e', 'r', 'y']) || contains_chars(
        &lc,
        &['g', 'p', 'u'],
    ) {
        0
    } else {
        1
    }
}

/// The thermal zone to show, among `zones` (directory name, contents of its
/// `type` file), in directory order.
pub fn find_thermal_zone(zones: &Vec<(String, String)>) -> (r: Option<String>)
    ensures
        match r {
            Some(n) => best_zone(zones@) matches Some((bn, _)) && n@ == bn,
            None => best_zone(zones@) is None,
        },
{
    let mut best: Option<(usize, i32)> = None;
    let mut i: usize = 0;
    proof {
        reveal_strlit("thermal_zone");
    }
    while i < zones.len()
        invariant
            0 <= i <= zones@.len(),
            best matches Some((k, _)) ==> k < i,
            match best {
                Some((k, p)) => best_zone(zones@.take(i as int)) == Some((zones@[k as int].0@, p as int)),
                None => best_zone(zones@.take(i as int)) is None,
            },
        decreases zones@.len() - i,
    {
        assert(zones@.take(i + 1).drop_last() =~= zones@.take(i as int));
        assert(zones@.take(i + 1).last() == zones@[i as int]);
        let name = &zones[i].0;
        let nc = chars_of(name.as_str());
        let is_zone = starts_with_at(
            &nc,
            0,
            nc.len(),
            &['t', 'h', 'e', 'r', 'm', 'a', 'l', '_', 'z', 'o', 'n', 'e'],
        );
        assert(nc@.subrange(0, nc@.len() as int) =~= nc@);
        proof {
            reveal_strlit("thermal_zone");
        }
        assert(seq!['t', 'h', 'e', 'r', 'm', 'a', 'l', '_', 'z', 'o', 'n', 'e'] =~= "thermal_zone"@);
        if is_zone {
            let p = zone_priority_of(zones[i].1.as_str());
            match best {
                None => {
                    best = Some((i, p));
                },
                Some((_, bp)) => {
                    if p > bp {
                        best = Some((i, p));
                    }
                },
            }
        }
        i = i + 1;
    }
    assert(zones@.take(zones@.len() as int) =~= zones@);
    match best {
        Some((k, _)) => Some(zones[k].0.clone()),
        None => None,
    }
}

/// What the load widget shows for the contents of `/proc/loadavg` (`None`
/// when it could not be read): its first field, else `"--"`.
pub fn load_avg_reading(contents: Option<&str>) -> (r: String)
    ensures
        r@ == (match contents {
            Some(s) => match first_word(s@) {
                Some(w) => w,
                None => "--"@,
            },
            None => "--"@,
        }),
{
    match contents {
        Some(s) => {
            let cs = chars_of(s);
            assert(cs@.subrange(0, cs@.len() as int) =~= cs@);
            match first_word_bounds(&cs, 0, cs.len()) {
                Some((lo, hi)) => s.substring_char(lo, hi).to_owned(),
                None => "--".to_owned(),
            }
        },
        None => "--".to_owned(),
    }
}

/// Whether a sensor text is the placeholder shown when the sensor could not
/// be read.
pub fn is_unavailable(reading: &str) -> (b: bool)
    ensures
        b == (reading@ == "--"@),
{
    crate::widgets::same_text(reading, "--")
}

/// The text a widget showed last, to tell when a new reading changes what
/// it shows (and so needs a redraw).
pub struct ShownText {
    last: String,
}

impl ShownText {
    pub closed spec fn last_spec(&self) -> Seq<char> {
        self.last@
    }

    /// Nothing shown yet (the empty text).
    pub fn new() -> (t: Self)
        ensures
            t.last_spec() == Seq::<char>::empty(),
    {
        ShownText { last: String::new() }
    }

    /// The text shown last.
    pub fn text(&self) -> (r: &str)
        ensures
            r@ == self.last_spec(),
    {
        self.last.as_str()
    }

    /// Record the text shown now. Returns whether it differs from the last.
    pub fn observe(&mut self, now: &str) -> (changed: bool)
        ensures
            final(self).last_spec() == now@,
            changed == (old(self).last_spec() != now@),
    {
        let changed = !crate::widgets::same_text(self.last.as_str(), now);
        self.last = now.to_owned();
        changed
    }
}

} // verus!
