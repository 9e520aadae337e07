//! Feature switches read from a comma-separated list of disabled features.
use vstd::prelude::*;

use crate::text::{
    chars_eq, chars_of, lemma_split_len, lower, lower_char, lower_chars, split, split_chars,
    string_of, trim, trim_chars,
};

verus! {

/// The features a comma-separated setting disables: each entry trimmed, empty
/// entries skipped, compared without regard to ASCII case.
pub open spec fn disabled_by(raw: Seq<char>) -> Set<Seq<char>> {
    Set::new(
        |x: Seq<char>|
            exists|i: int|
                0 <= i < split(raw, ',').len() && trim(#[trigger] split(raw, ',')[i]).len() > 0
                    && x == lower(trim(split(raw, ',')[i])),
    )
}

/// Whether a feature is on, given the set of disabled features.
pub open spec fn feature_enabled(disabled: Set<Seq<char>>, feature: Seq<char>) -> bool {
    !disabled.contains(lower(feature))
}

/// The texts of a list of strings.
pub open spec fn names(v: Seq<String>) -> Seq<Seq<char>> {
    v.map_values(|s: String| s@)
}

/// Whether `v` holds the string `x`.
pub fn contains_string(v: &Vec<String>, x: &str) -> (r: bool)
    ensures
        r == names(v@).contains(x@),
{
    let mut i: usize = 0;
    while i < v.len()
        invariant
            i <= v@.len(),
            forall|k: int| 0 <= k < i ==> v@[k]@ != x@,
        decreases v@.len() - i,
    {
        if crate::text::str_eq(v[i].as_str(), x) {
            assert(names(v@)[i as int] == x@);
            return true;
        }
        i = i + 1;
    }
    proof {
        if names(v@).contains(x@) {
            let k = choose|k: int| 0 <= k < names(v@).len() && names(v@)[k] == x@;
            assert(v@[k]@ == x@);
        }
    }
    false
}

/// Which features are switched off.
pub struct FeatureFlags {
    disabled: Vec<String>,
}

impl View for FeatureFlags {
    type V = Set<Seq<char>>;

    closed spec fn view(&self) -> Set<Seq<char>> {
        names(self.disabled@).to_set()
    }
}

impl FeatureFlags {
    /// The flags that a setting such as `"Events, traces"` gives.
    pub fn from_list(raw: &str) -> (r: FeatureFlags)
        ensures
            r@ == disabled_by(raw@),
    {
        let chars = chars_of(raw);
        let parts = split_chars(chars.as_slice(), ',');
        let ghost sp = split(raw@, ',');
        let mut disabled: Vec<String> = Vec::new();
        let mut i: usize = 0;
        while i < parts.len()
            invariant
                sp == split(raw@, ','),
                parts@.len() == sp.len(),
                forall|k: int| 0 <= k < parts@.len() ==> #[trigger] parts@[k]@ == sp[k],
                i <= parts@.len(),
                forall|x: Seq<char>|
                    #[trigger] names(disabled@).contains(x) <==> exists|k: int|
                        0 <= k < i && trim(#[trigger] sp[k]).len() > 0 && x == lower(trim(sp[k])),
            decreases parts@.len() - i,
        {
            let t = trim_chars(parts[i].as_slice());
            if t.len() > 0 {
                let l = lower_chars(t.as_slice());
                let mut present = false;
                let mut j: usize = 0;
                while j < disabled.len()
                    invariant
                        j <= disabled@.len(),
                        present <==> exists|m: int| 0 <= m < j && disabled@[m]@ == l@,
                    decreases disabled@.len() - j,
                {
                    let dj = chars_of(disabled[j].as_str());
                    if chars_eq(dj.as_slice(), l.as_slice()) {
                        present = true;
                    }
                    j = j + 1;
                }
                let ghost before = names(disabled@);
                if !present {
                    disabled.push(string_of(l.as_slice()));
                }
                proof {
                    let after = names(disabled@);
                    assert forall|x: Seq<char>| #[trigger] after.contains(x) <==> exists|k: int|
                        0 <= k < i + 1 && trim(#[trigger] sp[k]).len() > 0 && x == lower(
                            trim(sp[k]),
                        ) by {
                        if after.contains(x) {
                            let m = choose|m: int| 0 <= m < after.len() && after[m] == x;
                            if m < before.len() {
                                assert(before[m] == x);
                                assert(before.contains(x));
                            } else {
                                assert(x == l@);
                                assert(trim(sp[i as int]).len() > 0);
                            }
                        }
                        if exists|k: int|
                            0 <= k < i + 1 && trim(#[trigger] sp[k]).len() > 0 && x == lower(
                                trim(sp[k]),
                            ) {
                            let k = choose|k: int|
                                0 <= k < i + 1 && trim(#[trigger] sp[k]).len() > 0 && x == lower(
                                    trim(sp[k]),
                                );
                            if k < i {
                                assert(before.contains(x));
                                let m = choose|m: int| 0 <= m < before.len() && before[m] == x;
                                assert(after[m] == x);
                            } else if present {
                                let m = choose|m: int| 0 <= m < disabled@.len() && disabled@[m]@ == l@;
                                assert(after[m] == x);
                            } else {
                                assert(after[after.len() - 1] == x);
                            }
                        }
                    }
                }
            } else {
                proof {
                    assert forall|x: Seq<char>|
                        #[trigger] names(disabled@).contains(x) <==> exists|k: int|
                            0 <= k < i + 1 && trim(#[trigger] sp[k]).len() > 0 && x == lower(
                                trim(sp[k]),
                            ) by {
                        if exists|k: int|
                            0 <= k < i + 1 && trim(#[trigger] sp[k]).len() > 0 && x == lower(
                                trim(sp[k]),
                            ) {
                            let k = choose|k: int|
                                0 <= k < i + 1 && trim(#[trigger] sp[k]).len() > 0 && x == lower(
                                    trim(sp[k]),
                                );
                            assert(k < i);
                        }
                    }
                }
            }
            i = i + 1;
        }
        let r = FeatureFlags { disabled };
        assert(r@ =~= disabled_by(raw@)) by {
            assert forall|x: Seq<char>| r@.contains(x) <==> disabled_by(raw@).contains(x) by {
                assert(r@.contains(x) <==> names(disabled@).contains(x));
            }
        }
        r
    }

    /// Whether `feature` is on; names match without regard to ASCII case.
    pub fn is_enabled(&self, feature: &str) -> (r: bool)
        ensures
            r == feature_enabled(self@, feature@),
    {
        let f = chars_of(feature);
        let l = lower_chars(f.as_slice());
        let mut i: usize = 0;
        while i < self.disabled.len()
            invariant
                i <= self.disabled@.len(),
                l@ == lower(feature@),
                forall|k: int| 0 <= k < i ==> self.disabled@[k]@ != l@,
            decreases self.disabled@.len() - i,
        {
            let d = chars_of(self.disabled[i].as_str());
            if chars_eq(d.as_slice(), l.as_slice()) {
                proof {
                    let m = names(self.disabled@);
                    assert(m[i as int] == l@);
                }
                return false;
            }
            i = i + 1;
        }
        proof {
            let m = names(self.disabled@);
            if m.contains(l@) {
                let k = choose|k: int| 0 <= k < m.len() && m[k] == l@;
                assert(self.disabled@[k]@ == l@);
            }
        }
        true
    }
}

proof fn lemma_lower_idempotent(s: Seq<char>)
    ensures
        lower(lower(s)) == lower(s),
{
    assert(lower(lower(s)) =~= lower(s));
}

/// Feature names are matched without regard to ASCII case: names that agree in
/// lower case are both on or both off.
pub proof fn law_flags_ignore_case(flags: FeatureFlags, a: Seq<char>, b: Seq<char>)
    requires
        lower(a) == lower(b),
    ensures
        feature_enabled(flags@, a) == feature_enabled(flags@, b),
{
}

/// Every non-empty entry of the setting, in any case, switches its feature off.
pub proof fn law_listed_features_disabled(raw: Seq<char>, i: int, name: Seq<char>)
    requires
        0 <= i < split(raw, ',').len(),
        trim(split(raw, ',')[i]).len() > 0,
        lower(name) == lower(trim(split(raw, ',')[i])),
    ensures
        !feature_enabled(disabled_by(raw), name),
{
    assert(disabled_by(raw).contains(lower(name)));
}

/// A feature stays on unless some entry of the setting names it.
pub proof fn law_unlisted_features_enabled(raw: Seq<char>, name: Seq<char>)
    requires
        forall|i: int|
            0 <= i < split(raw, ',').len() ==> lower(trim(#[trigger] split(raw, ',')[i])) != lower(
                name,
            ),
    ensures
        feature_enabled(disabled_by(raw), name),
{
    if disabled_by(raw).contains(lower(name)) {
        let i = choose|i: int|
            0 <= i < split(raw, ',').len() && trim(#[trigger] split(raw, ',')[i]).len() > 0
                && lower(name) == lower(trim(split(raw, ',')[i]));
        lemma_lower_idempotent(name);
        lemma_lower_idempotent(trim(split(raw, ',')[i]));
    }
}

} // verus!
