//! Display-output selection: substring matching of a configured monitor
//! name against each output's reported name, make and model, and
//! description.

use vstd::prelude::*;
use vstd::string::StrSliceExecFns;

verus! {

/// Whether `needle` occurs as a contiguous run of characters in
/// `haystack`.
pub open spec fn contains_chars(haystack: Seq<char>, needle: Seq<char>) -> bool {
    exists|i: int|
        0 <= i <= haystack.len() - needle.len() && #[trigger] haystack.subrange(
            i,
            i + needle.len(),
        ) == needle
}

/// Substring search by character.
pub fn str_contains(haystack: &String, needle: &String) -> (r: bool)
    ensures
        r == contains_chars(haystack@, needle@),
{
    let hn: usize = haystack.as_str().unicode_len();
    let nn: usize = needle.as_str().unicode_len();
    if nn == 0 {
        proof {
            assert(haystack@.subrange(0, 0 + needle@.len() as int) =~= needle@);
            assert(contains_chars(haystack@, needle@));
        }
        return true;
    }
    if nn > hn {
        proof {
            assert forall|i: int|
                !(0 <= i <= haystack@.len() - needle@.len() && #[trigger] haystack@.subrange(
                    i,
                    i + needle@.len(),
                ) == needle@) by {}
        }
        return false;
    }
    let mut i: usize = 0;
    while i <= hn - nn
        invariant
            hn == haystack@.len(),
            nn == needle@.len(),
            1 <= nn <= hn,
            0 <= i <= hn - nn + 1,
            forall|p: int|
                0 <= p < i ==> #[trigger] haystack@.subrange(p, p + needle@.len()) != needle@,
        decreases hn - nn + 1 - i,
    {
        let mut j: usize = 0;
        let mut matches_here: bool = true;
        while j < nn && matches_here
            invariant
                hn == haystack@.len(),
                nn == needle@.len(),
                0 <= i <= hn - nn,
                0 <= j <= nn,
                matches_here ==> (forall|q: int|
                    0 <= q < j ==> #[trigger] haystack@[i + q] == needle@[q]),
                !matches_here ==> haystack@.subrange(i as int, i + needle@.len()) != needle@,
            decreases nn - j + (if matches_here {
                1int
            } else {
                0int
            }),
        {
            let hc = haystack.as_str().get_char(i + j);
            let nc = needle.as_str().get_char(j);
            if (hc as u32) != (nc as u32) {
                proof {
                    assert(haystack@.subrange(i as int, i + needle@.len())[j as int]
                        == haystack@[i + j]);
                }
                matches_here = false;
            } else {
                assert(hc == nc) by {
                    assert(hc as u32 == nc as u32);
                    assert(hc as u32 as char == nc as u32 as char);
                }
            }
            j = j + 1;
        }
        if matches_here {
            proof {
                assert forall|q: int|
                    0 <= q < needle@.len() implies haystack@.subrange(
                    i as int,
                    i + needle@.len(),
                )[q] == needle@[q] by {
                    assert(haystack@[i + q] == needle@[q]);
                }
                assert(haystack@.subrange(i as int, i + needle@.len()) =~= needle@);
            }
            return true;
        }
        i = i + 1;
    }
    proof {
        assert forall|p: int|
            !(0 <= p <= haystack@.len() - needle@.len() && #[trigger] haystack@.subrange(
                p,
                p + needle@.len(),
            ) == needle@) by {}
    }
    false
}

/// What one display output reports about itself.
pub struct OutputInfo {
    pub name: Option<String>,
    pub description: Option<String>,
    pub make: Option<String>,
    pub model: Option<String>,
}

/// Whether an output matches a configured monitor string: by name, by
/// "make model", or by description.
pub open spec fn output_matches(o: OutputInfo, target: Seq<char>) -> bool {
    ||| (o.name matches Some(n) && contains_chars(n@, target))
    ||| (o.make matches Some(mk) && o.model matches Some(md) && contains_chars(
        mk@ + " "@ + md@,
        target,
    ))
    ||| (o.description matches Some(d) && contains_chars(d@, target))
}

impl OutputInfo {
    /// Test this output against a configured monitor string.
    pub fn matches_target(&self, target: &String) -> (r: bool)
        ensures
            r == output_matches(*self, target@),
    {
        let by_name = match &self.name {
            Some(n) => str_contains(n, target),
            None => false,
        };
        if by_name {
            return true;
        }
        let by_make_model = match (&self.make, &self.model) {
            (Some(mk), Some(md)) => {
                let mut joined = mk.clone();
                joined.append(" ");
                joined.append(md.as_str());
                str_contains(&joined, target)
            },
            _ => false,
        };
        if by_make_model {
            return true;
        }
        match &self.description {
            Some(d) => str_contains(d, target),
            None => false,
        }
    }
}

/// Pick the output to place the panel on: the first one matching the
/// configured monitor string, or the first output when none matches or
/// no monitor is configured.
pub fn select_output(outputs: &Vec<OutputInfo>, target: &Option<String>) -> (idx: usize)
    ensures
        outputs@.len() == 0 ==> idx == 0,
        outputs@.len() > 0 ==> idx < outputs@.len(),
        target matches Some(t) ==> ({
            ||| (idx < outputs@.len() && output_matches(outputs@[idx as int], t@) && forall|j: int|
                0 <= j < idx ==> !output_matches(#[trigger] outputs@[j], t@))
            ||| (idx == 0 && forall|j: int|
                0 <= j < outputs@.len() ==> !output_matches(#[trigger] outputs@[j], t@))
        }),
        target is None ==> idx == 0,
{
    let t: &String = match target {
        Some(t) => t,
        None => {
            return 0;
        },
    };
    let mut i: usize = 0;
    while i < outputs.len()
        invariant
            target matches Some(t2) && t2@ == t@,
            0 <= i <= outputs@.len(),
            forall|j: int| 0 <= j < i ==> !output_matches(#[trigger] outputs@[j], t@),
        decreases outputs@.len() - i,
    {
        if outputs[i].matches_target(t) {
            return i;
        }
        i = i + 1;
    }
    0
}

} // verus!
