//! Giving letters typed on punctuation keys the case of the word they stand in.

use vstd::prelude::*;

verus! {

/// One character of a text together with what it became in the other layout,
/// and the Unicode facts that the case rule reads.
#[derive(Clone, Copy, Debug)]
pub struct MappedChar {
    /// The character as typed.
    pub source: char,
    /// The character carried across the layouts.
    pub target: char,
    /// Whether `source` is alphabetic.
    pub source_alphabetic: bool,
    /// Whether `target` is alphabetic.
    pub target_alphabetic: bool,
    /// Whether `source` is uppercase.
    pub source_uppercase: bool,
    /// Whether `source` is lowercase.
    pub source_lowercase: bool,
    /// The first character of the uppercase mapping of `target`.
    pub target_upper: char,
}

/// A position belongs to a word when its typed or its mapped character is a letter.
pub open spec fn in_word(m: MappedChar) -> bool {
    m.source_alphabetic || m.target_alphabetic
}

/// Positions `j` and `k` of `ms` lie in one word: every position from the
/// lower to the higher of the two belongs to a word.
pub open spec fn same_word(ms: Seq<MappedChar>, j: int, k: int) -> bool {
    &&& 0 <= j < ms.len()
    &&& 0 <= k < ms.len()
    &&& forall|m: int|
        #![trigger ms[m]]
        (j <= m <= k || k <= m <= j) ==> in_word(ms[m])
}

/// The word at position `k` is written in capitals: some typed character of
/// it is uppercase and none is lowercase.
pub open spec fn caps_word(ms: Seq<MappedChar>, k: int) -> bool {
    &&& exists|j: int| #[trigger] same_word(ms, j, k) && ms[j].source_uppercase
    &&& !exists|j: int| #[trigger] same_word(ms, j, k) && ms[j].source_lowercase
}

/// The output character at position `k`: a letter that came from a key which
/// typed no letter takes uppercase in a word written in capitals; every other
/// character is the mapped one.
pub open spec fn restored_char(ms: Seq<MappedChar>, k: int) -> char {
    if !ms[k].source_alphabetic && ms[k].target_alphabetic && caps_word(ms, k) {
        ms[k].target_upper
    } else {
        ms[k].target
    }
}

/// The whole output: `restored_char` at every position.
pub open spec fn restore_case(ms: Seq<MappedChar>) -> Seq<char> {
    Seq::new(ms.len(), |k: int| restored_char(ms, k))
}

/// Inside a maximal run `[start, end)` of word positions, two positions are
/// in one word exactly when both lie in the run.
proof fn lemma_run_is_word(ms: Seq<MappedChar>, start: int, end: int, k: int, j: int)
    requires
        0 <= start <= k < end <= ms.len(),
        start == 0 || !in_word(ms[start - 1]),
        end == ms.len() || !in_word(ms[end]),
        forall|m: int| start <= m < end ==> #[trigger] in_word(ms[m]),
    ensures
        same_word(ms, j, k) <==> (start <= j < end),
{
    if start <= j < end {
        assert forall|m: int| #![trigger ms[m]] (j <= m <= k || k <= m <= j) implies in_word(
            ms[m],
        ) by {
            assert(start <= m < end);
        }
    }
    if j < start && 0 <= j {
        assert(j <= start - 1 <= k);
        assert(!in_word(ms[start - 1]));
    }
    if j >= end && j < ms.len() {
        assert(k <= end <= j);
        assert(!in_word(ms[end]));
    }
}

/// The output text of a mapped text: every character is the mapped one,
/// except that in a word with an uppercase and no lowercase typed letter,
/// a letter typed on a non-letter key is uppercased.
pub fn restore_word_case(ms: &Vec<MappedChar>) -> (out: Vec<char>)
    ensures
        out@ == restore_case(ms@),
{
    let n = ms.len();
    let mut out: Vec<char> = Vec::new();
    let mut i: usize = 0;
    while i < n
        invariant
            n == ms@.len(),
            i <= n,
            out@.len() == i,
            forall|k: int| 0 <= k < i ==> #[trigger] out@[k] == ms@[k].target,
        decreases n - i,
    {
        out.push(ms[i].target);
        i = i + 1;
    }
    let mut start: usize = 0;
    while start < n
        invariant
            n == ms@.len(),
            out@.len() == n,
            start <= n,
            start == 0 || start == n || !in_word(ms@[start - 1]) || !in_word(ms@[start as int]),
            forall|k: int| 0 <= k < start ==> #[trigger] out@[k] == restored_char(ms@, k),
            forall|k: int| start <= k < n ==> #[trigger] out@[k] == ms@[k].target,
        decreases n - start,
    {
        let m = ms[start];
        if !m.source_alphabetic && !m.target_alphabetic {
            start = start + 1;
            continue;
        }
        let mut end: usize = start;
        let mut has_upper = false;
        let mut has_lower = false;
        while end < n && (ms[end].source_alphabetic || ms[end].target_alphabetic)
            invariant
                n == ms@.len(),
                start <= end <= n,
                forall|m: int| start <= m < end ==> #[trigger] in_word(ms@[m]),
                has_upper == exists|j: int| start <= j < end && #[trigger] ms@[j].source_uppercase,
                has_lower == exists|j: int| start <= j < end && #[trigger] ms@[j].source_lowercase,
            decreases n - end,
        {
            proof {
                assert(in_word(ms@[end as int]));
            }
            has_upper = has_upper || ms[end].source_uppercase;
            has_lower = has_lower || ms[end].source_lowercase;
            end = end + 1;
        }
        assert(start == 0 || !in_word(ms@[start - 1]));
        assert(end == n || !in_word(ms@[end as int]));
        let caps = has_upper && !has_lower;
        assert forall|k: int| start <= k < end implies caps_word(ms@, k) == caps by {
            assert forall|j: int| #[trigger] same_word(ms@, j, k) <==> (start <= j < end) by {
                lemma_run_is_word(ms@, start as int, end as int, k, j);
            }
            if has_upper {
                let j = choose|j: int| start <= j < end && #[trigger] ms@[j].source_uppercase;
                assert(same_word(ms@, j, k));
            }
            if has_lower {
                let j = choose|j: int| start <= j < end && #[trigger] ms@[j].source_lowercase;
                assert(same_word(ms@, j, k));
            }
        }
        let mut k: usize = start;
        while k < end
            invariant
                n == ms@.len(),
                out@.len() == n,
                start <= k <= end <= n,
                caps == (has_upper && !has_lower),
                forall|q: int| start <= q < end ==> caps_word(ms@, q) == caps,
                forall|q: int| 0 <= q < k ==> #[trigger] out@[q] == restored_char(ms@, q),
                forall|q: int| k <= q < n ==> #[trigger] out@[q] == ms@[q].target,
            decreases end - k,
        {
            if caps && !ms[k].source_alphabetic && ms[k].target_alphabetic {
                out.set(k, ms[k].target_upper);
            }
            k = k + 1;
        }
        start = end;
    }
    assert(out@ =~= restore_case(ms@));
    out
}

} // verus!
