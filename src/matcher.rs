use vstd::prelude::*;

verus! {

/// The lowercase form of a string, as `str::to_lowercase` computes it.
pub uninterp spec fn lower_of(s: Seq<char>) -> Seq<char>;

/// Relies on `str::to_lowercase`: its result depends on the characters of
/// `s` alone, and the empty string stays empty.
#[verifier::external_body]
fn lowercase(s: &str) -> (r: String)
    ensures
        r@ == lower_of(s@),
        s@.len() == 0 ==> r@.len() == 0,
{
    s.to_lowercase()
}

/// Relies on `str::chars`: the characters of `s`, in order.
#[verifier::external_body]
fn chars_of(s: &str) -> (r: Vec<char>)
    ensures
        r@ == s@,
{
    s.chars().collect()
}

/// Whether `pat` occurs as a contiguous run of `text`.
pub open spec fn occurs_in(pat: Seq<char>, text: Seq<char>) -> bool {
    exists|i: int| 0 <= i <= text.len() - pat.len() && #[trigger] text.subrange(i, i + pat.len()) == pat
}

/// Substring search over characters.
pub fn contains_chars(text: &Vec<char>, pat: &Vec<char>) -> (r: bool)
    ensures
        r == occurs_in(pat@, text@),
{
    if pat.len() > text.len() {
        return false;
    }
    let last: usize = text.len() - pat.len();
    let mut i: usize = 0;
    while i <= last
        invariant
            pat.len() <= text.len(),
            last == text.len() - pat.len(),
            i <= last + 1,
            forall|j: int| 0 <= j < i ==> #[trigger] text@.subrange(j, j + pat@.len()) != pat@,
        decreases last + 1 - i,
    {
        let mut k: usize = 0;
        let mut same: bool = true;
        while k < pat.len()
            invariant
                i <= last,
                last == text.len() - pat.len(),
                k <= pat.len(),
                same == (forall|m: int| 0 <= m < k ==> text@[i + m] == pat@[m]),
            decreases pat.len() - k,
        {
            if text[i + k] != pat[k] {
                same = false;
            }
            k = k + 1;
        }
        if same {
            assert(text@.subrange(i as int, i + pat@.len()) =~= pat@);
            return true;
        }
        proof {
            let m = choose|m: int| 0 <= m < pat.len() && text@[i + m] != pat@[m];
            assert(text@.subrange(i as int, i + pat@.len())[m] != pat@[m]);
        }
        i = i + 1;
    }
    false
}

/// Whether `line` is kept for `query`: the query occurs in the line once
/// both are lowercased.
pub open spec fn line_matches(query: Seq<char>, line: Seq<char>) -> bool {
    occurs_in(lower_of(query), lower_of(line))
}

/// The lines that match `query`, in their original order.
pub open spec fn filtered(lines: Seq<Seq<char>>, query: Seq<char>) -> Seq<Seq<char>>
    decreases lines.len(),
{
    if lines.len() == 0 {
        Seq::empty()
    } else {
        let rest = filtered(lines.drop_last(), query);
        if line_matches(query, lines.last()) {
            rest.push(lines.last())
        } else {
            rest
        }
    }
}

/// Containment test on strings that are already lowercased.
pub fn matches_folded(query: &str, line: &str) -> (r: bool)
    ensures
        r == occurs_in(query@, line@),
{
    let q = chars_of(query);
    let t = chars_of(line);
    contains_chars(&t, &q)
}

/// Case-insensitive substring test: whether `query` occurs in `line` once
/// both are lowercased. The empty query matches every line.
pub fn fuzzy_match(query: &str, line: &str) -> (r: bool)
    ensures
        r == line_matches(query@, line@),
        query@.len() == 0 ==> r,
{
    let q = lowercase(query);
    let t = lowercase(line);
    let r = matches_folded(q.as_str(), t.as_str());
    proof {
        if query@.len() == 0 {
            assert(q@.len() == 0);
            assert(lower_of(line@).subrange(0int, 0int + lower_of(query@).len()) =~= lower_of(query@));
        }
    }
    r
}

/// The lines that match `query`, in their original order.
pub fn filter_lines(lines: &Vec<String>, query: &str) -> (r: Vec<String>)
    ensures
        r.deep_view() == filtered(lines.deep_view(), query@),
{
    let mut out: Vec<String> = Vec::new();
    let mut i: usize = 0;
    while i < lines.len()
        invariant
            i <= lines.len(),
            out.deep_view() == filtered(lines.deep_view().take(i as int), query@),
        decreases lines.len() - i,
    {
        let ghost before = out.deep_view();
        let keep = fuzzy_match(query, lines[i].as_str());
        if keep {
            out.push(lines[i].clone());
            assert(out.deep_view() =~= before.push(lines.deep_view()[i as int]));
        }
        assert(lines.deep_view().take(i + 1).drop_last() =~= lines.deep_view().take(i as int));
        i = i + 1;
    }
    assert(lines.deep_view().take(i as int) =~= lines.deep_view());
    out
}

/// Positions in `lines` of the lines that match `query`, in increasing order.
pub open spec fn match_positions(lines: Seq<Seq<char>>, query: Seq<char>) -> Seq<int>
    decreases lines.len(),
{
    if lines.len() == 0 {
        Seq::empty()
    } else {
        let rest = match_positions(lines.drop_last(), query);
        if line_matches(query, lines.last()) {
            rest.push(lines.len() - 1)
        } else {
            rest
        }
    }
}

/// Filtering is order-stable: the kept lines are the lines at the matching
/// positions, those positions strictly increase, and a position is among
/// them exactly when its line matches.
pub proof fn lemma_filter_order_stable(lines: Seq<Seq<char>>, query: Seq<char>)
    ensures
        match_positions(lines, query).len() == filtered(lines, query).len(),
        forall|k: int|
            0 <= k < match_positions(lines, query).len() ==> 0 <= #[trigger] match_positions(
                lines,
                query,
            )[k] < lines.len() && filtered(lines, query)[k] == lines[match_positions(
                lines,
                query,
            )[k]],
        forall|k1: int, k2: int|
            0 <= k1 < k2 < match_positions(lines, query).len() ==> #[trigger] match_positions(
                lines,
                query,
            )[k1] < #[trigger] match_positions(lines, query)[k2],
        forall|i: int|
            0 <= i < lines.len() ==> (line_matches(query, #[trigger] lines[i])
                <==> match_positions(lines, query).contains(i)),
    decreases lines.len(),
{
    if lines.len() > 0 {
        let init = lines.drop_last();
        lemma_filter_order_stable(init, query);
        let p = match_positions(lines, query);
        let rp = match_positions(init, query);
        assert forall|i: int| 0 <= i < lines.len() implies (line_matches(query, #[trigger] lines[i])
            <==> p.contains(i)) by {
            if i < lines.len() - 1 {
                assert(init[i] == lines[i]);
                if p.contains(i) {
                    let k = choose|k: int| 0 <= k < p.len() && p[k] == i;
                    if k < rp.len() {
                        assert(rp[k] == i);
                        assert(rp.contains(i));
                    }
                }
                if rp.contains(i) {
                    let k = choose|k: int| 0 <= k < rp.len() && rp[k] == i;
                    assert(p[k] == i);
                }
            } else {
                if line_matches(query, lines[i]) {
                    assert(p[p.len() - 1] == i);
                } else {
                    if p.contains(i) {
                        let k = choose|k: int| 0 <= k < p.len() && p[k] == i;
                        assert(rp[k] == i);
                    }
                }
            }
        }
    }
}

} // verus!
