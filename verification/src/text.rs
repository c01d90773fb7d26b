use vstd::prelude::*;

verus! {

/// What `str::to_lowercase` returns for a given character sequence.
pub uninterp spec fn lower_of(s: Seq<char>) -> Seq<char>;

/// Relies on str::to_lowercase: the result depends on the characters alone.
#[verifier::external_body]
pub(crate) fn lowercase(s: &str) -> (r: String)
    ensures
        r@ == lower_of(s@),
{
    s.to_lowercase()
}

/// The split of `s` on single spaces, read from position `cur`, the current
/// token having started at `start`: the remaining tokens, exactly as
/// `str::split(' ')` yields them, empty tokens between consecutive spaces
/// included.
pub open spec fn split_from(s: Seq<char>, start: int, cur: int) -> Seq<Seq<char>>
    decreases s.len() - cur,
{
    if cur >= s.len() {
        seq![s.subrange(start, s.len() as int)]
    } else if s[cur] == ' ' {
        seq![s.subrange(start, cur)] + split_from(s, cur + 1, cur + 1)
    } else {
        split_from(s, start, cur + 1)
    }
}

/// The tokens of `s`, split on single spaces.
pub open spec fn split_spaces(s: Seq<char>) -> Seq<Seq<char>> {
    split_from(s, 0, 0)
}

/// Split `s` on single spaces.
pub fn split_spaces_exec(s: &str) -> (r: Vec<String>)
    ensures
        r@.map_values(|t: String| t@) == split_spaces(s@),
{
    let n = s.unicode_len();
    let mut r: Vec<String> = Vec::new();
    let mut start: usize = 0;
    let mut i: usize = 0;
    while i < n
        invariant
            n == s@.len(),
            start <= i <= n,
            split_spaces(s@) == r@.map_values(|t: String| t@) + split_from(
                s@,
                start as int,
                i as int,
            ),
        decreases n - i,
    {
        let c = s.get_char(i);
        if c == ' ' {
            let ghost prev = r@.map_values(|t: String| t@);
            let tok = s.substring_char(start, i).to_owned();
            r.push(tok);
            proof {
                assert(r@.map_values(|t: String| t@) =~= prev.push(tok@));
                assert(prev.push(tok@) + split_from(s@, i as int + 1, i as int + 1) =~= prev + (
                seq![s@.subrange(start as int, i as int)] + split_from(
                    s@,
                    i as int + 1,
                    i as int + 1,
                )));
            }
            start = i + 1;
        }
        i = i + 1;
    }
    let ghost prev = r@.map_values(|t: String| t@);
    let tok = s.substring_char(start, n).to_owned();
    r.push(tok);
    proof {
        assert(r@.map_values(|t: String| t@) =~= prev.push(tok@));
        assert(prev.push(tok@) =~= prev + seq![s@.subrange(start as int, n as int)]);
    }
    r
}

/// `ts` with every repeat of an earlier element dropped: each element keeps
/// its first occurrence only.
pub open spec fn dedup_of(ts: Seq<Seq<char>>) -> Seq<Seq<char>>
    decreases ts.len(),
{
    if ts.len() == 0 {
        Seq::empty()
    } else if ts.drop_last().contains(ts.last()) {
        dedup_of(ts.drop_last())
    } else {
        dedup_of(ts.drop_last()).push(ts.last())
    }
}

/// Dropping repeats keeps membership: an element is in the deduplicated
/// sequence exactly when it was in the original.
pub proof fn lemma_dedup_contains(ts: Seq<Seq<char>>, x: Seq<char>)
    ensures
        dedup_of(ts).contains(x) <==> ts.contains(x),
    decreases ts.len(),
{
    if ts.len() > 0 {
        let prefix = ts.drop_last();
        let l = ts.last();
        lemma_dedup_contains(prefix, x);
        assert(ts.contains(x) <==> prefix.contains(x) || l == x) by {
            if prefix.contains(x) {
                let i = choose|i: int| 0 <= i < prefix.len() && prefix[i] == x;
                assert(ts[i] == x);
            }
            if l == x {
                assert(ts[ts.len() - 1] == x);
            }
            if ts.contains(x) {
                let i = choose|i: int| 0 <= i < ts.len() && ts[i] == x;
                if i < ts.len() - 1 {
                    assert(prefix[i] == x);
                }
            }
        };
        if !prefix.contains(l) {
            let d = dedup_of(prefix);
            assert(dedup_of(ts) == d.push(l));
            assert(dedup_of(ts).contains(x) <==> d.contains(x) || l == x) by {
                if d.contains(x) {
                    let i = choose|i: int| 0 <= i < d.len() && d[i] == x;
                    assert(d.push(l)[i] == x);
                }
                if l == x {
                    assert(d.push(l)[d.len() as int] == x);
                }
                if d.push(l).contains(x) {
                    let i = choose|i: int| 0 <= i < d.push(l).len() && d.push(l)[i] == x;
                    if i < d.len() {
                        assert(d[i] == x);
                    }
                }
            };
        }
    }
}

/// Whether some element of `v` has the same characters as `s`.
pub fn contains_string(v: &Vec<String>, s: &String) -> (r: bool)
    ensures
        r == v@.map_values(|t: String| t@).contains(s@),
{
    let ghost mapped = v@.map_values(|t: String| t@);
    let n = v.len();
    let mut i: usize = 0;
    while i < n
        invariant
            n == v@.len(),
            i <= n,
            mapped == v@.map_values(|t: String| t@),
            forall|j: int| 0 <= j < i ==> mapped[j] != s@,
        decreases n - i,
    {
        if v[i].eq(s) {
            assert(mapped[i as int] == s@);
            return true;
        }
        i = i + 1;
    }
    false
}

} // verus!
