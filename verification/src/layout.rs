use vstd::prelude::*;

verus! {

/// The deep view of a vector of rows: each row as its character sequence.
pub open spec fn rows_deep(rows: Seq<Vec<char>>) -> Seq<Seq<char>> {
    rows.map_values(|v: Vec<char>| v@)
}

/// Splitting a character sequence on the space character: one row per word,
/// with empty rows standing for leading, trailing and doubled spaces.
pub open spec fn split_rows_spec(s: Seq<char>) -> Seq<Seq<char>>
    decreases s.len(),
{
    if s.len() == 0 {
        seq![Seq::<char>::empty()]
    } else if s[0] == ' ' {
        seq![Seq::<char>::empty()] + split_rows_spec(s.skip(1))
    } else {
        let rest = split_rows_spec(s.skip(1));
        seq![seq![s[0]] + rest.first()] + rest.skip(1)
    }
}

/// A split always yields at least one row.
pub proof fn lemma_split_rows_len(s: Seq<char>)
    ensures
        split_rows_spec(s).len() >= 1,
    decreases s.len(),
{
    if s.len() == 0 {
    } else if s[0] == ' ' {
    } else {
        lemma_split_rows_len(s.skip(1));
    }
}

/// The rows already completed, then the row in progress joined onto the first
/// row of the remainder's split, then the rest of that split.
pub open spec fn merge_split(done: Seq<Seq<char>>, rest: Seq<Seq<char>>) -> Seq<Seq<char>>
    recommends
        done.len() >= 1,
        rest.len() >= 1,
{
    done.drop_last() + seq![done.last() + rest.first()] + rest.skip(1)
}

/// Splits the normalized input on spaces; one word per row.
pub fn split_rows(s: &Vec<char>) -> (rows: Vec<Vec<char>>)
    ensures
        rows_deep(rows@) == split_rows_spec(s@),
        rows@.len() >= 1,
{
    let mut rows: Vec<Vec<char>> = Vec::new();
    rows.push(Vec::new());
    let mut i: usize = 0;
    proof {
        lemma_split_rows_len(s@);
        assert(s@.skip(0) =~= s@);
        assert(rows_deep(rows@) =~= seq![Seq::<char>::empty()]);
        assert(merge_split(rows_deep(rows@), split_rows_spec(s@)) =~~= split_rows_spec(s@));
    }
    while i < s.len()
        invariant
            i <= s@.len(),
            rows@.len() >= 1,
            split_rows_spec(s@) == merge_split(rows_deep(rows@), split_rows_spec(s@.skip(i as int))),
        decreases s@.len() - i,
    {
        let ghost suffix = s@.skip(i as int);
        let ghost done0 = rows_deep(rows@);
        proof {
            assert(suffix.len() == s@.len() - i);
            assert(suffix[0] == s@[i as int]);
            assert(suffix.skip(1) =~= s@.skip(i as int + 1));
            lemma_split_rows_len(s@.skip(i as int + 1));
        }
        let ghost sp = split_rows_spec(suffix);
        let ghost sp2 = split_rows_spec(s@.skip(i as int + 1));
        let ch = s[i];
        if ch == ' ' {
            rows.push(Vec::new());
            proof {
                assert(sp == seq![Seq::<char>::empty()] + sp2);
                assert(rows_deep(rows@) =~= done0.push(Seq::<char>::empty()));
                assert(sp.first() == Seq::<char>::empty());
                assert(sp.skip(1) =~= sp2);
                assert(done0.last() + sp.first() =~= done0.last());
                assert(Seq::<char>::empty() + sp2.first() =~= sp2.first());
                assert(merge_split(done0.push(Seq::<char>::empty()), sp2) =~= done0
                    + seq![sp2.first()] + sp2.skip(1));
                assert(merge_split(done0, sp) =~= done0 + seq![sp2.first()] + sp2.skip(1));
                assert(merge_split(rows_deep(rows@), sp2) =~= merge_split(done0, sp));
            }
        } else {
            let mut last = rows.pop().unwrap();
            last.push(ch);
            rows.push(last);
            proof {
                assert(sp == seq![seq![suffix[0]] + sp2.first()] + sp2.skip(1));
                assert(rows_deep(rows@) =~= done0.update(
                    done0.len() - 1,
                    done0.last().push(ch),
                ));
                assert(sp.first() == seq![ch] + sp2.first());
                assert(sp.skip(1) =~= sp2.skip(1));
                assert(done0.last() + sp.first() =~= done0.last().push(ch) + sp2.first());
                assert(merge_split(rows_deep(rows@), sp2) =~= merge_split(done0, sp));
            }
        }
        i += 1;
    }
    proof {
        assert(s@.skip(i as int) =~= Seq::<char>::empty());
        assert(split_rows_spec(Seq::<char>::empty()) == seq![Seq::<char>::empty()]);
        let d = rows_deep(rows@);
        let e = seq![Seq::<char>::empty()];
        assert(d.last() + e.first() =~= d.last());
        assert(merge_split(d, e) =~= d);
    }
    rows
}

/// The number of character columns: the widest row's length.
pub open spec fn max_row_len_spec(rows: Seq<Seq<char>>) -> int
    decreases rows.len(),
{
    if rows.len() == 0 {
        0
    } else {
        let rest = max_row_len_spec(rows.drop_last());
        if rows.last().len() > rest {
            rows.last().len() as int
        } else {
            rest
        }
    }
}

/// No row is longer than the maximum.
pub proof fn lemma_max_row_len_bound(rows: Seq<Seq<char>>, k: int)
    requires
        0 <= k < rows.len(),
    ensures
        rows[k].len() <= max_row_len_spec(rows),
    decreases rows.len(),
{
    if k == rows.len() - 1 {
    } else {
        lemma_max_row_len_bound(rows.drop_last(), k);
        assert(rows.drop_last()[k] == rows[k]);
    }
}

/// Computes the widest row's length.
pub fn max_row_len(rows: &Vec<Vec<char>>) -> (w: usize)
    ensures
        w == max_row_len_spec(rows_deep(rows@)),
{
    let mut w: usize = 0;
    let mut i: usize = 0;
    proof {
        assert(rows_deep(rows@).take(0) =~= Seq::<Seq<char>>::empty());
    }
    while i < rows.len()
        invariant
            i <= rows@.len(),
            w == max_row_len_spec(rows_deep(rows@).take(i as int)),
        decreases rows@.len() - i,
    {
        let len_i = rows[i].len();
        if len_i > w {
            w = len_i;
        }
        proof {
            let d = rows_deep(rows@);
            assert(d.take(i as int + 1).drop_last() =~= d.take(i as int));
            assert(d.take(i as int + 1).last() == d[i as int]);
        }
        i += 1;
    }
    proof {
        assert(rows_deep(rows@).take(rows@.len() as int) =~= rows_deep(rows@));
    }
    w
}

} // verus!
