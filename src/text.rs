//! Lines as sequences of characters: what a line may hold, and how text is
//! cut into lines and joined back.

use vstd::prelude::*;

verus! {

/// A line never holds a newline character.
pub open spec fn no_newline(l: Seq<char>) -> bool {
    forall|j: int| 0 <= j < l.len() ==> l[j] != '\n'
}

/// The characters of each line of a buffer.
pub open spec fn lines_view(rows: Seq<Vec<char>>) -> Seq<Seq<char>> {
    rows.map_values(|l: Vec<char>| l@)
}

} // verus!

verus! {

/// The pieces of `s` between its newlines, in order: one more than there are
/// newlines, the last one being what follows the last newline.
pub open spec fn segments(s: Seq<char>) -> Seq<Seq<char>>
    decreases s.len(),
{
    if s.len() == 0 {
        seq![Seq::empty()]
    } else {
        let p = segments(s.drop_last());
        if s.last() == '\n' {
            p.push(Seq::empty())
        } else {
            p.update(p.len() - 1, p.last().push(s.last()))
        }
    }
}

/// A line with one carriage return taken off its end, if it has one there.
pub open spec fn strip_cr(l: Seq<char>) -> Seq<char> {
    if l.len() > 0 && l.last() == '\r' {
        l.drop_last()
    } else {
        l
    }
}

/// The lines of a text: a line ends at `\n` or `\r\n`, and the ending of the
/// last line may be left out, so an empty text has no line and a text that
/// ends with a line ending has no empty line after it.
pub open spec fn text_lines(s: Seq<char>) -> Seq<Seq<char>> {
    let p = segments(s);
    let ended = p.drop_last().map_values(|l: Seq<char>| strip_cr(l));
    if p.last().len() == 0 {
        ended
    } else {
        ended.push(p.last())
    }
}

/// The lines joined into one text, with a newline between each two of them.
pub open spec fn join_lines(ls: Seq<Seq<char>>) -> Seq<char>
    decreases ls.len(),
{
    if ls.len() == 0 {
        Seq::empty()
    } else if ls.len() == 1 {
        ls[0]
    } else {
        join_lines(ls.drop_last()) + seq!['\n'] + ls.last()
    }
}

/// There is always at least one segment, and none holds a newline.
pub proof fn lemma_segments(s: Seq<char>)
    ensures
        segments(s).len() >= 1,
        forall|k: int| 0 <= k < segments(s).len() ==> no_newline(#[trigger] segments(s)[k]),
    decreases s.len(),
{
    if s.len() > 0 {
        lemma_segments(s.drop_last());
        let p = segments(s.drop_last());
        let q = segments(s);
        if s.last() != '\n' {
            assert forall|k: int| 0 <= k < q.len() implies no_newline(#[trigger] q[k]) by {
                if k == p.len() - 1 {
                    assert forall|j: int| 0 <= j < q[k].len() implies q[k][j] != '\n' by {
                        if j < p[k].len() {
                            assert(q[k][j] == p[k][j]);
                        }
                    }
                } else {
                    assert(q[k] == p[k]);
                }
            }
        } else {
            assert forall|k: int| 0 <= k < q.len() implies no_newline(#[trigger] q[k]) by {
                if k < p.len() {
                    assert(q[k] == p[k]);
                }
            }
        }
    }
}

/// No line of a text holds a newline.
pub proof fn lemma_text_lines_no_newline(s: Seq<char>)
    ensures
        forall|k: int|
            0 <= k < text_lines(s).len() ==> no_newline(#[trigger] text_lines(s)[k]),
{
    lemma_segments(s);
    let p = segments(s);
    let t = text_lines(s);
    assert forall|k: int| 0 <= k < t.len() implies no_newline(#[trigger] t[k]) by {
        if k < p.len() - 1 {
            assert(no_newline(p[k]));
            assert(t[k] == strip_cr(p[k]));
            assert forall|j: int| 0 <= j < t[k].len() implies t[k][j] != '\n' by {
                assert(t[k][j] == p[k][j]);
            }
        } else {
            assert(t[k] == p[k]);
        }
    }
}

/// Cuts a text into its lines.
pub fn split_lines(text: &str) -> (r: Vec<Vec<char>>)
    ensures
        lines_view(r@) == text_lines(text@),
{
    let ghost all = text@;
    let mut done: Vec<Vec<char>> = Vec::new();
    let mut cur: Vec<char> = Vec::new();
    proof {
        assert(all.take(0) =~= Seq::empty());
        lemma_segments(all.take(0));
        assert(lines_view(done@) =~= segments(all.take(0)).drop_last().map_values(
            |l: Seq<char>| strip_cr(l),
        ));
    }
    for c in it: text.chars()
        invariant
            it.seq() == all,
            segments(all.take(it.index() as int)).len() >= 1,
            segments(all.take(it.index() as int)).last() == cur@,
            lines_view(done@) == segments(all.take(it.index() as int)).drop_last().map_values(
                |l: Seq<char>| strip_cr(l),
            ),
    {
        let ghost i = it.index() as int;
        let ghost p = segments(all.take(i));
        proof {
            lemma_segments(all.take(i));
            assert(all.take(i + 1).drop_last() =~= all.take(i));
            assert(all.take(i + 1).last() == c);
        }
        if c == '\n' {
            let n = cur.len();
            if n > 0 && cur[n - 1] == '\r' {
                cur.pop();
            }
            let ghost done_before = lines_view(done@);
            proof {
                assert(cur@ =~= strip_cr(p.last()));
            }
            done.push(cur);
            proof {
                assert(lines_view(done@) =~= done_before.push(strip_cr(p.last())));
                assert(p.map_values(|l: Seq<char>| strip_cr(l)) =~= p.drop_last().map_values(
                    |l: Seq<char>| strip_cr(l),
                ).push(strip_cr(p.last())));
            }
            cur = Vec::new();
            proof {
                lemma_segments(all.take(i + 1));
                let q = segments(all.take(i + 1));
                assert(q == p.push(Seq::empty()));
                assert(q.drop_last() =~= p);
                assert(cur@ =~= q.last());
                assert(lines_view(done@) =~= q.drop_last().map_values(
                    |l: Seq<char>| strip_cr(l),
                ));
            }
        } else {
            cur.push(c);
            proof {
                lemma_segments(all.take(i + 1));
                let q = segments(all.take(i + 1));
                assert(cur@ =~= q.last());
                assert(lines_view(done@) =~= q.drop_last().map_values(
                    |l: Seq<char>| strip_cr(l),
                ));
            }
        }
    }
    proof {
        assert(all.take(all.len() as int) =~= all);
    }
    if cur.len() > 0 {
        done.push(cur);
        proof {
            assert(lines_view(done@) =~= text_lines(all));
        }
    }
    done
}

/// Joins lines into one text, with a newline between each two of them.
pub fn join_rows(rows: &Vec<Vec<char>>) -> (r: Vec<char>)
    ensures
        r@ == join_lines(lines_view(rows@)),
{
    let mut out: Vec<char> = Vec::new();
    let mut i: usize = 0;
    proof {
        assert(lines_view(rows@).take(0) =~= Seq::empty());
    }
    while i < rows.len()
        invariant
            i <= rows@.len(),
            out@ == join_lines(lines_view(rows@).take(i as int)),
        decreases rows@.len() - i,
    {
        let ghost before = out@;
        let row = &rows[i];
        if i > 0 {
            out.push('\n');
        }
        let ghost mid = out@;
        let mut j: usize = 0;
        while j < row.len()
            invariant
                j <= row@.len(),
                out@ == mid + row@.take(j as int),
            decreases row@.len() - j,
        {
            out.push(row[j]);
            j = j + 1;
            proof {
                assert(out@ =~= mid + row@.take(j as int));
            }
        }
        proof {
            let ls = lines_view(rows@).take(i + 1);
            assert(ls.drop_last() =~= lines_view(rows@).take(i as int));
            assert(row@.take(j as int) =~= row@);
            assert(ls.last() == row@);
            if i == 0 {
                assert(out@ =~= join_lines(ls));
            } else {
                assert(out@ =~= join_lines(ls));
            }
        }
        i = i + 1;
    }
    proof {
        assert(lines_view(rows@).take(rows@.len() as int) =~= lines_view(rows@));
    }
    out
}

} // verus!
