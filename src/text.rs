use vstd::prelude::*;
use vstd::string::StringExecFns;

verus! {

/// The cells of one row, the first preceded by a space and each later one by
/// a comma and a space.
pub open spec fn row_body(cells: Seq<Seq<char>>) -> Seq<char>
    decreases cells.len(),
{
    if cells.len() == 0 {
        Seq::empty()
    } else {
        let sep = if cells.len() == 1 {
            seq![' ']
        } else {
            seq![',', ' ']
        };
        row_body(cells.drop_last()) + sep + cells.last()
    }
}

/// One row as a line: `[`, the cells, ` ]` and a line break.
pub open spec fn row_line(cells: Seq<Seq<char>>) -> Seq<char> {
    seq!['['] + row_body(cells) + seq![' ', ']', '\n']
}

/// The lines of all rows, in order.
pub open spec fn rendered(rows: Seq<Seq<Seq<char>>>) -> Seq<char>
    decreases rows.len(),
{
    if rows.len() == 0 {
        Seq::empty()
    } else {
        rendered(rows.drop_last()) + row_line(rows.last())
    }
}

/// The text of each cell of a vector of rows of strings.
pub open spec fn cell_texts(cells: Seq<Vec<String>>) -> Seq<Seq<Seq<char>>> {
    Seq::new(cells.len(), |i: int| Seq::new(cells[i]@.len(), |j: int| cells[i]@[j]@))
}

/// Lays out a matrix whose cells are given as text: one line per row, the
/// cells between `[` and ` ]`, separated by `, `.
pub fn render_cells(cells: &Vec<Vec<String>>) -> (r: String)
    ensures
        r@ == rendered(cell_texts(cells@)),
{
    let ghost all = cell_texts(cells@);
    let mut out = String::new();
    let mut i: usize = 0;
    proof {
        reveal_strlit("[");
        reveal_strlit(" ");
        reveal_strlit(", ");
        reveal_strlit(" ]\n");
        assert(all.take(0) =~= Seq::<Seq<Seq<char>>>::empty());
    }
    while i < cells.len()
        invariant
            i <= cells@.len(),
            all == cell_texts(cells@),
            out@ == rendered(all.take(i as int)),
        decreases cells.len() - i,
    {
        let ghost before = out@;
        let ghost row = all[i as int];
        out.append("[");
        let mut j: usize = 0;
        proof {
            reveal_strlit("[");
            assert(row.take(0) =~= Seq::<Seq<char>>::empty());
            assert(out@ =~= before + seq!['['] + row_body(row.take(0)));
        }
        while j < cells[i].len()
            invariant
                i < cells@.len(),
                j <= cells@[i as int]@.len(),
                all == cell_texts(cells@),
                row == all[i as int],
                out@ == before + seq!['['] + row_body(row.take(j as int)),
            decreases cells@[i as int]@.len() - j,
        {
            proof {
                reveal_strlit(" ");
                reveal_strlit(", ");
                assert(row.take(j + 1).drop_last() =~= row.take(j as int));
            }
            if j == 0 {
                out.append(" ");
            } else {
                out.append(", ");
            }
            out.append(cells[i][j].as_str());
            j = j + 1;
            proof {
                assert(out@ =~= before + seq!['['] + row_body(row.take(j as int)));
            }
        }
        out.append(" ]\n");
        proof {
            reveal_strlit(" ]\n");
            assert(row.take(j as int) =~= row);
            assert(all.take(i + 1).drop_last() =~= all.take(i as int));
            assert(out@ =~= rendered(all.take(i + 1)));
        }
        i = i + 1;
    }
    proof {
        assert(all.take(cells@.len() as int) =~= all);
    }
    out
}

} // verus!
