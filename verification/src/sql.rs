//! Construction of the parameterized insert statement that the record sink
//! executes: the column names joined with commas, one question-mark
//! placeholder per value.

use vstd::prelude::*;
use vstd::string::StringExecFns;

verus! {

/// The column names joined with ", ".
pub open spec fn spec_join_columns(cols: Seq<Seq<char>>) -> Seq<char>
    decreases cols.len(),
{
    if cols.len() == 0 {
        Seq::empty()
    } else if cols.len() == 1 {
        cols[0]
    } else {
        spec_join_columns(cols.drop_last()) + ", "@ + cols.last()
    }
}

/// `n` placeholders joined with ", ".
pub open spec fn spec_placeholders(n: int) -> Seq<char>
    decreases n,
{
    if n <= 0 {
        Seq::empty()
    } else if n == 1 {
        "?"@
    } else {
        spec_placeholders(n - 1) + ", ?"@
    }
}

/// The full parameterized statement text.
pub open spec fn spec_insert_statement(
    table: Seq<char>,
    cols: Seq<Seq<char>>,
    values: int,
) -> Seq<char> {
    "INSERT INTO "@ + table + " ("@ + spec_join_columns(cols) + ") VALUES ("@ + spec_placeholders(
        values,
    ) + ")"@
}

/// Builds the insert statement for the record sink: the values themselves
/// travel separately as parameters.
pub fn build_insert_statement(table: &str, columns: &Vec<&str>, value_count: usize) -> (r: String)
    ensures
        r@ == spec_insert_statement(
            table@,
            columns@.map_values(|c: &str| c@),
            value_count as int,
        ),
{
    let ghost colv = columns@.map_values(|c: &str| c@);
    let mut s = String::from_str("INSERT INTO ");
    s.append(table);
    s.append(" (");
    proof {
        assert(colv.take(0) =~= Seq::<Seq<char>>::empty());
        assert(s@ =~= "INSERT INTO "@ + table@ + " ("@ + spec_join_columns(colv.take(0)));
    }
    let n = columns.len();
    let mut i: usize = 0;
    while i < n
        invariant
            i <= n,
            n == columns@.len(),
            colv == columns@.map_values(|c: &str| c@),
            colv.len() == n,
            s@ == "INSERT INTO "@ + table@ + " ("@ + spec_join_columns(colv.take(i as int)),
        decreases n - i,
    {
        if i > 0 {
            s.append(", ");
        }
        s.append(columns[i]);
        i += 1;
        proof {
            assert(colv.take(i as int).drop_last() =~= colv.take(i as int - 1));
            assert(colv.take(i as int).last() == colv[i as int - 1]);
            assert(colv[i as int - 1] == columns@[i as int - 1]@);
            assert(s@ =~= "INSERT INTO "@ + table@ + " ("@ + spec_join_columns(
                colv.take(i as int),
            ));
        }
    }
    proof {
        assert(colv.take(n as int) =~= colv);
    }
    s.append(") VALUES (");
    proof {
        assert(s@ =~= "INSERT INTO "@ + table@ + " ("@ + spec_join_columns(colv) + ") VALUES ("@
            + spec_placeholders(0));
    }
    let mut j: usize = 0;
    while j < value_count
        invariant
            j <= value_count,
            s@ == "INSERT INTO "@ + table@ + " ("@ + spec_join_columns(colv) + ") VALUES ("@
                + spec_placeholders(j as int),
        decreases value_count - j,
    {
        if j > 0 {
            s.append(", ?");
        } else {
            s.append("?");
        }
        j += 1;
        proof {
            assert(s@ =~= "INSERT INTO "@ + table@ + " ("@ + spec_join_columns(colv)
                + ") VALUES ("@ + spec_placeholders(j as int));
        }
    }
    s.append(")");
    proof {
        assert(s@ =~= spec_insert_statement(table@, colv, value_count as int));
    }
    s
}

} // verus!
