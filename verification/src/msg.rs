//! The messages of the errors that compiling a query can end in.
use vstd::prelude::*;

verus! {

pub fn no_current_table() -> (r: String)
    ensures
        r@ == "Non-FK columns can only appear at the end of a path."@,
{
    "Non-FK columns can only appear at the end of a path.".to_owned()
}

pub fn col_not_in_table(column_name: &str, table_name: &str) -> (r: String)
    ensures
        r@ == "Column `"@ + column_name@ + "` not found within table `"@ + table_name@ + "`."@,
{
    let mut r = "Column `".to_owned();
    r.append(column_name);
    r.append("` not found within table `");
    r.append(table_name);
    r.append("`.");
    r
}

pub fn no_path_parts() -> (r: String)
    ensures
        r@ == "Cannot build a ClarifiedPath without any path parts"@,
{
    "Cannot build a ClarifiedPath without any path parts".to_owned()
}

pub fn no_column_name_or_chain() -> (r: String)
    ensures
        r@ == "Cannot build a ClarifiedPathTail without a column name or chain"@,
{
    "Cannot build a ClarifiedPathTail without a column name or chain".to_owned()
}

pub fn multiple_agg_fns() -> (r: String)
    ensures
        r@ == "Cannot apply more than one aggregate function to the same expression."@,
{
    "Cannot apply more than one aggregate function to the same expression.".to_owned()
}

pub fn pre_aggregate_composition_without_column() -> (r: String)
    ensures
        r@ == "Functions can only be applied before aggregation when a column is specified."@,
{
    "Functions can only be applied before aggregation when a column is specified.".to_owned()
}

pub fn special_aggregate_composition_applied_without_column(function_name: String) -> (r: String)
    ensures
        r@ == "Aggregate function `"@ + function_name@ + "` can only be applied to a column."@,
{
    let mut r = "Aggregate function `".to_owned();
    r.append(function_name.as_str());
    r.append("` can only be applied to a column.");
    r
}

pub fn multiple_fk_from_col() -> (r: String)
    ensures
        r@ == "Schema has multiple foreign keys from the same column"@,
{
    "Schema has multiple foreign keys from the same column".to_owned()
}

} // verus!
