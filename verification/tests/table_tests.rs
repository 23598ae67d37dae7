use quantframe::error::GlobleError;
use quantframe::table::{
    filter_and_extract, get_column_value, get_column_values, merge_dataframes, sort_dataframe, Cell, Column,
    ColumnType, ColumnValue, ColumnValues, Predicate, Table,
};

fn text(s: &str) -> String {
    s.to_string()
}

fn texts(items: &[&str]) -> Vec<String> {
    items.iter().map(|s| s.to_string()).collect()
}

fn people(names: &[&str], ages: &[i64]) -> Table {
    Table::new(vec![Column::from_strings("name", texts(names)), Column::from_i64s("age", ages.to_vec())]).unwrap()
}

fn cells_of(table: &Table, column: &str) -> Vec<Cell> {
    let found = table.column(column).unwrap();
    (0..found.len()).map(|row| found.cell(row).unwrap()).collect()
}

fn strings_of(table: &Table, column: &str) -> Vec<String> {
    match table.column(column).unwrap().values() {
        ColumnValues::String(v) => v,
        other => panic!("not a text column: {:?}", other),
    }
}

fn ints_of(table: &Table, column: &str) -> Vec<i64> {
    match table.column(column).unwrap().values() {
        ColumnValues::I64(v) => v,
        other => panic!("not an integer column: {:?}", other),
    }
}

#[test]
fn merge_of_nothing_fails() {
    assert_eq!(merge_dataframes(vec![]), Err(GlobleError::PolarsError(text("No frames to merge"))));
}

#[test]
fn merge_of_one_table_is_that_table() {
    let table = people(&["ann", "bob"], &[31, 27]);
    assert_eq!(merge_dataframes(vec![table.duplicate()]), Ok(table));
}

#[test]
fn merge_stacks_rows_in_input_order() {
    let a = people(&["ann", "bob"], &[31, 27]);
    let b = people(&[], &[]);
    let c = people(&["cyd"], &[44]);
    let merged = merge_dataframes(vec![a, b, c]).unwrap();
    assert_eq!(merged, people(&["ann", "bob", "cyd"], &[31, 27, 44]));
    assert_eq!(merged.height(), 3);
    assert_eq!(merged.width(), 2);
    assert_eq!(merged.get_column_names(), texts(&["name", "age"]));
}

#[test]
fn merge_in_one_go_equals_merge_in_steps() {
    let a = people(&["ann", "bob"], &[31, 27]);
    let b = people(&["cyd"], &[27]);
    let c = people(&["dee", "eve"], &[19, 31]);
    let at_once = merge_dataframes(vec![a.duplicate(), b.duplicate(), c.duplicate()]).unwrap();
    let first = merge_dataframes(vec![a, b]).unwrap();
    let in_steps = merge_dataframes(vec![first, c]).unwrap();
    assert_eq!(at_once, in_steps);
    let sorted_once = sort_dataframe(at_once, "age", true).unwrap();
    let sorted_steps = sort_dataframe(in_steps, "age", true).unwrap();
    assert_eq!(sorted_once, sorted_steps);
    assert_eq!(strings_of(&sorted_once, "name"), texts(&["dee", "bob", "cyd", "ann", "eve"]));
}

#[test]
fn merge_takes_columns_by_name_in_the_order_of_the_first() {
    let a = people(&["ann"], &[31]);
    let b = Table::new(vec![Column::from_i64s("age", vec![27]), Column::from_strings("name", texts(&["bob"]))])
        .unwrap();
    let merged = merge_dataframes(vec![a, b]).unwrap();
    assert_eq!(merged, people(&["ann", "bob"], &[31, 27]));
}

#[test]
fn merge_fails_when_a_later_table_has_a_column_more() {
    let a = people(&["ann"], &[31]);
    let b = Table::new(
        vec![
            Column::from_strings("name", texts(&["bob"])),
            Column::from_i64s("age", vec![27]),
            Column::from_bools("member", vec![true]),
        ],
    ).unwrap();
    assert_eq!(
        merge_dataframes(vec![a.duplicate(), b.duplicate()]),
        Err(GlobleError::PolarsError(text("the frames do not have the same columns"))),
    );
    assert_eq!(
        merge_dataframes(vec![b, a]),
        Err(GlobleError::PolarsError(text("the frames do not have the same columns"))),
    );
}

#[test]
fn merge_of_tables_without_columns_has_none() {
    assert_eq!(merge_dataframes(vec![Table::empty(), Table::empty()]), Ok(Table::empty()));
    assert_eq!(
        merge_dataframes(vec![Table::empty(), people(&["ann"], &[31])]),
        Err(GlobleError::PolarsError(text("the frames do not have the same columns"))),
    );
}

#[test]
fn merge_fails_when_a_column_is_missing() {
    let a = people(&["ann"], &[31]);
    let b = Table::new(vec![Column::from_strings("name", texts(&["bob"]))]).unwrap();
    assert_eq!(
        merge_dataframes(vec![a, b]),
        Err(GlobleError::PolarsError(text("the frames do not have the same columns"))),
    );
}

#[test]
fn merge_fails_when_a_column_has_another_type() {
    let a = people(&["ann"], &[31]);
    let b = Table::new(
        vec![Column::from_strings("name", texts(&["bob"])), Column::from_strings("age", texts(&["27"]))],
    ).unwrap();
    assert_eq!(
        merge_dataframes(vec![a, b]),
        Err(GlobleError::PolarsError(text("the frames do not have the same columns"))),
    );
}

#[test]
fn sort_ascending_is_stable_and_puts_nulls_last() {
    let table = Table::new(
        vec![
            Column::from_strings("name", texts(&["a", "b", "c", "d", "e", "f"])),
            Column::from_optional_i64s("rank", vec![Some(2), None, Some(1), Some(2), None, Some(1)]),
        ],
    ).unwrap();
    let sorted = sort_dataframe(table, "rank", true).unwrap();
    assert_eq!(strings_of(&sorted, "name"), texts(&["c", "f", "a", "d", "b", "e"]));
    assert_eq!(
        cells_of(&sorted, "rank"),
        vec![Cell::I64(1), Cell::I64(1), Cell::I64(2), Cell::I64(2), Cell::Null, Cell::Null],
    );
}

#[test]
fn sort_descending_is_stable_and_puts_nulls_last() {
    let table = Table::new(
        vec![
            Column::from_strings("name", texts(&["a", "b", "c", "d", "e", "f"])),
            Column::from_optional_i64s("rank", vec![Some(2), None, Some(1), Some(2), None, Some(1)]),
        ],
    ).unwrap();
    let sorted = sort_dataframe(table, "rank", false).unwrap();
    assert_eq!(strings_of(&sorted, "name"), texts(&["a", "d", "c", "f", "b", "e"]));
}

#[test]
fn sort_by_text_orders_by_bytes() {
    let table = people(&["bob", "Bob", "", "ann", "anna", "é"], &[1, 2, 3, 4, 5, 6]);
    let sorted = sort_dataframe(table, "name", true).unwrap();
    assert_eq!(strings_of(&sorted, "name"), texts(&["", "Bob", "ann", "anna", "bob", "é"]));
    assert_eq!(ints_of(&sorted, "age"), vec![3, 2, 4, 5, 1, 6]);
}

#[test]
fn sort_by_truth_puts_false_first() {
    let table = Table::new(
        vec![Column::from_bools("on", vec![true, false, true, false]), Column::from_i64s("n", vec![1, 2, 3, 4])],
    ).unwrap();
    let sorted = sort_dataframe(table, "on", true).unwrap();
    assert_eq!(ints_of(&sorted, "n"), vec![2, 4, 1, 3]);
}

#[test]
fn sort_orders_reals_by_value() {
    let values = [1.5f64, -2.0, 0.0, -0.5, 10.0];
    let cells: Vec<Cell> = values.iter().map(|v| Cell::F64(v.to_bits())).collect();
    let table = Table::new(
        vec![Column::new("price", ColumnType::F64, cells).unwrap(), Column::from_i64s("n", vec![0, 1, 2, 3, 4])],
    ).unwrap();
    let sorted = sort_dataframe(table, "price", true).unwrap();
    assert_eq!(ints_of(&sorted, "n"), vec![1, 3, 2, 0, 4]);
    let back: Vec<f64> = match sorted.column("price").unwrap().values() {
        ColumnValues::F64(bits) => bits.into_iter().map(f64::from_bits).collect(),
        other => panic!("not a real column: {:?}", other),
    };
    assert_eq!(back, vec![-2.0, -0.5, 0.0, 1.5, 10.0]);
}

#[test]
fn sort_of_an_empty_table_by_its_column_is_empty() {
    let sorted = sort_dataframe(people(&[], &[]), "age", true).unwrap();
    assert_eq!(sorted, people(&[], &[]));
}

#[test]
fn sort_by_a_missing_column_fails() {
    assert_eq!(
        sort_dataframe(people(&["ann"], &[31]), "height", true),
        Err(GlobleError::PolarsError(text("column not found"))),
    );
}

#[test]
fn filter_then_select_keeps_matching_rows_and_asked_columns() {
    let table = Table::new(
        vec![
            Column::from_strings("name", texts(&["ann", "bob", "cyd", "dee"])),
            Column::from_i64s("age", vec![31, 27, 31, 19]),
            Column::from_bools("member", vec![true, false, false, true]),
        ],
    ).unwrap();
    let picked = filter_and_extract(
        table,
        Some(Predicate::Equals(text("age"), Cell::I64(31))),
        vec!["member", "name"],
    ).unwrap();
    assert_eq!(picked.get_column_names(), texts(&["member", "name"]));
    assert_eq!(strings_of(&picked, "name"), texts(&["ann", "cyd"]));
    assert_eq!(cells_of(&picked, "member"), vec![Cell::Bool(true), Cell::Bool(false)]);
}

#[test]
fn select_without_filter_keeps_all_rows() {
    let picked = filter_and_extract(people(&["ann", "bob"], &[31, 27]), None, vec!["age"]).unwrap();
    assert_eq!(picked, Table::new(vec![Column::from_i64s("age", vec![31, 27])]).unwrap());
}

#[test]
fn select_of_nothing_is_the_table_without_columns() {
    let picked = filter_and_extract(people(&["ann", "bob"], &[31, 27]), None, vec![]).unwrap();
    assert_eq!(picked, Table::empty());
    assert_eq!(picked.height(), 0);
}

#[test]
fn predicates_combine() {
    let table = Table::new(
        vec![
            Column::from_strings("name", texts(&["ann", "bob", "cyd", "dee"])),
            Column::from_optional_i64s("rank", vec![Some(1), None, Some(2), None]),
        ],
    ).unwrap();
    let ranked_one_or_none = Predicate::Or(
        Box::new(Predicate::Equals(text("rank"), Cell::I64(1))),
        Box::new(Predicate::IsNull(text("rank"))),
    );
    let not_bob = Predicate::Not(Box::new(Predicate::Equals(text("name"), Cell::String(text("bob")))));
    let both = Predicate::And(Box::new(ranked_one_or_none), Box::new(not_bob));
    let picked = filter_and_extract(table, Some(both), vec!["name"]).unwrap();
    assert_eq!(strings_of(&picked, "name"), texts(&["ann", "dee"]));
}

#[test]
fn a_null_value_equals_no_cell() {
    let table = Table::new(vec![Column::from_optional_i64s("rank", vec![Some(1), None])]).unwrap();
    let picked = filter_and_extract(table, Some(Predicate::Equals(text("rank"), Cell::Null)), vec!["rank"])
        .unwrap();
    assert_eq!(picked.height(), 0);
    assert_eq!(picked.width(), 1);
}

#[test]
fn filter_on_a_missing_column_fails() {
    assert_eq!(
        filter_and_extract(
            people(&["ann"], &[31]),
            Some(Predicate::IsNull(text("height"))),
            vec!["name"],
        ),
        Err(GlobleError::PolarsError(text("the filter names a column that is not there"))),
    );
}

#[test]
fn select_of_a_missing_column_names_the_operation() {
    assert_eq!(
        filter_and_extract(people(&["ann"], &[31]), None, vec!["name", "height"]),
        Err(
            GlobleError::OtherError(
                text("Error while filtering and extracting: column not found or named twice"),
            ),
        ),
    );
}

#[test]
fn select_of_one_column_twice_fails() {
    assert_eq!(
        filter_and_extract(people(&["ann"], &[31]), None, vec!["name", "name"]),
        Err(
            GlobleError::OtherError(
                text("Error while filtering and extracting: column not found or named twice"),
            ),
        ),
    );
}

#[test]
fn column_values_drop_nulls() {
    let table = Table::new(
        vec![
            Column::from_optional_i64s("rank", vec![None, Some(3), None, Some(1)]),
            Column::from_strings("name", texts(&["a", "b", "c", "d"])),
        ],
    ).unwrap();
    assert_eq!(
        get_column_values(table.duplicate(), None, "rank", ColumnType::I64),
        Ok(ColumnValues::I64(vec![3, 1])),
    );
    assert_eq!(
        get_column_values(
            table,
            Some(Predicate::IsNull(text("rank"))),
            "name",
            ColumnType::String,
        ),
        Ok(ColumnValues::String(texts(&["a", "c"]))),
    );
}

#[test]
fn column_values_of_each_type() {
    let table = Table::new(
        vec![
            Column::from_bools("on", vec![true, false]),
            Column::new("price", ColumnType::F64, vec![Cell::F64(2.5f64.to_bits()), Cell::Null]).unwrap(),
        ],
    ).unwrap();
    assert_eq!(
        get_column_values(table.duplicate(), None, "on", ColumnType::Bool),
        Ok(ColumnValues::Bool(vec![true, false])),
    );
    assert_eq!(
        get_column_values(table, None, "price", ColumnType::F64),
        Ok(ColumnValues::F64(vec![2.5f64.to_bits()])),
    );
}

#[test]
fn column_values_of_another_type_fail() {
    assert_eq!(
        get_column_values(people(&["ann"], &[31]), None, "age", ColumnType::String),
        Err(GlobleError::PolarsError(text("column has another type"))),
    );
}

#[test]
fn column_values_of_a_missing_column_fail() {
    assert_eq!(
        get_column_values(people(&["ann"], &[31]), None, "height", ColumnType::I64),
        Err(GlobleError::PolarsError(text("column not found"))),
    );
}

#[test]
fn column_values_under_a_filter_on_a_missing_column_fail() {
    assert_eq!(
        get_column_values(
            people(&["ann"], &[31]),
            Some(Predicate::IsNull(text("height"))),
            "age",
            ColumnType::I64,
        ),
        Err(GlobleError::PolarsError(text("the filter names a column that is not there"))),
    );
}

#[test]
fn column_value_is_the_first_that_is_not_null() {
    let table = Table::new(
        vec![
            Column::from_optional_i64s("rank", vec![None, Some(3), Some(1)]),
            Column::from_strings("name", texts(&["a", "b", "c"])),
        ],
    ).unwrap();
    assert_eq!(
        get_column_value(table.duplicate(), None, "rank", ColumnType::I64),
        Ok(ColumnValue::I64(Some(3))),
    );
    assert_eq!(
        get_column_value(
            table,
            Some(Predicate::Equals(text("rank"), Cell::I64(1))),
            "name",
            ColumnType::String,
        ),
        Ok(ColumnValue::String(Some(text("c")))),
    );
}

#[test]
fn column_value_of_a_column_without_values_is_absent() {
    let table = Table::new(vec![Column::from_optional_i64s("rank", vec![None, None])]).unwrap();
    assert_eq!(get_column_value(table, None, "rank", ColumnType::I64), Ok(ColumnValue::I64(None)));
    let none = Table::new(vec![Column::from_bools("on", vec![])]).unwrap();
    assert_eq!(get_column_value(none, None, "on", ColumnType::Bool), Ok(ColumnValue::Bool(None)));
}

#[test]
fn column_value_fails_as_column_values_do() {
    assert_eq!(
        get_column_value(people(&["ann"], &[31]), None, "height", ColumnType::I64),
        Err(GlobleError::PolarsError(text("column not found"))),
    );
    assert_eq!(
        get_column_value(people(&["ann"], &[31]), None, "name", ColumnType::Bool),
        Err(GlobleError::PolarsError(text("column has another type"))),
    );
}

#[test]
fn table_of_columns_of_different_length_is_refused() {
    assert_eq!(
        Table::new(vec![Column::from_i64s("a", vec![1, 2]), Column::from_i64s("b", vec![1])]),
        Err(GlobleError::PolarsError(text("columns differ in length"))),
    );
}

#[test]
fn table_with_one_name_twice_is_refused() {
    assert_eq!(
        Table::new(vec![Column::from_i64s("a", vec![1]), Column::from_bools("a", vec![true])]),
        Err(GlobleError::PolarsError(text("column name occurs twice"))),
    );
}

#[test]
fn column_with_a_cell_of_another_type_is_refused() {
    assert_eq!(
        Column::new("a", ColumnType::I64, vec![Cell::I64(1), Cell::Bool(true)]),
        Err(GlobleError::PolarsError(text("cell does not fit the column type"))),
    );
    let column = Column::new("a", ColumnType::I64, vec![Cell::I64(1), Cell::Null]).unwrap();
    assert_eq!(column.len(), 2);
    assert_eq!(column.dtype(), ColumnType::I64);
    assert_eq!(column.name(), "a");
    assert_eq!(column.cell(1), Some(Cell::Null));
    assert_eq!(column.cell(2), None);
}

#[test]
fn table_finds_columns_by_name() {
    let table = people(&["ann"], &[31]);
    assert_eq!(table.find_column("age"), Some(1));
    assert_eq!(table.find_column("height"), None);
    assert!(table.column("height").is_none());
    assert_eq!(table.column("name").unwrap().name(), "name");
}

#[test]
fn predicates_compare_by_order() {
    let table = Table::new(
        vec![
            Column::from_strings("name", texts(&["ann", "bob", "cyd", "dee"])),
            Column::from_optional_i64s("rank", vec![Some(1), None, Some(3), Some(2)]),
        ],
    ).unwrap();
    let below = filter_and_extract(
        table.duplicate(),
        Some(Predicate::LessThan(text("rank"), Cell::I64(3))),
        vec!["name"],
    ).unwrap();
    assert_eq!(strings_of(&below, "name"), texts(&["ann", "dee"]));
    let above = filter_and_extract(
        table.duplicate(),
        Some(Predicate::GreaterThan(text("rank"), Cell::I64(1))),
        vec!["name"],
    ).unwrap();
    assert_eq!(strings_of(&above, "name"), texts(&["cyd", "dee"]));
    let after = filter_and_extract(
        table.duplicate(),
        Some(Predicate::GreaterThan(text("name"), Cell::String(text("bob")))),
        vec!["name"],
    ).unwrap();
    assert_eq!(strings_of(&after, "name"), texts(&["cyd", "dee"]));
    let other_type = filter_and_extract(
        table.duplicate(),
        Some(Predicate::LessThan(text("rank"), Cell::String(text("3")))),
        vec!["name"],
    ).unwrap();
    assert_eq!(other_type.height(), 0);
    let against_null = filter_and_extract(table, Some(Predicate::LessThan(text("rank"), Cell::Null)), vec!["name"])
        .unwrap();
    assert_eq!(against_null.height(), 0);
}
