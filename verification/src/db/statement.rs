use vstd::prelude::*;
use crate::text::digits;
use crate::text::digits_text;
use crate::text::join;

verus! {

/// How a backend of the relational store writes the parameters of a statement.
#[derive(Clone, Copy, Debug, PartialEq, Eq)]
pub enum Dialect {
    /// A `?` for each parameter: "sqlite" and "mysql".
    Positional,
    /// `$1`, `$2` and so on: every other backend.
    Numbered,
}

/// The dialect of a backend by its name.
pub open spec fn dialect_named(kind: Seq<char>) -> Dialect {
    if kind == "sqlite"@ || kind == "mysql"@ {
        Dialect::Positional
    } else {
        Dialect::Numbered
    }
}

/// The dialect of a backend by its name.
pub fn dialect_of(kind: &String) -> (dialect: Dialect)
    ensures
        dialect == dialect_named(kind@),
{
    if *kind == String::from_str("sqlite") || *kind == String::from_str("mysql") {
        Dialect::Positional
    } else {
        Dialect::Numbered
    }
}

/// The place of the parameter of a number in a statement.
pub open spec fn placeholder(dialect: Dialect, number: nat) -> Seq<char> {
    match dialect {
        Dialect::Positional => "?"@,
        Dialect::Numbered => "$"@ + digits(number),
    }
}

/// The places of the parameters from `from` up to `from + count`, with ", " between them.
pub open spec fn placeholders(dialect: Dialect, from: nat, count: nat) -> Seq<char>
    decreases count,
{
    if count == 0 {
        Seq::empty()
    } else if count == 1 {
        placeholder(dialect, from)
    } else {
        placeholders(dialect, from, (count - 1) as nat) + ", "@ + placeholder(
            dialect,
            (from + count - 1) as nat,
        )
    }
}

/// `INSERT INTO "table" VALUES (..)`, with a parameter for each column.
pub open spec fn insert_statement(table: Seq<char>, columns: nat, dialect: Dialect) -> Seq<char> {
    "INSERT INTO \""@ + table + "\" VALUES ("@ + placeholders(dialect, 1, columns) + ")"@
}

/// `UPDATE "table" SET "column" = .. WHERE "key" = ..`, as the dialect writes it.
pub open spec fn update_statement(
    table: Seq<char>,
    column: Seq<char>,
    key: Seq<char>,
    dialect: Dialect,
) -> Seq<char> {
    match dialect {
        Dialect::Positional => "UPDATE \""@ + table + "\" SET \""@ + column + "\" = ? WHERE \""@
            + key + "\" = ?"@,
        Dialect::Numbered => "UPDATE \""@ + table + "\" SET (\""@ + column
            + "\") = ($1) WHERE \""@ + key + "\" = $2"@,
    }
}

/// `DELETE FROM "table" WHERE "key" = ..`
pub open spec fn delete_statement(table: Seq<char>, key: Seq<char>, dialect: Dialect) -> Seq<
    char,
> {
    "DELETE FROM \""@ + table + "\" WHERE \""@ + key + "\" = "@ + placeholder(dialect, 1)
}

/// `SELECT * FROM "table"`
pub open spec fn select_all_statement(table: Seq<char>) -> Seq<char> {
    "SELECT * FROM \""@ + table + "\""@
}

/// The pattern of a `LIKE` for the rows that hold a text: the text between two `%`.
pub open spec fn like_pattern(needle: Seq<char>) -> Seq<char> {
    "%"@ + needle + "%"@
}

pub fn placeholder_text(dialect: Dialect, number: usize) -> (out: String)
    ensures
        out@ == placeholder(dialect, number as nat),
{
    match dialect {
        Dialect::Positional => String::from_str("?"),
        Dialect::Numbered => join("$", digits_text(number as u128).as_str()),
    }
}

pub fn placeholders_text(dialect: Dialect, count: usize) -> (out: String)
    ensures
        out@ == placeholders(dialect, 1, count as nat),
{
    let mut out = String::new();
    let mut done: usize = 0;
    while done < count
        invariant
            done <= count,
            out@ == placeholders(dialect, 1, done as nat),
        decreases count - done,
    {
        if done > 0 {
            out.append(", ");
        }
        out.append(placeholder_text(dialect, done + 1).as_str());
        done += 1;
        assert(out@ =~= placeholders(dialect, 1, done as nat));
    }
    out
}

pub fn insert_statement_text(table: &str, columns: usize, dialect: Dialect) -> (out: String)
    ensures
        out@ == insert_statement(table@, columns as nat, dialect),
{
    let mut out = join("INSERT INTO \"", table);
    out.append("\" VALUES (");
    out.append(placeholders_text(dialect, columns).as_str());
    out.append(")");
    out
}

pub fn update_statement_text(table: &str, column: &str, key: &str, dialect: Dialect) -> (out:
    String)
    ensures
        out@ == update_statement(table@, column@, key@, dialect),
{
    let mut out = join("UPDATE \"", table);
    match dialect {
        Dialect::Positional => {
            out.append("\" SET \"");
            out.append(column);
            out.append("\" = ? WHERE \"");
            out.append(key);
            out.append("\" = ?");
        },
        Dialect::Numbered => {
            out.append("\" SET (\"");
            out.append(column);
            out.append("\") = ($1) WHERE \"");
            out.append(key);
            out.append("\" = $2");
        },
    }
    out
}

pub fn delete_statement_text(table: &str, key: &str, dialect: Dialect) -> (out: String)
    ensures
        out@ == delete_statement(table@, key@, dialect),
{
    let mut out = join("DELETE FROM \"", table);
    out.append("\" WHERE \"");
    out.append(key);
    out.append("\" = ");
    out.append(placeholder_text(dialect, 1).as_str());
    out
}

pub fn select_all_statement_text(table: &str) -> (out: String)
    ensures
        out@ == select_all_statement(table@),
{
    join("SELECT * FROM \"", table).concat("\"")
}

pub fn like_pattern_text(needle: &str) -> (out: String)
    ensures
        out@ == like_pattern(needle@),
{
    join("%", needle).concat("%")
}

} // verus!
