//! The Dialect Renderer: pure functions mapping a Column model and a
//! target dialect to SQL DDL fragments, and the parameter-cast annotation
//! used when interpolating bound values into query text.

use vstd::prelude::*;
use crate::column::{Column, ColumnView};
use crate::strutil::{contains_char, str_eq, starts_with, ends_with};
use crate::value::ValueView;

verus! {

/// A SQL engine's syntax family. The MySQL family and TiDB share the
/// auto-increment keyword; only TiDB supports auto-random; only SQLite
/// parenthesizes expression defaults; only the Postgres family casts
/// interpolated parameters.
#[derive(Clone, Copy, Debug, PartialEq, Eq, Structural)]
pub enum Dialect {
    MySql,
    Postgres,
    Sqlite,
    Tidb,
}

/// Whether the logical type is a sequence type such as `Vec<Uuid>`.
pub open spec fn spec_is_vec_type(t: Seq<char>) -> bool {
    &&& "Vec<"@.len() <= t.len()
    &&& t.subrange(0, 4) == "Vec<"@
    &&& t.subrange(t.len() - 1, t.len() as int) == ">"@
}

/// Whether the logical type is an optional type such as `Option<i64>`.
pub open spec fn spec_is_option_type(t: Seq<char>) -> bool {
    &&& "Option<"@.len() <= t.len()
    &&& t.subrange(0, 7) == "Option<"@
    &&& t.subrange(t.len() - 1, t.len() as int) == ">"@
}

/// Whether the logical type is a sequence type such as `Vec<Uuid>`.
pub fn is_vec_type(t: &str) -> (r: bool)
    ensures
        r == spec_is_vec_type(t@),
{
    proof {
        reveal_strlit("Vec<");
        reveal_strlit(">");
    }
    starts_with(t, "Vec<") && ends_with(t, ">")
}

/// Whether the logical type is an optional type such as `Option<i64>`.
pub fn is_option_type(t: &str) -> (r: bool)
    ensures
        r == spec_is_option_type(t@),
{
    proof {
        reveal_strlit("Option<");
        reveal_strlit(">");
    }
    starts_with(t, "Option<") && ends_with(t, ">")
}

/// The SQL type that a logical type maps to when no `column_type` extra
/// attribute overrides it. Mapping types and JSON-carrying types differ
/// only in the Postgres family, which stores them as `JSONB`.
pub open spec fn spec_mapped_type(t: Seq<char>, dialect: Dialect) -> Seq<char> {
    if t == "Uuid"@ {
        "UUID"@
    } else if t == "u64"@ || t == "i64"@ || t == "usize"@ || t == "isize"@ {
        "BIGINT"@
    } else if t == "u32"@ || t == "i32"@ {
        "INT"@
    } else if t == "u16"@ || t == "i16"@ || t == "u8"@ || t == "i8"@ {
        "SMALLINT"@
    } else if t == "bool"@ {
        "BOOLEAN"@
    } else if t == "String"@ {
        "TEXT"@
    } else if t == "DateTime"@ {
        "TIMESTAMPTZ"@
    } else if t == "Map"@ || spec_is_vec_type(t) {
        if dialect == Dialect::Postgres {
            "JSONB"@
        } else {
            "JSON"@
        }
    } else {
        "TEXT"@
    }
}

/// The SQL type rendered for the column: the `column_type` extra
/// attribute when one is set as a string, otherwise the mapped type of
/// the logical type.
pub open spec fn spec_column_type(c: ColumnView, dialect: Dialect) -> Seq<char> {
    match c.spec_extra("column_type"@) {
        Some(ValueView::Text(s)) => s,
        _ => spec_mapped_type(c.field_type, dialect),
    }
}

/// The auto-increment keyword of the dialect; empty for the dialects
/// that need or support none.
pub open spec fn spec_auto_increment_keyword(dialect: Dialect) -> Seq<char> {
    match dialect {
        Dialect::MySql | Dialect::Tidb => " AUTO_INCREMENT"@,
        _ => ""@,
    }
}

/// The auto-random keyword; only TiDB supports the feature.
pub open spec fn spec_auto_random_keyword(dialect: Dialect) -> Seq<char> {
    match dialect {
        Dialect::Tidb => " AUTO_RANDOM"@,
        _ => ""@,
    }
}

/// The `DEFAULT` clause rendered for a literal default value. SQLite
/// requires an expression default, recognized by a `(` in the literal,
/// to be parenthesized.
pub open spec fn spec_default_clause(value: Seq<char>, dialect: Dialect) -> Seq<char> {
    if dialect == Dialect::Sqlite && value.contains('(') {
        " DEFAULT ("@ + value + ")"@
    } else {
        " DEFAULT "@ + value
    }
}

/// The `PRIMARY KEY` clause: present exactly when the rendered column
/// name equals the model's primary-key name.
pub open spec fn spec_primary_key_clause(c: ColumnView, primary_key_name: Seq<char>) -> Seq<
    char,
> {
    if c.spec_rendered_name() == primary_key_name {
        " PRIMARY KEY"@
    } else {
        ""@
    }
}

/// What follows the `PRIMARY KEY` clause: the auto-increment or
/// auto-random keyword for a sentinel default, the `DEFAULT` clause for
/// a literal default, and `NOT NULL` for a not-null column without a
/// default.
pub open spec fn spec_definition_suffix(c: ColumnView, dialect: Dialect) -> Seq<char> {
    match c.default_value {
        Some(value) => if c.spec_auto_increment() {
            spec_auto_increment_keyword(dialect)
        } else if c.spec_auto_random() {
            spec_auto_random_keyword(dialect)
        } else {
            spec_default_clause(value, dialect)
        },
        None => if c.not_null {
            " NOT NULL"@
        } else {
            ""@
        },
    }
}

/// The full rendered column definition.
pub open spec fn spec_field_definition(
    c: ColumnView,
    primary_key_name: Seq<char>,
    dialect: Dialect,
) -> Seq<char> {
    c.spec_rendered_name() + " "@ + spec_column_type(c, dialect) + spec_primary_key_clause(
        c,
        primary_key_name,
    ) + spec_definition_suffix(c, dialect)
}

/// The parameter-cast suffix of the column for the Postgres family,
/// keyed on the rendered SQL type; empty for every other dialect.
pub open spec fn spec_type_annotation(c: ColumnView, dialect: Dialect) -> Seq<char> {
    if dialect == Dialect::Postgres {
        let t = spec_column_type(c, Dialect::Postgres);
        if t == "UUID"@ {
            "::UUID"@
        } else if t == "BIGINT"@ || t == "BIGSERIAL"@ {
            "::BIGINT"@
        } else if t == "INT"@ || t == "SERIAL"@ {
            "::INT"@
        } else if t == "SMALLINT"@ || t == "SMALLSERIAL"@ {
            "::SMALLINT"@
        } else {
            "::TEXT"@
        }
    } else {
        ""@
    }
}

impl Column {
    /// The SQL type rendered for the column under the dialect.
    pub fn column_type(&self, dialect: Dialect) -> (r: String)
        ensures
            r@ == spec_column_type(self@, dialect),
    {
        match self.extra.get_str("column_type") {
            Some(s) => s,
            None => {
                let t = self.field_type.as_str();
                if str_eq(t, "Uuid") {
                    String::from_str("UUID")
                } else if str_eq(t, "u64") || str_eq(t, "i64") || str_eq(t, "usize") || str_eq(
                    t,
                    "isize",
                ) {
                    String::from_str("BIGINT")
                } else if str_eq(t, "u32") || str_eq(t, "i32") {
                    String::from_str("INT")
                } else if str_eq(t, "u16") || str_eq(t, "i16") || str_eq(t, "u8") || str_eq(
                    t,
                    "i8",
                ) {
                    String::from_str("SMALLINT")
                } else if str_eq(t, "bool") {
                    String::from_str("BOOLEAN")
                } else if str_eq(t, "String") {
                    String::from_str("TEXT")
                } else if str_eq(t, "DateTime") {
                    String::from_str("TIMESTAMPTZ")
                } else if str_eq(t, "Map") || is_vec_type(t) {
                    if dialect == Dialect::Postgres {
                        String::from_str("JSONB")
                    } else {
                        String::from_str("JSON")
                    }
                } else {
                    String::from_str("TEXT")
                }
            },
        }
    }

    /// Renders the column's DDL definition: name and SQL type, then the
    /// `PRIMARY KEY` clause when the column is the primary key, then
    /// either the dialect's auto-increment or auto-random keyword for a
    /// sentinel default, or the `DEFAULT` clause for a literal default,
    /// or `NOT NULL` for a not-null column without a default.
    pub fn field_definition(&self, primary_key_name: &str, dialect: Dialect) -> (r: String)
        ensures
            r@ == spec_field_definition(self@, primary_key_name@, dialect),
    {
        let ghost c = self@;
        let mut definition = self.rendered_name();
        let is_primary_key = str_eq(definition.as_str(), primary_key_name);
        definition.append(" ");
        let column_type = self.column_type(dialect);
        definition.append(column_type.as_str());
        if is_primary_key {
            definition.append(" PRIMARY KEY");
        }
        match self.default_value() {
            Some(value) => {
                let value = value.clone();
                if self.auto_increment() {
                    match dialect {
                        Dialect::MySql | Dialect::Tidb => {
                            definition.append(" AUTO_INCREMENT");
                        },
                        _ => {},
                    }
                } else if self.auto_random() {
                    match dialect {
                        Dialect::Tidb => {
                            definition.append(" AUTO_RANDOM");
                        },
                        _ => {},
                    }
                } else {
                    let parenthesize = match dialect {
                        Dialect::Sqlite => contains_char(value.as_str(), '('),
                        _ => false,
                    };
                    if parenthesize {
                        definition.append(" DEFAULT (");
                        definition.append(value.as_str());
                        definition.append(")");
                    } else {
                        definition.append(" DEFAULT ");
                        definition.append(value.as_str());
                    }
                }
            },
            None => {
                if self.is_not_null() {
                    definition.append(" NOT NULL");
                }
            },
        }
        proof {
            reveal_strlit("");
            assert(definition@ =~= spec_field_definition(self@, primary_key_name@, dialect));
        }
        definition
    }

    /// The parameter-cast suffix used when interpolating a bound value
    /// into the Postgres family's query text; empty for every other
    /// dialect.
    pub fn type_annotation(&self, dialect: Dialect) -> (r: &'static str)
        ensures
            r@ == spec_type_annotation(self@, dialect),
    {
        if dialect == Dialect::Postgres {
            let column_type = self.column_type(Dialect::Postgres);
            let t = column_type.as_str();
            if str_eq(t, "UUID") {
                "::UUID"
            } else if str_eq(t, "BIGINT") || str_eq(t, "BIGSERIAL") {
                "::BIGINT"
            } else if str_eq(t, "INT") || str_eq(t, "SERIAL") {
                "::INT"
            } else if str_eq(t, "SMALLINT") || str_eq(t, "SMALLSERIAL") {
                "::SMALLINT"
            } else {
                "::TEXT"
            }
        } else {
            ""
        }
    }
}

/// An auto-increment column never renders a literal `DEFAULT` clause:
/// its whole definition is the name, the SQL type, the primary-key
/// clause, and the dialect's auto-increment keyword, which is either
/// ` AUTO_INCREMENT` or empty.
pub proof fn lemma_auto_increment_excludes_default(
    c: ColumnView,
    primary_key_name: Seq<char>,
    dialect: Dialect,
)
    requires
        c.spec_auto_increment(),
    ensures
        spec_field_definition(c, primary_key_name, dialect) == c.spec_rendered_name() + " "@
            + spec_column_type(c, dialect) + spec_primary_key_clause(c, primary_key_name)
            + spec_auto_increment_keyword(dialect),
        spec_auto_increment_keyword(dialect) == " AUTO_INCREMENT"@
            || spec_auto_increment_keyword(dialect) == ""@,
        forall|value: Seq<char>|
            spec_definition_suffix(c, dialect) != spec_default_clause(value, dialect),
{
    assert(spec_definition_suffix(c, dialect) == spec_auto_increment_keyword(dialect));
    assert forall|value: Seq<char>|
        spec_definition_suffix(c, dialect) != spec_default_clause(value, dialect) by {
        reveal_strlit(" AUTO_INCREMENT");
        reveal_strlit("");
        reveal_strlit(" DEFAULT ");
        reveal_strlit(" DEFAULT (");
        reveal_strlit(")");
        let clause = spec_default_clause(value, dialect);
        assert(clause.len() >= " DEFAULT "@.len());
        if dialect == Dialect::Sqlite && value.contains('(') {
            assert(clause[1] == 'D');
        } else {
            assert(clause[1] == 'D');
        }
        let kw = spec_auto_increment_keyword(dialect);
        if kw.len() > 0 {
            assert(kw[1] == 'A');
        }
    }
}

/// For every dialect outside the Postgres family, the parameter-cast
/// annotation is the empty string, whatever the column.
pub proof fn lemma_type_annotation_postgres_only(c: ColumnView, dialect: Dialect)
    requires
        dialect != Dialect::Postgres,
    ensures
        spec_type_annotation(c, dialect) == ""@,
{
}

} // verus!
