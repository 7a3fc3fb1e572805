//! The Column model: static metadata describing one persisted field of a
//! record type, immutable once built.

use vstd::prelude::*;
use crate::strutil::str_eq;
use crate::value::{JsonValue, Record, ValueView, spec_lookup, spec_upsert};

verus! {

/// A foreign-key reference: the referenced model's table and its declared
/// primary-key column, resolved at generation time.
pub struct Reference {
    pub table: String,
    pub column: String,
}

/// One schema column: name, logical type, nullability, default, index
/// kind, foreign-key reference, free-form extra attributes, and comment.
pub struct Column {
    pub name: String,
    pub field_type: String,
    pub not_null: bool,
    pub default_value: Option<String>,
    pub index_type: Option<String>,
    pub reference: Option<Reference>,
    pub comment: Option<String>,
    pub extra: Record,
}

/// The mathematical shape of a [`Column`].
pub struct ColumnView {
    pub name: Seq<char>,
    pub field_type: Seq<char>,
    pub not_null: bool,
    pub default_value: Option<Seq<char>>,
    pub index_type: Option<Seq<char>>,
    pub reference: Option<(Seq<char>, Seq<char>)>,
    pub comment: Option<Seq<char>>,
    pub extra: Seq<(Seq<char>, ValueView)>,
}

impl View for Column {
    type V = ColumnView;

    open spec fn view(&self) -> ColumnView {
        ColumnView {
            name: self.name@,
            field_type: self.field_type@,
            not_null: self.not_null,
            default_value: match self.default_value {
                Some(ref v) => Some(v@),
                None => None,
            },
            index_type: match self.index_type {
                Some(ref v) => Some(v@),
                None => None,
            },
            reference: match self.reference {
                Some(ref r) => Some((r.table@, r.column@)),
                None => None,
            },
            comment: match self.comment {
                Some(ref v) => Some(v@),
                None => None,
            },
            extra: self.extra@,
        }
    }
}

impl ColumnView {
    /// The value of the extra attribute named `key`, if any.
    pub open spec fn spec_extra(self, key: Seq<char>) -> Option<ValueView> {
        spec_lookup(self.extra, key)
    }

    /// Whether the column's default is the auto-increment sentinel.
    pub open spec fn spec_auto_increment(self) -> bool {
        self.default_value == Some("auto_increment"@)
    }

    /// Whether the column's default is the auto-random sentinel.
    pub open spec fn spec_auto_random(self) -> bool {
        self.default_value == Some("auto_random"@)
    }

    /// The name the column carries in DDL: the `column_name` extra
    /// attribute when one is set as a string, otherwise the field name.
    pub open spec fn spec_rendered_name(self) -> Seq<char> {
        match self.spec_extra("column_name"@) {
            Some(ValueView::Text(s)) => s,
            _ => self.name,
        }
    }
}

impl Column {
    /// A fresh column with no default, index, reference, comment or extra
    /// attributes.
    pub fn new(name: String, field_type: String, not_null: bool) -> (c: Column)
        ensures
            c@ == (ColumnView {
                name: name@,
                field_type: field_type@,
                not_null: not_null,
                default_value: None,
                index_type: None,
                reference: None,
                comment: None,
                extra: Seq::<(Seq<char>, ValueView)>::empty(),
            }),
    {
        let c = Column {
            name,
            field_type,
            not_null,
            default_value: None,
            index_type: None,
            reference: None,
            comment: None,
            extra: Record::new(),
        };
        c
    }

    /// The field name.
    pub fn name(&self) -> (r: &str)
        ensures
            r@ == self@.name,
    {
        self.name.as_str()
    }

    /// The logical type name.
    pub fn field_type(&self) -> (r: &str)
        ensures
            r@ == self@.field_type,
    {
        self.field_type.as_str()
    }

    /// Whether the column is declared not-null.
    pub fn is_not_null(&self) -> (r: bool)
        ensures
            r == self@.not_null,
    {
        self.not_null
    }

    /// Whether the column's default is the auto-increment sentinel.
    pub fn auto_increment(&self) -> (r: bool)
        ensures
            r == self@.spec_auto_increment(),
    {
        match self.default_value {
            Some(ref v) => str_eq(v.as_str(), "auto_increment"),
            None => false,
        }
    }

    /// Whether the column's default is the auto-random sentinel.
    pub fn auto_random(&self) -> (r: bool)
        ensures
            r == self@.spec_auto_random(),
    {
        match self.default_value {
            Some(ref v) => str_eq(v.as_str(), "auto_random"),
            None => false,
        }
    }

    /// The default value literal, if one is set.
    pub fn default_value(&self) -> (r: Option<&String>)
        ensures
            match r {
                Some(v) => self@.default_value == Some(v@),
                None => self@.default_value is None,
            },
    {
        match self.default_value {
            Some(ref v) => Some(v),
            None => None,
        }
    }

    /// Sets the default value literal.
    pub fn set_default_value(&mut self, value: String)
        ensures
            final(self)@ == (ColumnView { default_value: Some(value@), ..old(self)@ }),
    {
        self.default_value = Some(value);
    }

    /// Sets the index kind.
    pub fn set_index_type(&mut self, value: String)
        ensures
            final(self)@ == (ColumnView { index_type: Some(value@), ..old(self)@ }),
    {
        self.index_type = Some(value);
    }

    /// Sets the foreign-key reference.
    pub fn set_reference(&mut self, reference: Reference)
        ensures
            final(self)@ == (ColumnView {
                reference: Some((reference.table@, reference.column@)),
                ..old(self)@
            }),
    {
        self.reference = Some(reference);
    }

    /// Sets the comment.
    pub fn set_comment(&mut self, value: String)
        ensures
            final(self)@ == (ColumnView { comment: Some(value@), ..old(self)@ }),
    {
        self.comment = Some(value);
    }

    /// Stores an extra attribute, replacing an earlier one of the same
    /// name.
    pub fn set_extra_attribute(&mut self, key: String, value: JsonValue)
        ensures
            final(self)@ == (ColumnView {
                extra: spec_upsert(old(self)@.extra, key@, value@),
                ..old(self)@
            }),
    {
        self.extra.upsert(key, value);
    }

    /// The name the column carries in DDL: the `column_name` extra
    /// attribute when one is set as a string, otherwise the field name.
    pub fn rendered_name(&self) -> (r: String)
        ensures
            r@ == self@.spec_rendered_name(),
    {
        match self.extra.get_str("column_name") {
            Some(s) => s,
            None => self.name.clone(),
        }
    }
}

} // verus!
