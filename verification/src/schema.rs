//! The Schema Descriptor: the ordered Column models of one record type
//! plus its model-level metadata, and its interchange form — a structured
//! record-schema document whose fields carry their position in the
//! column order.

use vstd::prelude::*;
use crate::column::{Column, ColumnView};
use crate::strutil::str_eq;
use crate::value::{ValueView, spec_lookup};

verus! {

/// The ordered collection of Column models plus model-level metadata for
/// one record type. Built once at model-type registration and never
/// mutated afterward.
pub struct SchemaDescriptor {
    /// The declared model name.
    pub model_name: String,
    /// The snake-cased canonical model name.
    pub canonical_name: String,
    /// The model's namespace.
    pub namespace: String,
    /// The model-level comment, if any.
    pub doc: Option<String>,
    /// The columns, one per non-ignored field, in declaration order.
    pub columns: Vec<Column>,
    /// The name of the designated primary-key column.
    pub primary_key_name: String,
    /// The logical type of the primary-key column.
    pub primary_key_type: String,
    /// The configured pool name the reader role resolves against.
    pub reader_name: String,
    /// The configured pool name the writer role resolves against.
    pub writer_name: String,
    /// An explicit table name, when one is configured.
    pub table_name: Option<String>,
    /// The names of the fields tagged read-only.
    pub read_only_fields: Vec<String>,
    /// The names of the fields tagged write-only.
    pub write_only_fields: Vec<String>,
}

/// The mathematical shape of a [`SchemaDescriptor`].
pub struct SchemaDescriptorView {
    pub model_name: Seq<char>,
    pub canonical_name: Seq<char>,
    pub namespace: Seq<char>,
    pub doc: Option<Seq<char>>,
    pub columns: Seq<ColumnView>,
    pub primary_key_name: Seq<char>,
    pub primary_key_type: Seq<char>,
    pub reader_name: Seq<char>,
    pub writer_name: Seq<char>,
    pub table_name: Option<Seq<char>>,
    pub read_only_fields: Seq<Seq<char>>,
    pub write_only_fields: Seq<Seq<char>>,
}

impl View for SchemaDescriptor {
    type V = SchemaDescriptorView;

    open spec fn view(&self) -> SchemaDescriptorView {
        SchemaDescriptorView {
            model_name: self.model_name@,
            canonical_name: self.canonical_name@,
            namespace: self.namespace@,
            doc: match self.doc {
                Some(ref v) => Some(v@),
                None => None,
            },
            columns: self.columns@.map(|_i: int, c: Column| c@),
            primary_key_name: self.primary_key_name@,
            primary_key_type: self.primary_key_type@,
            reader_name: self.reader_name@,
            writer_name: self.writer_name@,
            table_name: match self.table_name {
                Some(ref v) => Some(v@),
                None => None,
            },
            read_only_fields: self.read_only_fields@.map(|_i: int, s: String| s@),
            write_only_fields: self.write_only_fields@.map(|_i: int, s: String| s@),
        }
    }
}

/// Whether the column carries the `primary_key` extra attribute.
pub open spec fn spec_is_primary_key_column(c: ColumnView) -> bool {
    spec_lookup(c.extra, "primary_key"@) == Some(ValueView::Bool(true))
}

impl SchemaDescriptorView {
    /// Well-formedness: column names are distinct, and exactly the
    /// column named by `primary_key_name` carries the `primary_key`
    /// extra attribute.
    pub open spec fn wf(self) -> bool {
        &&& forall|i: int, j: int|
            0 <= i < j < self.columns.len() ==> (#[trigger] self.columns[i]).name != (
            #[trigger] self.columns[j]).name
        &&& exists|i: int|
            0 <= i < self.columns.len() && (#[trigger] self.columns[i]).name
                == self.primary_key_name && spec_is_primary_key_column(self.columns[i])
        &&& forall|i: int|
            0 <= i < self.columns.len() && spec_is_primary_key_column(
                #[trigger] self.columns[i],
            ) ==> self.columns[i].name == self.primary_key_name
    }
}

/// One field of the structured schema document, carrying its position
/// in the column order.
pub struct FieldSchema {
    pub name: String,
    pub position: usize,
}

/// The structured, Avro-like record-schema document: the interchange
/// format for cross-process schema description. Its alias list, lookup
/// table and attribute map are constantly empty and left to the
/// serialization boundary.
pub struct SchemaDocument {
    pub name: String,
    pub namespace: Option<String>,
    pub doc: Option<String>,
    pub fields: Vec<FieldSchema>,
}

impl SchemaDescriptor {
    /// Encodes the descriptor into the structured schema document: one
    /// field per column, in column order, each carrying its index as its
    /// position.
    pub fn record_schema(&self) -> (r: SchemaDocument)
        ensures
            r.name@ == self@.model_name,
            r.namespace matches Some(ns) && ns@ == self@.namespace,
            match r.doc {
                Some(ref d) => self@.doc == Some(d@),
                None => self@.doc is None,
            },
            r.fields@.len() == self@.columns.len(),
            forall|i: int|
                0 <= i < self@.columns.len() ==> (#[trigger] r.fields@[i]).name@
                    == self@.columns[i].name && r.fields@[i].position == i,
    {
        let mut fields: Vec<FieldSchema> = Vec::new();
        let n = self.columns.len();
        let mut i: usize = 0;
        while i < n
            invariant
                n == self.columns.len(),
                i <= n,
                fields@.len() == i,
                forall|j: int|
                    0 <= j < i ==> (#[trigger] fields@[j]).name@ == self@.columns[j].name
                        && fields@[j].position == j,
            decreases n - i,
        {
            let field = FieldSchema { name: self.columns[i].name.clone(), position: i };
            fields.push(field);
            i += 1;
        }
        let doc = match self.doc {
            Some(ref d) => Some(d.clone()),
            None => None,
        };
        SchemaDocument {
            name: self.model_name.clone(),
            namespace: Some(self.namespace.clone()),
            doc,
            fields,
        }
    }
}

/// Whether no field of the document carries position `p`.
pub open spec fn spec_position_missing(fields: Seq<FieldSchema>, p: int) -> bool {
    forall|j: int| 0 <= j < fields.len() ==> (#[trigger] fields[j]).position != p
}

/// Whether some field of the document carries position `p` under the
/// name `name`.
pub open spec fn spec_position_name(fields: Seq<FieldSchema>, p: int, name: Seq<char>) -> bool {
    exists|j: int|
        0 <= j < fields.len() && (#[trigger] fields[j]).position == p && fields[j].name@ == name
}

impl SchemaDocument {
    /// Re-derives the column order from the fields' positions: the name
    /// of the first field at position 0, then 1, and so on. Returns
    /// nothing when some position below the field count is missing.
    pub fn column_order(&self) -> (r: Option<Vec<String>>)
        ensures
            match r {
                Some(names) => {
                    &&& names@.len() == self.fields@.len()
                    &&& forall|p: int|
                        0 <= p < names@.len() ==> spec_position_name(
                            self.fields@,
                            p,
                            (#[trigger] names@[p])@,
                        )
                },
                None => exists|p: int|
                    0 <= p < self.fields@.len() && #[trigger] spec_position_missing(
                        self.fields@,
                        p,
                    ),
            },
    {
        let n = self.fields.len();
        let mut names: Vec<String> = Vec::new();
        let mut p: usize = 0;
        while p < n
            invariant
                n == self.fields.len(),
                p <= n,
                names@.len() == p,
                forall|q: int|
                    0 <= q < p ==> spec_position_name(self.fields@, q, (#[trigger] names@[q])@),
            decreases n - p,
        {
            match self.field_at_position(p) {
                Some(name) => {
                    let ghost nv = name@;
                    names.push(name);
                    proof {
                        assert(names@[p as int]@ == nv);
                        assert(spec_position_name(self.fields@, p as int, names@[p as int]@));
                    }
                },
                None => {
                    return None;
                },
            }
            p += 1;
        }
        Some(names)
    }

    /// The name of the first field at position `p`, if any.
    pub fn field_at_position(&self, p: usize) -> (r: Option<String>)
        ensures
            match r {
                Some(name) => spec_position_name(self.fields@, p as int, name@),
                None => spec_position_missing(self.fields@, p as int),
            },
    {
        let n = self.fields.len();
        let mut j: usize = 0;
        while j < n
            invariant
                n == self.fields.len(),
                j <= n,
                forall|k: int| 0 <= k < j ==> (#[trigger] self.fields@[k]).position != p,
            decreases n - j,
        {
            if self.fields[j].position == p {
                return Some(self.fields[j].name.clone());
            }
            j += 1;
        }
        None
    }
}

/// Round trip: encoding a well-formed Schema Descriptor to the schema
/// document and re-deriving the column order from the fields' positions
/// reproduces the original column order exactly. `fields` is the
/// document's field list as `record_schema` states it, and `names` any
/// order that satisfies what `column_order` ensures of its result.
pub proof fn lemma_schema_document_round_trip(
    d: SchemaDescriptorView,
    fields: Seq<FieldSchema>,
    names: Seq<Seq<char>>,
)
    requires
        fields.len() == d.columns.len(),
        forall|i: int|
            0 <= i < d.columns.len() ==> (#[trigger] fields[i]).name@ == d.columns[i].name
                && fields[i].position == i,
        names.len() == fields.len(),
        forall|p: int| 0 <= p < names.len() ==> spec_position_name(fields, p, #[trigger] names[p]),
    ensures
        names =~= d.columns.map(|_i: int, c: ColumnView| c.name),
{
    assert forall|p: int| 0 <= p < names.len() implies names[p] == d.columns.map(
        |_i: int, c: ColumnView| c.name,
    )[p] by {
        assert(spec_position_name(fields, p, names[p]));
        let j = choose|j: int|
            0 <= j < fields.len() && (#[trigger] fields[j]).position == p && fields[j].name@
                == names[p];
        assert(fields[j].position == j);
    }
}

} // verus!
