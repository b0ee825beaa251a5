//! The value types a store can hold, and their common capability contract.
//!
//! A value type must expose its mathematical view and a copy operation that
//! preserves that view: queries hand values out by copy, never by reference
//! into the container.  The concrete family is text, compressed integer sets
//! (see the bitmap module), and composite data records.

use vstd::prelude::*;

verus! {

/// The capability contract every storable value type satisfies.
pub trait Value: Sized {
    /// The type of this value's mathematical view.
    type ViewKind;

    /// The mathematical value stored and returned.
    spec fn val_view(&self) -> Self::ViewKind;

    /// A copy of this value, equal in view to the original.
    fn clone_value(&self) -> (r: Self)
        ensures
            r.val_view() == self.val_view(),
    ;
}

impl Value for String {
    type ViewKind = Seq<char>;

    open spec fn val_view(&self) -> Seq<char> {
        self@
    }

    fn clone_value(&self) -> (r: Self) {
        self.clone()
    }
}

/// One metadata field of a data record.
///
/// A floating-point field is carried as the raw bit pattern of its IEEE 754
/// single-precision value; the store never interprets it.
pub enum MetadataValue {
    Int(i64),
    Float(u32),
    Text(String),
}

/// The mathematical value of a [`MetadataValue`].
pub ghost enum MetadataValueV {
    Int(i64),
    Float(u32),
    Text(Seq<char>),
}

/// The mathematical value of one metadata field.
pub open spec fn md_view(m: MetadataValue) -> MetadataValueV {
    match m {
        MetadataValue::Int(i) => MetadataValueV::Int(i),
        MetadataValue::Float(f) => MetadataValueV::Float(f),
        MetadataValue::Text(s) => MetadataValueV::Text(s@),
    }
}

/// The mathematical value of a metadata field list.
pub open spec fn metadata_view(v: Seq<(String, MetadataValue)>) -> Seq<
    (Seq<char>, MetadataValueV),
> {
    Seq::new(v.len(), |i: int| (v[i].0@, md_view(v[i].1)))
}

/// A composite record: an identifier, an embedding vector, and optional
/// metadata and document text.
///
/// Each embedding component is carried as the raw bit pattern of its IEEE 754
/// single-precision value.  The store holds and returns the components
/// unchanged and never interprets them, so callers recover exactly the floats
/// they stored.
pub struct DataRecord {
    pub id: String,
    pub embedding: Vec<u32>,
    pub metadata: Option<Vec<(String, MetadataValue)>>,
    pub document: Option<String>,
}

/// The mathematical value of a [`DataRecord`].
pub ghost struct DataRecordV {
    pub id: Seq<char>,
    pub embedding: Seq<u32>,
    pub metadata: Option<Seq<(Seq<char>, MetadataValueV)>>,
    pub document: Option<Seq<char>>,
}

impl View for DataRecord {
    type V = DataRecordV;

    open spec fn view(&self) -> DataRecordV {
        DataRecordV {
            id: self.id@,
            embedding: self.embedding@,
            metadata: match self.metadata {
                Some(m) => Some(metadata_view(m@)),
                None => None,
            },
            document: match self.document {
                Some(d) => Some(d@),
                None => None,
            },
        }
    }
}

/// A copy of an embedding vector, component for component.
fn clone_embedding(v: &Vec<u32>) -> (r: Vec<u32>)
    ensures
        r@ == v@,
{
    let mut r: Vec<u32> = Vec::new();
    let mut i: usize = 0;
    while i < v.len()
        invariant
            i <= v.len(),
            r@ == v@.take(i as int),
        decreases v.len() - i,
    {
        r.push(v[i]);
        proof {
            assert(r@ =~= v@.take(i + 1));
        }
        i += 1;
    }
    proof {
        assert(v@.take(v@.len() as int) =~= v@);
    }
    r
}

/// A copy of one metadata field, equal in view to the original.
fn clone_metadata_value(m: &MetadataValue) -> (r: MetadataValue)
    ensures
        md_view(r) == md_view(*m),
{
    match m {
        MetadataValue::Int(i) => MetadataValue::Int(*i),
        MetadataValue::Float(f) => MetadataValue::Float(*f),
        MetadataValue::Text(s) => MetadataValue::Text(s.clone()),
    }
}

/// A copy of a metadata field list, field for field.
fn clone_metadata(v: &Vec<(String, MetadataValue)>) -> (r: Vec<(String, MetadataValue)>)
    ensures
        metadata_view(r@) == metadata_view(v@),
{
    let mut r: Vec<(String, MetadataValue)> = Vec::new();
    let mut i: usize = 0;
    while i < v.len()
        invariant
            i <= v.len(),
            metadata_view(r@) == metadata_view(v@.take(i as int)),
        decreases v.len() - i,
    {
        let p = &v[i];
        let s2 = p.0.clone();
        let m2 = clone_metadata_value(&p.1);
        proof {
            assert(metadata_view(r@).len() == r@.len());
            assert(metadata_view(v@.take(i as int)).len() == i as int);
            assert(s2 == p.0 && md_view(m2) == md_view(p.1) && *p == v@[i as int]);
        }
        r.push((s2, m2));
        proof {
            let a = metadata_view(r@);
            let b = metadata_view(v@.take(i + 1));
            assert(a[i as int] == b[i as int]);
            assert forall|j: int| 0 <= j < i implies a[j] == b[j] by {
                assert(a[j] == metadata_view(v@.take(i as int))[j]);
                assert(v@.take(i + 1)[j] == v@.take(i as int)[j]);
            }
            assert(a =~= b);
        }
        i += 1;
    }
    proof {
        assert(metadata_view(v@.take(v@.len() as int)) =~= metadata_view(v@));
    }
    r
}

impl Value for DataRecord {
    type ViewKind = DataRecordV;

    open spec fn val_view(&self) -> DataRecordV {
        self@
    }

    fn clone_value(&self) -> (r: Self) {
        DataRecord {
            id: self.id.clone(),
            embedding: clone_embedding(&self.embedding),
            metadata: match &self.metadata {
                Some(m) => Some(clone_metadata(m)),
                None => None,
            },
            document: match &self.document {
                Some(d) => Some(d.clone()),
                None => None,
            },
        }
    }
}

} // verus!
