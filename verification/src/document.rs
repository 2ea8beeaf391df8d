//! Model of the document values the engine reads and writes.
//!
//! The engine encrypts single leaf values and carries documents as lists of
//! named fields. Only the shapes the engine itself inspects are modelled:
//! integers, booleans, strings, binary payloads and null.

use vstd::prelude::*;

verus! {

/// Subtype marker of a binary value.
#[derive(Clone, Copy, Debug, PartialEq, Eq, Structural)]
pub enum BinarySubtype {
    /// Plain application bytes.
    Generic,
    /// A 128-bit UUID, used for data-key ids.
    Uuid,
    /// Ciphertext produced by the encryptor.
    Encrypted,
}

/// A binary value: a subtype marker and its bytes.
#[derive(Clone, Debug, PartialEq)]
pub struct Binary {
    pub subtype: BinarySubtype,
    pub bytes: Vec<u8>,
}

/// A leaf value as the engine sees it.
#[derive(Clone, Debug, PartialEq)]
pub enum Bson {
    Int32(i32),
    Int64(i64),
    Boolean(bool),
    String(String),
    Binary(Binary),
    Null,
}

/// Mathematical image of a [`Binary`] value.
pub struct BinaryV {
    pub subtype: BinarySubtype,
    pub bytes: Seq<u8>,
}

/// Mathematical image of a [`Bson`] value.
pub enum BsonV {
    Int32(i32),
    Int64(i64),
    Boolean(bool),
    String(Seq<char>),
    Binary(BinaryV),
    Null,
}

impl View for Binary {
    type V = BinaryV;

    open spec fn view(&self) -> BinaryV {
        BinaryV { subtype: self.subtype, bytes: self.bytes@ }
    }
}

impl View for Bson {
    type V = BsonV;

    open spec fn view(&self) -> BsonV {
        match self {
            Bson::Int32(x) => BsonV::Int32(*x),
            Bson::Int64(x) => BsonV::Int64(*x),
            Bson::Boolean(b) => BsonV::Boolean(*b),
            Bson::String(s) => BsonV::String(s@),
            Bson::Binary(b) => BsonV::Binary(b@),
            Bson::Null => BsonV::Null,
        }
    }
}

/// A document: an ordered list of named leaf values.
#[derive(Clone, Debug, PartialEq)]
pub struct Document {
    pub entries: Vec<(String, Bson)>,
}

impl View for Document {
    type V = Seq<(Seq<char>, BsonV)>;

    open spec fn view(&self) -> Seq<(Seq<char>, BsonV)> {
        self.entries@.map_values(|e: (String, Bson)| (e.0@, e.1@))
    }
}

/// First value bound to `name` in `d`, if any.
pub open spec fn spec_doc_get(d: Seq<(Seq<char>, BsonV)>, name: Seq<char>) -> Option<BsonV>
    decreases d.len(),
{
    if d.len() == 0 {
        None
    } else if d[0].0 == name {
        Some(d[0].1)
    } else {
        spec_doc_get(d.drop_first(), name)
    }
}

/// Copies a value, keeping its image.
pub fn clone_bson(v: &Bson) -> (r: Bson)
    ensures
        r@ == v@,
{
    match v {
        Bson::Int32(x) => Bson::Int32(*x),
        Bson::Int64(x) => Bson::Int64(*x),
        Bson::Boolean(b) => Bson::Boolean(*b),
        Bson::String(s) => Bson::String(s.clone()),
        Bson::Binary(b) => {
            let mut bytes: Vec<u8> = Vec::new();
            let mut i: usize = 0;
            while i < b.bytes.len()
                invariant
                    0 <= i <= b.bytes@.len(),
                    bytes@ =~= b.bytes@.subrange(0, i as int),
                decreases b.bytes@.len() - i,
            {
                bytes.push(b.bytes[i]);
                proof {
                    assert(b.bytes@.subrange(0, i as int).push(b.bytes@[i as int])
                        =~= b.bytes@.subrange(0, i + 1));
                }
                i += 1;
            }
            proof {
                assert(b.bytes@.subrange(0, b.bytes@.len() as int) =~= b.bytes@);
            }
            Bson::Binary(Binary { subtype: b.subtype, bytes })
        },
        Bson::Null => Bson::Null,
    }
}

/// Copies a document, keeping its image.
pub fn clone_document(d: &Document) -> (r: Document)
    ensures
        r@ == d@,
{
    let mut entries: Vec<(String, Bson)> = Vec::new();
    let mut i: usize = 0;
    while i < d.entries.len()
        invariant
            0 <= i <= d.entries@.len(),
            d@.len() == d.entries@.len(),
            entries@.len() == i,
            forall|j: int|
                0 <= j < i ==> ((#[trigger] entries@[j]).0@, entries@[j].1@) == d@[j],
        decreases d.entries@.len() - i,
    {
        proof {
            assert(d@[i as int] == (d.entries@[i as int].0@, d.entries@[i as int].1@));
        }
        let name = d.entries[i].0.clone();
        let value = clone_bson(&d.entries[i].1);
        entries.push((name, value));
        i += 1;
    }
    let r = Document { entries };
    proof {
        assert forall|j: int| 0 <= j < d@.len() implies r@[j] == d@[j] by {
            assert(r@[j] == ((r.entries@[j]).0@, (r.entries@[j]).1@));
        }
        assert(r@ =~= d@);
    }
    r
}

proof fn lemma_doc_get_skip(d: Seq<(Seq<char>, BsonV)>, name: Seq<char>, i: int)
    requires
        0 <= i < d.len(),
        d[i].0 != name,
    ensures
        spec_doc_get(d.skip(i), name) == spec_doc_get(d.skip(i + 1), name),
{
    assert(d.skip(i)[0] == d[i]);
    assert(d.skip(i).drop_first() =~= d.skip(i + 1));
}

impl Document {
    /// An empty document.
    pub fn new() -> (r: Document)
        ensures
            r@ =~= Seq::<(Seq<char>, BsonV)>::empty(),
    {
        Document { entries: Vec::new() }
    }

    /// Appends a field at the end of the document.
    pub fn insert(&mut self, name: String, value: Bson)
        ensures
            final(self)@ =~= old(self)@.push((name@, value@)),
    {
        self.entries.push((name, value));
    }

    /// Looks the first field named `name` up.
    pub fn get(&self, name: &String) -> (r: Option<&Bson>)
        ensures
            match r {
                Some(v) => spec_doc_get(self@, name@) == Some(v@),
                None => spec_doc_get(self@, name@) is None,
            },
    {
        let ghost d = self@;
        let mut i: usize = 0;
        proof {
            assert(d.skip(0) =~= d);
        }
        while i < self.entries.len()
            invariant
                0 <= i <= self.entries.len(),
                d == self@,
                spec_doc_get(d, name@) == spec_doc_get(d.skip(i as int), name@),
            decreases self.entries.len() - i,
        {
            proof {
                assert(d[i as int] == (self.entries@[i as int].0@, self.entries@[i as int].1@));
                assert(d.skip(i as int)[0] == d[i as int]);
            }
            if self.entries[i].0.eq(name) {
                proof {
                    assert(spec_doc_get(d.skip(i as int), name@) == Some(d[i as int].1));
                }
                return Some(&self.entries[i].1);
            }
            proof {
                lemma_doc_get_skip(d, name@, i as int);
            }
            i += 1;
        }
        proof {
            assert(d.skip(i as int).len() == 0);
        }
        None
    }
}

} // verus!
