//! Serializers: they turn test values into bytes for the corpus and
//! artifact files, and back.
use vstd::prelude::*;

use vstd::slice::slice_to_vec;

verus! {

/// What `ByteSerializer` encodes a value to: the bytes themselves.
pub open spec fn byte_to_data(value: Seq<u8>) -> Seq<u8> {
    value
}

/// What `ByteSerializer` decodes bytes to: always the bytes themselves.
pub open spec fn byte_from_data(data: Seq<u8>) -> Option<Seq<u8>> {
    Some(data)
}

/// Law: decoding what was encoded gives the value back, for every value.
pub proof fn lemma_byte_serializer_round_trip(value: Seq<u8>)
    ensures
        byte_from_data(byte_to_data(value)) == Some(value),
{
}

/// A serializer for `Vec<u8>` that simply copies the bytes from and to the
/// files. The file extension is customizable.
pub struct ByteSerializer {
    ext: &'static str,
}

impl ByteSerializer {
    /// The file extension this serializer was built with.
    pub closed spec fn spec_extension(self) -> Seq<char> {
        self.ext@
    }

    /// A byte serializer writing files with the given extension.
    pub fn new(ext: &'static str) -> (r: Self)
        ensures
            r.spec_extension() == ext@,
    {
        ByteSerializer { ext }
    }

    pub fn extension(&self) -> (r: &str)
        ensures
            r@ == self.spec_extension(),
    {
        self.ext
    }

    /// Byte serialization is raw: this never writes UTF-8 text.
    pub fn is_utf8(&self) -> (r: bool)
        ensures
            !r,
    {
        false
    }

    /// Decoding always succeeds and returns the bytes unchanged.
    pub fn from_data(&self, data: &[u8]) -> (r: Option<Vec<u8>>)
        ensures
            r matches Some(v) && v@ == byte_from_data(data@).unwrap(),
    {
        Some(slice_to_vec(data))
    }

    /// Encoding returns the bytes unchanged.
    pub fn to_data(&self, value: &Vec<u8>) -> (r: Vec<u8>)
        ensures
            r@ == byte_to_data(value@),
    {
        slice_to_vec(value.as_slice())
    }
}

/// A serializer that stores values of type `S` as JSON text, going through
/// the `json` crate's document tree.
pub struct JsonSerializer<S> {
    pub phantom: core::marker::PhantomData<S>,
}

impl<S> Default for JsonSerializer<S> {
    fn default() -> (r: Self)
        ensures
            (r == JsonSerializer::<S> { phantom: core::marker::PhantomData }),
    {
        JsonSerializer { phantom: core::marker::PhantomData }
    }
}

impl<S> JsonSerializer<S> {
    /// JSON is text.
    pub fn is_utf8(&self) -> (r: bool)
        ensures
            r,
    {
        true
    }

    pub fn extension(&self) -> (r: &str)
        ensures
            r@ == "json"@,
    {
        "json"
    }
}

impl<S> JsonSerializer<S> where
    S: decent_serde_json_alternative::FromJson + decent_serde_json_alternative::ToJson,
 {
    /// Relies on json::parse, which builds the document tree of the given
    /// text or fails on malformed JSON, and on the value type's `from_json`,
    /// which reads a value out of such a tree or returns `None`. Nothing is
    /// promised of the result: whether bytes decode is up to those two.
    #[verifier::external_body]
    pub fn from_data(&self, data: &[u8]) -> Option<S> {
        let s = String::from_utf8_lossy(data);
        let j = json::parse(&s).ok()?;
        S::from_json(&j)
    }

    /// Relies on the value type's `to_json`, which builds a JSON document
    /// tree for the value, and on json::JsonValue::write_pretty, which
    /// renders the tree. The `unwrap` cannot fail: writing into a `Vec<u8>`
    /// never returns an error.
    #[verifier::external_body]
    pub fn to_data(&self, value: &S) -> Vec<u8> {
        let j = value.to_json();
        let mut res = vec![];
        j.write_pretty(&mut res, 4).unwrap();
        res
    }
}

} // verus!
