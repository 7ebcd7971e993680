//! The static description of a response: status, text, media types and headers.

use vstd::prelude::*;

verus! {

/// Where the schema of a payload or a header is found.
#[derive(Debug, Clone, PartialEq, Eq)]
pub enum SchemaRef {
    /// A schema written in place: its type and optional format (`integer`, `int32`).
    Inline { ty: String, format: Option<String> },
    /// A named schema that lives in the schema registry.
    Reference(String),
}

/// One media type a response body may have.
#[derive(Debug, Clone, PartialEq, Eq)]
pub struct MediaTypeDescriptor {
    pub content_type: String,
    pub schema: SchemaRef,
}

/// One header a response may carry. Its name is held in upper case.
#[derive(Debug, Clone, PartialEq, Eq)]
pub struct HeaderDescriptor {
    pub name: String,
    pub description: Option<String>,
    pub required: bool,
    pub deprecated: bool,
    pub schema: SchemaRef,
}

/// The description of one concrete response.
#[derive(Debug, Clone, PartialEq, Eq)]
pub struct ResponseDescriptor {
    pub status: Option<u16>,
    pub description: String,
    pub content: Vec<MediaTypeDescriptor>,
    pub headers: Vec<HeaderDescriptor>,
}

/// A descriptor as a mathematical value.
pub struct DescriptorView {
    pub status: Option<u16>,
    pub description: Seq<char>,
    pub content: Seq<MediaTypeDescriptor>,
    pub headers: Seq<HeaderDescriptor>,
}

impl View for ResponseDescriptor {
    type V = DescriptorView;

    open spec fn view(&self) -> DescriptorView {
        DescriptorView {
            status: self.status,
            description: self.description@,
            content: self.content@,
            headers: self.headers@,
        }
    }
}

/// The views of a sequence of descriptors.
pub open spec fn views(s: Seq<ResponseDescriptor>) -> Seq<DescriptorView> {
    s.map_values(|d: ResponseDescriptor| d@)
}

/// The position of a status in the ascending order of descriptors: an absent
/// status comes before every present one.
pub open spec fn rank(status: Option<u16>) -> int {
    match status {
        Some(s) => s as int,
        None => -1,
    }
}

/// Whether `a` orders before `b`.
pub fn status_before(a: Option<u16>, b: Option<u16>) -> (r: bool)
    ensures
        r == (rank(a) < rank(b)),
{
    match (a, b) {
        (Some(x), Some(y)) => x < y,
        (None, Some(_)) => true,
        _ => false,
    }
}

/// Whether two statuses are the same.
pub fn same_status(a: Option<u16>, b: Option<u16>) -> (r: bool)
    ensures
        r == (a == b),
{
    match (a, b) {
        (Some(x), Some(y)) => x == y,
        (None, None) => true,
        _ => false,
    }
}

/// A copy of an optional string.
pub fn copy_opt_string(s: &Option<String>) -> (r: Option<String>)
    ensures
        r == *s,
{
    match s {
        Some(x) => Some(x.clone()),
        None => None,
    }
}

impl SchemaRef {
    pub fn duplicate(&self) -> (r: SchemaRef)
        ensures
            r == *self,
    {
        match self {
            SchemaRef::Inline { ty, format } => SchemaRef::Inline {
                ty: ty.clone(),
                format: copy_opt_string(format),
            },
            SchemaRef::Reference(name) => SchemaRef::Reference(name.clone()),
        }
    }
}

impl MediaTypeDescriptor {
    pub fn duplicate(&self) -> (r: MediaTypeDescriptor)
        ensures
            r == *self,
    {
        MediaTypeDescriptor { content_type: self.content_type.clone(), schema: self.schema.duplicate() }
    }
}

impl HeaderDescriptor {
    pub fn duplicate(&self) -> (r: HeaderDescriptor)
        ensures
            r == *self,
    {
        HeaderDescriptor {
            name: self.name.clone(),
            description: copy_opt_string(&self.description),
            required: self.required,
            deprecated: self.deprecated,
            schema: self.schema.duplicate(),
        }
    }
}

impl ResponseDescriptor {
    pub fn duplicate(&self) -> (r: ResponseDescriptor)
        ensures
            r@ == self@,
    {
        let mut content: Vec<MediaTypeDescriptor> = Vec::new();
        let mut i: usize = 0;
        while i < self.content.len()
            invariant
                0 <= i <= self.content@.len(),
                content@ == self.content@.take(i as int),
            decreases self.content@.len() - i,
        {
            content.push(self.content[i].duplicate());
            i += 1;
            assert(content@ =~= self.content@.take(i as int));
        }
        assert(content@ =~= self.content@);
        let mut headers: Vec<HeaderDescriptor> = Vec::new();
        let mut j: usize = 0;
        while j < self.headers.len()
            invariant
                0 <= j <= self.headers@.len(),
                headers@ == self.headers@.take(j as int),
            decreases self.headers@.len() - j,
        {
            headers.push(self.headers[j].duplicate());
            j += 1;
            assert(headers@ =~= self.headers@.take(j as int));
        }
        assert(headers@ =~= self.headers@);
        ResponseDescriptor {
            status: self.status,
            description: self.description.clone(),
            content,
            headers,
        }
    }
}

} // verus!
