//! A typed response: what it publishes about itself, which schemas it
//! registers, and how a value of it renders.

use vstd::prelude::*;
use crate::descriptor::{views, ResponseDescriptor};
use crate::registry::{registered, SchemaEntry, SchemaRegistry};
use crate::wire::{Body, WireResponse};

verus! {

/// The static side of a typed response.
#[derive(Debug, Clone, PartialEq, Eq)]
pub struct ResponseType {
    /// The name of the type, for diagnostics.
    pub name: String,
    /// What `meta` reports: one descriptor for a simple response, none for
    /// "no response".
    pub descriptors: Vec<ResponseDescriptor>,
    /// What `register` adds to the schema registry.
    pub schemas: Vec<SchemaEntry>,
    /// Whether the type builds itself from a request-parsing failure.
    pub bad_request_handler: bool,
    /// The status a value renders with; `None` for the empty response.
    pub status: Option<u16>,
    /// The names of the headers that a value carries, in field order.
    pub header_names: Vec<String>,
    /// The content type forced on the rendered body, where one is declared.
    pub content_type: Option<String>,
}

/// The payload of a response value, as its encoder produced it.
#[derive(Debug, Clone, PartialEq, Eq)]
pub struct Payload {
    pub content_type: String,
    pub body: Body,
}

/// A value of a typed response: its payload, if the type has one, and one
/// optional value for each of its headers.
#[derive(Debug, Clone, PartialEq, Eq)]
pub struct ResponseValue {
    pub payload: Option<Payload>,
    pub headers: Vec<Option<String>>,
}

/// The type that stands for "no response configured": it publishes nothing
/// and registers nothing.
#[derive(Debug, Clone, Copy, PartialEq, Eq)]
pub struct Empty;

/// The headers a value puts on the wire: each name with its value, where the
/// value is present, in order.
pub open spec fn present_headers(names: Seq<String>, values: Seq<Option<String>>) -> Seq<
    (String, String),
>
    decreases values.len(),
{
    if values.len() == 0 || names.len() == 0 {
        Seq::empty()
    } else {
        let before = present_headers(names.drop_last(), values.drop_last());
        match values.last() {
            Some(v) => before.push((names.last(), v)),
            None => before,
        }
    }
}

/// The status a value of a type renders with: 200 where the type sets none.
pub open spec fn rendered_status(status: Option<u16>) -> u16 {
    match status {
        Some(s) => s,
        None => 200,
    }
}

impl ResponseType {
    /// Consistent: a type without descriptors is the empty response, and a
    /// value of any other renders with the status of its first descriptor.
    pub open spec fn wf(&self) -> bool {
        if self.descriptors@.len() == 0 {
            self.status is None
        } else {
            self.status is Some && self.descriptors@[0].status == self.status
        }
    }

    /// The type publishes nothing and registers nothing.
    pub open spec fn is_empty_type(&self) -> bool {
        &&& self.descriptors@.len() == 0
        &&& self.schemas@.len() == 0
        &&& !self.bad_request_handler
        &&& self.status is None
        &&& self.header_names@.len() == 0
        &&& self.content_type is None
    }

    /// `other` is a copy of this type.
    pub open spec fn same_as(&self, other: ResponseType) -> bool {
        &&& other.name == self.name
        &&& views(other.descriptors@) == views(self.descriptors@)
        &&& other.schemas@ == self.schemas@
        &&& other.bad_request_handler == self.bad_request_handler
        &&& other.status == self.status
        &&& other.header_names@ == self.header_names@
        &&& other.content_type == self.content_type
    }

    /// A copy of the type.
    pub fn duplicate(&self) -> (r: ResponseType)
        ensures
            self.same_as(r),
    {
        let mut schemas: Vec<SchemaEntry> = Vec::new();
        let mut i: usize = 0;
        while i < self.schemas.len()
            invariant
                0 <= i <= self.schemas@.len(),
                schemas@ == self.schemas@.take(i as int),
            decreases self.schemas@.len() - i,
        {
            let e = &self.schemas[i];
            schemas.push(SchemaEntry { name: e.name.clone(), definition: e.definition.clone() });
            i += 1;
            assert(schemas@ =~= self.schemas@.take(i as int));
        }
        assert(schemas@ =~= self.schemas@);
        let mut header_names: Vec<String> = Vec::new();
        let mut j: usize = 0;
        while j < self.header_names.len()
            invariant
                0 <= j <= self.header_names@.len(),
                header_names@ == self.header_names@.take(j as int),
            decreases self.header_names@.len() - j,
        {
            header_names.push(self.header_names[j].clone());
            j += 1;
            assert(header_names@ =~= self.header_names@.take(j as int));
        }
        assert(header_names@ =~= self.header_names@);
        ResponseType {
            name: self.name.clone(),
            descriptors: self.meta(),
            schemas,
            bad_request_handler: self.bad_request_handler,
            status: self.status,
            header_names,
            content_type: crate::descriptor::copy_opt_string(&self.content_type),
        }
    }

    /// The descriptors of the type.
    pub fn meta(&self) -> (r: Vec<ResponseDescriptor>)
        ensures
            views(r@) == views(self.descriptors@),
    {
        let mut r: Vec<ResponseDescriptor> = Vec::new();
        let mut i: usize = 0;
        while i < self.descriptors.len()
            invariant
                0 <= i <= self.descriptors@.len(),
                views(r@) == views(self.descriptors@).take(i as int),
            decreases self.descriptors@.len() - i,
        {
            let ghost prev = r@;
            let d = self.descriptors[i].duplicate();
            r.push(d);
            proof {
                assert(views(r@) =~= views(prev).push(d@));
                assert(views(self.descriptors@)[i as int] == self.descriptors@[i as int]@);
                assert(views(self.descriptors@).take(i + 1) =~= views(self.descriptors@).take(
                    i as int,
                ).push(d@));
            }
            i += 1;
        }
        assert(views(self.descriptors@).take(i as int) =~= views(self.descriptors@));
        r
    }

    /// Registers the schemas of the type.
    pub fn register(&self, registry: &mut SchemaRegistry)
        requires
            old(registry).wf(),
        ensures
            final(registry).wf(),
            final(registry)@ == registered(old(registry)@, self.schemas@),
    {
        registry.register(&self.schemas);
    }

    /// Renders a value of the type: the type's status, each header whose value
    /// is present, the declared content type where there is one (else the
    /// payload's), and the payload's body.
    pub fn render(&self, value: ResponseValue) -> (r: WireResponse)
        requires
            value.headers@.len() == self.header_names@.len(),
        ensures
            r.status == rendered_status(self.status),
            r.headers@ == present_headers(self.header_names@, value.headers@),
            r.content_type == match self.content_type {
                Some(ct) => Some(ct),
                None => match value.payload {
                    Some(p) => Some(p.content_type),
                    None => None,
                },
            },
            r.body == match value.payload {
                Some(p) => p.body,
                None => Body::Empty,
            },
    {
        let status = match self.status {
            Some(s) => s,
            None => 200,
        };
        let ResponseValue { payload, headers: values } = value;
        let ghost all_values = values@;
        let mut headers: Vec<(String, String)> = Vec::new();
        let mut rest = values;
        let mut i: usize = 0;
        while rest.len() > 0
            invariant
                0 <= i <= all_values.len(),
                all_values.len() == self.header_names@.len(),
                rest@ == all_values.skip(i as int),
                headers@ == present_headers(
                    self.header_names@.take(i as int),
                    all_values.take(i as int),
                ),
            decreases rest@.len(),
        {
            let ghost left = rest@;
            let v = rest.remove(0);
            proof {
                assert(left.len() == all_values.len() - i);
                assert(v == all_values[i as int]);
                assert(rest@ =~= all_values.skip(i + 1));
                assert(self.header_names@.take(i + 1).drop_last() =~= self.header_names@.take(i as int));
                assert(all_values.take(i + 1).drop_last() =~= all_values.take(i as int));
            }
            if let Some(v) = v {
                headers.push((self.header_names[i].clone(), v));
            }
            assert(i < self.header_names.len());
            i += 1;
        }
        assert(self.header_names@.take(i as int) =~= self.header_names@);
        assert(all_values.take(i as int) =~= all_values);
        let content_type = match &self.content_type {
            Some(ct) => Some(ct.clone()),
            None => match &payload {
                Some(p) => Some(p.content_type.clone()),
                None => None,
            },
        };
        let body = match payload {
            Some(p) => p.body,
            None => Body::Empty,
        };
        WireResponse { status, content_type, headers, body }
    }
}

impl Empty {
    /// The empty response as a typed response.
    pub fn response_type() -> (r: ResponseType)
        ensures
            r.is_empty_type(),
            r.wf(),
            r.name@ == "Empty"@,
    {
        ResponseType {
            name: String::from_str("Empty"),
            descriptors: Vec::new(),
            schemas: Vec::new(),
            bad_request_handler: false,
            status: None,
            header_names: Vec::new(),
            content_type: None,
        }
    }

    /// The empty response publishes no descriptor.
    pub fn meta() -> (r: Vec<ResponseDescriptor>)
        ensures
            r@.len() == 0,
    {
        Vec::new()
    }

    /// The value of the empty response: no payload, no headers.
    pub fn value() -> (r: ResponseValue)
        ensures
            r.payload is None,
            r.headers@.len() == 0,
    {
        ResponseValue { payload: None, headers: Vec::new() }
    }

    /// Renders the empty response: the default status and no body.
    pub fn render(self) -> (r: WireResponse)
        ensures
            r.status == 200,
            r.content_type is None,
            r.headers@.len() == 0,
            r.body == Body::Empty,
    {
        WireResponse { status: 200, content_type: None, headers: Vec::new(), body: Body::Empty }
    }
}

} // verus!
