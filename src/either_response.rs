//! A typed response combined with the failure taxonomy: the declared
//! descriptors override the taxonomy's at their statuses.

use vstd::prelude::*;
use crate::descriptor::{views, DescriptorView, ResponseDescriptor};
use crate::error_response::{
    bad_request_handler, classify, is_taxonomy_descriptor, message_of, taxonomy_statuses,
    ErrorResponse, RequestFailure,
};
use crate::merge::{is_merge_of, merge_descriptors};
use crate::registry::{registered, SchemaRegistry};
use crate::response::{present_headers, rendered_status, ResponseType, ResponseValue};
use crate::wire::{Body, WireResponse};

verus! {

/// A value of a declared type, or a taxonomy response.
#[derive(Debug, Clone, PartialEq, Eq)]
pub enum EitherResponse {
    Extern(ResponseValue),
    Intern(ErrorResponse),
}

/// `t` is what the taxonomy publishes: one descriptor per status, in order.
pub open spec fn is_taxonomy_meta(t: Seq<DescriptorView>) -> bool {
    &&& t.len() == taxonomy_statuses().len()
    &&& forall|i: int| 0 <= i < t.len() ==> is_taxonomy_descriptor(#[trigger] t[i], taxonomy_statuses()[i])
}

impl EitherResponse {
    /// The taxonomy's descriptors merged with those of `custom`: ascending by
    /// status, the declared descriptor at each status it declares.
    pub fn meta(custom: &ResponseType) -> (r: Vec<ResponseDescriptor>)
        ensures
            exists|t: Seq<DescriptorView>|
                is_taxonomy_meta(t) && is_merge_of(views(r@), t, views(custom.descriptors@)),
    {
        let intern = ErrorResponse::meta();
        let ghost t = views(intern@);
        proof {
            assert forall|i: int| 0 <= i < t.len() implies is_taxonomy_descriptor(
                #[trigger] t[i],
                taxonomy_statuses()[i],
            ) by {
                assert(t[i] == intern@[i]@);
            }
        }
        let r = merge_descriptors(intern, custom.meta());
        assert(is_taxonomy_meta(t) && is_merge_of(views(r@), t, views(custom.descriptors@)));
        r
    }

    /// Registers the taxonomy's schemas (it has none of its own), then those of
    /// `custom`, so that the declared ones come last.
    pub fn register(custom: &ResponseType, registry: &mut SchemaRegistry)
        requires
            old(registry).wf(),
        ensures
            final(registry).wf(),
            final(registry)@ == registered(old(registry)@, custom.schemas@),
    {
        custom.register(registry);
    }

    /// The response for a request that failed to parse: `None` where `custom`
    /// recovers from such failures itself (its own handler builds the value),
    /// else the taxonomy's classification of the failure.
    pub fn from_parse_request_error(custom: &ResponseType, err: &RequestFailure) -> (r: Option<
        EitherResponse,
    >)
        ensures
            r is None <==> custom.bad_request_handler,
            !custom.bad_request_handler ==> r == Some(EitherResponse::Intern(classify(*err))),
    {
        if custom.bad_request_handler {
            None
        } else {
            Some(EitherResponse::Intern(bad_request_handler(err)))
        }
    }

    /// Renders the value: through `custom` for a declared value, as the
    /// taxonomy response otherwise.
    pub fn render(self, custom: &ResponseType) -> (r: WireResponse)
        requires
            self matches EitherResponse::Extern(v) ==> v.headers@.len()
                == custom.header_names@.len(),
        ensures
            self matches EitherResponse::Intern(e) ==> {
                &&& r.status == e.spec_status()
                &&& r.content_type matches Some(ct) && ct@ == "text/plain; charset=utf-8"@
                &&& r.body == Body::Text(message_of(e))
            },
            self matches EitherResponse::Extern(v) ==> {
                &&& r.status == rendered_status(custom.status)
                &&& r.headers@ == present_headers(custom.header_names@, v.headers@)
                &&& r.content_type == match custom.content_type {
                    Some(ct) => Some(ct),
                    None => match v.payload {
                        Some(p) => Some(p.content_type),
                        None => None,
                    },
                }
                &&& r.body == match v.payload {
                    Some(p) => p.body,
                    None => Body::Empty,
                }
            },
    {
        match self {
            EitherResponse::Extern(v) => custom.render(v),
            EitherResponse::Intern(e) => e.render(),
        }
    }
}

} // verus!
