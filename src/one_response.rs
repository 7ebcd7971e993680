//! A single typed response, as it is declared: its status, documentation,
//! fields and options, validated into a `ResponseType`.

use vstd::prelude::*;
use crate::descriptor::{
    copy_opt_string, HeaderDescriptor, MediaTypeDescriptor, ResponseDescriptor, SchemaRef,
};
use crate::error::DeclarationError;
use crate::registry::SchemaEntry;
use crate::response::ResponseType;
use crate::status::in_status_range;
use crate::text::{to_upper, trim, trimmed_of, upper_of};

verus! {

/// The documentation lines joined: each trimmed, separated by line breaks,
/// with the lines that come before the first non-empty text dropped.
pub open spec fn joined_docs(lines: Seq<String>) -> Seq<char>
    decreases lines.len(),
{
    if lines.len() == 0 {
        Seq::empty()
    } else {
        let before = joined_docs(lines.drop_last());
        let line = trimmed_of(lines.last()@);
        if before.len() == 0 {
            line
        } else {
            before + seq!['\n'] + line
        }
    }
}

/// The description that documentation lines give: none where they hold no text.
pub open spec fn description_of(lines: Seq<String>) -> Option<Seq<char>> {
    if joined_docs(lines).len() == 0 {
        None
    } else {
        Some(joined_docs(lines))
    }
}

/// The description that documentation lines give: each line trimmed, joined
/// by line breaks; `None` where there is no text.
pub fn get_description(lines: &Vec<String>) -> (r: Option<String>)
    ensures
        match r {
            Some(d) => description_of(lines@) == Some(d@),
            None => description_of(lines@) is None,
        },
{
    let mut full_docs = String::new();
    let mut i: usize = 0;
    while i < lines.len()
        invariant
            0 <= i <= lines@.len(),
            full_docs@ == joined_docs(lines@.take(i as int)),
        decreases lines@.len() - i,
    {
        let ghost before = full_docs@;
        let doc_str = trim(lines[i].as_str());
        if !full_docs.as_str().is_empty() {
            full_docs.append("\n");
            proof {
                reveal_strlit("\n");
                assert(full_docs@ =~= before + seq!['\n']);
            }
        }
        full_docs.append(doc_str);
        proof {
            let taken = lines@.take(i + 1);
            assert(taken.drop_last() =~= lines@.take(i as int));
            assert(taken.last() == lines@[i as int]);
        }
        i += 1;
    }
    assert(lines@.take(i as int) =~= lines@);
    if full_docs.as_str().is_empty() {
        None
    } else {
        Some(full_docs)
    }
}

/// A field of a declared response: the payload, or a header where `header`
/// names one. The rest is what the field's type reports of itself.
#[derive(Debug, Clone, PartialEq, Eq)]
pub struct ResponseField {
    pub header: Option<String>,
    pub doc_lines: Vec<String>,
    pub deprecated: bool,
    pub required: bool,
    pub schema: SchemaRef,
    pub media_types: Vec<MediaTypeDescriptor>,
    pub schemas: Vec<SchemaEntry>,
}

/// A header that the response documents without carrying a field for it.
#[derive(Debug, Clone, PartialEq, Eq)]
pub struct ExtraHeader {
    pub name: String,
    pub description: Option<String>,
    pub deprecated: bool,
    pub required: bool,
    pub schema: SchemaRef,
}

/// The payload type a response declares it actually sends.
#[derive(Debug, Clone, PartialEq, Eq)]
pub struct ActualType {
    pub content_type: String,
    pub schema: SchemaRef,
    pub schemas: Vec<SchemaEntry>,
}

/// A declared typed response.
#[derive(Debug, Clone, PartialEq, Eq)]
pub struct ResponseDecl {
    pub name: String,
    pub doc_lines: Vec<String>,
    pub status: u16,
    pub fields: Vec<ResponseField>,
    pub headers: Vec<ExtraHeader>,
    pub content_type: Option<String>,
    pub actual_type: Option<ActualType>,
    pub bad_request_handler: bool,
}

/// The positions of the payload fields, in order.
pub open spec fn value_indices(fields: Seq<ResponseField>) -> Seq<int>
    decreases fields.len(),
{
    if fields.len() == 0 {
        Seq::empty()
    } else if fields.last().header is None {
        value_indices(fields.drop_last()).push(fields.len() - 1)
    } else {
        value_indices(fields.drop_last())
    }
}

/// The positions of the header fields, in order.
pub open spec fn header_indices(fields: Seq<ResponseField>) -> Seq<int>
    decreases fields.len(),
{
    if fields.len() == 0 {
        Seq::empty()
    } else if fields.last().header is Some {
        header_indices(fields.drop_last()).push(fields.len() - 1)
    } else {
        header_indices(fields.drop_last())
    }
}

/// Splits the fields into payload fields and header fields, giving the
/// positions of each, in order.
pub fn parse_fields(fields: &Vec<ResponseField>) -> (r: (Vec<usize>, Vec<usize>))
    ensures
        r.0@.map_values(|i: usize| i as int) == value_indices(fields@),
        r.1@.map_values(|i: usize| i as int) == header_indices(fields@),
{
    let mut value_fields: Vec<usize> = Vec::new();
    let mut header_fields: Vec<usize> = Vec::new();
    let mut i: usize = 0;
    while i < fields.len()
        invariant
            0 <= i <= fields@.len(),
            value_fields@.map_values(|i: usize| i as int) == value_indices(fields@.take(i as int)),
            header_fields@.map_values(|i: usize| i as int) == header_indices(fields@.take(i as int)),
        decreases fields@.len() - i,
    {
        let ghost vprev = value_fields@;
        let ghost hprev = header_fields@;
        if fields[i].header.is_some() {
            header_fields.push(i);
            assert(header_fields@.map_values(|i: usize| i as int) =~= hprev.map_values(|i: usize| i as int).push(i as int));
        } else {
            value_fields.push(i);
            assert(value_fields@.map_values(|i: usize| i as int) =~= vprev.map_values(|i: usize| i as int).push(i as int));
        }
        proof {
            let taken = fields@.take(i + 1);
            assert(taken.drop_last() =~= fields@.take(i as int));
            assert(taken.last() == fields@[i as int]);
        }
        i += 1;
    }
    assert(fields@.take(i as int) =~= fields@);
    (value_fields, header_fields)
}

/// The media types of the payload after a declared content type or actual
/// type is applied to the first of them.
pub open spec fn overridden_content(
    media: Seq<MediaTypeDescriptor>,
    content_type: Option<String>,
    actual_type: Option<ActualType>,
) -> Seq<MediaTypeDescriptor> {
    if media.len() == 0 {
        media
    } else {
        match content_type {
            Some(ct) => media.update(0, MediaTypeDescriptor { content_type: ct, schema: media[0].schema }),
            None => match actual_type {
                Some(a) => media.update(0, MediaTypeDescriptor { content_type: a.content_type, schema: a.schema }),
                None => media,
            },
        }
    }
}

/// The content type forced on a rendered payload: the declared one, else the
/// actual type's, else none.
pub open spec fn forced_content_type(content_type: Option<String>, actual_type: Option<ActualType>) -> Option<String> {
    match content_type {
        Some(ct) => Some(ct),
        None => match actual_type {
            Some(a) => Some(a.content_type),
            None => None,
        },
    }
}

/// Applies a declared content type, or else an actual type, to the first
/// media type of the payload.
pub fn update_content_type(
    content: &mut Vec<MediaTypeDescriptor>,
    content_type: &Option<String>,
    actual_type: &Option<ActualType>,
)
    ensures
        final(content)@ == overridden_content(old(content)@, *content_type, *actual_type),
{
    if content.len() == 0 {
        return;
    }
    match content_type {
        Some(ct) => {
            let schema = content[0].schema.duplicate();
            content.set(0, MediaTypeDescriptor { content_type: ct.clone(), schema });
        },
        None => match actual_type {
            Some(a) => {
                content.set(
                    0,
                    MediaTypeDescriptor { content_type: a.content_type.clone(), schema: a.schema.duplicate() },
                );
            },
            None => {},
        },
    }
}

/// The content type a rendered payload is forced to (see `forced_content_type`).
pub fn render_content_type(content_type: &Option<String>, actual_type: &Option<ActualType>) -> (r: Option<String>)
    ensures
        r == forced_content_type(*content_type, *actual_type),
{
    match content_type {
        Some(ct) => Some(ct.clone()),
        None => match actual_type {
            Some(a) => Some(a.content_type.clone()),
            None => None,
        },
    }
}

/// The status a typed response declares is valid: three digits.
pub fn get_status(status: u16) -> (r: Result<u16, DeclarationError>)
    ensures
        in_status_range(status) ==> r == Ok::<u16, DeclarationError>(status),
        !in_status_range(status) ==> r == Err::<u16, DeclarationError>(DeclarationError::InvalidStatus(status)),
{
    if crate::status::is_valid_status(status) {
        Ok(status)
    } else {
        Err(DeclarationError::InvalidStatus(status))
    }
}

/// `d` is the description that `lines` give, or empty.
pub open spec fn describes(d: Seq<char>, lines: Seq<String>) -> bool {
    match description_of(lines) {
        Some(x) => d == x,
        None => d.len() == 0,
    }
}

/// `name` is the upper-case name of the header field `f`.
pub open spec fn names_header(f: ResponseField, name: String) -> bool {
    f.header matches Some(n) && name@ == upper_of(n@)
}

/// `h` documents the header field `f`.
pub open spec fn is_field_header(h: HeaderDescriptor, f: ResponseField) -> bool {
    &&& f.header matches Some(name) && h.name@ == upper_of(name@)
    &&& match h.description {
        Some(d) => description_of(f.doc_lines@) == Some(d@),
        None => description_of(f.doc_lines@) is None,
    }
    &&& h.required == f.required
    &&& h.deprecated == f.deprecated
    &&& h.schema == f.schema
}

/// `h` documents the extra header `e`.
pub open spec fn is_extra_header(h: HeaderDescriptor, e: ExtraHeader) -> bool {
    &&& h.name@ == upper_of(e.name@)
    &&& h.description == e.description
    &&& h.required == e.required
    &&& h.deprecated == e.deprecated
    &&& h.schema == e.schema
}

/// `t` is what `decl` derives: one descriptor at the declared status with the
/// declared description, the header fields' headers then the extra headers,
/// and the payload's media types with the content type applied; the payload's
/// schemas (or the actual type's) to register; and the header fields' names
/// and the forced content type for rendering.
pub open spec fn is_derived(decl: ResponseDecl, t: ResponseType) -> bool {
    let hidx = header_indices(decl.fields@);
    let vidx = value_indices(decl.fields@);
    let hc = hidx.len();
    let d = t.descriptors@[0];
    &&& t.name == decl.name
    &&& t.status == Some(decl.status)
    &&& t.bad_request_handler == decl.bad_request_handler
    &&& t.descriptors@.len() == 1
    &&& d.status == Some(decl.status)
    &&& describes(d.description@, decl.doc_lines@)
    &&& d.headers@.len() == hc + decl.headers@.len()
    &&& forall|k: int| 0 <= k < hc ==> is_field_header(#[trigger] d.headers@[k], decl.fields@[hidx[k]])
    &&& forall|k: int|
        0 <= k < decl.headers@.len() ==> is_extra_header(#[trigger] d.headers@[hc + k], decl.headers@[k])
    &&& t.header_names@.len() == hc
    &&& forall|k: int| 0 <= k < hc ==> names_header(decl.fields@[hidx[k]], #[trigger] t.header_names@[k])
    &&& if vidx.len() == 0 {
        &&& d.content@.len() == 0
        &&& t.schemas@.len() == 0
        &&& t.content_type is None
    } else {
        let f = decl.fields@[vidx[0]];
        &&& d.content@ == overridden_content(f.media_types@, decl.content_type, decl.actual_type)
        &&& t.schemas@ == match decl.actual_type {
            Some(a) => a.schemas@,
            None => f.schemas@,
        }
        &&& t.content_type == forced_content_type(decl.content_type, decl.actual_type)
    }
}

fn copy_media(v: &Vec<MediaTypeDescriptor>) -> (r: Vec<MediaTypeDescriptor>)
    ensures
        r@ == v@,
{
    let mut r: Vec<MediaTypeDescriptor> = Vec::new();
    let mut i: usize = 0;
    while i < v.len()
        invariant
            0 <= i <= v@.len(),
            r@ == v@.take(i as int),
        decreases v@.len() - i,
    {
        r.push(v[i].duplicate());
        i += 1;
        assert(r@ =~= v@.take(i as int));
    }
    assert(r@ =~= v@);
    r
}

/// Validates a declared typed response and derives the typed response it
/// stands for (see `is_derived`). The status must have three digits, and at
/// most one field may be a payload.
pub fn derive_one_response(decl: &ResponseDecl) -> (r: Result<ResponseType, DeclarationError>)
    ensures
        !in_status_range(decl.status) ==> r == Err::<ResponseType, DeclarationError>(
            DeclarationError::InvalidStatus(decl.status),
        ),
        in_status_range(decl.status) && value_indices(decl.fields@).len() > 1 ==> r == Err::<
            ResponseType,
            DeclarationError,
        >(DeclarationError::IncorrectDefinition),
        in_status_range(decl.status) && value_indices(decl.fields@).len() <= 1 ==> (r matches Ok(t)
            && is_derived(*decl, t) && t.wf()),
{
    let status = match get_status(decl.status) {
        Ok(s) => s,
        Err(e) => {
            return Err(e);
        },
    };
    let description = get_description(&decl.doc_lines);
    let (value_fields, header_fields) = parse_fields(&decl.fields);
    let ghost hidx = header_indices(decl.fields@);
    let ghost vidx = value_indices(decl.fields@);
    assert(header_fields@.len() == hidx.len()) by {
        assert(header_fields@.map_values(|i: usize| i as int).len() == header_fields@.len());
    }
    assert(value_fields@.len() == vidx.len()) by {
        assert(value_fields@.map_values(|i: usize| i as int).len() == value_fields@.len());
    }
    proof {
        lemma_indices_bounds(decl.fields@);
    }
    // headers carried by fields
    let mut headers: Vec<HeaderDescriptor> = Vec::new();
    let mut header_names: Vec<String> = Vec::new();
    let mut k: usize = 0;
    while k < header_fields.len()
        invariant
            0 <= k <= header_fields@.len(),
            header_fields@.map_values(|i: usize| i as int) == hidx,
            hidx == header_indices(decl.fields@),
            forall|x: int| 0 <= x < hidx.len() ==> 0 <= #[trigger] hidx[x] < decl.fields@.len(),
            headers@.len() == k,
            header_names@.len() == k,
            forall|x: int| 0 <= x < k ==> is_field_header(#[trigger] headers@[x], decl.fields@[hidx[x]]),
            forall|x: int| 0 <= x < k ==> names_header(decl.fields@[hidx[x]], #[trigger] header_names@[x]),
        decreases header_fields@.len() - k,
    {
        let idx = header_fields[k];
        assert(hidx[k as int] == idx as int);
        let field = &decl.fields[idx];
        proof {
            lemma_header_index(decl.fields@, k as int);
        }
        let name = match &field.header {
            Some(h) => to_upper(h.as_str()),
            None => String::new(),
        };
        assert(field.header matches Some(n) && name@ == upper_of(n@));
        assert(*field == decl.fields@[hidx[k as int]]);
        let header_desc = get_description(&field.doc_lines);
        let ghost names_before = header_names@;
        header_names.push(name.clone());
        proof {
            assert(header_names@[k as int]@ == name@);
            assert(forall|x: int| 0 <= x < k ==> header_names@[x] == names_before[x]);
            assert(names_header(decl.fields@[hidx[k as int]], header_names@[k as int]));
        }
        headers.push(
            HeaderDescriptor {
                name,
                description: header_desc,
                required: field.required,
                deprecated: field.deprecated,
                schema: field.schema.duplicate(),
            },
        );
        k += 1;
    }
    // extra headers
    let ghost hc = hidx.len();
    let mut e: usize = 0;
    while e < decl.headers.len()
        invariant
            0 <= e <= decl.headers@.len(),
            headers@.len() == hc + e,
            forall|x: int| 0 <= x < hc ==> is_field_header(#[trigger] headers@[x], decl.fields@[hidx[x]]),
            forall|x: int| 0 <= x < e ==> is_extra_header(#[trigger] headers@[hc + x], decl.headers@[x]),
        decreases decl.headers@.len() - e,
    {
        let extra = &decl.headers[e];
        let ghost before = headers@;
        headers.push(
            HeaderDescriptor {
                name: to_upper(extra.name.as_str()),
                description: copy_opt_string(&extra.description),
                required: extra.required,
                deprecated: extra.deprecated,
                schema: extra.schema.duplicate(),
            },
        );
        assert forall|x: int| 0 <= x < hc implies is_field_header(#[trigger] headers@[x], decl.fields@[hidx[x]]) by {
            assert(headers@[x] == before[x]);
        }
        assert forall|x: int| 0 <= x < e + 1 implies is_extra_header(#[trigger] headers@[hc + x], decl.headers@[x]) by {
            if x < e {
                assert(headers@[hc + x] == before[hc + x]);
            }
        }
        e += 1;
    }
    let description = match description {
        Some(d) => d,
        None => String::new(),
    };
    if value_fields.len() > 1 {
        return Err(DeclarationError::IncorrectDefinition);
    }
    let (content, schemas, content_type) = if value_fields.len() == 1 {
        proof {
            assert(vidx[0] == value_fields@[0] as int) by {
                assert(value_fields@.map_values(|i: usize| i as int)[0] == value_fields@[0] as int);
            }
            lemma_value_index(decl.fields@, 0);
        }
        let media = &decl.fields[value_fields[0]];
        let mut content = copy_media(&media.media_types);
        update_content_type(&mut content, &decl.content_type, &decl.actual_type);
        let schemas = match &decl.actual_type {
            Some(a) => crate::registry::copy_entries(&a.schemas),
            None => crate::registry::copy_entries(&media.schemas),
        };
        (content, schemas, render_content_type(&decl.content_type, &decl.actual_type))
    } else {
        (Vec::new(), Vec::new(), None)
    };
    let mut descriptors: Vec<ResponseDescriptor> = Vec::new();
    descriptors.push(ResponseDescriptor { status: Some(status), description, content, headers });
    let t = ResponseType {
        name: decl.name.clone(),
        descriptors,
        schemas,
        bad_request_handler: decl.bad_request_handler,
        status: Some(status),
        header_names,
        content_type,
    };
    Ok(t)
}

proof fn lemma_header_index(fields: Seq<ResponseField>, k: int)
    requires
        0 <= k < header_indices(fields).len(),
    ensures
        0 <= header_indices(fields)[k] < fields.len(),
        fields[header_indices(fields)[k]].header is Some,
    decreases fields.len(),
{
    lemma_indices_bounds(fields);
}

proof fn lemma_value_index(fields: Seq<ResponseField>, k: int)
    requires
        0 <= k < value_indices(fields).len(),
    ensures
        0 <= value_indices(fields)[k] < fields.len(),
        fields[value_indices(fields)[k]].header is None,
{
    lemma_indices_bounds(fields);
}

/// The positions are positions of fields of their kind.
proof fn lemma_indices_bounds(fields: Seq<ResponseField>)
    ensures
        forall|k: int|
            0 <= k < header_indices(fields).len() ==> 0 <= #[trigger] header_indices(fields)[k] < fields.len()
                && fields[header_indices(fields)[k]].header is Some,
        forall|k: int|
            0 <= k < value_indices(fields).len() ==> 0 <= #[trigger] value_indices(fields)[k] < fields.len()
                && fields[value_indices(fields)[k]].header is None,
    decreases fields.len(),
{
    if fields.len() > 0 {
        let rest = fields.drop_last();
        lemma_indices_bounds(rest);
        assert forall|k: int| 0 <= k < header_indices(rest).len() implies fields[header_indices(rest)[k]] == rest[header_indices(rest)[k]] by {}
        assert forall|k: int| 0 <= k < value_indices(rest).len() implies fields[value_indices(rest)[k]] == rest[value_indices(rest)[k]] by {}
    }
}

} // verus!
