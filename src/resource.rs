//! Embeddable resources, their disposition and their content identifiers.
use crate::error::ErrorCause;
use vstd::prelude::*;

verus! {

/// A token that identifies an embedded resource within one message.
#[derive(Debug)]
pub struct ContentId {
    pub id: String,
}

impl ContentId {
    pub fn new(id: String) -> (r: ContentId)
        ensures
            r.id == id,
    {
        ContentId { id }
    }

    pub fn as_str(&self) -> (r: &str)
        ensures
            r@ == self.id@,
    {
        self.id.as_str()
    }

    pub fn clone(&self) -> (r: ContentId)
        ensures
            r == *self,
    {
        ContentId { id: self.id.clone() }
    }
}

/// A media type such as `text/html; charset=utf-8`, kept as written.
#[derive(Debug)]
pub struct MediaType {
    pub text: String,
}

impl MediaType {
    pub fn new(text: String) -> (r: MediaType)
        ensures
            r.text == text,
    {
        MediaType { text }
    }

    pub fn as_str(&self) -> (r: &str)
        ensures
            r@ == self.text@,
    {
        self.text.as_str()
    }

    pub fn clone(&self) -> (r: MediaType)
        ensures
            r == *self,
    {
        MediaType { text: self.text.clone() }
    }
}

/// An unresolved resource: where its content comes from and its media type.
#[derive(Debug)]
pub struct ResourceSpec {
    pub path: String,
    pub media_type: MediaType,
}

impl ResourceSpec {
    pub fn new(path: String, media_type: MediaType) -> (r: ResourceSpec)
        ensures
            r.path == path,
            r.media_type == media_type,
    {
        ResourceSpec { path, media_type }
    }

    pub fn clone(&self) -> (r: ResourceSpec)
        ensures
            r == *self,
    {
        ResourceSpec { path: self.path.clone(), media_type: self.media_type.clone() }
    }
}

/// A resource: one still to be loaded from its specification, or content
/// already in memory as text.
#[derive(Debug)]
pub enum Resource {
    Spec(ResourceSpec),
    Buffer { media_type: MediaType, content: String },
}

impl Resource {
    pub fn from_spec(spec: ResourceSpec) -> (r: Resource)
        ensures
            r == Resource::Spec(spec),
    {
        Resource::Spec(spec)
    }

    pub fn from_buffer(media_type: MediaType, content: String) -> (r: Resource)
        ensures
            r == (Resource::Buffer { media_type, content }),
    {
        Resource::Buffer { media_type, content }
    }
}

/// How a resource is shown: in place, or as a separate attachment.
#[derive(Clone, Copy, Debug, PartialEq, Eq, Structural, Hash)]
pub enum Disposition {
    Inline,
    Attachment,
}

/// Where content identifiers come from. Each identifier it gives must be
/// unique within one message.
pub trait Context {
    /// A fresh content identifier.
    fn generate_content_id(&self) -> ContentId;

    /// A fresh content identifier, or why none could be made.
    fn new_content_id(&self) -> Result<ContentId, ErrorCause>;
}

/// A resource with its disposition and, once assigned, its content identifier.
#[derive(Debug)]
pub struct Embedded {
    content_id: Option<ContentId>,
    resource: Resource,
    disposition: Disposition,
}

/// What `Embedded::assure_content_id` does: an identifier that was present
/// stays and is returned; where none was, `id` is the new one; the resource
/// and the disposition stay.
pub open spec fn assured(before: Embedded, after: Embedded, id: ContentId) -> bool {
    &&& after.content_id_spec() == Some(id)
    &&& after.resource_spec() == before.resource_spec()
    &&& after.disposition_spec() == before.disposition_spec()
    &&& before.content_id_spec() is Some ==> before.content_id_spec() == Some(id)
}

impl Embedded {
    pub closed spec fn content_id_spec(&self) -> Option<ContentId> {
        self.content_id
    }

    pub closed spec fn resource_spec(&self) -> Resource {
        self.resource
    }

    pub closed spec fn disposition_spec(&self) -> Disposition {
        self.disposition
    }

    pub fn inline(resource: Resource) -> (r: Embedded)
        ensures
            r.resource_spec() == resource,
            r.disposition_spec() == Disposition::Inline,
            r.content_id_spec() is None,
    {
        Embedded::new(resource, Disposition::Inline)
    }

    pub fn attachment(resource: Resource) -> (r: Embedded)
        ensures
            r.resource_spec() == resource,
            r.disposition_spec() == Disposition::Attachment,
            r.content_id_spec() is None,
    {
        Embedded::new(resource, Disposition::Attachment)
    }

    pub fn new(resource: Resource, disposition: Disposition) -> (r: Embedded)
        ensures
            r.resource_spec() == resource,
            r.disposition_spec() == disposition,
            r.content_id_spec() is None,
    {
        Embedded { content_id: None, resource, disposition }
    }

    pub fn with_content_id(resource: Resource, disposition: Disposition, content_id: ContentId) -> (r:
        Embedded)
        ensures
            r.resource_spec() == resource,
            r.disposition_spec() == disposition,
            r.content_id_spec() == Some(content_id),
    {
        Embedded { content_id: Some(content_id), resource, disposition }
    }

    pub fn resource(&self) -> (r: &Resource)
        ensures
            *r == self.resource_spec(),
    {
        &self.resource
    }

    pub fn resource_mut(&mut self) -> (r: &mut Resource)
        ensures
            *r == old(self).resource_spec(),
            final(self).resource_spec() == *final(r),
            final(self).content_id_spec() == old(self).content_id_spec(),
            final(self).disposition_spec() == old(self).disposition_spec(),
    {
        &mut self.resource
    }

    pub fn content_id(&self) -> (r: Option<&ContentId>)
        ensures
            match r {
                Some(id) => self.content_id_spec() == Some(*id),
                None => self.content_id_spec() is None,
            },
    {
        match &self.content_id {
            Some(id) => Some(id),
            None => None,
        }
    }

    pub fn disposition(&self) -> (r: Disposition)
        ensures
            r == self.disposition_spec(),
    {
        self.disposition
    }

    /// The content identifier, assigned from `ctx` first where there is none.
    pub fn assure_content_id<C: Context>(&mut self, ctx: &C) -> (r: ContentId)
        ensures
            assured(*old(self), *final(self), r),
    {
        match &self.content_id {
            Some(id) => id.clone(),
            None => {
                let id = ctx.generate_content_id();
                self.content_id = Some(id.clone());
                id
            },
        }
    }

    /// Assures the content identifier and returns a copy that is known to have one.
    pub fn assure_content_id_and_copy<C: Context>(&mut self, ctx: &C) -> (r: EmbeddedWithCId)
        ensures
            assured(*old(self), *final(self), r.content_id_spec()),
            r@ == *final(self),
    {
        let id = self.assure_content_id(ctx);
        let copy = Embedded {
            content_id: Some(id),
            resource: clone_resource(&self.resource),
            disposition: self.disposition,
        };
        EmbeddedWithCId { inner: copy }
    }

    pub fn clone(&self) -> (r: Embedded)
        ensures
            r == *self,
    {
        let content_id = match &self.content_id {
            Some(id) => Some(id.clone()),
            None => None,
        };
        Embedded { content_id, resource: clone_resource(&self.resource), disposition: self.disposition }
    }

    /// The resource, without disposition or identifier.
    pub fn into_resource(self) -> (r: Resource)
        ensures
            r == self.resource_spec(),
    {
        self.resource
    }
}

fn clone_resource(r: &Resource) -> (c: Resource)
    ensures
        c == *r,
{
    match r {
        Resource::Spec(s) => Resource::Spec(s.clone()),
        Resource::Buffer { media_type, content } => Resource::Buffer {
            media_type: media_type.clone(),
            content: content.clone(),
        },
    }
}

/// Visits resources read-only.
pub trait VisitEmbedded {
    /// The resources visited so far, in order.
    spec fn seen(&self) -> Seq<Embedded>;

    fn visit(&mut self, embedded: &Embedded)
        ensures
            final(self).seen() == old(self).seen().push(*embedded),
    ;
}

/// Visits resources for update.
pub trait VisitEmbeddedMut {
    /// The resources visited so far, in order, as they were when visited.
    spec fn seen(&self) -> Seq<Embedded>;

    fn visit_mut(&mut self, embedded: &mut Embedded)
        ensures
            final(self).seen() == old(self).seen().push(*old(embedded)),
    ;
}

/// A structure that holds embedded resources and lets a visitor see each of them.
pub trait InspectEmbeddedResources {
    /// The embedded resources held, in the order they are visited.
    spec fn embedded_resources(&self) -> Seq<Embedded>;

    /// Shows each embedded resource to the visitor once, in order.
    fn inspect_resources<V: VisitEmbedded>(&self, visitor: &mut V)
        ensures
            final(visitor).seen() == old(visitor).seen() + self.embedded_resources(),
    ;

    /// Shows each embedded resource to the visitor once, in order, for update.
    fn inspect_resources_mut<V: VisitEmbeddedMut>(&mut self, visitor: &mut V)
        ensures
            final(visitor).seen() == old(visitor).seen() + old(self).embedded_resources(),
    ;
}

/// A bare embedded resource visits only itself.
impl InspectEmbeddedResources for Embedded {
    open spec fn embedded_resources(&self) -> Seq<Embedded> {
        seq![*self]
    }

    fn inspect_resources<V: VisitEmbedded>(&self, visitor: &mut V) {
        visitor.visit(self);
        assert(old(visitor).seen().push(*self) =~= old(visitor).seen() + seq![*self]);
    }

    fn inspect_resources_mut<V: VisitEmbeddedMut>(&mut self, visitor: &mut V) {
        visitor.visit_mut(self);
        assert(old(visitor).seen().push(*old(self)) =~= old(visitor).seen() + seq![*old(self)]);
    }
}

/// A visitor that keeps a copy of each resource it is shown.
#[derive(Debug)]
pub struct EmbeddedCollector {
    pub collected: Vec<Embedded>,
}

impl EmbeddedCollector {
    pub fn new() -> (r: EmbeddedCollector)
        ensures
            r.collected@.len() == 0,
    {
        EmbeddedCollector { collected: Vec::new() }
    }
}

impl VisitEmbedded for EmbeddedCollector {
    open spec fn seen(&self) -> Seq<Embedded> {
        self.collected@
    }

    fn visit(&mut self, embedded: &Embedded) {
        self.collected.push(embedded.clone());
    }
}

/// A visitor that gives each resource it is shown a content identifier from
/// `ctx` where it has none, and keeps a copy of each as it was before.
#[derive(Debug)]
pub struct ContentIdAssigner<C> {
    pub ctx: C,
    pub visited: Vec<Embedded>,
}

impl<C: Context> ContentIdAssigner<C> {
    pub fn new(ctx: C) -> (r: ContentIdAssigner<C>)
        ensures
            r.ctx == ctx,
            r.visited@.len() == 0,
    {
        ContentIdAssigner { ctx, visited: Vec::new() }
    }
}

impl<C: Context> VisitEmbeddedMut for ContentIdAssigner<C> {
    open spec fn seen(&self) -> Seq<Embedded> {
        self.visited@
    }

    fn visit_mut(&mut self, embedded: &mut Embedded) {
        self.visited.push(embedded.clone());
        embedded.assure_content_id(&self.ctx);
    }
}

/// An embedded resource that has a content identifier.
#[derive(Debug)]
pub struct EmbeddedWithCId {
    inner: Embedded,
}

impl View for EmbeddedWithCId {
    type V = Embedded;

    closed spec fn view(&self) -> Embedded {
        self.inner
    }
}

impl EmbeddedWithCId {
    #[verifier::type_invariant]
    spec fn has_id(&self) -> bool {
        self.inner.content_id is Some
    }

    pub closed spec fn content_id_spec(&self) -> ContentId {
        self.inner.content_id.unwrap()
    }

    pub fn inline<C: Context>(resource: Resource, ctx: &C) -> (r: EmbeddedWithCId)
        ensures
            r@.resource_spec() == resource,
            r@.disposition_spec() == Disposition::Inline,
            r@.content_id_spec() == Some(r.content_id_spec()),
    {
        EmbeddedWithCId::new(resource, Disposition::Inline, ctx)
    }

    pub fn attachment<C: Context>(resource: Resource, ctx: &C) -> (r: EmbeddedWithCId)
        ensures
            r@.resource_spec() == resource,
            r@.disposition_spec() == Disposition::Attachment,
            r@.content_id_spec() == Some(r.content_id_spec()),
    {
        EmbeddedWithCId::new(resource, Disposition::Attachment, ctx)
    }

    /// A new embedded resource with an identifier from `ctx`.
    pub fn new<C: Context>(resource: Resource, disposition: Disposition, ctx: &C) -> (r:
        EmbeddedWithCId)
        ensures
            r@.resource_spec() == resource,
            r@.disposition_spec() == disposition,
            r@.content_id_spec() == Some(r.content_id_spec()),
    {
        EmbeddedWithCId::with_content_id(resource, disposition, ctx.generate_content_id())
    }

    /// A new embedded resource with the given identifier.
    pub fn with_content_id(resource: Resource, disposition: Disposition, content_id: ContentId) -> (r:
        EmbeddedWithCId)
        ensures
            r@.resource_spec() == resource,
            r@.disposition_spec() == disposition,
            r.content_id_spec() == content_id,
            r@.content_id_spec() == Some(content_id),
    {
        EmbeddedWithCId { inner: Embedded::with_content_id(resource, disposition, content_id) }
    }

    /// Succeeds exactly where the embedded resource has an identifier; on
    /// failure it is handed back unchanged.
    pub fn try_from(emb: Embedded) -> (r: Result<EmbeddedWithCId, Embedded>)
        ensures
            r is Ok <==> emb.content_id_spec() is Some,
            match r {
                Ok(e) => e@ == emb,
                Err(e) => e == emb,
            },
    {
        if emb.content_id().is_some() {
            Ok(EmbeddedWithCId { inner: emb })
        } else {
            Err(emb)
        }
    }

    pub fn content_id(&self) -> (r: &ContentId)
        ensures
            *r == self.content_id_spec(),
            self@.content_id_spec() == Some(*r),
    {
        proof {
            use_type_invariant(self);
        }
        self.inner.content_id.as_ref().unwrap()
    }

    /// The embedded resource itself.
    pub fn embedded(&self) -> (r: &Embedded)
        ensures
            *r == self@,
    {
        &self.inner
    }

    pub fn into_resource(self) -> (r: Resource)
        ensures
            r == self@.resource_spec(),
    {
        self.inner.resource
    }

    /// The identifier and the resource.
    pub fn into_parts(self) -> (r: (ContentId, Resource))
        ensures
            r.0 == self.content_id_spec(),
            r.1 == self@.resource_spec(),
    {
        proof {
            use_type_invariant(&self);
        }
        let Embedded { content_id, resource, disposition: _ } = self.inner;
        (content_id.unwrap(), resource)
    }
}

/// Calling `assure_content_id` a second time returns the identifier the first
/// call returned and leaves the resource as it was.
pub proof fn lemma_assure_idempotent(
    e0: Embedded,
    e1: Embedded,
    e2: Embedded,
    id1: ContentId,
    id2: ContentId,
)
    requires
        assured(e0, e1, id1),
        assured(e1, e2, id2),
    ensures
        id1 == id2,
        e2.content_id_spec() == e1.content_id_spec(),
        e2.resource_spec() == e1.resource_spec(),
        e2.disposition_spec() == e1.disposition_spec(),
{
}

} // verus!
