//! Rendering a registered template into its body alternatives and attachments.
use crate::error::{Error, ErrorCause};
use crate::resource::{
    ContentId, Context, Disposition, Embedded, EmbeddedWithCId, Resource, ResourceSpec,
};
use crate::template::{SubTemplateSpec, TemplateSpec};
use vstd::prelude::*;
use vstd::string::StringExecFns;

verus! {

/// Renders a template file. Any caching is the engine's own concern.
pub trait RenderEngine<D> {
    /// Renders the template at `path` with the caller's data and, by name,
    /// the content identifier of each embedding.
    fn render(&self, path: &str, data: &D, cids: &Vec<(String, String)>) -> Result<
        String,
        ErrorCause,
    >;
}

/// One rendered alternative: its body and the embeddings it refers to by name.
#[derive(Debug)]
pub struct TemplateBody {
    pub body_resource: Resource,
    pub embeddings: Vec<(String, EmbeddedWithCId)>,
}

/// An embedding resolved from its named specification: same name, the
/// specified resource, shown inline, with a content identifier.
pub open spec fn embedding_matches(e: (String, EmbeddedWithCId), n: (String, ResourceSpec)) -> bool {
    &&& e.0 == n.0
    &&& e.1@.resource_spec() == Resource::Spec(n.1)
    &&& e.1@.disposition_spec() == Disposition::Inline
}

pub open spec fn embeddings_match(es: Seq<(String, EmbeddedWithCId)>, ns: Seq<(String, ResourceSpec)>) -> bool {
    &&& es.len() == ns.len()
    &&& forall|j: int| 0 <= j < es.len() ==> embedding_matches(#[trigger] es[j], ns[j])
}

/// A body made for the sub-template: rendered content of its media type,
/// with its embeddings resolved.
pub open spec fn body_matches(b: TemplateBody, sub: SubTemplateSpec) -> bool {
    &&& b.body_resource is Buffer
    &&& b.body_resource->Buffer_media_type == sub.media_type_spec()
    &&& embeddings_match(b.embeddings@, sub.embeddings_spec())
}

/// A fresh attachment made from its specification.
pub open spec fn attachment_matches(a: Embedded, s: ResourceSpec) -> bool {
    &&& a.resource_spec() == Resource::Spec(s)
    &&& a.disposition_spec() == Disposition::Attachment
    &&& a.content_id_spec() is None
}

pub open spec fn attachments_match(atts: Seq<Embedded>, specs: Seq<ResourceSpec>) -> bool {
    &&& atts.len() == specs.len()
    &&& forall|j: int| 0 <= j < atts.len() ==> attachment_matches(#[trigger] atts[j], specs[j])
}

/// The attachments of all sub-templates, in order.
pub open spec fn all_attachments(subs: Seq<SubTemplateSpec>) -> Seq<ResourceSpec>
    decreases subs.len(),
{
    if subs.len() == 0 {
        seq![]
    } else {
        all_attachments(subs.drop_last()) + subs.last().attachments_spec()
    }
}

/// The result of rendering a template: one body per sub-template, in the
/// template's order (so at least one), and the attachments of all of them.
pub open spec fn rendered_from(spec: TemplateSpec, bodies: Seq<TemplateBody>, atts: Seq<Embedded>) -> bool {
    &&& bodies.len() > 0
    &&& bodies.len() == spec.templates_spec().len()
    &&& forall|k: int| 0 <= k < bodies.len() ==> body_matches(#[trigger] bodies[k], spec.templates_spec()[k])
    &&& attachments_match(atts, all_attachments(spec.templates_spec()))
}

/// Where `id` is registered first.
pub open spec fn registered_at(entries: Seq<(String, TemplateSpec)>, id: Seq<char>, i: int) -> bool {
    &&& 0 <= i < entries.len()
    &&& entries[i].0@ == id
    &&& forall|j: int| 0 <= j < i ==> (#[trigger] entries[j]).0@ != id
}

pub open spec fn is_registered(entries: Seq<(String, TemplateSpec)>, id: Seq<char>) -> bool {
    exists|i: int| 0 <= i < entries.len() && (#[trigger] entries[i]).0@ == id
}

impl TemplateBody {
    /// The body for rendered text of the sub-template.
    pub fn assemble(
        sub: &SubTemplateSpec,
        rendered: String,
        embeddings: Vec<(String, EmbeddedWithCId)>,
    ) -> (r: TemplateBody)
        ensures
            r.body_resource == (Resource::Buffer { media_type: sub.media_type_spec(), content: rendered }),
            r.embeddings == embeddings,
    {
        TemplateBody {
            body_resource: Resource::from_buffer(sub.media_type().clone(), rendered),
            embeddings,
        }
    }
}

impl TemplateBody {
    /// The body for what the render engine returned: the rendered text
    /// becomes the body, a failure becomes `RenderError` carrying it unchanged.
    pub fn from_render(
        sub: &SubTemplateSpec,
        rendered: Result<String, ErrorCause>,
        embeddings: Vec<(String, EmbeddedWithCId)>,
    ) -> (r: Result<TemplateBody, Error>)
        ensures
            match rendered {
                Ok(t) => r matches Ok(b) && b.body_resource == (Resource::Buffer {
                    media_type: sub.media_type_spec(),
                    content: t,
                }) && b.embeddings == embeddings,
                Err(c) => r == Err::<TemplateBody, Error>(Error::RenderError(c)),
            },
    {
        match rendered {
            Ok(t) => Ok(TemplateBody::assemble(sub, t, embeddings)),
            Err(c) => Err(Error::RenderError(c)),
        }
    }
}

/// The embedding for what the content id generator returned: the named
/// resource, inline, with that identifier; a failure becomes `CIdGenFailed`
/// carrying it unchanged.
pub fn embedding_with_id(name: &String, spec: &ResourceSpec, id: Result<ContentId, ErrorCause>) -> (r:
    Result<(String, EmbeddedWithCId), Error>)
    ensures
        match id {
            Ok(cid) => r matches Ok(e) && e.0 == *name && e.1@.resource_spec() == Resource::Spec(*spec)
                && e.1@.disposition_spec() == Disposition::Inline && e.1.content_id_spec() == cid,
            Err(c) => r == Err::<(String, EmbeddedWithCId), Error>(Error::CIdGenFailed(c)),
        },
{
    match id {
        Ok(cid) => {
            let e = EmbeddedWithCId::with_content_id(
                Resource::from_spec(spec.clone()),
                Disposition::Inline,
                cid,
            );
            Ok((name.clone(), e))
        },
        Err(c) => Err(Error::CIdGenFailed(c)),
    }
}

/// The content identifier of each embedding, by name, as the render engine sees them.
pub fn embedding_cids(embeddings: &Vec<(String, EmbeddedWithCId)>) -> (r: Vec<(String, String)>)
    ensures
        r@.len() == embeddings@.len(),
        forall|j: int|
            0 <= j < r@.len() ==> (#[trigger] r@[j]).0 == embeddings@[j].0 && r@[j].1
                == embeddings@[j].1.content_id_spec().id,
{
    let mut r: Vec<(String, String)> = Vec::new();
    let mut j: usize = 0;
    while j < embeddings.len()
        invariant
            j <= embeddings@.len(),
            r@.len() == j,
            forall|i: int|
                0 <= i < j ==> (#[trigger] r@[i]).0 == embeddings@[i].0 && r@[i].1
                    == embeddings@[i].1.content_id_spec().id,
        decreases embeddings@.len() - j,
    {
        let (name, emb) = &embeddings[j];
        r.push((name.clone(), emb.content_id().id.clone()));
        j += 1;
    }
    r
}

/// Resolves each named embedding of the sub-template and gives it an
/// identifier from `ctx`; the first failure of `ctx` ends it.
fn resolve_embeddings<C: Context>(sub: &SubTemplateSpec, ctx: &C) -> (r: Result<
    Vec<(String, EmbeddedWithCId)>,
    Error,
>)
    ensures
        match r {
            Ok(es) => embeddings_match(es@, sub.embeddings_spec()),
            Err(e) => e is CIdGenFailed,
        },
{
    let entries = sub.embeddings().entries();
    let mut out: Vec<(String, EmbeddedWithCId)> = Vec::new();
    let mut j: usize = 0;
    while j < entries.len()
        invariant
            entries@ == sub.embeddings_spec(),
            j <= entries@.len(),
            out@.len() == j,
            forall|i: int| 0 <= i < j ==> embedding_matches(#[trigger] out@[i], entries@[i]),
        decreases entries@.len() - j,
    {
        let (name, spec) = &entries[j];
        match embedding_with_id(name, spec, ctx.new_content_id()) {
            Ok(e) => out.push(e),
            Err(e) => return Err(e),
        }
        j += 1;
    }
    Ok(out)
}

/// The templates by id, each with the engine that renders them.
#[derive(Debug)]
pub struct RenderTemplateEngine<R> {
    render_engine: R,
    id2spec: Vec<(String, TemplateSpec)>,
}

impl<R> RenderTemplateEngine<R> {
    pub closed spec fn specs(&self) -> Seq<(String, TemplateSpec)> {
        self.id2spec@
    }

    /// An engine with no template yet.
    pub fn new(render_engine: R) -> (r: RenderTemplateEngine<R>)
        ensures
            r.specs().len() == 0,
            r.render_engine_spec() == render_engine,
    {
        RenderTemplateEngine { render_engine, id2spec: Vec::new() }
    }

    pub closed spec fn render_engine_spec(&self) -> R {
        self.render_engine
    }

    pub fn render_engine(&self) -> (r: &R)
        ensures
            *r == self.render_engine_spec(),
    {
        &self.render_engine
    }

    fn position(&self, template_id: &str) -> (r: Option<usize>)
        ensures
            match r {
                Some(i) => registered_at(self.specs(), template_id@, i as int),
                None => !is_registered(self.specs(), template_id@),
            },
    {
        let key = String::from_str(template_id);
        let mut i: usize = 0;
        while i < self.id2spec.len()
            invariant
                key@ == template_id@,
                i <= self.id2spec@.len(),
                forall|k: int| 0 <= k < i ==> (#[trigger] self.id2spec@[k]).0@ != template_id@,
            decreases self.id2spec@.len() - i,
        {
            if self.id2spec[i].0 == key {
                return Some(i);
            }
            i += 1;
        }
        None
    }

    /// Registers `spec` under `template_id`, replacing and returning the
    /// template that had the id.
    pub fn insert_spec(&mut self, template_id: String, spec: TemplateSpec) -> (r: Option<TemplateSpec>)
        ensures
            match r {
                Some(prev) => exists|i: int|
                    registered_at(old(self).specs(), template_id@, i) && prev == old(self).specs()[i].1
                        && final(self).specs() == old(self).specs().update(i, (template_id, spec)),
                None => !is_registered(old(self).specs(), template_id@) && final(self).specs()
                    == old(self).specs().push((template_id, spec)),
            },
    {
        match self.position(template_id.as_str()) {
            Some(i) => {
                let ghost before = self.id2spec@;
                let removed = self.id2spec.remove(i);
                self.id2spec.insert(i, (template_id, spec));
                assert(self.id2spec@ =~= before.update(i as int, (template_id, spec)));
                Some(removed.1)
            },
            None => {
                self.id2spec.push((template_id, spec));
                None
            },
        }
    }

    /// The template registered under `template_id`.
    pub fn lookup_spec(&self, template_id: &str) -> (r: Result<&TemplateSpec, Error>)
        ensures
            match r {
                Ok(spec) => exists|i: int|
                    registered_at(self.specs(), template_id@, i) && *spec == self.specs()[i].1,
                Err(Error::UnknownTemplateId(id)) => id@ == template_id@ && !is_registered(
                    self.specs(),
                    template_id@,
                ),
                Err(_) => false,
            },
    {
        match self.position(template_id) {
            Some(i) => Ok(&self.id2spec[i].1),
            None => Err(Error::UnknownTemplateId(String::from_str(template_id))),
        }
    }

    /// Renders every alternative of the template `template_id`, in the
    /// template's order, with `data` and the content identifiers of its
    /// embeddings, and collects the attachments of all alternatives. The
    /// first failure ends it: no body is returned then.
    pub fn templates<C: Context, D>(&self, ctx: &C, template_id: &str, data: &D) -> (r: Result<
        (Vec<TemplateBody>, Vec<Embedded>),
        Error,
    >) where R: RenderEngine<D>
        ensures
            match r {
                Ok((bodies, atts)) => exists|i: int|
                    registered_at(self.specs(), template_id@, i) && rendered_from(
                        self.specs()[i].1,
                        bodies@,
                        atts@,
                    ),
                Err(Error::UnknownTemplateId(id)) => id@ == template_id@ && !is_registered(
                    self.specs(),
                    template_id@,
                ),
                Err(e) => is_registered(self.specs(), template_id@) && (e is CIdGenFailed
                    || e is RenderError),
            },
    {
        let spec = match self.lookup_spec(template_id) {
            Ok(spec) => spec,
            Err(e) => return Err(e),
        };
        let ghost i = choose|i: int| registered_at(self.specs(), template_id@, i) && *spec == self.specs()[i].1;
        let subs = spec.templates();
        let mut bodies: Vec<TemplateBody> = Vec::new();
        let mut atts: Vec<Embedded> = Vec::new();
        let mut k: usize = 0;
        while k < subs.len()
            invariant
                registered_at(self.specs(), template_id@, i),
                *spec == self.specs()[i].1,
                subs@ == spec.templates_spec(),
                subs@.len() > 0,
                k <= subs@.len(),
                bodies@.len() == k,
                forall|b: int| 0 <= b < k ==> body_matches(#[trigger] bodies@[b], subs@[b]),
                attachments_match(atts@, all_attachments(subs@.take(k as int))),
            decreases subs@.len() - k,
        {
            let sub = &subs[k];
            let embeddings = match resolve_embeddings(sub, ctx) {
                Ok(es) => es,
                Err(e) => return Err(e),
            };
            let cids = embedding_cids(&embeddings);
            let rendered = self.render_engine.render(sub.str_path(), data, &cids);
            let body = match TemplateBody::from_render(sub, rendered, embeddings) {
                Ok(b) => b,
                Err(e) => return Err(e),
            };
            let ghost prev_bodies = bodies@;
            bodies.push(body);
            assert forall|b: int| 0 <= b < k + 1 implies body_matches(#[trigger] bodies@[b], subs@[b]) by {
                if b < k {
                    assert(bodies@[b] == prev_bodies[b]);
                }
            }
            let specs = sub.attachments();
            let ghost prev = atts@;
            let ghost base = all_attachments(subs@.take(k as int));
            let mut a: usize = 0;
            while a < specs.len()
                invariant
                    specs@ == sub.attachments_spec(),
                    a <= specs@.len(),
                    attachments_match(prev, base),
                    atts@.len() == prev.len() + a,
                    forall|j: int| 0 <= j < prev.len() ==> #[trigger] atts@[j] == prev[j],
                    forall|j: int| 0 <= j < a ==> attachment_matches(#[trigger] atts@[prev.len() + j], specs@[j]),
                decreases specs@.len() - a,
            {
                let att = Embedded::attachment(Resource::from_spec(specs[a].clone()));
                atts.push(att);
                a += 1;
            }
            proof {
                assert(subs@.take(k + 1).drop_last() =~= subs@.take(k as int));
                assert(subs@.take(k + 1).last() == subs@[k as int]);
                let all = all_attachments(subs@.take(k + 1));
                assert(all == base + specs@);
                assert forall|j: int| 0 <= j < atts@.len() implies attachment_matches(#[trigger] atts@[j], all[j]) by {
                    if j < prev.len() {
                        assert(atts@[j] == prev[j]);
                    } else {
                        assert(atts@[prev.len() + (j - prev.len())] == atts@[j]);
                    }
                }
            }
            k += 1;
        }
        assert(subs@.take(subs@.len() as int) =~= subs@);
        Ok((bodies, atts))
    }
}

} // verus!
