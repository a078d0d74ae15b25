use std::cell::Cell;

use mail_compose::engine::{
    embedding_cids, embedding_with_id, RenderEngine, RenderTemplateEngine, TemplateBody,
};
use mail_compose::error::{Error, ErrorCause, SpecError};
use mail_compose::resource::{
    ContentId, ContentIdAssigner, Context, Disposition, Embedded, EmbeddedCollector,
    EmbeddedWithCId, InspectEmbeddedResources, MediaType, Resource, ResourceSpec,
};
use mail_compose::template::{Embeddings, SubTemplateSpec, TemplateSpec};

struct Counter {
    next: Cell<u32>,
    fail_at: Option<u32>,
}

impl Counter {
    fn new() -> Counter {
        Counter { next: Cell::new(0), fail_at: None }
    }
}

impl Context for Counter {
    fn generate_content_id(&self) -> ContentId {
        let n = self.next.get();
        self.next.set(n + 1);
        ContentId::new(format!("cid{}@example.org", n))
    }

    fn new_content_id(&self) -> Result<ContentId, ErrorCause> {
        if Some(self.next.get()) == self.fail_at {
            return Err(ErrorCause::new("no more ids".to_string()));
        }
        Ok(self.generate_content_id())
    }
}

/// Writes the path, the data and the cids it was given.
struct Echo {
    fail_on: Option<String>,
}

impl RenderEngine<String> for Echo {
    fn render(&self, path: &str, data: &String, cids: &Vec<(String, String)>) -> Result<String, ErrorCause> {
        if self.fail_on.as_deref() == Some(path) {
            return Err(ErrorCause::new(format!("cannot render {}", path)));
        }
        let mut out = format!("{}|{}", path, data);
        for (name, cid) in cids {
            out.push_str(&format!("|{}={}", name, cid));
        }
        Ok(out)
    }
}

fn media(text: &str) -> MediaType {
    MediaType::new(text.to_string())
}

fn rspec(path: &str, media_type: &str) -> ResourceSpec {
    ResourceSpec::new(path.to_string(), media(media_type))
}

fn sub(path: &str, media_type: &str, embeddings: &[(&str, &str)], attachments: &[&str]) -> SubTemplateSpec {
    let mut emb = Embeddings::new();
    for (name, p) in embeddings {
        emb.insert(name.to_string(), rspec(p, "image/png"));
    }
    let atts = attachments.iter().map(|p| rspec(p, "application/pdf")).collect();
    SubTemplateSpec::new(path.as_bytes().to_vec(), media(media_type), emb, atts).unwrap()
}

fn engine(fail_on: Option<&str>) -> RenderTemplateEngine<Echo> {
    let mut engine = RenderTemplateEngine::new(Echo { fail_on: fail_on.map(|s| s.to_string()) });
    let spec = TemplateSpec::new(vec![
        sub("text/mail.txt", "text/plain", &[], &["a.pdf"]),
        sub("html/mail.html", "text/html", &[("logo", "logo.png"), ("banner", "banner.png")], &["b.pdf", "c.pdf"]),
    ])
    .unwrap();
    assert!(engine.insert_spec("welcome".to_string(), spec).is_none());
    engine
}

fn body_text(body: &TemplateBody) -> (&str, &str) {
    match &body.body_resource {
        Resource::Buffer { media_type, content } => (media_type.as_str(), content.as_str()),
        Resource::Spec(_) => panic!("a body is rendered content"),
    }
}

#[test]
fn bodies_follow_sub_template_order() {
    let ctx = Counter::new();
    let (bodies, atts) = engine(None).templates(&ctx, "welcome", &"Ann".to_string()).unwrap();
    assert_eq!(2, bodies.len());
    assert_eq!(("text/plain", "text/mail.txt|Ann"), body_text(&bodies[0]));
    assert_eq!(
        ("text/html", "html/mail.html|Ann|logo=cid0@example.org|banner=cid1@example.org"),
        body_text(&bodies[1])
    );
    assert_eq!(0, bodies[0].embeddings.len());
    assert_eq!("logo", bodies[1].embeddings[0].0);
    assert_eq!("cid0@example.org", bodies[1].embeddings[0].1.content_id().as_str());
    assert_eq!(Disposition::Inline, bodies[1].embeddings[0].1.embedded().disposition());
    let names: Vec<&str> = atts
        .iter()
        .map(|a| match a.resource() {
            Resource::Spec(s) => s.path.as_str(),
            Resource::Buffer { .. } => panic!("attachments come from their specs"),
        })
        .collect();
    assert_eq!(vec!["a.pdf", "b.pdf", "c.pdf"], names);
    for a in atts.iter() {
        assert!(a.content_id().is_none());
        assert_eq!(Disposition::Attachment, a.disposition());
    }
}

#[test]
fn unknown_template_id() {
    let ctx = Counter::new();
    match engine(None).templates(&ctx, "goodbye", &"Ann".to_string()) {
        Err(Error::UnknownTemplateId(id)) => assert_eq!("goodbye", id),
        other => panic!("unexpected {:?}", other.map(|_| ())),
    }
    assert!(engine(None).lookup_spec("goodbye").is_err());
    assert_eq!(2, engine(None).lookup_spec("welcome").unwrap().templates().len());
}

#[test]
fn render_failure_gives_no_bodies() {
    let ctx = Counter::new();
    match engine(Some("html/mail.html")).templates(&ctx, "welcome", &"Ann".to_string()) {
        Err(Error::RenderError(c)) => assert_eq!("cannot render html/mail.html", c.message()),
        other => panic!("unexpected {:?}", other.map(|_| ())),
    }
}

#[test]
fn cid_failure_gives_no_bodies() {
    let ctx = Counter { next: Cell::new(0), fail_at: Some(1) };
    match engine(None).templates(&ctx, "welcome", &"Ann".to_string()) {
        Err(Error::CIdGenFailed(c)) => assert_eq!("no more ids", c.message()),
        other => panic!("unexpected {:?}", other.map(|_| ())),
    }
}

#[test]
fn template_spec_rejects_no_sub_templates() {
    match TemplateSpec::new(Vec::new()) {
        Err(SpecError::NoSubTemplatesFound(p)) => assert!(p.is_empty()),
        _ => panic!("an empty template must be refused"),
    }
    match TemplateSpec::new_with_base_path(Vec::new(), b"templates/welcome".to_vec()) {
        Err(SpecError::NoSubTemplatesFound(p)) => assert_eq!(b"templates/welcome".to_vec(), p),
        _ => panic!("an empty template must be refused"),
    }
}

#[test]
fn paths_must_be_utf8() {
    let bad = vec![b'a', 0xff, b'b'];
    match SubTemplateSpec::new(bad.clone(), media("text/plain"), Embeddings::new(), Vec::new()) {
        Err(SpecError::NonStringPath(p)) => assert_eq!(bad, p),
        _ => panic!("a non-UTF-8 path must be refused"),
    }
    let mut spec = TemplateSpec::new_with_base_path(vec![sub("t", "text/plain", &[], &[])], b"base".to_vec()).unwrap();
    assert_eq!(Some("base"), spec.base_path());
    assert!(spec.set_base_path(bad.clone()).is_err());
    assert_eq!(Some("base"), spec.base_path());
    assert_eq!(Some("base".to_string()), spec.set_base_path(b"other".to_vec()).unwrap());
    assert_eq!(Some("other"), spec.base_path());
    let mut s = sub("old.txt", "text/plain", &[], &[]);
    assert!(s.set_path(bad).is_err());
    assert_eq!("old.txt", s.str_path());
    assert_eq!("old.txt", s.set_path(b"new.txt".to_vec()).unwrap());
    assert_eq!("new.txt", s.path());
    assert_eq!("text/plain", s.set_media_type(media("text/html")).as_str());
    assert_eq!("text/html", s.media_type().as_str());
}

#[test]
fn embeddings_last_write_wins() {
    let mut emb = Embeddings::new();
    assert!(emb.insert("logo".to_string(), rspec("one.png", "image/png")).is_none());
    assert!(emb.insert("icon".to_string(), rspec("icon.png", "image/png")).is_none());
    let prev = emb.insert("logo".to_string(), rspec("two.png", "image/png")).unwrap();
    assert_eq!("one.png", prev.path);
    assert_eq!(2, emb.len());
    assert_eq!("logo", emb.entries()[0].0);
    assert_eq!("two.png", emb.entries()[0].1.path);
    let mut s = sub("t", "text/plain", &[], &[]);
    s.embedding_mut().insert("x".to_string(), rspec("x.png", "image/png"));
    s.attachments_mut().push(rspec("y.pdf", "application/pdf"));
    assert_eq!(1, s.embeddings().len());
    assert_eq!(1, s.attachments().len());
}

#[test]
fn assure_content_id_twice_gives_same_id() {
    let ctx = Counter::new();
    let mut e = Embedded::inline(Resource::from_spec(rspec("logo.png", "image/png")));
    assert!(e.content_id().is_none());
    let first = e.assure_content_id(&ctx);
    let second = e.assure_content_id(&ctx);
    assert_eq!(first.as_str(), second.as_str());
    assert_eq!("cid0@example.org", first.as_str());
    let mut other = Embedded::attachment(Resource::from_spec(rspec("a.pdf", "application/pdf")));
    let copy = other.assure_content_id_and_copy(&ctx);
    assert_ne!(first.as_str(), copy.content_id().as_str());
    assert_eq!(other.content_id().unwrap().as_str(), copy.content_id().as_str());
    assert_eq!(Disposition::Attachment, copy.embedded().disposition());
}

#[test]
fn try_from_needs_an_id() {
    let e = Embedded::new(Resource::from_spec(rspec("a.png", "image/png")), Disposition::Inline);
    let back = EmbeddedWithCId::try_from(e).unwrap_err();
    assert!(back.content_id().is_none());
    let e = Embedded::with_content_id(
        Resource::from_spec(rspec("a.png", "image/png")),
        Disposition::Inline,
        ContentId::new("x@y".to_string()),
    );
    let with = EmbeddedWithCId::try_from(e).unwrap();
    assert_eq!("x@y", with.content_id().as_str());
    let (id, res) = with.into_parts();
    assert_eq!("x@y", id.as_str());
    assert!(matches!(res, Resource::Spec(_)));
    let ctx = Counter::new();
    let fresh = EmbeddedWithCId::inline(Resource::from_buffer(media("text/plain"), "hi".to_string()), &ctx);
    assert_eq!("cid0@example.org", fresh.content_id().as_str());
    assert!(matches!(fresh.into_resource(), Resource::Buffer { .. }));
}

#[test]
fn cids_by_name() {
    let ctx = Counter::new();
    let list = vec![
        ("logo".to_string(), EmbeddedWithCId::attachment(Resource::from_spec(rspec("l.png", "image/png")), &ctx)),
    ];
    let cids = embedding_cids(&list);
    assert_eq!(vec![("logo".to_string(), "cid0@example.org".to_string())], cids);
}

#[test]
fn error_messages() {
    let e = SpecError::NonStringPath(vec![b'a', 0xff]);
    assert_eq!("path must also be valid string, got: a\u{fffd}", e.to_string());
    assert_eq!("path must also be valid string", e.description());
    assert!(e.cause().is_none());
    let e = SpecError::DuplicateEmbeddingName("logo".to_string());
    assert_eq!("multiple embeddings with the in-template name \"logo\" where found", e.to_string());
    let e = SpecError::IoError(ErrorCause::new("denied".to_string()));
    assert_eq!("I/O-Error: denied", e.to_string());
    assert_eq!("denied", e.cause().unwrap().message());
    let e = SpecError::NotAFile(b"dir".to_vec());
    assert_eq!("the template/embedding/attachment dir is not a file", e.to_string());
    let e = SpecError::MissingTypeInfo("png".to_string());
    assert_eq!("no type info in settings for: \"png\"", e.to_string());
    let e = Error::UnknownTemplateId("x\"y".to_string());
    assert_eq!("unknown template id: \"x\\\"y\"", e.to_string());
    assert_eq!("unknown template id", e.description());
    let e = Error::CIdGenFailed(ErrorCause::new("boom".to_string()));
    assert_eq!("generating cid failed: boom", e.to_string());
    assert!(e.cause().is_none());
    let e = Error::RenderError(ErrorCause::with_source(
        "bad template".to_string(),
        ErrorCause::new("unclosed tag".to_string()),
    ));
    assert_eq!("unclosed tag", e.cause().unwrap().message());
    let e = Error::RenderError(ErrorCause::new("bad template".to_string()));
    assert_eq!("bad template", e.to_string());
    assert_eq!("bad template", e.description());
}

#[test]
fn bare_embedded_visits_only_itself() {
    let mut e = Embedded::attachment(Resource::from_spec(rspec("a.pdf", "application/pdf")));
    let mut collector = EmbeddedCollector::new();
    e.inspect_resources(&mut collector);
    assert_eq!(1, collector.collected.len());
    assert_eq!(Disposition::Attachment, collector.collected[0].disposition());
    assert!(collector.collected[0].content_id().is_none());
    let mut assigner = ContentIdAssigner::new(Counter::new());
    e.inspect_resources_mut(&mut assigner);
    assert_eq!(1, assigner.visited.len());
    assert!(assigner.visited[0].content_id().is_none());
    assert_eq!("cid0@example.org", e.content_id().unwrap().as_str());
}

#[test]
fn error_cause_chain() {
    let root = ErrorCause::new("disk full".to_string());
    let top = ErrorCause::with_source("cannot write".to_string(), root);
    assert_eq!("cannot write", top.message());
    let next = top.source().unwrap();
    assert_eq!("disk full", next.message());
    assert!(next.source().is_none());
}

#[test]
fn set_template_keeps_order_and_count() {
    let mut spec = TemplateSpec::new(vec![
        sub("text/mail.txt", "text/plain", &[], &[]),
        sub("html/mail.html", "text/html", &[], &[]),
    ])
    .unwrap();
    let prev = spec.set_template(1, sub("html/new.html", "text/html", &[], &[]));
    assert_eq!("html/mail.html", prev.str_path());
    assert_eq!(2, spec.templates().len());
    assert_eq!("text/mail.txt", spec.templates()[0].str_path());
    assert_eq!("html/new.html", spec.templates()[1].str_path());
}

#[test]
fn render_result_becomes_body_or_error() {
    let s = sub("t.txt", "text/plain", &[], &[]);
    let ok = TemplateBody::from_render(&s, Ok("Hello".to_string()), Vec::new()).unwrap();
    assert_eq!(("text/plain", "Hello"), body_text(&ok));
    match TemplateBody::from_render(&s, Err(ErrorCause::new("broken".to_string())), Vec::new()) {
        Err(Error::RenderError(c)) => assert_eq!("broken", c.message()),
        _ => panic!("a failed render must be a RenderError"),
    }
}

#[test]
fn id_result_becomes_embedding_or_error() {
    let name = "logo".to_string();
    let spec = rspec("logo.png", "image/png");
    let (n, e) = embedding_with_id(&name, &spec, Ok(ContentId::new("c@d".to_string()))).unwrap();
    assert_eq!("logo", n);
    assert_eq!("c@d", e.content_id().as_str());
    assert_eq!(Disposition::Inline, e.embedded().disposition());
    match embedding_with_id(&name, &spec, Err(ErrorCause::new("none left".to_string()))) {
        Err(Error::CIdGenFailed(c)) => assert_eq!("none left", c.message()),
        _ => panic!("a failed id request must be CIdGenFailed"),
    }
}
