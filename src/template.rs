//! Specifications of multi-alternative templates: one sub-template per
//! alternative (text, html, ...), each with named embeddings and attachments.
use crate::error::SpecError;
use crate::resource::{MediaType, ResourceSpec};
use crate::text::string_from_utf8;
use vstd::prelude::*;
use vstd::utf8::*;

verus! {

/// Named embeddings of a sub-template; each name occurs once.
#[derive(Debug)]
pub struct Embeddings {
    entries: Vec<(String, ResourceSpec)>,
}

pub open spec fn names_unique(s: Seq<(String, ResourceSpec)>) -> bool {
    forall|i: int, j: int|
        0 <= i < s.len() && 0 <= j < s.len() && i != j ==> (#[trigger] s[i]).0@ != (#[trigger] s[j]).0@
}

/// Where the name occurs among the entries.
pub open spec fn has_name(s: Seq<(String, ResourceSpec)>, name: Seq<char>) -> bool {
    exists|i: int| 0 <= i < s.len() && (#[trigger] s[i]).0@ == name
}

impl Embeddings {
    #[verifier::type_invariant]
    spec fn unique(&self) -> bool {
        names_unique(self.entries@)
    }

    /// The entries in the order they were first inserted.
    pub closed spec fn entries_spec(&self) -> Seq<(String, ResourceSpec)> {
        self.entries@
    }

    pub fn new() -> (r: Embeddings)
        ensures
            r.entries_spec().len() == 0,
    {
        Embeddings { entries: Vec::new() }
    }

    pub fn len(&self) -> (r: usize)
        ensures
            r == self.entries_spec().len(),
    {
        self.entries.len()
    }

    /// The names are unique.
    pub fn entries(&self) -> (r: &Vec<(String, ResourceSpec)>)
        ensures
            r@ == self.entries_spec(),
            names_unique(r@),
    {
        proof {
            use_type_invariant(self);
        }
        &self.entries
    }

    fn position(&self, name: &String) -> (r: Option<usize>)
        ensures
            match r {
                Some(i) => i < self.entries_spec().len() && self.entries_spec()[i as int].0@
                    == name@,
                None => !has_name(self.entries_spec(), name@),
            },
    {
        let mut i: usize = 0;
        while i < self.entries.len()
            invariant
                i <= self.entries@.len(),
                forall|k: int| 0 <= k < i ==> (#[trigger] self.entries@[k]).0@ != name@,
            decreases self.entries@.len() - i,
        {
            if self.entries[i].0 == *name {
                return Some(i);
            }
            i += 1;
        }
        None
    }

    /// Adds an embedding under `name`; an embedding that had the name is
    /// replaced in place and returned (the last one written wins).
    pub fn insert(&mut self, name: String, spec: ResourceSpec) -> (r: Option<ResourceSpec>)
        ensures
            match r {
                Some(prev) => exists|i: int|
                    0 <= i < old(self).entries_spec().len() && (#[trigger] old(
                        self,
                    ).entries_spec()[i]).0@ == name@ && prev == old(self).entries_spec()[i].1
                        && final(self).entries_spec() == old(self).entries_spec().update(
                        i,
                        (name, spec),
                    ),
                None => !has_name(old(self).entries_spec(), name@) && final(self).entries_spec()
                    == old(self).entries_spec().push((name, spec)),
            },
    {
        proof {
            use_type_invariant(&*self);
        }
        match self.position(&name) {
            Some(i) => {
                let ghost before = self.entries@;
                let mut entries: Vec<(String, ResourceSpec)> = Vec::new();
                std::mem::swap(&mut self.entries, &mut entries);
                let removed = entries.remove(i);
                entries.insert(i, (name, spec));
                assert(entries@ =~= before.update(i as int, (name, spec)));
                assert(names_unique(entries@)) by {
                    assert forall|a: int, b: int|
                        0 <= a < entries@.len() && 0 <= b < entries@.len() && a != b
                            implies (#[trigger] entries@[a]).0@ != (#[trigger] entries@[b]).0@ by {
                        assert(before[a].0@ != before[b].0@);
                    }
                }
                self.entries = entries;
                Some(removed.1)
            },
            None => {
                let mut entries: Vec<(String, ResourceSpec)> = Vec::new();
                std::mem::swap(&mut self.entries, &mut entries);
                let ghost before = entries@;
                entries.push((name, spec));
                assert(names_unique(entries@)) by {
                    assert forall|a: int, b: int|
                        0 <= a < entries@.len() && 0 <= b < entries@.len() && a != b
                            implies (#[trigger] entries@[a]).0@ != (#[trigger] entries@[b]).0@ by {
                        if a < before.len() && b < before.len() {
                            assert(before[a].0@ != before[b].0@);
                        } else if a < before.len() {
                            assert(entries@[a] == before[a]);
                        } else {
                            assert(entries@[b] == before[b]);
                        }
                    }
                }
                self.entries = entries;
                None
            },
        }
    }
}

/// The path as text, where it is valid UTF-8.
fn string_path(path: Vec<u8>) -> (r: Result<String, SpecError>)
    ensures
        r is Ok <==> valid_utf8(path@),
        match r {
            Ok(p) => p@ == decode_utf8(path@),
            Err(SpecError::NonStringPath(p)) => p@ == path@,
            Err(_) => false,
        },
{
    match string_from_utf8(path) {
        Ok(p) => Ok(p),
        Err(p) => Err(SpecError::NonStringPath(p)),
    }
}

/// One alternative of a template: its media type, the path of its source,
/// its named embeddings and its attachments in order.
#[derive(Debug)]
pub struct SubTemplateSpec {
    media_type: MediaType,
    path: String,
    embeddings: Embeddings,
    attachments: Vec<ResourceSpec>,
}

impl SubTemplateSpec {
    pub closed spec fn media_type_spec(&self) -> MediaType {
        self.media_type
    }

    pub closed spec fn path_spec(&self) -> Seq<char> {
        self.path@
    }

    pub closed spec fn embeddings_spec(&self) -> Seq<(String, ResourceSpec)> {
        self.embeddings.entries_spec()
    }

    pub closed spec fn attachments_spec(&self) -> Seq<ResourceSpec> {
        self.attachments@
    }

    /// A sub-template; fails with `NonStringPath` exactly where the path is not UTF-8.
    pub fn new(
        path: Vec<u8>,
        media_type: MediaType,
        embeddings: Embeddings,
        attachments: Vec<ResourceSpec>,
    ) -> (r: Result<SubTemplateSpec, SpecError>)
        ensures
            r is Ok <==> valid_utf8(path@),
            match r {
                Ok(t) => t.path_spec() == decode_utf8(path@) && t.media_type_spec() == media_type
                    && t.embeddings_spec() == embeddings.entries_spec() && t.attachments_spec()
                    == attachments@,
                Err(SpecError::NonStringPath(p)) => p@ == path@,
                Err(_) => false,
            },
    {
        let path = string_path(path)?;
        Ok(SubTemplateSpec { media_type, path, embeddings, attachments })
    }

    pub fn path(&self) -> (r: &str)
        ensures
            r@ == self.path_spec(),
    {
        self.path.as_str()
    }

    pub fn str_path(&self) -> (r: &str)
        ensures
            r@ == self.path_spec(),
    {
        self.path.as_str()
    }

    /// Replaces the path and returns the previous one; a path that is not
    /// UTF-8 is refused and nothing changes.
    pub fn set_path(&mut self, new_path: Vec<u8>) -> (r: Result<String, SpecError>)
        ensures
            r is Ok <==> valid_utf8(new_path@),
            match r {
                Ok(prev) => prev@ == old(self).path_spec() && final(self).path_spec()
                    == decode_utf8(new_path@),
                Err(SpecError::NonStringPath(p)) => p@ == new_path@ && final(self).path_spec()
                    == old(self).path_spec(),
                Err(_) => false,
            },
            final(self).media_type_spec() == old(self).media_type_spec(),
            final(self).embeddings_spec() == old(self).embeddings_spec(),
            final(self).attachments_spec() == old(self).attachments_spec(),
    {
        let path = string_path(new_path)?;
        let mut prev = path;
        std::mem::swap(&mut self.path, &mut prev);
        Ok(prev)
    }

    pub fn media_type(&self) -> (r: &MediaType)
        ensures
            *r == self.media_type_spec(),
    {
        &self.media_type
    }

    /// Replaces the media type and returns the previous one.
    pub fn set_media_type(&mut self, media_type: MediaType) -> (r: MediaType)
        ensures
            r == old(self).media_type_spec(),
            final(self).media_type_spec() == media_type,
            final(self).path_spec() == old(self).path_spec(),
            final(self).embeddings_spec() == old(self).embeddings_spec(),
            final(self).attachments_spec() == old(self).attachments_spec(),
    {
        let mut prev = media_type;
        std::mem::swap(&mut self.media_type, &mut prev);
        prev
    }

    pub fn embeddings(&self) -> (r: &Embeddings)
        ensures
            r.entries_spec() == self.embeddings_spec(),
    {
        &self.embeddings
    }

    pub fn embedding_mut(&mut self) -> (r: &mut Embeddings)
        ensures
            r.entries_spec() == old(self).embeddings_spec(),
            final(self).embeddings_spec() == final(r).entries_spec(),
            final(self).media_type_spec() == old(self).media_type_spec(),
            final(self).path_spec() == old(self).path_spec(),
            final(self).attachments_spec() == old(self).attachments_spec(),
    {
        &mut self.embeddings
    }

    pub fn attachments(&self) -> (r: &Vec<ResourceSpec>)
        ensures
            r@ == self.attachments_spec(),
    {
        &self.attachments
    }

    pub fn attachments_mut(&mut self) -> (r: &mut Vec<ResourceSpec>)
        ensures
            r@ == old(self).attachments_spec(),
            final(self).attachments_spec() == final(r)@,
            final(self).media_type_spec() == old(self).media_type_spec(),
            final(self).path_spec() == old(self).path_spec(),
            final(self).embeddings_spec() == old(self).embeddings_spec(),
    {
        &mut self.attachments
    }
}

/// A template: its alternatives in order of precedence, never none, and the
/// directory it was read from, if any.
#[derive(Debug)]
pub struct TemplateSpec {
    base_path: Option<String>,
    templates: Vec<SubTemplateSpec>,
}

impl TemplateSpec {
    #[verifier::type_invariant]
    spec fn non_empty(&self) -> bool {
        self.templates@.len() > 0
    }

    pub closed spec fn templates_spec(&self) -> Seq<SubTemplateSpec> {
        self.templates@
    }

    pub closed spec fn base_path_spec(&self) -> Option<Seq<char>> {
        match self.base_path {
            Some(p) => Some(p@),
            None => None,
        }
    }

    /// A template of the given alternatives; fails with `NoSubTemplatesFound`
    /// exactly where there are none.
    pub fn new(templates: Vec<SubTemplateSpec>) -> (r: Result<TemplateSpec, SpecError>)
        ensures
            r is Ok <==> templates@.len() > 0,
            match r {
                Ok(t) => t.templates_spec() == templates@ && t.base_path_spec() is None,
                Err(SpecError::NoSubTemplatesFound(p)) => p@.len() == 0,
                Err(_) => false,
            },
    {
        if templates.len() == 0 {
            return Err(SpecError::NoSubTemplatesFound(Vec::new()));
        }
        Ok(TemplateSpec { base_path: None, templates })
    }

    /// A template read from `base_path`; fails with `NonStringPath` where the
    /// path is not UTF-8, else with `NoSubTemplatesFound` where there are no
    /// alternatives.
    pub fn new_with_base_path(templates: Vec<SubTemplateSpec>, base_path: Vec<u8>) -> (r: Result<
        TemplateSpec,
        SpecError,
    >)
        ensures
            r is Ok <==> valid_utf8(base_path@) && templates@.len() > 0,
            match r {
                Ok(t) => t.templates_spec() == templates@ && t.base_path_spec() == Some(
                    decode_utf8(base_path@),
                ),
                Err(SpecError::NonStringPath(p)) => p@ == base_path@ && !valid_utf8(base_path@),
                Err(SpecError::NoSubTemplatesFound(p)) => valid_utf8(base_path@) && p@
                    == base_path@ && templates@.len() == 0,
                Err(_) => false,
            },
    {
        let copy = base_path.clone();
        let path = string_path(base_path)?;
        if templates.len() == 0 {
            return Err(SpecError::NoSubTemplatesFound(copy));
        }
        Ok(TemplateSpec { base_path: Some(path), templates })
    }

    /// The alternatives; there is at least one.
    pub fn templates(&self) -> (r: &Vec<SubTemplateSpec>)
        ensures
            r@ == self.templates_spec(),
            r@.len() > 0,
    {
        proof {
            use_type_invariant(self);
        }
        &self.templates
    }

    /// Replaces the alternative at `index` and returns the one it held; the
    /// number and order of alternatives stay.
    pub fn set_template(&mut self, index: usize, template: SubTemplateSpec) -> (r: SubTemplateSpec)
        requires
            index < old(self).templates_spec().len(),
        ensures
            r == old(self).templates_spec()[index as int],
            final(self).templates_spec() == old(self).templates_spec().update(index as int, template),
            final(self).base_path_spec() == old(self).base_path_spec(),
    {
        proof {
            use_type_invariant(&*self);
        }
        let ghost before = self.templates@;
        let mut templates: Vec<SubTemplateSpec> = Vec::new();
        templates.push(template);
        std::mem::swap(&mut self.templates, &mut templates);
        let prev = templates.remove(index);
        let mut one: Vec<SubTemplateSpec> = Vec::new();
        one.push(prev);
        std::mem::swap(&mut self.templates, &mut one);
        let new_one = one.remove(0);
        templates.insert(index, new_one);
        assert(templates@ =~= before.update(index as int, template));
        std::mem::swap(&mut self.templates, &mut templates);
        templates.remove(0)
    }

    pub fn base_path(&self) -> (r: Option<&str>)
        ensures
            match r {
                Some(p) => self.base_path_spec() == Some(p@),
                None => self.base_path_spec() is None,
            },
    {
        match &self.base_path {
            Some(p) => Some(p.as_str()),
            None => None,
        }
    }

    /// Replaces the base path and returns the previous one; a path that is
    /// not UTF-8 is refused and nothing changes.
    pub fn set_base_path(&mut self, new_path: Vec<u8>) -> (r: Result<Option<String>, SpecError>)
        ensures
            r is Ok <==> valid_utf8(new_path@),
            match r {
                Ok(prev) => (match prev {
                    Some(p) => old(self).base_path_spec() == Some(p@),
                    None => old(self).base_path_spec() is None,
                }) && final(self).base_path_spec() == Some(decode_utf8(new_path@)),
                Err(SpecError::NonStringPath(p)) => p@ == new_path@ && final(self).base_path_spec()
                    == old(self).base_path_spec(),
                Err(_) => false,
            },
            final(self).templates_spec() == old(self).templates_spec(),
    {
        let path = string_path(new_path)?;
        proof {
            use_type_invariant(&*self);
        }
        let mut prev = Some(path);
        std::mem::swap(&mut self.base_path, &mut prev);
        Ok(prev)
    }
}

} // verus!
