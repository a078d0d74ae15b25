//! The errors of template specification and rendering.
use crate::text::{debug_of, debug_string, lossy_of, lossy_string};
use vstd::prelude::*;
use vstd::string::StringExecFns;

verus! {

/// A failure reported by a collaborator (a content id generator, a render
/// engine, a media type parser): its description, and the failure that
/// caused it, if any.
#[derive(Debug)]
pub struct ErrorCause {
    pub message: String,
    pub source: Option<Box<ErrorCause>>,
}

impl ErrorCause {
    /// A failure with no further cause.
    pub fn new(message: String) -> (r: ErrorCause)
        ensures
            r.message == message,
            r.source is None,
    {
        ErrorCause { message, source: None }
    }

    /// A failure caused by `source`.
    pub fn with_source(message: String, source: ErrorCause) -> (r: ErrorCause)
        ensures
            r.message == message,
            r.source matches Some(b) && *b == source,
    {
        ErrorCause { message, source: Some(Box::new(source)) }
    }

    pub fn message(&self) -> (r: &str)
        ensures
            r@ == self.message@,
    {
        self.message.as_str()
    }

    /// The next failure down the cause chain.
    pub fn source(&self) -> (r: Option<&ErrorCause>)
        ensures
            match self.source {
                Some(b) => r == Some(&*b),
                None => r is None,
            },
    {
        match &self.source {
            Some(b) => Some(&**b),
            None => None,
        }
    }
}

/// Errors of `RenderTemplateEngine::templates`.
#[derive(Debug)]
pub enum Error {
    UnknownTemplateId(String),
    CIdGenFailed(ErrorCause),
    RenderError(ErrorCause),
}

/// Errors in building a template specification. Paths are raw bytes, as the
/// operating system gives them.
#[derive(Debug)]
pub enum SpecError {
    /// The path is not valid UTF-8.
    NonStringPath(Vec<u8>),
    MissingTypeInfo(String),
    BodyMediaTypeCreationFailure(ErrorCause),
    ResourceMediaTypeCreationFailure(ErrorCause),
    IoError(ErrorCause),
    DuplicateEmbeddingName(String),
    NoSubTemplatesFound(Vec<u8>),
    TemplateFileMissing(Vec<u8>),
    NotAFile(Vec<u8>),
}

pub open spec fn error_description(e: &Error) -> Seq<char> {
    match e {
        Error::UnknownTemplateId(_) => "unknown template id"@,
        Error::CIdGenFailed(_) => "generating a cid failed"@,
        Error::RenderError(c) => c.message@,
    }
}

pub open spec fn error_message(e: &Error) -> Seq<char> {
    match e {
        Error::UnknownTemplateId(id) => "unknown template id: "@ + debug_of(id@),
        Error::CIdGenFailed(c) => "generating cid failed: "@ + c.message@,
        Error::RenderError(c) => c.message@,
    }
}

pub open spec fn spec_error_description(e: &SpecError) -> Seq<char> {
    match e {
        SpecError::NonStringPath(_) => "path must also be valid string"@,
        SpecError::MissingTypeInfo(_) => "no type info included in settings for given type"@,
        SpecError::BodyMediaTypeCreationFailure(_) => "creating a media type for a mime body failed"@,
        SpecError::ResourceMediaTypeCreationFailure(_) => "creating a media type for a Embedding/Attachment failed"@,
        SpecError::IoError(_) => "a I/O-Error occurred"@,
        SpecError::DuplicateEmbeddingName(_) => "multiple embedding with the same in-template name where found"@,
        SpecError::NoSubTemplatesFound(_) => "template folder needs to contain at last one subtemplate e.g. text or html"@,
        SpecError::TemplateFileMissing(_) => "sub-template folder does not contain a template file (e.g. `mail.html`)"@,
        SpecError::NotAFile(_) => "template_file, embedding or attachment was not a file"@,
    }
}

pub open spec fn spec_error_message(e: &SpecError) -> Seq<char> {
    match e {
        SpecError::NonStringPath(p) => "path must also be valid string, got: "@ + lossy_of(p@),
        SpecError::MissingTypeInfo(t) => "no type info in settings for: "@ + debug_of(t@),
        SpecError::BodyMediaTypeCreationFailure(c) => "media type creation for body failed: "@ + c.message@,
        SpecError::ResourceMediaTypeCreationFailure(c) => "media type creation for Embedding/Attachment failed: "@ + c.message@,
        SpecError::IoError(c) => "I/O-Error: "@ + c.message@,
        SpecError::DuplicateEmbeddingName(n) => "multiple embeddings with the in-template name "@ + debug_of(n@) + " where found"@,
        SpecError::NoSubTemplatesFound(d) => "template dir has to contain at last one sub-template. dir: "@ + lossy_of(d@),
        SpecError::TemplateFileMissing(d) => "sub-template folder does not contain a template file: "@ + lossy_of(d@),
        SpecError::NotAFile(p) => "the template/embedding/attachment "@ + lossy_of(p@) + " is not a file"@,
    }
}

fn concat2(a: &str, b: &str) -> (r: String)
    ensures
        r@ == a@ + b@,
{
    let mut s = String::from_str(a);
    s.append(b);
    s
}

fn concat3(a: &str, b: &str, c: &str) -> (r: String)
    ensures
        r@ == a@ + b@ + c@,
{
    let mut s = String::from_str(a);
    s.append(b);
    s.append(c);
    s
}

impl Error {
    /// A short description of the kind of error.
    pub fn description(&self) -> (r: &str)
        ensures
            r@ == error_description(self),
    {
        match self {
            Error::UnknownTemplateId(_) => "unknown template id",
            Error::CIdGenFailed(_) => "generating a cid failed",
            Error::RenderError(c) => c.message(),
        }
    }

    /// The failure behind the wrapped one, where there is one: the wrapped
    /// failure itself already gives the description.
    pub fn cause(&self) -> (r: Option<&ErrorCause>)
        ensures
            match self {
                Error::UnknownTemplateId(_) => r is None,
                Error::CIdGenFailed(c) => r == (match c.source {
                    Some(b) => Some(&*b),
                    None => None,
                }),
                Error::RenderError(c) => r == (match c.source {
                    Some(b) => Some(&*b),
                    None => None,
                }),
            },
    {
        match self {
            Error::UnknownTemplateId(_) => None,
            Error::CIdGenFailed(c) => c.source(),
            Error::RenderError(c) => c.source(),
        }
    }

    /// The error as a message for people.
    pub fn to_string(&self) -> (r: String)
        ensures
            r@ == error_message(self),
    {
        match self {
            Error::UnknownTemplateId(id) => {
                let d = debug_string(id.as_str());
                concat2("unknown template id: ", d.as_str())
            },
            Error::CIdGenFailed(c) => concat2("generating cid failed: ", c.message()),
            Error::RenderError(c) => String::from_str(c.message()),
        }
    }
}

impl SpecError {
    /// A short description of the kind of error.
    pub fn description(&self) -> (r: &str)
        ensures
            r@ == spec_error_description(self),
    {
        match self {
            SpecError::NonStringPath(_) => "path must also be valid string",
            SpecError::MissingTypeInfo(_) => "no type info included in settings for given type",
            SpecError::BodyMediaTypeCreationFailure(_) => "creating a media type for a mime body failed",
            SpecError::ResourceMediaTypeCreationFailure(_) => "creating a media type for a Embedding/Attachment failed",
            SpecError::IoError(_) => "a I/O-Error occurred",
            SpecError::DuplicateEmbeddingName(_) => "multiple embedding with the same in-template name where found",
            SpecError::NoSubTemplatesFound(_) => "template folder needs to contain at last one subtemplate e.g. text or html",
            SpecError::TemplateFileMissing(_) => "sub-template folder does not contain a template file (e.g. `mail.html`)",
            SpecError::NotAFile(_) => "template_file, embedding or attachment was not a file",
        }
    }

    /// The underlying failure, where there is one.
    pub fn cause(&self) -> (r: Option<&ErrorCause>)
        ensures
            match self {
                SpecError::BodyMediaTypeCreationFailure(c) => r == Some(c),
                SpecError::ResourceMediaTypeCreationFailure(c) => r == Some(c),
                SpecError::IoError(c) => r == Some(c),
                _ => r is None,
            },
    {
        match self {
            SpecError::BodyMediaTypeCreationFailure(c) => Some(c),
            SpecError::ResourceMediaTypeCreationFailure(c) => Some(c),
            SpecError::IoError(c) => Some(c),
            _ => None,
        }
    }

    /// The error as a message for people.
    pub fn to_string(&self) -> (r: String)
        ensures
            r@ == spec_error_message(self),
    {
        match self {
            SpecError::NonStringPath(p) => {
                let l = lossy_string(p);
                concat2("path must also be valid string, got: ", l.as_str())
            },
            SpecError::MissingTypeInfo(t) => {
                let d = debug_string(t.as_str());
                concat2("no type info in settings for: ", d.as_str())
            },
            SpecError::BodyMediaTypeCreationFailure(c) => concat2(
                "media type creation for body failed: ",
                c.message(),
            ),
            SpecError::ResourceMediaTypeCreationFailure(c) => concat2(
                "media type creation for Embedding/Attachment failed: ",
                c.message(),
            ),
            SpecError::IoError(c) => concat2("I/O-Error: ", c.message()),
            SpecError::DuplicateEmbeddingName(n) => {
                let d = debug_string(n.as_str());
                concat3("multiple embeddings with the in-template name ", d.as_str(), " where found")
            },
            SpecError::NoSubTemplatesFound(d) => {
                let l = lossy_string(d);
                concat2("template dir has to contain at last one sub-template. dir: ", l.as_str())
            },
            SpecError::TemplateFileMissing(d) => {
                let l = lossy_string(d);
                concat2("sub-template folder does not contain a template file: ", l.as_str())
            },
            SpecError::NotAFile(p) => {
                let l = lossy_string(p);
                concat3("the template/embedding/attachment ", l.as_str(), " is not a file")
            },
        }
    }
}

} // verus!
