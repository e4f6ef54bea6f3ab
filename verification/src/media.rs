use vstd::prelude::*;
use vstd::string::StringExecFns;
use crate::field_type::BamlMediaType;
use crate::text::str_eq;

verus! {

/// How a media value carries its content: a URL, inline base64 data, or
/// a file (a source path and a path relative to it).
#[derive(Debug)]
pub enum BamlMediaContent {
    Url { url: String },
    Base64 { base64: String },
    File { span_path: String, relpath: String },
}

/// A media value attached to a prompt.
#[derive(Debug)]
pub struct BamlMedia {
    pub media_type: BamlMediaType,
    pub mime_type: Option<String>,
    pub content: BamlMediaContent,
}

/// The model of a media content.
pub enum SpecMediaContent {
    Url(Seq<char>),
    Base64(Seq<char>),
    File(Seq<char>, Seq<char>),
}

/// The model of a media value.
pub struct SpecMedia {
    pub media_type: BamlMediaType,
    pub mime_type: Option<Seq<char>>,
    pub content: SpecMediaContent,
}

pub open spec fn opt_name(o: Option<String>) -> Option<Seq<char>> {
    match o {
        Some(s) => Some(s@),
        None => None,
    }
}

pub open spec fn smedia_content(c: BamlMediaContent) -> SpecMediaContent {
    match c {
        BamlMediaContent::Url { url } => SpecMediaContent::Url(url@),
        BamlMediaContent::Base64 { base64 } => SpecMediaContent::Base64(base64@),
        BamlMediaContent::File { span_path, relpath } => SpecMediaContent::File(
            span_path@,
            relpath@,
        ),
    }
}

pub open spec fn smedia(m: BamlMedia) -> SpecMedia {
    SpecMedia {
        media_type: m.media_type,
        mime_type: opt_name(m.mime_type),
        content: smedia_content(m.content),
    }
}

impl BamlMedia {
    /// A media value holding a URL.
    pub fn url(media_type: BamlMediaType, url: String, mime_type: Option<String>) -> (r: BamlMedia)
        ensures
            smedia(r) == (SpecMedia {
                media_type: media_type,
                mime_type: opt_name(mime_type),
                content: SpecMediaContent::Url(url@),
            }),
    {
        BamlMedia { media_type, mime_type, content: BamlMediaContent::Url { url } }
    }

    /// A media value holding inline base64 data.
    pub fn base64(media_type: BamlMediaType, base64: String, mime_type: Option<String>) -> (r:
        BamlMedia)
        ensures
            smedia(r) == (SpecMedia {
                media_type: media_type,
                mime_type: opt_name(mime_type),
                content: SpecMediaContent::Base64(base64@),
            }),
    {
        BamlMedia { media_type, mime_type, content: BamlMediaContent::Base64 { base64 } }
    }
}

/// The rendering of an image value: the URL form, the base64 form with
/// its mime type (empty when absent), or a fallback for other contents.
pub open spec fn spec_image_repr(m: SpecMedia) -> Seq<char> {
    match m.content {
        SpecMediaContent::Url(u) => "BamlImagePy(url="@ + u + ")"@,
        SpecMediaContent::Base64(b) => "BamlImagePy(base64="@ + b + ", media_type="@ + (match m
            .mime_type {
            Some(t) => t,
            None => Seq::empty(),
        }) + ")"@,
        SpecMediaContent::File(_, _) => "Unknown BamlImagePy variant"@,
    }
}

/// An image value as the host-language bindings hand it around.
#[derive(Debug)]
pub struct BamlImagePy {
    pub inner: BamlMedia,
}

impl BamlImagePy {
    /// An image from a URL, with no mime type.
    pub fn from_url(url: String) -> (r: BamlImagePy)
        ensures
            smedia(r.inner) == (SpecMedia {
                media_type: BamlMediaType::Image,
                mime_type: None::<Seq<char>>,
                content: SpecMediaContent::Url(url@),
            }),
    {
        BamlImagePy { inner: BamlMedia::url(BamlMediaType::Image, url, None) }
    }

    /// An image from base64 data with its mime type.
    pub fn from_base64(media_type: String, base64: String) -> (r: BamlImagePy)
        ensures
            smedia(r.inner) == (SpecMedia {
                media_type: BamlMediaType::Image,
                mime_type: Some(media_type@),
                content: SpecMediaContent::Base64(base64@),
            }),
    {
        BamlImagePy {
            inner: BamlMedia::base64(BamlMediaType::Image, base64, Some(media_type)),
        }
    }

    /// Whether the image is carried as a URL.
    pub fn is_url(&self) -> (r: bool)
        ensures
            r == (smedia(self.inner).content is Url),
    {
        matches!(&self.inner.content, BamlMediaContent::Url { .. })
    }

    /// The URL, exactly when the image is carried as one.
    pub fn as_url(&self) -> (r: Result<String, String>)
        ensures
            match smedia(self.inner).content {
                SpecMediaContent::Url(u) => r is Ok && r->Ok_0@ == u,
                _ => r is Err && r->Err_0@ == "Image is not a URL"@,
            },
    {
        match &self.inner.content {
            BamlMediaContent::Url { url } => Ok(url.clone()),
            _ => Err("Image is not a URL".to_owned()),
        }
    }

    /// The base64 data and the mime type (empty when absent), exactly
    /// when the image is carried as base64.
    pub fn as_base64(&self) -> (r: Result<Vec<String>, String>)
        ensures
            match smedia(self.inner).content {
                SpecMediaContent::Base64(b) => r is Ok && r->Ok_0@.len() == 2 && r->Ok_0@[0]@ == b
                    && r->Ok_0@[1]@ == (match smedia(self.inner).mime_type {
                    Some(t) => t,
                    None => Seq::<char>::empty(),
                }),
                _ => r is Err && r->Err_0@ == "Image is not base64"@,
            },
    {
        match &self.inner.content {
            BamlMediaContent::Base64 { base64 } => {
                let mime = match &self.inner.mime_type {
                    Some(t) => t.clone(),
                    None => String::new(),
                };
                let mut out: Vec<String> = Vec::new();
                out.push(base64.clone());
                out.push(mime);
                Ok(out)
            }
            _ => Err("Image is not base64".to_owned()),
        }
    }

    /// The canonical rendering of the image value.
    pub fn __repr__(&self) -> (r: String)
        ensures
            r@ == spec_image_repr(smedia(self.inner)),
    {
        match &self.inner.content {
            BamlMediaContent::Url { url } => {
                let mut r = "BamlImagePy(url=".to_owned();
                r.append(url.as_str());
                r.append(")");
                proof {
                    assert(r@ =~= spec_image_repr(smedia(self.inner)));
                }
                r
            }
            BamlMediaContent::Base64 { base64 } => {
                let mut r = "BamlImagePy(base64=".to_owned();
                r.append(base64.as_str());
                r.append(", media_type=");
                match &self.inner.mime_type {
                    Some(t) => {
                        r.append(t.as_str());
                    }
                    None => {}
                }
                r.append(")");
                proof {
                    assert(r@ =~= spec_image_repr(smedia(self.inner)));
                }
                r
            }
            BamlMediaContent::File { .. } => "Unknown BamlImagePy variant".to_owned(),
        }
    }

    /// Structural equality of the two image values' models.
    pub fn __eq__(&self, other: &BamlImagePy) -> (r: bool)
        ensures
            r == (smedia(self.inner) == smedia(other.inner)),
    {
        let kinds_eq = match (&self.inner.media_type, &other.inner.media_type) {
            (BamlMediaType::Image, BamlMediaType::Image) => true,
            (BamlMediaType::Audio, BamlMediaType::Audio) => true,
            _ => false,
        };
        let mime_eq = match (&self.inner.mime_type, &other.inner.mime_type) {
            (None, None) => true,
            (Some(a), Some(b)) => str_eq(a.as_str(), b.as_str()),
            _ => false,
        };
        let content_eq = match (&self.inner.content, &other.inner.content) {
            (BamlMediaContent::Url { url: a }, BamlMediaContent::Url { url: b }) => str_eq(
                a.as_str(),
                b.as_str(),
            ),
            (
                BamlMediaContent::Base64 { base64: a },
                BamlMediaContent::Base64 { base64: b },
            ) => str_eq(a.as_str(), b.as_str()),
            (
                BamlMediaContent::File { span_path: a1, relpath: a2 },
                BamlMediaContent::File { span_path: b1, relpath: b2 },
            ) => str_eq(a1.as_str(), b1.as_str()) && str_eq(a2.as_str(), b2.as_str()),
            _ => false,
        };
        kinds_eq && mime_eq && content_eq
    }
}

} // verus!
