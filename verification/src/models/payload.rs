//! The raw form of a message: inline bytes or a referenced file, with the
//! format, schema and encoding that they are declared to have.
use vstd::prelude::*;

verus! {

/// Where a payload's content is kept.
#[derive(Clone, Copy, Debug, PartialEq, Eq, Structural)]
pub enum StorageType {
    Inline,
    File,
}

/// The format of a payload's content.
#[derive(Clone, Copy, Debug, PartialEq, Eq, Structural)]
pub enum PayloadFormat {
    Xml,
    Json,
}

/// The schema that a payload's content is declared to follow.
#[derive(Clone, Copy, Debug, PartialEq, Eq, Structural)]
pub enum PayloadSchema {
    ISO20022,
}

/// The character encoding of a payload's content.
#[derive(Clone, Copy, Debug, PartialEq, Eq, Structural)]
pub enum Encoding {
    Utf8,
    Utf16,
    Utf32,
    Ascii,
}

impl Encoding {
    /// The name under which the encoding is written: `UTF-8`, `UTF-16`,
    /// `UTF-32` or `ASCII`.
    pub open spec fn spec_name(self) -> Seq<char> {
        match self {
            Encoding::Utf8 => "UTF-8"@,
            Encoding::Utf16 => "UTF-16"@,
            Encoding::Utf32 => "UTF-32"@,
            Encoding::Ascii => "ASCII"@,
        }
    }

    /// The name under which the encoding is written.
    pub fn name(self) -> (r: &'static str)
        ensures
            r@ == self.spec_name(),
    {
        match self {
            Encoding::Utf8 => "UTF-8",
            Encoding::Utf16 => "UTF-16",
            Encoding::Utf32 => "UTF-32",
            Encoding::Ascii => "ASCII",
        }
    }
}

/// A payload: a container of bytes or of a file's location.
#[derive(Debug, PartialEq)]
pub struct Payload {
    pub(crate) storage: StorageType,
    pub(crate) content: Option<Vec<u8>>,
    pub(crate) url: Option<String>,
    pub(crate) format: PayloadFormat,
    pub(crate) schema: PayloadSchema,
    pub(crate) encoding: Encoding,
    pub(crate) size: i64,
}

/// The value of a [`Payload`].
pub ghost struct PayloadView {
    pub storage: StorageType,
    pub content: Option<Seq<u8>>,
    pub url: Option<Seq<char>>,
    pub format: PayloadFormat,
    pub schema: PayloadSchema,
    pub encoding: Encoding,
    pub size: i64,
}

/// The source that a payload is read from.
pub ghost enum PayloadSource {
    /// The inline bytes.
    Inline(Seq<u8>),
    /// The file at this location.
    File(Seq<char>),
    /// Neither content nor location is there.
    Missing,
}

impl PayloadView {
    /// Inline content comes first, a file's location second.
    pub open spec fn source(self) -> PayloadSource {
        match self.content {
            Some(bytes) => PayloadSource::Inline(bytes),
            None => match self.url {
                Some(url) => PayloadSource::File(url),
                None => PayloadSource::Missing,
            },
        }
    }
}

impl View for Payload {
    type V = PayloadView;

    open(crate) spec fn view(&self) -> PayloadView {
        PayloadView {
            storage: self.storage,
            content: match self.content {
                Some(bytes) => Some(bytes@),
                None => None,
            },
            url: match self.url {
                Some(url) => Some(url@),
                None => None,
            },
            format: self.format,
            schema: self.schema,
            encoding: self.encoding,
            size: self.size,
        }
    }
}

impl Payload {
    /// The inline bytes, if there are any.
    pub fn content(&self) -> (r: Option<&[u8]>)
        ensures
            r is Some == self@.content is Some,
            r matches Some(bytes) ==> bytes@ == self@.content->0,
    {
        match &self.content {
            Some(bytes) => Some(bytes.as_slice()),
            None => None,
        }
    }

    /// The file's location, if there is one.
    pub fn url(&self) -> (r: Option<&str>)
        ensures
            r is Some == self@.url is Some,
            r matches Some(url) ==> url@ == self@.url->0,
    {
        match &self.url {
            Some(url) => Some(url.as_str()),
            None => None,
        }
    }

    /// Where the content is kept.
    pub fn storage(&self) -> (r: StorageType)
        ensures
            r == self@.storage,
    {
        self.storage
    }

    /// The format of the content.
    pub fn format(&self) -> (r: PayloadFormat)
        ensures
            r == self@.format,
    {
        self.format
    }

    /// The schema of the content.
    pub fn schema(&self) -> (r: PayloadSchema)
        ensures
            r == self@.schema,
    {
        self.schema
    }

    /// The encoding of the content.
    pub fn encoding(&self) -> (r: Encoding)
        ensures
            r == self@.encoding,
    {
        self.encoding
    }

    /// The size in bytes, as it was declared.
    pub fn size(&self) -> (r: i64)
        ensures
            r == self@.size,
    {
        self.size
    }

    /// A payload whose content is held inline. Its declared size is 0.
    pub fn new_inline(
        content: Option<Vec<u8>>,
        format: PayloadFormat,
        schema: PayloadSchema,
        encoding: Encoding,
    ) -> (r: Self)
        ensures
            r@ == (PayloadView {
                storage: StorageType::Inline,
                content: match content {
                    Some(bytes) => Some(bytes@),
                    None => None,
                },
                url: None,
                format,
                schema,
                encoding,
                size: 0,
            }),
    {
        Payload { storage: StorageType::Inline, content, url: None, format, schema, encoding, size: 0 }
    }

    /// A payload whose content is in a file.
    pub fn new_file(
        url: Option<String>,
        format: PayloadFormat,
        schema: PayloadSchema,
        encoding: Encoding,
        size: i64,
    ) -> (r: Self)
        ensures
            r@ == (PayloadView {
                storage: StorageType::File,
                content: None,
                url: match url {
                    Some(url) => Some(url@),
                    None => None,
                },
                format,
                schema,
                encoding,
                size,
            }),
    {
        Payload { storage: StorageType::File, content: None, url, format, schema, encoding, size }
    }

    /// A payload with every part given.
    pub fn from_parts(
        storage: StorageType,
        content: Option<Vec<u8>>,
        url: Option<String>,
        format: PayloadFormat,
        schema: PayloadSchema,
        encoding: Encoding,
        size: i64,
    ) -> (r: Self)
        ensures
            r@ == (PayloadView {
                storage,
                content: match content {
                    Some(bytes) => Some(bytes@),
                    None => None,
                },
                url: match url {
                    Some(url) => Some(url@),
                    None => None,
                },
                format,
                schema,
                encoding,
                size,
            }),
    {
        Payload { storage, content, url, format, schema, encoding, size }
    }
}

impl Clone for Payload {
    fn clone(&self) -> (r: Self)
        ensures
            r@ == self@,
    {
        let content = match &self.content {
            Some(bytes) => Some(bytes.clone()),
            None => None,
        };
        let url = match &self.url {
            Some(url) => Some(url.clone()),
            None => None,
        };
        Payload {
            storage: self.storage,
            content,
            url,
            format: self.format,
            schema: self.schema,
            encoding: self.encoding,
            size: self.size,
        }
    }
}

} // verus!
