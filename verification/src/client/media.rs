//! Uploaded files, and where the media of a message can be fetched.

use vstd::prelude::*;
use crate::client::api::enums;
use crate::client::api::types;
use crate::client::update::IncomingMessage;
use crate::text::str_copy;
use crate::tl::wire::copy_range;

verus! {

/// Files of this many bytes and more are uploaded as big files.
pub const BIG_FILE_THRESHOLD: i64 = 10485760;

/// The size of the parts in which a file is uploaded.
pub const UPLOAD_PART_SIZE: i64 = 524288;

/// A file that has been uploaded and can be sent.
#[derive(Clone, Debug, PartialEq, Eq)]
pub struct UploadedFile {
    pub(crate) inner: types::InputFile,
    pub(crate) mime_type: String,
    pub(crate) name: String,
}

/// A copy of an uploaded file's handle.
fn copy_input_file(f: &types::InputFile) -> (c: types::InputFile)
    ensures
        c.id == f.id,
        c.parts == f.parts,
        c.name@ == f.name@,
        c.big == f.big,
{
    types::InputFile { id: f.id, parts: f.parts, name: str_copy(f.name.as_str()), big: f.big }
}

impl UploadedFile {
    /// The file's handle.
    pub closed spec fn handle(self) -> types::InputFile {
        self.inner
    }

    /// The file's MIME type.
    pub closed spec fn spec_mime_type(self) -> Seq<char> {
        self.mime_type@
    }

    /// The file's name.
    pub closed spec fn spec_name(self) -> Seq<char> {
        self.name@
    }

    /// The uploaded file with the handle `inner`.
    pub fn new(inner: types::InputFile, mime_type: &str, name: &str) -> (f: Self)
        ensures
            f.handle() == inner,
            f.spec_mime_type() == mime_type@,
            f.spec_name() == name@,
    {
        UploadedFile { inner, mime_type: str_copy(mime_type), name: str_copy(name) }
    }

    /// The file's MIME type.
    pub fn mime_type(&self) -> (t: &str)
        ensures
            t@ == self.spec_mime_type(),
    {
        self.mime_type.as_str()
    }

    /// The file's name.
    pub fn name(&self) -> (n: &str)
        ensures
            n@ == self.spec_name(),
    {
        self.name.as_str()
    }

    /// The file as a document to send: with its MIME type, and its name as
    /// the only attribute.
    pub fn as_document_media(&self) -> (m: enums::InputMedia)
        ensures
            m is UploadedDocument,
            ({
                let d = m->UploadedDocument_0;
                &&& !d.nosound_video && !d.force_file && !d.spoiler
                &&& d.file.id == self.handle().id && d.file.parts == self.handle().parts
                    && d.file.name@ == self.handle().name@ && d.file.big == self.handle().big
                &&& d.mime_type@ == self.spec_mime_type()
                &&& d.attributes@.len() == 1
                &&& d.attributes@[0] is Filename
                &&& d.attributes@[0]->Filename_0.file_name@ == self.spec_name()
            }),
    {
        let mut attributes: Vec<enums::DocumentAttribute> = Vec::new();
        attributes.push(
            enums::DocumentAttribute::Filename(
                types::DocumentAttributeFilename { file_name: str_copy(self.name.as_str()) },
            ),
        );
        enums::InputMedia::UploadedDocument(
            types::InputMediaUploadedDocument {
                nosound_video: false,
                force_file: false,
                spoiler: false,
                file: copy_input_file(&self.inner),
                mime_type: str_copy(self.mime_type.as_str()),
                attributes,
            },
        )
    }

    /// The file as a photo to send.
    pub fn as_photo_media(&self) -> (m: enums::InputMedia)
        ensures
            m is UploadedPhoto,
            ({
                let p = m->UploadedPhoto_0;
                &&& !p.spoiler
                &&& p.file.id == self.handle().id && p.file.parts == self.handle().parts
                    && p.file.name@ == self.handle().name@ && p.file.big == self.handle().big
            }),
    {
        enums::InputMedia::UploadedPhoto(
            types::InputMediaUploadedPhoto { spoiler: false, file: copy_input_file(&self.inner) },
        )
    }
}

/// The kind of the last size of `sizes` that is a proper size; `s` where
/// there is none.
pub open spec fn spec_largest_thumb(sizes: Seq<enums::PhotoSize>) -> Seq<char>
    decreases sizes.len(),
{
    if sizes.len() == 0 {
        "s"@
    } else {
        match sizes.last() {
            enums::PhotoSize::PhotoSize(ps) => ps.kind@,
            _ => spec_largest_thumb(sizes.drop_last()),
        }
    }
}

/// The kind of the largest size of a photo, which the server lists last.
pub fn largest_thumb(sizes: &Vec<enums::PhotoSize>) -> (kind: String)
    ensures
        kind@ == spec_largest_thumb(sizes@),
{
    let mut i: usize = sizes.len();
    assert(sizes@.take(i as int) =~= sizes@);
    while i > 0
        invariant
            i <= sizes@.len(),
            spec_largest_thumb(sizes@) == spec_largest_thumb(sizes@.take(i as int)),
        decreases i,
    {
        i -= 1;
        assert(sizes@.take(i as int + 1).last() == sizes@[i as int]);
        match &sizes[i] {
            enums::PhotoSize::PhotoSize(ps) => {
                return str_copy(ps.kind.as_str());
            },
            _ => {},
        }
        assert(sizes@.take(i as int + 1).drop_last() =~= sizes@.take(i as int));
    }
    str_copy("s")
}

/// How many parts a file of `size` bytes is uploaded in, and whether it
/// counts as a big file.
pub fn upload_plan(size: i64) -> (r: (i64, bool))
    requires
        size >= 0,
    ensures
        r.0 == (size + UPLOAD_PART_SIZE - 1) / (UPLOAD_PART_SIZE as int),
        r.1 == (size >= BIG_FILE_THRESHOLD),
{
    let parts = size / UPLOAD_PART_SIZE + if size % UPLOAD_PART_SIZE != 0 {
        1
    } else {
        0
    };
    (parts, size >= BIG_FILE_THRESHOLD)
}

impl IncomingMessage {
    /// Where the media of the message can be fetched: the largest size of
    /// a photo, or a document as a whole; nowhere for anything else.
    pub fn download_location(&self) -> (r: Option<enums::InputFileLocation>)
        ensures
            match self.raw {
                enums::Message::Message(m) => match m.media {
                    Some(enums::MessageMedia::Photo(mp)) => match mp.photo {
                        Some(enums::Photo::Photo(p)) => r is Some && r->Some_0
                            is InputPhotoFileLocation && ({
                            let loc = r->Some_0->InputPhotoFileLocation_0;
                            &&& loc.id == p.id
                            &&& loc.access_hash == p.access_hash
                            &&& loc.file_reference@ == p.file_reference@
                            &&& loc.thumb_size@ == spec_largest_thumb(p.sizes@)
                        }),
                        _ => r is None,
                    },
                    Some(enums::MessageMedia::Document(md)) => match md.document {
                        Some(enums::Document::Document(d)) => r is Some && r->Some_0
                            is InputDocumentFileLocation && ({
                            let loc = r->Some_0->InputDocumentFileLocation_0;
                            &&& loc.id == d.id
                            &&& loc.access_hash == d.access_hash
                            &&& loc.file_reference@ == d.file_reference@
                            &&& loc.thumb_size@ == Seq::<char>::empty()
                        }),
                        _ => r is None,
                    },
                    _ => r is None,
                },
                _ => r is None,
            },
    {
        let media = match &self.raw {
            enums::Message::Message(m) => match &m.media {
                Some(media) => media,
                None => {
                    return None;
                },
            },
            _ => {
                return None;
            },
        };
        match media {
            enums::MessageMedia::Photo(mp) => match &mp.photo {
                Some(enums::Photo::Photo(p)) => {
                    let reference = copy_range(p.file_reference.as_slice(), 0, p.file_reference.len());
                    assert(reference@ =~= p.file_reference@);
                    Some(
                        enums::InputFileLocation::InputPhotoFileLocation(
                            types::InputPhotoFileLocation {
                                id: p.id,
                                access_hash: p.access_hash,
                                file_reference: reference,
                                thumb_size: largest_thumb(&p.sizes),
                            },
                        ),
                    )
                },
                _ => None,
            },
            enums::MessageMedia::Document(md) => match &md.document {
                Some(enums::Document::Document(d)) => {
                    let reference = copy_range(d.file_reference.as_slice(), 0, d.file_reference.len());
                    assert(reference@ =~= d.file_reference@);
                    Some(
                        enums::InputFileLocation::InputDocumentFileLocation(
                            types::InputDocumentFileLocation {
                                id: d.id,
                                access_hash: d.access_hash,
                                file_reference: reference,
                                thumb_size: String::new(),
                            },
                        ),
                    )
                },
                _ => None,
            },
            _ => None,
        }
    }
}

} // verus!
