//! Requests to the image API and what comes back.
//!
//! An edit request is sent as a multipart form; its fields and their order
//! are fixed here. A response carries its images in base64; decoding them
//! and deciding where each one is written is done here as well.

use crate::input::{ImageData as InputImageData, OutputTargetWithData};
use crate::multipart::{
    content_type_header, encoded_body, generate_boundary, is_generated_boundary, Body, Builder,
    PartView,
};
use crate::text::{decimal, optional_view, push_decimal, to_decimal};
use base64::prelude::BASE64_STANDARD;
use base64::Engine;
use vstd::prelude::*;
use vstd::string::*;

verus! {

/// The body of a request that creates images from a prompt.
#[derive(Debug)]
pub struct CreateRequest {
    /// The model to use.
    pub model: String,
    /// A text description of the desired images.
    pub prompt: String,
    /// The number of images to generate.
    pub n: Option<u8>,
    /// The size of the generated images.
    pub size: Option<String>,
    /// The quality of the generated images.
    pub quality: Option<String>,
    /// Whether the background is transparent or opaque.
    pub background: Option<String>,
    /// The content-moderation level.
    pub moderation: Option<String>,
    /// The compression level of the generated images.
    pub output_compression: Option<u8>,
    /// The format of the generated images.
    pub output_format: Option<String>,
}

/// A request that edits images. It is sent as a multipart form.
#[derive(Debug)]
pub struct EditRequest {
    /// The images to edit.
    pub images: Vec<InputImageData>,
    /// A text description of the desired images.
    pub prompt: String,
    /// An image whose transparent areas say where to edit.
    pub mask: Option<InputImageData>,
    /// The model to use.
    pub model: String,
    /// The number of images to generate.
    pub n: Option<u8>,
    /// The quality of the generated images.
    pub quality: Option<String>,
    /// The size of the generated images.
    pub size: Option<String>,
}

/// What the API answers.
#[derive(Debug)]
pub struct Response {
    /// When the images were created, in seconds since the Unix epoch.
    pub created: u64,
    /// The generated images.
    pub data: Vec<ImageData>,
    /// What the request has used up.
    pub usage: Usage,
}

/// One image of a response.
#[derive(Debug)]
pub struct ImageData {
    /// The image, in base64.
    pub b64_json: String,
}

/// Token counts of a request.
#[derive(Debug)]
pub struct Usage {
    /// All tokens used.
    pub total_tokens: u32,
    /// The tokens of the input.
    pub input_tokens: u32,
    /// The tokens of the generated images.
    pub output_tokens: u32,
    /// The input tokens by kind.
    pub input_tokens_details: InputTokensDetails,
}

/// The input tokens of a request by kind.
#[derive(Debug)]
pub struct InputTokensDetails {
    /// The tokens of the text.
    pub text_tokens: u32,
    /// The tokens of the images.
    pub image_tokens: u32,
}

/// One image of a response as raw bytes.
#[derive(Debug)]
pub struct DecodedImageData {
    /// The bytes of the image.
    pub image_bytes: Vec<u8>,
}

/// A response with its images as raw bytes.
#[derive(Debug)]
pub struct DecodedResponse {
    /// When the images were created, in seconds since the Unix epoch.
    pub created: u64,
    /// The decoded images.
    pub data: Vec<DecodedImageData>,
    /// What the request has used up.
    pub usage: Usage,
}

/// An image of a response that is not valid base64.
#[derive(Debug)]
pub struct InvalidImage {
    /// The position of the image in the response.
    pub image: usize,
    /// What the decoder found.
    pub cause: base64::DecodeError,
}

/// One write of a decoded image.
#[derive(Debug)]
pub struct ImageWrite {
    /// The position of the image in the response.
    pub image: usize,
    /// The file to write, or `None` for standard output.
    pub path: Option<String>,
}

/// Where the images of a response go.
#[derive(Debug)]
pub struct SavePlan {
    /// The writes, in the order in which they are made.
    pub writes: Vec<ImageWrite>,
    /// How many images of the response are written nowhere.
    pub unused: usize,
}

/// Why the images of a response cannot be saved.
#[derive(Debug)]
pub enum SaveError {
    /// The response holds no image, but one was to be written.
    NoImages,
}

/// `base64::DecodeError`, the decoder's account of what is wrong with a
/// text. Nothing is said of what it holds; it is handed on as it comes.
#[verifier::external_type_specification]
#[verifier::external_body]
pub struct ExBase64DecodeError(base64::DecodeError);

/// A file field that carries an image.
pub open spec fn image_part(name: Seq<char>, image: InputImageData) -> PartView {
    PartView::File {
        name,
        filename: image.filename@,
        content_type: image.content_type@,
        content: image.bytes@,
    }
}

/// The text field for an optional value: one part where there is a value.
pub open spec fn optional_text(name: Seq<char>, value: Option<Seq<char>>) -> Seq<PartView> {
    match value {
        Some(value) => seq![PartView::Text { name, value }],
        None => Seq::empty(),
    }
}

/// The parts of an edit request, in the order in which they are sent:
/// prompt and model, then the number of images, the quality and the size
/// where they are set, then one `image[]` field for each image, then the mask.
pub open spec fn edit_parts(request: EditRequest) -> Seq<PartView> {
    seq![
        PartView::Text { name: "prompt"@, value: request.prompt@ },
        PartView::Text { name: "model"@, value: request.model@ },
    ] + optional_text(
        "n"@,
        match request.n {
            Some(n) => Some(decimal(n as nat)),
            None => None,
        },
    ) + optional_text("quality"@, optional_view(request.quality)) + optional_text(
        "size"@,
        optional_view(request.size),
    ) + Seq::new(request.images@.len(), |i: int| image_part("image[]"@, request.images@[i]))
        + match request.mask {
        Some(mask) => seq![image_part("mask"@, mask)],
        None => Seq::empty(),
    }
}

impl EditRequest {
    /// Builds the multipart body of this request with a freshly generated boundary.
    pub fn build_multipart(&self) -> (body: Body)
        ensures
            exists|boundary: Seq<char>|
                is_generated_boundary(boundary) && body.body@ == encoded_body(
                    boundary,
                    edit_parts(*self),
                ) && body.content_type@ == #[trigger] content_type_header(boundary),
    {
        let boundary = generate_boundary();
        let ghost chosen = boundary@;
        let body = self.build_multipart_inner(boundary);
        assert(body.content_type@ == content_type_header(chosen));
        body
    }

    /// Builds the multipart body of this request with the given boundary.
    pub fn build_multipart_inner(&self, boundary: String) -> (body: Body)
        ensures
            body.body@ == encoded_body(boundary@, edit_parts(*self)),
            body.content_type@ == content_type_header(boundary@),
    {
        let ghost fixed = seq![
            PartView::Text { name: "prompt"@, value: self.prompt@ },
            PartView::Text { name: "model"@, value: self.model@ },
        ];
        let n_str = match self.n {
            Some(n) => Some(to_decimal(n as u64)),
            None => None,
        };
        let mut builder = Builder::with_boundary(boundary);
        builder.add_text("prompt", self.prompt.as_str());
        builder.add_text("model", self.model.as_str());
        assert(builder@.parts =~= fixed);
        match &n_str {
            Some(n) => builder.add_text("n", n.as_str()),
            None => {},
        }
        match &self.quality {
            Some(quality) => builder.add_text("quality", quality.as_str()),
            None => {},
        }
        match &self.size {
            Some(size) => builder.add_text("size", size.as_str()),
            None => {},
        }
        let ghost texts = builder@.parts;
        assert(texts =~= fixed + optional_text(
            "n"@,
            match self.n {
                Some(n) => Some(decimal(n as nat)),
                None => None,
            },
        ) + optional_text("quality"@, optional_view(self.quality)) + optional_text(
            "size"@,
            optional_view(self.size),
        ));
        let mut i: usize = 0;
        while i < self.images.len()
            invariant
                i <= self.images.len(),
                builder@.boundary == boundary@,
                builder@.parts == texts + Seq::new(
                    i as nat,
                    |j: int| image_part("image[]"@, self.images@[j]),
                ),
            decreases self.images.len() - i,
        {
            let image = &self.images[i];
            builder.add_file_bytes(
                "image[]",
                image.filename.as_str(),
                image.content_type,
                image.bytes.as_slice(),
            );
            assert(builder@.parts =~= texts + Seq::new(
                (i + 1) as nat,
                |j: int| image_part("image[]"@, self.images@[j]),
            ));
            i += 1;
        }
        match &self.mask {
            Some(mask) => builder.add_file_bytes(
                "mask",
                mask.filename.as_str(),
                mask.content_type,
                mask.bytes.as_slice(),
            ),
            None => {},
        }
        assert(builder@.parts =~= edit_parts(*self));
        builder.build()
    }
}

/// What the standard base64 alphabet with padding decodes a text to, where
/// the text is valid.
pub uninterp spec fn base64_decoded(text: Seq<char>) -> Option<Seq<u8>>;

/// Calls `base64::Engine::decode` of `base64::prelude::BASE64_STANDARD`.
/// Whether the text is accepted, and the bytes it gives, hang on the text
/// alone and are named `base64_decoded`.
#[verifier::external_body]
fn decode_base64(text: &str) -> (decoded: Result<Vec<u8>, base64::DecodeError>)
    ensures
        match decoded {
            Ok(bytes) => base64_decoded(text@) == Some(bytes@),
            Err(_) => base64_decoded(text@) is None,
        },
{
    BASE64_STANDARD.decode(text)
}

/// The conversion is stated by the contract of `try_from`; as a function of
/// its argument alone it is left open.
impl vstd::std_specs::convert::TryFromSpecImpl<ImageData> for DecodedImageData {
    open spec fn obeys_try_from_spec() -> bool {
        false
    }

    open spec fn try_from_spec(v: ImageData) -> Result<Self, Self::Error> {
        arbitrary()
    }
}

impl TryFrom<ImageData> for DecodedImageData {
    type Error = base64::DecodeError;

    /// Decodes the base64 text of one image.
    fn try_from(image_data: ImageData) -> (decoded: Result<
        DecodedImageData,
        base64::DecodeError,
    >)
        ensures
            match decoded {
                Ok(image) => base64_decoded(image_data.b64_json@) == Some(image.image_bytes@),
                Err(_) => base64_decoded(image_data.b64_json@) is None,
            },
    {
        match decode_base64(image_data.b64_json.as_str()) {
            Ok(image_bytes) => Ok(DecodedImageData { image_bytes }),
            Err(cause) => Err(cause),
        }
    }
}

/// Whether the image at `index` of a response is valid base64.
pub open spec fn decodes(data: Seq<ImageData>, index: int) -> bool {
    base64_decoded(data[index].b64_json@) is Some
}

/// The conversion is stated by the contract of `try_from`; as a function of
/// its argument alone it is left open.
impl vstd::std_specs::convert::TryFromSpecImpl<Response> for DecodedResponse {
    open spec fn obeys_try_from_spec() -> bool {
        false
    }

    open spec fn try_from_spec(v: Response) -> Result<Self, Self::Error> {
        arbitrary()
    }
}

impl TryFrom<Response> for DecodedResponse {
    type Error = InvalidImage;

    /// Decodes every image of a response. The first image that is not valid
    /// base64 makes the whole response fail.
    fn try_from(response: Response) -> (decoded: Result<DecodedResponse, InvalidImage>)
        ensures
            match decoded {
                Ok(decoded) => {
                    &&& decoded.created == response.created
                    &&& decoded.usage == response.usage
                    &&& decoded.data@.len() == response.data@.len()
                    &&& forall|i: int|
                        0 <= i < response.data@.len() ==> base64_decoded(
                            #[trigger] response.data@[i].b64_json@,
                        ) == Some(decoded.data@[i].image_bytes@)
                },
                Err(error) => {
                    &&& error.image < response.data@.len()
                    &&& !decodes(response.data@, error.image as int)
                    &&& forall|i: int| 0 <= i < error.image ==> decodes(response.data@, i)
                },
            },
    {
        let Response { created, data, usage } = response;
        let mut decoded: Vec<DecodedImageData> = Vec::new();
        let mut i: usize = 0;
        while i < data.len()
            invariant
                i <= data.len(),
                data == response.data,
                decoded@.len() == i,
                forall|j: int|
                    0 <= j < i ==> base64_decoded(#[trigger] data@[j].b64_json@) == Some(
                        decoded@[j].image_bytes@,
                    ),
            decreases data.len() - i,
        {
            match decode_base64(data[i].b64_json.as_str()) {
                Ok(image_bytes) => decoded.push(DecodedImageData { image_bytes }),
                Err(cause) => {
                    return Err(InvalidImage { image: i, cause });
                },
            }
            i += 1;
        }
        Ok(DecodedResponse { created, data: decoded, usage })
    }
}

/// An extension without the dots in front of it.
pub open spec fn without_leading_dots(extension: Seq<char>) -> Seq<char>
    decreases extension.len(),
{
    if extension.len() > 0 && extension[0] == '.' {
        without_leading_dots(extension.drop_first())
    } else {
        extension
    }
}

/// The name of an automatically named file:
/// `prefix.created.number.extension`.
pub open spec fn automatic_name(
    prefix: Seq<char>,
    created: u64,
    number: nat,
    extension: Seq<char>,
) -> Seq<char> {
    prefix + "."@ + decimal(created as nat) + "."@ + decimal(number) + "."@
        + without_leading_dots(extension)
}

/// Takes the dots off the front of an extension.
fn trim_leading_dots(extension: &str) -> (trimmed: &str)
    ensures
        trimmed@ == without_leading_dots(extension@),
{
    let len = extension.unicode_len();
    let mut start: usize = 0;
    proof {
        assert(extension@.subrange(0, len as int) =~= extension@);
    }
    while start < len && extension.get_char(start) == '.'
        invariant
            start <= len,
            len == extension@.len(),
            without_leading_dots(extension@) == without_leading_dots(
                extension@.subrange(start as int, len as int),
            ),
        decreases len - start,
    {
        proof {
            let rest = extension@.subrange(start as int, len as int);
            assert(rest.drop_first() =~= extension@.subrange(start as int + 1, len as int));
        }
        start += 1;
    }
    extension.substring_char(start, len)
}

impl DecodedResponse {
    /// Settles where each image of the response is written.
    ///
    /// With automatic names every image goes to a file of its own, numbered
    /// from 1. A named file or standard output takes the first image; the
    /// others are left out, and a response without images is an error.
    pub fn save_images(&self, out_target: OutputTargetWithData<'_>) -> (plan: Result<
        SavePlan,
        SaveError,
    >)
        ensures
            match out_target {
                OutputTargetWithData::Automatic { prefix, extension } => {
                    &&& plan matches Ok(plan)
                    &&& plan.unused == 0
                    &&& plan.writes@.len() == self.data@.len()
                    &&& forall|i: int|
                        0 <= i < self.data@.len() ==> {
                            &&& (#[trigger] plan.writes@[i]).image == i
                            &&& plan.writes@[i].path matches Some(name)
                            &&& name@ == automatic_name(prefix@, self.created, (i + 1) as nat, extension@)
                        }
                },
                OutputTargetWithData::File(path) => {
                    if self.data@.len() == 0 {
                        plan == Err::<SavePlan, SaveError>(SaveError::NoImages)
                    } else {
                        &&& plan matches Ok(plan)
                        &&& plan.unused == self.data@.len() - 1
                        &&& plan.writes@.len() == 1
                        &&& plan.writes@[0].image == 0
                        &&& plan.writes@[0].path matches Some(target)
                        &&& target@ == path@
                    }
                },
                OutputTargetWithData::Stdout => {
                    if self.data@.len() == 0 {
                        plan == Err::<SavePlan, SaveError>(SaveError::NoImages)
                    } else {
                        &&& plan matches Ok(plan)
                        &&& plan.unused == self.data@.len() - 1
                        &&& plan.writes@.len() == 1
                        &&& plan.writes@[0].image == 0
                        &&& plan.writes@[0].path is None
                    }
                },
            },
    {
        match out_target {
            OutputTargetWithData::Automatic { prefix, extension } => {
                let ext = trim_leading_dots(extension);
                let mut writes: Vec<ImageWrite> = Vec::new();
                let mut i: usize = 0;
                while i < self.data.len()
                    invariant
                        i <= self.data.len(),
                        ext@ == without_leading_dots(extension@),
                        writes@.len() == i,
                        forall|j: int|
                            0 <= j < i ==> {
                                &&& (#[trigger] writes@[j]).image == j
                                &&& writes@[j].path matches Some(name)
                                &&& name@ == automatic_name(
                                    prefix@,
                                    self.created,
                                    (j + 1) as nat,
                                    extension@,
                                )
                            },
                    decreases self.data.len() - i,
                {
                    let mut name = prefix.clone();
                    name.append(".");
                    push_decimal(&mut name, self.created);
                    name.append(".");
                    push_decimal(&mut name, (i + 1) as u64);
                    name.append(".");
                    name.append(ext);
                    writes.push(ImageWrite { image: i, path: Some(name) });
                    i += 1;
                }
                Ok(SavePlan { writes, unused: 0 })
            },
            OutputTargetWithData::File(path) => {
                if self.data.len() == 0 {
                    return Err(SaveError::NoImages);
                }
                let mut writes: Vec<ImageWrite> = Vec::new();
                writes.push(ImageWrite { image: 0, path: Some(String::from_str(path)) });
                Ok(SavePlan { writes, unused: self.data.len() - 1 })
            },
            OutputTargetWithData::Stdout => {
                if self.data.len() == 0 {
                    return Err(SaveError::NoImages);
                }
                let mut writes: Vec<ImageWrite> = Vec::new();
                writes.push(ImageWrite { image: 0, path: None });
                Ok(SavePlan { writes, unused: self.data.len() - 1 })
            },
        }
    }
}

impl SaveError {
    /// The message of this error, in words.
    pub open spec fn text(self) -> Seq<char> {
        "API unexpectedly returned no images"@
    }

    /// The message of this error.
    pub fn message(&self) -> (message: String)
        ensures
            message@ == self.text(),
    {
        String::from_str("API unexpectedly returned no images")
    }
}

} // verus!
