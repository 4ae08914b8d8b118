//! Command-line options: their defaults, and the requests they ask for.
//!
//! An option that has the value the API would take anyway is not sent.
//! Options that belong to the other kind of request are left out and named,
//! so that the user can be told.

use crate::api::{CreateRequest, EditRequest};
use crate::input::{ImageArg, ImageData, OutputArg, PromptArg};
use crate::text::{lowercase, optional_view, str_eq, to_lowercase};
use vstd::prelude::*;
use vstd::string::*;

verus! {

/// The options of one run, as they were given.
#[derive(Debug)]
pub struct GenerateArgs {
    /// A text description of the desired images.
    pub prompt: Option<PromptArg>,
    /// Images to edit. With at least one, the run edits images.
    pub image: Vec<ImageArg>,
    /// An image whose transparent areas say where to edit.
    pub mask: Option<ImageArg>,
    /// Where the generated image goes.
    pub output: Option<OutputArg>,
    /// Whether the generated images are opened in a viewer.
    pub open: bool,
    /// The number of images to generate.
    pub n: u8,
    /// The size of the generated images.
    pub size: String,
    /// The quality of the generated images.
    pub quality: String,
    /// Whether the background is transparent or opaque.
    pub background: String,
    /// The content-moderation level.
    pub moderation: String,
    /// The compression level of the generated images.
    pub output_compression: u8,
    /// The format of the generated images.
    pub output_format: String,
}

/// An option that was set but does not apply to the request at hand.
#[derive(Debug, Clone, Copy, PartialEq, Eq, Structural)]
pub enum IgnoredOption {
    Background,
    Moderation,
    OutputCompression,
    OutputFormat,
    Mask,
}

/// The output compression that is taken where none is given.
pub const DEFAULT_OUTPUT_COMPRESSION: u8 = 100;

/// The number of images that is taken where none is given, by the command
/// line and by the API alike.
pub const DEFAULT_NUM_IMAGES: u8 = 1;

/// The model that every request names.
pub open spec fn model_name() -> Seq<char> {
    "gpt-image-1"@
}

/// The image count to send: one is what the API takes anyway.
pub fn n_canonical(n: u8) -> (sent: Option<u8>)
    ensures
        sent == if n == DEFAULT_NUM_IMAGES {
            None
        } else {
            Some(n)
        },
{
    if n == DEFAULT_NUM_IMAGES {
        None
    } else {
        Some(n)
    }
}

/// The size to send for a size whose lower-case form is `lowered`: none for
/// `auto`, the pixel size for a named shape, the size itself otherwise.
pub open spec fn canonical_size(lowered: Seq<char>, size: Seq<char>) -> Option<Seq<char>> {
    if lowered == "auto"@ {
        None
    } else if lowered == "square"@ {
        Some("1024x1024"@)
    } else if lowered == "landscape"@ {
        Some("1536x1024"@)
    } else if lowered == "portrait"@ {
        Some("1024x1536"@)
    } else {
        Some(size)
    }
}

/// The value to send for a value whose lower-case form is `lowered`: none
/// for `auto`, the value itself otherwise.
pub open spec fn unless_auto(lowered: Seq<char>, value: Seq<char>) -> Option<Seq<char>> {
    if lowered == "auto"@ {
        None
    } else {
        Some(value)
    }
}

/// The size to send, given the size and its lower-case form.
pub fn size_for(lowered: &str, size: String) -> (sent: Option<String>)
    ensures
        optional_view(sent) == canonical_size(lowered@, size@),
{
    if str_eq(lowered, "auto") {
        None
    } else if str_eq(lowered, "square") {
        Some(String::from_str("1024x1024"))
    } else if str_eq(lowered, "landscape") {
        Some(String::from_str("1536x1024"))
    } else if str_eq(lowered, "portrait") {
        Some(String::from_str("1024x1536"))
    } else {
        Some(size)
    }
}

/// The value to send, given the value and its lower-case form.
pub fn value_unless_auto(lowered: &str, value: String) -> (sent: Option<String>)
    ensures
        optional_view(sent) == unless_auto(lowered@, value@),
        sent matches Some(kept) ==> kept == value,
{
    if str_eq(lowered, "auto") {
        None
    } else {
        Some(value)
    }
}

/// The size to send: none for `auto` in any case of letters, the pixel
/// size for `square`, `landscape` and `portrait`, else the size as given.
pub fn size_canonical(size: String) -> (sent: Option<String>)
    ensures
        optional_view(sent) == canonical_size(lowercase(size@), size@),
{
    let lowered = to_lowercase(size.as_str());
    size_for(lowered.as_str(), size)
}

/// The quality to send: none for `auto` in any case of letters.
pub fn quality_canonical(quality: String) -> (sent: Option<String>)
    ensures
        optional_view(sent) == unless_auto(lowercase(quality@), quality@),
{
    let lowered = to_lowercase(quality.as_str());
    value_unless_auto(lowered.as_str(), quality)
}

/// The background to send: none for `auto` in any case of letters.
pub fn background_canonical(background: String) -> (sent: Option<String>)
    ensures
        optional_view(sent) == unless_auto(lowercase(background@), background@),
{
    let lowered = to_lowercase(background.as_str());
    value_unless_auto(lowered.as_str(), background)
}

/// The moderation level to send: none for `auto` in any case of letters.
pub fn moderation_canonical(moderation: String) -> (sent: Option<String>)
    ensures
        optional_view(sent) == unless_auto(lowercase(moderation@), moderation@),
{
    let lowered = to_lowercase(moderation.as_str());
    value_unless_auto(lowered.as_str(), moderation)
}

impl IgnoredOption {
    /// The warning for this option, in words.
    pub open spec fn text(self) -> Seq<char> {
        match self {
            IgnoredOption::Background =>
                "Ignoring --background option; it is only applicable when generating images without --image inputs."@,
            IgnoredOption::Moderation =>
                "Ignoring --moderation option; it is only applicable when generating images without --image inputs."@,
            IgnoredOption::OutputCompression =>
                "Ignoring --output-compression option; it is only applicable when generating images without --image inputs."@,
            IgnoredOption::OutputFormat =>
                "Ignoring --output-format option; it is only applicable when generating images without --image inputs."@,
            IgnoredOption::Mask =>
                "Ignoring --mask option; it is only applicable when generating images using --image inputs."@,
        }
    }

    /// The warning for this option.
    pub fn message(&self) -> (message: &'static str)
        ensures
            message@ == self.text(),
    {
        match self {
            IgnoredOption::Background =>
                "Ignoring --background option; it is only applicable when generating images without --image inputs.",
            IgnoredOption::Moderation =>
                "Ignoring --moderation option; it is only applicable when generating images without --image inputs.",
            IgnoredOption::OutputCompression =>
                "Ignoring --output-compression option; it is only applicable when generating images without --image inputs.",
            IgnoredOption::OutputFormat =>
                "Ignoring --output-format option; it is only applicable when generating images without --image inputs.",
            IgnoredOption::Mask =>
                "Ignoring --mask option; it is only applicable when generating images using --image inputs.",
        }
    }
}

/// One option where `set` holds, none otherwise.
pub open spec fn ignored_if(set: bool, option: IgnoredOption) -> Seq<IgnoredOption> {
    if set {
        seq![option]
    } else {
        Seq::empty()
    }
}

impl GenerateArgs {
    /// Whether the run edits images: it does where images were given.
    pub open spec fn edits(self) -> bool {
        self.image@.len() > 0
    }

    /// The options that were set but are left out of the request. An edit
    /// leaves out background, moderation, output compression and output
    /// format where they differ from their defaults; a creation leaves out
    /// the mask.
    pub open spec fn ignored(self) -> Seq<IgnoredOption> {
        if self.edits() {
            ignored_if(self.background@ != "auto"@, IgnoredOption::Background) + ignored_if(
                self.moderation@ != "low"@,
                IgnoredOption::Moderation,
            ) + ignored_if(
                self.output_compression != DEFAULT_OUTPUT_COMPRESSION,
                IgnoredOption::OutputCompression,
            ) + ignored_if(self.output_format@ != "png"@, IgnoredOption::OutputFormat)
        } else {
            ignored_if(self.mask is Some, IgnoredOption::Mask)
        }
    }

    /// Whether the run edits images.
    pub fn uses_edit_api(&self) -> (edits: bool)
        ensures
            edits == self.edits(),
    {
        self.image.len() > 0
    }

    /// The options that were set but do not apply to the request of this run.
    pub fn ignored_options(&self) -> (ignored: Vec<IgnoredOption>)
        ensures
            ignored@ == self.ignored(),
    {
        let mut ignored: Vec<IgnoredOption> = Vec::new();
        if self.uses_edit_api() {
            if !str_eq(self.background.as_str(), "auto") {
                ignored.push(IgnoredOption::Background);
            }
            if !str_eq(self.moderation.as_str(), "low") {
                ignored.push(IgnoredOption::Moderation);
            }
            if self.output_compression != DEFAULT_OUTPUT_COMPRESSION {
                ignored.push(IgnoredOption::OutputCompression);
            }
            if !str_eq(self.output_format.as_str(), "png") {
                ignored.push(IgnoredOption::OutputFormat);
            }
        } else {
            if self.mask.is_some() {
                ignored.push(IgnoredOption::Mask);
            }
        }
        assert(ignored@ =~= self.ignored());
        ignored
    }

    /// The request that creates images for `prompt` with these options.
    /// Output compression and output format are always sent.
    pub fn create_request(&self, prompt: String) -> (request: CreateRequest)
        ensures
            request.model@ == model_name(),
            request.prompt == prompt,
            request.n == if self.n == DEFAULT_NUM_IMAGES {
                None
            } else {
                Some(self.n)
            },
            optional_view(request.size) == canonical_size(lowercase(self.size@), self.size@),
            optional_view(request.quality) == unless_auto(
                lowercase(self.quality@),
                self.quality@,
            ),
            optional_view(request.background) == unless_auto(
                lowercase(self.background@),
                self.background@,
            ),
            optional_view(request.moderation) == unless_auto(
                lowercase(self.moderation@),
                self.moderation@,
            ),
            request.output_compression == Some(self.output_compression),
            optional_view(request.output_format) == Some(self.output_format@),
    {
        CreateRequest {
            model: String::from_str("gpt-image-1"),
            prompt,
            n: n_canonical(self.n),
            size: size_canonical(self.size.clone()),
            quality: quality_canonical(self.quality.clone()),
            background: background_canonical(self.background.clone()),
            moderation: moderation_canonical(self.moderation.clone()),
            output_compression: Some(self.output_compression),
            output_format: Some(self.output_format.clone()),
        }
    }

    /// The request that edits `images` for `prompt` with these options.
    pub fn edit_request(&self, prompt: String, images: Vec<ImageData>, mask: Option<ImageData>) -> (request:
        EditRequest)
        ensures
            request.model@ == model_name(),
            request.prompt == prompt,
            request.images == images,
            request.mask == mask,
            request.n == if self.n == DEFAULT_NUM_IMAGES {
                None
            } else {
                Some(self.n)
            },
            optional_view(request.size) == canonical_size(lowercase(self.size@), self.size@),
            optional_view(request.quality) == unless_auto(
                lowercase(self.quality@),
                self.quality@,
            ),
    {
        EditRequest {
            images,
            prompt,
            mask,
            model: String::from_str("gpt-image-1"),
            n: n_canonical(self.n),
            quality: quality_canonical(self.quality.clone()),
            size: size_canonical(self.size.clone()),
        }
    }
}

} // verus!
