//! Command-line inputs: what each token names, and which combinations are allowed.
//!
//! A token is `-` for a standard stream, `@path` for a file that must exist,
//! or plain text, which names a file where one of that name exists. Whether
//! a path exists is found out by the caller; everything decided from it is
//! decided here.

use crate::multipart::{
    ext_from_mime, extension_for_mime, is_jpeg, is_png, is_webp, lemma_mime_types_differ,
    mime_for_extension, mime_from_bytes, mime_from_filename, path_extension, sniffed_mime,
};
use crate::sanitize::{prompt_prefix, prompt_prefix_of};
use crate::text::{decimal, push_decimal};
use vstd::prelude::*;
use vstd::string::*;

verus! {

/// A prompt: literal text, a file to read it from, or standard input.
#[derive(Clone, Debug)]
pub enum PromptArg {
    Literal(String),
    File(String),
    Stdin,
}

/// An image input: a file to read it from, or standard input.
#[derive(Clone, Debug)]
pub enum ImageArg {
    File(String),
    Stdin,
}

/// Where the output was asked to go, before it is held against the image count.
#[derive(Clone, Debug)]
pub enum OutputArg {
    File(String),
    Stdout,
}

/// What one token names: literal text, a file, or standard input.
#[derive(Clone, Debug)]
pub enum InputSource {
    Literal(String),
    File(String),
    Stdin,
}

/// Where the generated images go.
#[derive(Debug)]
pub enum OutputTarget {
    /// Files named after the prompt, the time of creation and the image's number.
    Automatic,
    /// One file at the given path. Only for a single image.
    File(String),
    /// Standard output. Only for a single image.
    Stdout,
}

/// An [`OutputTarget`] with what is needed to name the files.
#[derive(Debug)]
pub enum OutputTargetWithData<'a> {
    Automatic { prefix: String, extension: &'a str },
    File(&'a str),
    Stdout,
}

/// An image that was read, with the name and media type to send it under.
#[derive(Clone, Debug)]
pub struct ImageData {
    pub bytes: Vec<u8>,
    pub filename: String,
    pub content_type: &'static str,
}

/// The inputs of one run, checked against each other.
#[derive(Debug)]
pub struct InputArgs {
    pub prompt: PromptArg,
    pub images: Vec<ImageArg>,
    pub mask: Option<ImageArg>,
    pub out_target: OutputTarget,
}

/// Why a token or a combination of inputs was refused.
#[derive(Debug)]
pub enum InputError {
    /// More than one of prompt, images and mask is standard input.
    StdinUsedTwice,
    /// An output file was named, but `n` images were asked for.
    OutputFileWithMany { n: u8 },
    /// Standard output was named, but `n` images were asked for.
    OutputStdoutWithMany { n: u8 },
    /// The images were to be opened in a viewer, but they go to standard output.
    OpenWithStdout,
    /// A token of the form `@path` names no existing file.
    FileNotFound { path: String },
    /// An image token is neither an existing file nor `-`.
    ExpectedFileOrStdin,
}

/// Whether the token stands for a standard stream.
pub open spec fn is_stream_marker(token: Seq<char>) -> bool {
    token == seq!['-']
}

/// Whether the token insists on being a file: it begins with `@`.
pub open spec fn is_forced_file(token: Seq<char>) -> bool {
    token.len() > 0 && token[0] == '@'
}

/// The path that a token names: the token itself, without a leading `@`.
pub open spec fn token_path(token: Seq<char>) -> Seq<char> {
    if is_forced_file(token) {
        token.subrange(1, token.len() as int)
    } else {
        token
    }
}

/// What a token turns out to be once it is known whether its path exists.
pub enum Classified {
    /// The token is `-`.
    Stdin,
    /// The token names the existing file at this path.
    File(Seq<char>),
    /// The token is plain text.
    Literal(Seq<char>),
    /// The token insists on the file at this path, and there is none.
    Missing(Seq<char>),
}

/// The classification of a token. `-` is a standard stream whatever exists.
/// A token whose path exists is that file. Of the others, one that begins
/// with `@` is a missing file and is never taken for text; the rest are text.
pub open spec fn classify(token: Seq<char>, exists: bool) -> Classified {
    if is_stream_marker(token) {
        Classified::Stdin
    } else if exists {
        Classified::File(token_path(token))
    } else if is_forced_file(token) {
        Classified::Missing(token_path(token))
    } else {
        Classified::Literal(token)
    }
}

/// How many of the image inputs are standard input.
pub open spec fn stdin_images(images: Seq<ImageArg>) -> nat
    decreases images.len(),
{
    if images.len() == 0 {
        0
    } else {
        stdin_images(images.drop_last()) + if images.last() is Stdin {
            1nat
        } else {
            0nat
        }
    }
}

/// How many of prompt, images and mask are standard input.
pub open spec fn stdin_uses(prompt: PromptArg, images: Seq<ImageArg>, mask: Option<ImageArg>) -> nat {
    (if prompt is Stdin {
        1nat
    } else {
        0nat
    }) + (if mask == Some(ImageArg::Stdin) {
        1nat
    } else {
        0nat
    }) + stdin_images(images)
}

/// The target that an output argument asks for; none asks for automatic names.
pub open spec fn target_for(output: Option<OutputArg>) -> OutputTarget {
    match output {
        None => OutputTarget::Automatic,
        Some(OutputArg::File(path)) => OutputTarget::File(path),
        Some(OutputArg::Stdout) => OutputTarget::Stdout,
    }
}

/// The outcome of checking the inputs of one run against each other.
///
/// Standard input can be read once, so at most one input may be bound to it.
/// A named output, file or standard output, takes one image, so `n` must be 1.
/// Images that go to standard output cannot be opened in a viewer.
pub open spec fn checked_inputs(
    prompt: PromptArg,
    images: Vec<ImageArg>,
    mask: Option<ImageArg>,
    output: Option<OutputArg>,
    n: u8,
    open: bool,
) -> Result<InputArgs, InputError> {
    if stdin_uses(prompt, images@, mask) > 1 {
        Err(InputError::StdinUsedTwice)
    } else if output is Some && n != 1 {
        match output {
            Some(OutputArg::Stdout) => Err(InputError::OutputStdoutWithMany { n }),
            _ => Err(InputError::OutputFileWithMany { n }),
        }
    } else if open && output == Some(OutputArg::Stdout) {
        Err(InputError::OpenWithStdout)
    } else {
        Ok(InputArgs { prompt, images, mask, out_target: target_for(output) })
    }
}

/// The file name under which data from standard input is sent.
pub open spec fn stdin_filename(content_type: Seq<char>) -> Seq<char> {
    match extension_for_mime(content_type) {
        Some(ext) => "stdin"@ + "."@ + ext,
        None => "stdin"@,
    }
}

impl InputError {
    /// The message of this error, in words.
    pub open spec fn text(self) -> Seq<char> {
        match self {
            InputError::StdinUsedTwice =>
                "Only one input source (prompt, image, mask) can be '-' (stdin) at a time"@,
            InputError::OutputFileWithMany { n } =>
                "Cannot use --output <file> when generating more than one image (n="@ + decimal(
                    n as nat,
                ) + ")"@,
            InputError::OutputStdoutWithMany { n } =>
                "Cannot use --output - (stdout) when generating more than one image (n="@
                    + decimal(n as nat) + ")"@,
            InputError::OpenWithStdout =>
                "Cannot use --open flag when writing output to stdout (`--output -`)"@,
            InputError::FileNotFound { path } => "File not found: "@ + path@,
            InputError::ExpectedFileOrStdin =>
                "Expected a file path or '-' for stdin for --image input"@,
        }
    }

    /// The message of this error.
    pub fn message(&self) -> (message: String)
        ensures
            message@ == self.text(),
    {
        match self {
            InputError::StdinUsedTwice => String::from_str(
                "Only one input source (prompt, image, mask) can be '-' (stdin) at a time",
            ),
            InputError::OutputFileWithMany { n } => {
                let mut message = String::from_str(
                    "Cannot use --output <file> when generating more than one image (n=",
                );
                push_decimal(&mut message, *n as u64);
                message.append(")");
                message
            },
            InputError::OutputStdoutWithMany { n } => {
                let mut message = String::from_str(
                    "Cannot use --output - (stdout) when generating more than one image (n=",
                );
                push_decimal(&mut message, *n as u64);
                message.append(")");
                message
            },
            InputError::OpenWithStdout => String::from_str(
                "Cannot use --open flag when writing output to stdout (`--output -`)",
            ),
            InputError::FileNotFound { path } => {
                let mut message = String::from_str("File not found: ");
                message.append(path.as_str());
                message
            },
            InputError::ExpectedFileOrStdin => String::from_str(
                "Expected a file path or '-' for stdin for --image input",
            ),
        }
    }
}

/// What a token is before the file system is asked.
enum Token<'a> {
    /// The token `-`.
    Stream,
    /// A path, and whether the token insists that it is a file.
    Path { path: &'a str, forced: bool },
}

/// Tells `-` from a path, and takes the `@` off a forced path.
fn read_token<'a>(token: &'a str) -> (shape: Token<'a>)
    ensures
        is_stream_marker(token@) <==> shape is Stream,
        shape matches Token::Path { path, forced } ==> path@ == token_path(token@) && forced
            == is_forced_file(token@),
{
    let len = token.unicode_len();
    if len == 0 {
        return Token::Path { path: token, forced: false };
    }
    let first = token.get_char(0);
    if len == 1 && first == '-' {
        assert(token@ =~= seq!['-']);
        return Token::Stream;
    }
    if first == '@' {
        Token::Path { path: token.substring_char(1, len), forced: true }
    } else {
        Token::Path { path: token, forced: false }
    }
}

/// The path whose existence decides what the token is, where anything
/// hangs on it: `None` for `-`, which names no file.
pub fn probed_path(token: &str) -> (path: Option<&str>)
    ensures
        is_stream_marker(token@) <==> path is None,
        path matches Some(p) ==> p@ == token_path(token@),
{
    match read_token(token) {
        Token::Stream => None,
        Token::Path { path, forced: _ } => Some(path),
    }
}

impl InputSource {
    /// Classifies a token. `exists` says whether a file exists at the
    /// token's path; for `-` it is not looked at.
    pub fn from_token(token: &str, exists: bool) -> (source: Result<InputSource, InputError>)
        ensures
            match classify(token@, exists) {
                Classified::Stdin => source == Ok::<InputSource, InputError>(InputSource::Stdin),
                Classified::File(path) => source matches Ok(InputSource::File(found)) && found@
                    == path,
                Classified::Literal(text) => source matches Ok(InputSource::Literal(found))
                    && found@ == text,
                Classified::Missing(path) => source matches Err(
                    InputError::FileNotFound { path: missing },
                ) && missing@ == path,
            },
    {
        match read_token(token) {
            Token::Stream => Ok(InputSource::Stdin),
            Token::Path { path, forced } => {
                if exists {
                    Ok(InputSource::File(String::from_str(path)))
                } else if !forced {
                    Ok(InputSource::Literal(String::from_str(token)))
                } else {
                    Err(InputError::FileNotFound { path: String::from_str(path) })
                }
            },
        }
    }
}

impl PromptArg {
    /// Classifies a prompt token. `exists` says whether a file exists at the
    /// token's path; for `-` it is not looked at.
    ///
    /// `-` is standard input. An existing path is a file. `@path` must
    /// exist. Anything else is the prompt itself.
    pub fn from_token(token: &str, exists: bool) -> (arg: Result<PromptArg, InputError>)
        ensures
            match classify(token@, exists) {
                Classified::Stdin => arg == Ok::<PromptArg, InputError>(PromptArg::Stdin),
                Classified::File(path) => arg matches Ok(PromptArg::File(found)) && found@ == path,
                Classified::Literal(text) => arg matches Ok(PromptArg::Literal(found)) && found@
                    == text,
                Classified::Missing(path) => arg matches Err(
                    InputError::FileNotFound { path: missing },
                ) && missing@ == path,
            },
    {
        match InputSource::from_token(token, exists) {
            Ok(InputSource::Literal(text)) => Ok(PromptArg::Literal(text)),
            Ok(InputSource::File(path)) => Ok(PromptArg::File(path)),
            Ok(InputSource::Stdin) => Ok(PromptArg::Stdin),
            Err(error) => Err(error),
        }
    }
}

impl ImageArg {
    /// Classifies an image or mask token. `exists` says whether a file
    /// exists at the token's path; for `-` it is not looked at.
    ///
    /// `-` is standard input. An existing path is a file. `@path` must
    /// exist. An image is never given as literal text.
    pub fn from_token(token: &str, exists: bool) -> (arg: Result<ImageArg, InputError>)
        ensures
            match classify(token@, exists) {
                Classified::Stdin => arg == Ok::<ImageArg, InputError>(ImageArg::Stdin),
                Classified::File(path) => arg matches Ok(ImageArg::File(found)) && found@ == path,
                Classified::Literal(_) => arg == Err::<ImageArg, InputError>(
                    InputError::ExpectedFileOrStdin,
                ),
                Classified::Missing(path) => arg matches Err(
                    InputError::FileNotFound { path: missing },
                ) && missing@ == path,
            },
    {
        match InputSource::from_token(token, exists) {
            Ok(InputSource::Literal(_)) => Err(InputError::ExpectedFileOrStdin),
            Ok(InputSource::File(path)) => Ok(ImageArg::File(path)),
            Ok(InputSource::Stdin) => Ok(ImageArg::Stdin),
            Err(error) => Err(error),
        }
    }

    /// Makes the image that was read for this argument ready to send.
    /// `bytes` is the whole content of the file or of standard input.
    ///
    /// A file keeps its name, and its media type goes by the extension.
    /// Data from standard input gets its media type from its leading bytes
    /// and the name `stdin` with the extension of that type.
    pub fn read_image(self, bytes: Vec<u8>) -> (image: ImageData)
        ensures
            image.bytes == bytes,
            self matches ImageArg::File(path) ==> image.filename == path && image.content_type@
                == mime_for_extension(path_extension(path@)),
            self is Stdin ==> image.content_type@ == sniffed_mime(bytes@) && image.filename@
                == stdin_filename(sniffed_mime(bytes@)),
    {
        match self {
            ImageArg::File(path) => {
                let content_type = mime_from_filename(path.as_str());
                ImageData { bytes, filename: path, content_type }
            },
            ImageArg::Stdin => {
                let content_type = mime_from_bytes(bytes.as_slice());
                let mut filename = String::from_str("stdin");
                match ext_from_mime(content_type) {
                    Some(ext) => {
                        filename.append(".");
                        filename.append(ext);
                    },
                    None => {},
                }
                ImageData { bytes, filename, content_type }
            },
        }
    }
}

/// The conversion is stated by the contract of `from`; as a function of its
/// argument alone it is left open.
impl vstd::std_specs::convert::FromSpecImpl<String> for OutputArg {
    open spec fn obeys_from_spec() -> bool {
        false
    }

    open spec fn from_spec(v: String) -> Self {
        arbitrary()
    }
}

impl From<String> for OutputArg {
    /// Reads an output token: `-` is standard output, anything else a file
    /// path, with or without a leading `@`. Nothing has to exist.
    fn from(token: String) -> (arg: OutputArg)
        ensures
            is_stream_marker(token@) <==> arg is Stdout,
            arg matches OutputArg::File(path) ==> path@ == token_path(token@),
    {
        match read_token(token.as_str()) {
            Token::Stream => OutputArg::Stdout,
            Token::Path { path, forced: _ } => OutputArg::File(String::from_str(path)),
        }
    }
}

/// Whether any image input is standard input, and whether more than one is.
fn count_stdin_images(images: &Vec<ImageArg>) -> (seen: (bool, bool))
    ensures
        seen.0 == (stdin_images(images@) >= 1),
        seen.1 == (stdin_images(images@) >= 2),
{
    let mut one = false;
    let mut two = false;
    let mut i: usize = 0;
    proof {
        assert(images@.take(0) =~= Seq::<ImageArg>::empty());
    }
    while i < images.len()
        invariant
            i <= images.len(),
            one == (stdin_images(images@.take(i as int)) >= 1),
            two == (stdin_images(images@.take(i as int)) >= 2),
        decreases images.len() - i,
    {
        proof {
            let next = images@.take(i as int + 1);
            assert(next.drop_last() =~= images@.take(i as int));
            assert(next.last() == images@[i as int]);
        }
        if matches!(images[i], ImageArg::Stdin) {
            if one {
                two = true;
            }
            one = true;
        }
        i += 1;
    }
    proof {
        assert(images@.take(images.len() as int) =~= images@);
    }
    (one, two)
}

impl InputArgs {
    /// Whether at most one of prompt, images and mask is standard input,
    /// which can be read only once.
    pub open spec fn keeps_stdin_budget(self) -> bool {
        stdin_uses(self.prompt, self.images@, self.mask) <= 1
    }

    /// Checks the inputs of one run against each other and settles where
    /// the output goes.
    pub fn new(
        prompt: PromptArg,
        images: Vec<ImageArg>,
        mask: Option<ImageArg>,
        output_arg: Option<OutputArg>,
        n: u8,
        open: bool,
    ) -> (args: Result<InputArgs, InputError>)
        ensures
            args == checked_inputs(prompt, images, mask, output_arg, n, open),
            args matches Ok(accepted) ==> accepted.keeps_stdin_budget(),
    {
        let prompt_stdin = matches!(prompt, PromptArg::Stdin);
        let mask_stdin = matches!(mask, Some(ImageArg::Stdin));
        let (image_stdin, images_stdin) = count_stdin_images(&images);
        if images_stdin || (prompt_stdin && mask_stdin) || (prompt_stdin && image_stdin) || (
        mask_stdin && image_stdin) {
            return Err(InputError::StdinUsedTwice);
        }
        let out_target = match output_arg {
            None => OutputTarget::Automatic,
            Some(OutputArg::File(path)) => {
                if n != 1 {
                    return Err(InputError::OutputFileWithMany { n });
                }
                OutputTarget::File(path)
            },
            Some(OutputArg::Stdout) => {
                if n != 1 {
                    return Err(InputError::OutputStdoutWithMany { n });
                }
                OutputTarget::Stdout
            },
        };
        if open && matches!(out_target, OutputTarget::Stdout) {
            return Err(InputError::OpenWithStdout);
        }
        Ok(InputArgs { prompt, images, mask, out_target })
    }
}

impl OutputTarget {
    /// Adds to the target what is needed to write the output: for automatic
    /// names the prefix made from the prompt and the extension, which is
    /// `png` for edited images and the requested format otherwise.
    pub fn with_data<'a>(&'a self, uses_edit_api: bool, prompt: &str, output_format: &'a str) -> (data:
        OutputTargetWithData<'a>)
        ensures
            *self is Automatic ==> (data matches OutputTargetWithData::Automatic {
                prefix,
                extension,
            } && prefix@ == prompt_prefix_of(prompt@) && extension@ == if uses_edit_api {
                "png"@
            } else {
                output_format@
            }),
            *self matches OutputTarget::File(path) ==> (data matches OutputTargetWithData::File(p)
                && p@ == path@),
            *self is Stdout ==> data is Stdout,
    {
        match self {
            OutputTarget::Automatic => {
                let prefix = prompt_prefix(prompt);
                let extension = if uses_edit_api {
                    "png"
                } else {
                    output_format
                };
                OutputTargetWithData::Automatic { prefix, extension }
            },
            OutputTarget::File(path) => OutputTargetWithData::File(path.as_str()),
            OutputTarget::Stdout => OutputTargetWithData::Stdout,
        }
    }
}

impl<'a> OutputTargetWithData<'a> {
    /// The path of the one output file, where the target is a file.
    pub fn file_path(&self) -> (path: Option<&'a str>)
        ensures
            path == match *self {
                OutputTargetWithData::File(p) => Some(p),
                _ => None,
            },
    {
        match self {
            OutputTargetWithData::File(path) => Some(*path),
            _ => None,
        }
    }
}

/// How many of the tokens are `-`.
pub open spec fn stream_tokens(tokens: Seq<Seq<char>>) -> nat
    decreases tokens.len(),
{
    if tokens.len() == 0 {
        0
    } else {
        stream_tokens(tokens.drop_last()) + if is_stream_marker(tokens.last()) {
            1nat
        } else {
            0nat
        }
    }
}

/// Inputs of which two or more are standard input are refused, whatever
/// else was asked for.
pub proof fn lemma_stdin_twice_is_refused(
    prompt: PromptArg,
    images: Vec<ImageArg>,
    mask: Option<ImageArg>,
    output: Option<OutputArg>,
    n: u8,
    open: bool,
)
    requires
        stdin_uses(prompt, images@, mask) >= 2,
    ensures
        checked_inputs(prompt, images, mask, output, n, open) == Err::<InputArgs, InputError>(
            InputError::StdinUsedTwice,
        ),
{
}

/// Where two or more of the tokens for prompt, images and mask are `-`,
/// the inputs classified from them are refused. A token is standard input
/// exactly when it is `-`, so what exists on disk has no part in this.
pub proof fn lemma_two_stream_tokens_are_refused(
    prompt_token: Seq<char>,
    image_tokens: Seq<Seq<char>>,
    mask_token: Option<Seq<char>>,
    prompt: PromptArg,
    images: Vec<ImageArg>,
    mask: Option<ImageArg>,
    output: Option<OutputArg>,
    n: u8,
    open: bool,
)
    requires
        prompt is Stdin <==> is_stream_marker(prompt_token),
        images@.len() == image_tokens.len(),
        forall|i: int|
            0 <= i < images@.len() ==> (#[trigger] images@[i] is Stdin <==> is_stream_marker(
                image_tokens[i],
            )),
        mask == Some(ImageArg::Stdin) <==> (mask_token matches Some(t) && is_stream_marker(t)),
        (if is_stream_marker(prompt_token) {
            1nat
        } else {
            0nat
        }) + (if mask_token matches Some(t) && is_stream_marker(t) {
            1nat
        } else {
            0nat
        }) + stream_tokens(image_tokens) >= 2,
    ensures
        checked_inputs(prompt, images, mask, output, n, open) == Err::<InputArgs, InputError>(
            InputError::StdinUsedTwice,
        ),
{
    lemma_stdin_images_follow_tokens(images@, image_tokens);
}

/// Image inputs that are standard input exactly where the tokens are `-`
/// are as many as those tokens.
proof fn lemma_stdin_images_follow_tokens(images: Seq<ImageArg>, tokens: Seq<Seq<char>>)
    requires
        images.len() == tokens.len(),
        forall|i: int|
            0 <= i < images.len() ==> (#[trigger] images[i] is Stdin <==> is_stream_marker(
                tokens[i],
            )),
    ensures
        stdin_images(images) == stream_tokens(tokens),
    decreases images.len(),
{
    if images.len() > 0 {
        let last = images.len() - 1;
        assert(images[last] is Stdin <==> is_stream_marker(tokens[last]));
        assert forall|i: int| 0 <= i < images.drop_last().len() implies (
        #[trigger] images.drop_last()[i] is Stdin <==> is_stream_marker(tokens.drop_last()[i])) by {
            assert(images.drop_last()[i] == images[i]);
        }
        lemma_stdin_images_follow_tokens(images.drop_last(), tokens.drop_last());
    }
}

/// A named output, file or standard output, is refused unless exactly one
/// image is asked for.
pub proof fn lemma_named_output_needs_single_image(
    prompt: PromptArg,
    images: Vec<ImageArg>,
    mask: Option<ImageArg>,
    output: Option<OutputArg>,
    n: u8,
    open: bool,
)
    requires
        output is Some,
        n != 1,
    ensures
        checked_inputs(prompt, images, mask, output, n, open) is Err,
        stdin_uses(prompt, images@, mask) <= 1 ==> checked_inputs(
            prompt,
            images,
            mask,
            output,
            n,
            open,
        ) == match output {
            Some(OutputArg::Stdout) => Err::<InputArgs, InputError>(
                InputError::OutputStdoutWithMany { n },
            ),
            _ => Err::<InputArgs, InputError>(InputError::OutputFileWithMany { n }),
        },
{
}

/// Inputs that pass the check with a named target, a file or standard
/// output, ask for exactly one image; and where they go to standard
/// output, nothing is to be opened.
pub proof fn lemma_named_target_means_single_image(
    prompt: PromptArg,
    images: Vec<ImageArg>,
    mask: Option<ImageArg>,
    output: Option<OutputArg>,
    n: u8,
    open: bool,
)
    requires
        checked_inputs(prompt, images, mask, output, n, open) matches Ok(accepted)
            && !(accepted.out_target is Automatic),
    ensures
        n == 1,
        checked_inputs(prompt, images, mask, output, n, open) matches Ok(accepted)
            && accepted.out_target is Stdout ==> !open,
{
}

/// Inputs that pass the check come back as they were given, with the
/// target that the output argument asks for.
pub proof fn lemma_accepted_inputs_are_kept(
    prompt: PromptArg,
    images: Vec<ImageArg>,
    mask: Option<ImageArg>,
    output: Option<OutputArg>,
    n: u8,
    open: bool,
)
    requires
        stdin_uses(prompt, images@, mask) <= 1,
        output is Some ==> n == 1,
        !(open && output == Some(OutputArg::Stdout)),
    ensures
        checked_inputs(prompt, images, mask, output, n, open) == Ok::<InputArgs, InputError>(
            InputArgs { prompt, images, mask, out_target: target_for(output) },
        ),
{
}

/// A token `@path` whose path does not exist is a missing file with that
/// very path, be the token without its `@` ever so good a prompt.
pub proof fn lemma_missing_forced_file_is_refused(token: Seq<char>)
    requires
        is_forced_file(token),
    ensures
        classify(token, false) == Classified::Missing(token.subrange(1, token.len() as int)),
{
    assert(token[0] == '@');
    assert(!is_stream_marker(token));
}

/// The token `-` is standard input whether or not a file of that name exists.
pub proof fn lemma_stream_marker_is_stdin(exists: bool)
    ensures
        classify(seq!['-'], exists) == Classified::Stdin,
        "-"@ == seq!['-'],
{
    reveal_strlit("-");
    assert("-"@ =~= seq!['-']);
}

/// Data from standard input is named after what its leading bytes give
/// away: `stdin.png`, `stdin.webp` or `stdin.jpg`, and plain `stdin` where
/// no signature matches.
pub proof fn lemma_stdin_filename_follows_signature(bytes: Seq<u8>)
    ensures
        is_png(bytes) ==> stdin_filename(sniffed_mime(bytes)) == "stdin"@ + "."@ + "png"@,
        !is_png(bytes) && is_webp(bytes) ==> stdin_filename(sniffed_mime(bytes)) == "stdin"@ + "."@
            + "webp"@,
        !is_png(bytes) && !is_webp(bytes) && is_jpeg(bytes) ==> stdin_filename(
            sniffed_mime(bytes),
        ) == "stdin"@ + "."@ + "jpg"@,
        !is_png(bytes) && !is_webp(bytes) && !is_jpeg(bytes) ==> stdin_filename(
            sniffed_mime(bytes),
        ) == "stdin"@,
{
    lemma_mime_types_differ();
}

} // verus!
