use imgen::input::{
    probed_path, ImageArg, InputArgs, InputError, InputSource, OutputArg, OutputTarget,
    OutputTargetWithData, PromptArg,
};

fn literal(text: &str) -> PromptArg {
    PromptArg::Literal(text.to_string())
}

fn file(path: &str) -> ImageArg {
    ImageArg::File(path.to_string())
}

#[test]
fn test_prompt_token_stdin() {
    assert!(matches!(PromptArg::from_token("-", false), Ok(PromptArg::Stdin)));
    assert!(matches!(PromptArg::from_token("-", true), Ok(PromptArg::Stdin)));
}

#[test]
fn test_prompt_token_literal() {
    match PromptArg::from_token("A cute cat", false) {
        Ok(PromptArg::Literal(text)) => assert_eq!(text, "A cute cat"),
        other => panic!("unexpected: {:?}", other),
    }
    match PromptArg::from_token("", false) {
        Ok(PromptArg::Literal(text)) => assert_eq!(text, ""),
        other => panic!("unexpected: {:?}", other),
    }
    match PromptArg::from_token("--", false) {
        Ok(PromptArg::Literal(text)) => assert_eq!(text, "--"),
        other => panic!("unexpected: {:?}", other),
    }
}

#[test]
fn test_prompt_token_existing_file() {
    match PromptArg::from_token("prompt.md", true) {
        Ok(PromptArg::File(path)) => assert_eq!(path, "prompt.md"),
        other => panic!("unexpected: {:?}", other),
    }
    match PromptArg::from_token("@prompt.md", true) {
        Ok(PromptArg::File(path)) => assert_eq!(path, "prompt.md"),
        other => panic!("unexpected: {:?}", other),
    }
}

#[test]
fn test_prompt_token_missing_forced_file() {
    match PromptArg::from_token("@missing_file", false) {
        Err(InputError::FileNotFound { path }) => assert_eq!(path, "missing_file"),
        other => panic!("unexpected: {:?}", other),
    }
    let error = PromptArg::from_token("@missing_file", false).unwrap_err();
    assert_eq!(error.message(), "File not found: missing_file");
    match PromptArg::from_token("@", false) {
        Err(InputError::FileNotFound { path }) => assert_eq!(path, ""),
        other => panic!("unexpected: {:?}", other),
    }
    match PromptArg::from_token("@-", false) {
        Err(InputError::FileNotFound { path }) => assert_eq!(path, "-"),
        other => panic!("unexpected: {:?}", other),
    }
}

#[test]
fn test_prompt_token_with_wide_characters() {
    match PromptArg::from_token("@\u{732b}.txt", true) {
        Ok(PromptArg::File(path)) => assert_eq!(path, "\u{732b}.txt"),
        other => panic!("unexpected: {:?}", other),
    }
    match PromptArg::from_token("\u{e9}t\u{e9}", false) {
        Ok(PromptArg::Literal(text)) => assert_eq!(text, "\u{e9}t\u{e9}"),
        other => panic!("unexpected: {:?}", other),
    }
}

#[test]
fn test_image_token() {
    assert!(matches!(ImageArg::from_token("-", false), Ok(ImageArg::Stdin)));
    match ImageArg::from_token("cat.png", true) {
        Ok(ImageArg::File(path)) => assert_eq!(path, "cat.png"),
        other => panic!("unexpected: {:?}", other),
    }
    match ImageArg::from_token("@cat.png", true) {
        Ok(ImageArg::File(path)) => assert_eq!(path, "cat.png"),
        other => panic!("unexpected: {:?}", other),
    }
}

#[test]
fn test_image_token_is_never_literal() {
    let error = ImageArg::from_token("cat.png", false).unwrap_err();
    assert!(matches!(error, InputError::ExpectedFileOrStdin));
    assert_eq!(error.message(), "Expected a file path or '-' for stdin for --image input");
}

#[test]
fn test_image_token_missing_forced_file() {
    match ImageArg::from_token("@missing_file", false) {
        Err(InputError::FileNotFound { path }) => assert_eq!(path, "missing_file"),
        other => panic!("unexpected: {:?}", other),
    }
}

#[test]
fn test_probed_path() {
    assert_eq!(probed_path("-"), None);
    assert_eq!(probed_path("cat.png"), Some("cat.png"));
    assert_eq!(probed_path("@cat.png"), Some("cat.png"));
    assert_eq!(probed_path("@@cat.png"), Some("@cat.png"));
    assert_eq!(probed_path(""), Some(""));
    assert_eq!(probed_path("@"), Some(""));
}

#[test]
fn test_output_token() {
    assert!(matches!(OutputArg::from("-".to_string()), OutputArg::Stdout));
    match OutputArg::from("out.png".to_string()) {
        OutputArg::File(path) => assert_eq!(path, "out.png"),
        other => panic!("unexpected: {:?}", other),
    }
    match OutputArg::from("@out.png".to_string()) {
        OutputArg::File(path) => assert_eq!(path, "out.png"),
        other => panic!("unexpected: {:?}", other),
    }
    match OutputArg::from("@-".to_string()) {
        OutputArg::File(path) => assert_eq!(path, "-"),
        other => panic!("unexpected: {:?}", other),
    }
}

#[test]
fn test_input_args_accepts_plain_inputs() {
    let args = InputArgs::new(
        literal("a cat"),
        vec![file("a.png"), ImageArg::Stdin],
        Some(file("m.png")),
        None,
        3,
        true,
    )
    .unwrap();
    assert!(matches!(args.prompt, PromptArg::Literal(ref text) if text == "a cat"));
    assert_eq!(args.images.len(), 2);
    assert!(matches!(args.images[0], ImageArg::File(ref path) if path == "a.png"));
    assert!(matches!(args.images[1], ImageArg::Stdin));
    assert!(matches!(args.mask, Some(ImageArg::File(ref path)) if path == "m.png"));
    assert!(matches!(args.out_target, OutputTarget::Automatic));
}

#[test]
fn test_input_args_rejects_two_stdin_inputs() {
    let cases: Vec<(PromptArg, Vec<ImageArg>, Option<ImageArg>)> = vec![
        (PromptArg::Stdin, vec![ImageArg::Stdin], None),
        (PromptArg::Stdin, Vec::new(), Some(ImageArg::Stdin)),
        (literal("p"), vec![ImageArg::Stdin], Some(ImageArg::Stdin)),
        (literal("p"), vec![ImageArg::Stdin, ImageArg::Stdin], None),
        (literal("p"), vec![ImageArg::Stdin, file("a.png"), ImageArg::Stdin], None),
        (PromptArg::Stdin, vec![ImageArg::Stdin], Some(ImageArg::Stdin)),
    ];
    for (prompt, images, mask) in cases {
        let error = InputArgs::new(prompt, images, mask, None, 1, false).unwrap_err();
        assert!(matches!(error, InputError::StdinUsedTwice));
        assert_eq!(
            error.message(),
            "Only one input source (prompt, image, mask) can be '-' (stdin) at a time"
        );
    }
}

#[test]
fn test_input_args_two_stream_tokens_fail() {
    let prompt = PromptArg::from_token("-", false).unwrap();
    let image = ImageArg::from_token("-", false).unwrap();
    let result = InputArgs::new(prompt, vec![image], None, None, 1, false);
    assert!(matches!(result, Err(InputError::StdinUsedTwice)));
}

#[test]
fn test_input_args_accepts_one_stdin_input() {
    assert!(InputArgs::new(PromptArg::Stdin, vec![file("a.png")], None, None, 1, false).is_ok());
    assert!(InputArgs::new(literal("p"), vec![ImageArg::Stdin], None, None, 1, false).is_ok());
    assert!(InputArgs::new(literal("p"), vec![file("a.png")], Some(ImageArg::Stdin), None, 1, false)
        .is_ok());
}

#[test]
fn test_input_args_output_file_needs_single_image() {
    let error = InputArgs::new(
        literal("p"),
        Vec::new(),
        None,
        Some(OutputArg::File("out.png".to_string())),
        2,
        false,
    )
    .unwrap_err();
    assert!(matches!(error, InputError::OutputFileWithMany { n: 2 }));
    assert_eq!(
        error.message(),
        "Cannot use --output <file> when generating more than one image (n=2)"
    );

    let error = InputArgs::new(
        literal("p"),
        Vec::new(),
        None,
        Some(OutputArg::File("out.png".to_string())),
        0,
        false,
    )
    .unwrap_err();
    assert!(matches!(error, InputError::OutputFileWithMany { n: 0 }));
}

#[test]
fn test_input_args_output_stdout_needs_single_image() {
    let error =
        InputArgs::new(literal("p"), Vec::new(), None, Some(OutputArg::Stdout), 10, false)
            .unwrap_err();
    assert!(matches!(error, InputError::OutputStdoutWithMany { n: 10 }));
    assert_eq!(
        error.message(),
        "Cannot use --output - (stdout) when generating more than one image (n=10)"
    );
}

#[test]
fn test_input_args_named_output_with_single_image() {
    let args = InputArgs::new(
        literal("p"),
        Vec::new(),
        None,
        Some(OutputArg::File("out.png".to_string())),
        1,
        true,
    )
    .unwrap();
    assert!(matches!(args.out_target, OutputTarget::File(ref path) if path == "out.png"));

    let args =
        InputArgs::new(literal("p"), Vec::new(), None, Some(OutputArg::Stdout), 1, false).unwrap();
    assert!(matches!(args.out_target, OutputTarget::Stdout));
}

#[test]
fn test_input_args_cannot_open_stdout() {
    let error = InputArgs::new(literal("p"), Vec::new(), None, Some(OutputArg::Stdout), 1, true)
        .unwrap_err();
    assert!(matches!(error, InputError::OpenWithStdout));
    assert_eq!(
        error.message(),
        "Cannot use --open flag when writing output to stdout (`--output -`)"
    );
}

#[test]
fn test_input_args_stdin_error_comes_first() {
    let error = InputArgs::new(
        PromptArg::Stdin,
        vec![ImageArg::Stdin],
        None,
        Some(OutputArg::Stdout),
        5,
        true,
    )
    .unwrap_err();
    assert!(matches!(error, InputError::StdinUsedTwice));
}

#[test]
fn test_read_image_from_file() {
    let image = file("photos/cat.jpeg").read_image(vec![1, 2, 3]);
    assert_eq!(image.bytes, vec![1, 2, 3]);
    assert_eq!(image.filename, "photos/cat.jpeg");
    assert_eq!(image.content_type, "image/jpeg");

    let png_bytes: Vec<u8> = vec![0x89, 0x50, 0x4E, 0x47, 0x0D, 0x0A, 0x1A, 0x0A];
    let image = file("data.bin").read_image(png_bytes.clone());
    assert_eq!(image.bytes, png_bytes);
    assert_eq!(image.filename, "data.bin");
    assert_eq!(image.content_type, "application/octet-stream");
}

#[test]
fn test_read_image_from_stdin() {
    let png_bytes: Vec<u8> = vec![0x89, 0x50, 0x4E, 0x47, 0x0D, 0x0A, 0x1A, 0x0A, 7];
    let image = ImageArg::Stdin.read_image(png_bytes.clone());
    assert_eq!(image.bytes, png_bytes);
    assert_eq!(image.filename, "stdin.png");
    assert_eq!(image.content_type, "image/png");

    let image = ImageArg::Stdin.read_image(vec![0xFF, 0xD8, 0xFF]);
    assert_eq!(image.filename, "stdin.jpg");
    assert_eq!(image.content_type, "image/jpeg");

    let webp: Vec<u8> = vec![b'R', b'I', b'F', b'F', 0, 0, 0, 0, b'W', b'E', b'B', b'P'];
    let image = ImageArg::Stdin.read_image(webp);
    assert_eq!(image.filename, "stdin.webp");
    assert_eq!(image.content_type, "image/webp");
}

#[test]
fn test_read_image_from_stdin_of_unknown_type() {
    let image = ImageArg::Stdin.read_image(vec![1, 2, 3]);
    assert_eq!(image.bytes, vec![1, 2, 3]);
    assert_eq!(image.filename, "stdin");
    assert_eq!(image.content_type, "application/octet-stream");
}

#[test]
fn test_with_data_automatic() {
    let target = OutputTarget::Automatic;
    match target.with_data(false, "A cute cat", "webp") {
        OutputTargetWithData::Automatic { prefix, extension } => {
            assert_eq!(prefix, "a_cute_cat");
            assert_eq!(extension, "webp");
        }
        other => panic!("unexpected: {:?}", other),
    }
    match target.with_data(true, "A cute cat", "webp") {
        OutputTargetWithData::Automatic { prefix, extension } => {
            assert_eq!(prefix, "a_cute_cat");
            assert_eq!(extension, "png");
        }
        other => panic!("unexpected: {:?}", other),
    }
}

#[test]
fn test_with_data_named() {
    let target = OutputTarget::File("out.png".to_string());
    let data = target.with_data(true, "ignored", "webp");
    assert!(matches!(data, OutputTargetWithData::File("out.png")));
    assert_eq!(data.file_path(), Some("out.png"));

    let target = OutputTarget::Stdout;
    let data = target.with_data(false, "ignored", "webp");
    assert!(matches!(data, OutputTargetWithData::Stdout));
    assert_eq!(data.file_path(), None);
}

#[test]
fn test_file_path() {
    let automatic =
        OutputTargetWithData::Automatic { prefix: "p".to_string(), extension: "png" };
    assert_eq!(automatic.file_path(), None);
    assert_eq!(OutputTargetWithData::File("a/b.png").file_path(), Some("a/b.png"));
    assert_eq!(OutputTargetWithData::Stdout.file_path(), None);
}

#[test]
fn test_input_source_from_token() {
    assert!(matches!(InputSource::from_token("-", true), Ok(InputSource::Stdin)));
    assert!(matches!(InputSource::from_token("-", false), Ok(InputSource::Stdin)));
    match InputSource::from_token("notes.txt", true) {
        Ok(InputSource::File(path)) => assert_eq!(path, "notes.txt"),
        other => panic!("unexpected: {:?}", other),
    }
    match InputSource::from_token("@notes.txt", true) {
        Ok(InputSource::File(path)) => assert_eq!(path, "notes.txt"),
        other => panic!("unexpected: {:?}", other),
    }
    match InputSource::from_token("notes.txt", false) {
        Ok(InputSource::Literal(text)) => assert_eq!(text, "notes.txt"),
        other => panic!("unexpected: {:?}", other),
    }
    match InputSource::from_token("@notes.txt", false) {
        Err(InputError::FileNotFound { path }) => assert_eq!(path, "notes.txt"),
        other => panic!("unexpected: {:?}", other),
    }
}
