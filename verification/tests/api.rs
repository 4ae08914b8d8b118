use imgen::api::{
    DecodedImageData, DecodedResponse, EditRequest, ImageData, InputTokensDetails, Response,
    SaveError, Usage,
};
use imgen::input::{ImageData as InputImageData, OutputTargetWithData};

fn usage() -> Usage {
    Usage {
        total_tokens: 100,
        input_tokens: 50,
        output_tokens: 50,
        input_tokens_details: InputTokensDetails { text_tokens: 10, image_tokens: 40 },
    }
}

fn decoded(created: u64, images: usize) -> DecodedResponse {
    let mut data = Vec::new();
    for i in 0..images {
        data.push(DecodedImageData { image_bytes: vec![i as u8] });
    }
    DecodedResponse { created, data, usage: usage() }
}

#[test]
fn test_decode_response() {
    // Create a simple base64 string (this is "test" encoded in base64)
    let b64_data = "dGVzdA==";

    // Create a response with base64 data
    let response = Response {
        created: 1713833628,
        data: vec![ImageData { b64_json: b64_data.to_string() }],
        usage: Usage {
            total_tokens: 100,
            input_tokens: 50,
            output_tokens: 50,
            input_tokens_details: InputTokensDetails { text_tokens: 10, image_tokens: 40 },
        },
    };

    // Convert to decoded response
    let decoded = DecodedResponse::try_from(response).unwrap();

    // Check that the data was decoded correctly
    assert_eq!(decoded.data.len(), 1);
    assert_eq!(decoded.data[0].image_bytes, "test".as_bytes());
    assert_eq!(decoded.created, 1713833628);
    assert_eq!(decoded.usage.total_tokens, 100);
}

#[test]
fn test_edit_request_build_multipart() {
    let input_image = InputImageData {
        bytes: "dummy image".as_bytes().to_vec(),
        filename: String::from("test_image.jpg"),
        content_type: "image/jpeg",
    };

    let input_mask = InputImageData {
        bytes: "dummy mask".as_bytes().to_vec(),
        filename: String::from("test_mask.png"),
        content_type: "image/png",
    };

    // Create an EditRequest
    let request = EditRequest {
        images: vec![input_image.clone()],
        prompt: "A test edit prompt".to_string(),
        mask: Some(input_mask.clone()),
        model: "gpt-image-1".to_string(),
        n: Some(2),
        quality: Some("high".to_string()),
        size: Some("1024x1024".to_string()),
    };

    let boundary = "----12345";
    let multipart_body = request.build_multipart_inner(boundary.to_owned());

    // Extract the boundary from the content type
    let content_type = multipart_body.content_type;
    assert!(content_type.starts_with("multipart/form-data; boundary="));
    let boundary = content_type.split('=').nth(1).expect("Boundary not found in Content-Type");

    // Convert body bytes to string for comparison (lossy for file content)
    let body_str = String::from_utf8_lossy(&multipart_body.body);

    // Construct the expected body string using the extracted boundary
    let image_filename = input_image.filename.clone();
    let image_content = String::from_utf8(input_image.bytes).unwrap();
    let mask_filename = input_mask.filename.clone();
    let mask_content = String::from_utf8(input_mask.bytes).unwrap();
    let expected_body = format!(
        "--{boundary}\r\n\
         Content-Disposition: form-data; name=\"prompt\"\r\n\r\n\
         A test edit prompt\r\n\
         --{boundary}\r\n\
         Content-Disposition: form-data; name=\"model\"\r\n\r\n\
         gpt-image-1\r\n\
         --{boundary}\r\n\
         Content-Disposition: form-data; name=\"n\"\r\n\r\n\
         2\r\n\
         --{boundary}\r\n\
         Content-Disposition: form-data; name=\"quality\"\r\n\r\n\
         high\r\n\
         --{boundary}\r\n\
         Content-Disposition: form-data; name=\"size\"\r\n\r\n\
         1024x1024\r\n\
         --{boundary}\r\n\
         Content-Disposition: form-data; name=\"image[]\"; filename=\"{image_filename}\"\r\n\
         Content-Type: image/jpeg\r\n\r\n\
         {image_content}\r\n\
         --{boundary}\r\n\
         Content-Disposition: form-data; name=\"mask\"; filename=\"{mask_filename}\"\r\n\
         Content-Type: image/png\r\n\r\n\
         {mask_content}\r\n\
         --{boundary}--\r\n"
    );

    // Compare the generated body with the expected body
    assert_eq!(body_str, expected_body);
}

#[test]
fn test_edit_request_without_optional_fields() {
    let request = EditRequest {
        images: vec![
            InputImageData { bytes: vec![1], filename: String::from("a.png"), content_type: "image/png" },
            InputImageData { bytes: vec![2], filename: String::from("b.webp"), content_type: "image/webp" },
        ],
        prompt: "p".to_string(),
        mask: None,
        model: "m".to_string(),
        n: None,
        quality: None,
        size: None,
    };
    let body = request.build_multipart_inner("B".to_string());
    let mut expected: Vec<u8> = Vec::new();
    expected.extend_from_slice(
        "--B\r\nContent-Disposition: form-data; name=\"prompt\"\r\n\r\np\r\n".as_bytes(),
    );
    expected.extend_from_slice(
        "--B\r\nContent-Disposition: form-data; name=\"model\"\r\n\r\nm\r\n".as_bytes(),
    );
    expected.extend_from_slice(
        "--B\r\nContent-Disposition: form-data; name=\"image[]\"; filename=\"a.png\"\r\nContent-Type: image/png\r\n\r\n"
            .as_bytes(),
    );
    expected.extend_from_slice(&[1]);
    expected.extend_from_slice(
        "\r\n--B\r\nContent-Disposition: form-data; name=\"image[]\"; filename=\"b.webp\"\r\nContent-Type: image/webp\r\n\r\n"
            .as_bytes(),
    );
    expected.extend_from_slice(&[2]);
    expected.extend_from_slice("\r\n--B--\r\n".as_bytes());
    assert_eq!(body.body, expected);
    assert_eq!(body.content_type, "multipart/form-data; boundary=B");
}

#[test]
fn test_edit_request_sends_count_in_decimal() {
    for (n, text) in [(0u8, "0"), (7, "7"), (10, "10"), (99, "99"), (100, "100"), (255, "255")] {
        let request = EditRequest {
            images: Vec::new(),
            prompt: "p".to_string(),
            mask: None,
            model: "m".to_string(),
            n: Some(n),
            quality: None,
            size: None,
        };
        let body = String::from_utf8(request.build_multipart_inner("B".to_string()).body).unwrap();
        let expected = format!("name=\"n\"\r\n\r\n{}\r\n--B--\r\n", text);
        assert!(body.ends_with(&expected), "n = {}", n);
    }
}

#[test]
fn test_edit_request_build_multipart_generates_boundary() {
    let request = EditRequest {
        images: Vec::new(),
        prompt: "p".to_string(),
        mask: None,
        model: "m".to_string(),
        n: None,
        quality: None,
        size: None,
    };
    let body = request.build_multipart();
    let boundary = body
        .content_type
        .strip_prefix("multipart/form-data; boundary=")
        .expect("header does not announce a boundary")
        .to_string();
    assert_eq!(boundary.len(), 30);
    assert!(boundary.chars().all(|c| c.is_ascii_alphanumeric()));
    let same = request.build_multipart_inner(boundary);
    assert_eq!(body.body, same.body);
}

#[test]
fn test_decode_image() {
    let image = DecodedImageData::try_from(ImageData { b64_json: "aGVsbG8gd29ybGQ=".to_string() })
        .unwrap();
    assert_eq!(image.image_bytes, "hello world".as_bytes());
    let empty = DecodedImageData::try_from(ImageData { b64_json: String::new() }).unwrap();
    assert!(empty.image_bytes.is_empty());
}

#[test]
fn test_decode_image_rejects_invalid_text() {
    assert!(DecodedImageData::try_from(ImageData { b64_json: "not base64!".to_string() }).is_err());
    assert!(DecodedImageData::try_from(ImageData { b64_json: "dGVzdA".to_string() }).is_err());
}

#[test]
fn test_decode_response_reports_first_invalid_image() {
    let response = Response {
        created: 1,
        data: vec![
            ImageData { b64_json: "dGVzdA==".to_string() },
            ImageData { b64_json: "***".to_string() },
            ImageData { b64_json: "???".to_string() },
        ],
        usage: usage(),
    };
    let error = DecodedResponse::try_from(response).unwrap_err();
    assert_eq!(error.image, 1);
}

#[test]
fn test_decode_response_without_images() {
    let response = Response { created: 5, data: Vec::new(), usage: usage() };
    let decoded = DecodedResponse::try_from(response).unwrap();
    assert_eq!(decoded.created, 5);
    assert!(decoded.data.is_empty());
    assert_eq!(decoded.usage.input_tokens_details.image_tokens, 40);
}

#[test]
fn test_save_images_automatic_names() {
    let response = decoded(1713833628, 3);
    let target =
        OutputTargetWithData::Automatic { prefix: "a_cute_cat".to_string(), extension: "png" };
    let plan = response.save_images(target).unwrap();
    assert_eq!(plan.unused, 0);
    assert_eq!(plan.writes.len(), 3);
    assert_eq!(plan.writes[0].image, 0);
    assert_eq!(plan.writes[0].path.as_deref(), Some("a_cute_cat.1713833628.1.png"));
    assert_eq!(plan.writes[1].image, 1);
    assert_eq!(plan.writes[1].path.as_deref(), Some("a_cute_cat.1713833628.2.png"));
    assert_eq!(plan.writes[2].image, 2);
    assert_eq!(plan.writes[2].path.as_deref(), Some("a_cute_cat.1713833628.3.png"));
}

#[test]
fn test_save_images_automatic_trims_leading_dots() {
    let response = decoded(0, 1);
    let target = OutputTargetWithData::Automatic { prefix: "p".to_string(), extension: "..webp" };
    let plan = response.save_images(target).unwrap();
    assert_eq!(plan.writes[0].path.as_deref(), Some("p.0.1.webp"));

    let target = OutputTargetWithData::Automatic { prefix: "p".to_string(), extension: "j.peg" };
    let plan = response.save_images(target).unwrap();
    assert_eq!(plan.writes[0].path.as_deref(), Some("p.0.1.j.peg"));
}

#[test]
fn test_save_images_automatic_without_images() {
    let response = decoded(9, 0);
    let target = OutputTargetWithData::Automatic { prefix: "p".to_string(), extension: "png" };
    let plan = response.save_images(target).unwrap();
    assert!(plan.writes.is_empty());
    assert_eq!(plan.unused, 0);
}

#[test]
fn test_save_images_automatic_largest_timestamp() {
    let response = decoded(u64::MAX, 1);
    let target = OutputTargetWithData::Automatic { prefix: "p".to_string(), extension: "png" };
    let plan = response.save_images(target).unwrap();
    assert_eq!(plan.writes[0].path.as_deref(), Some("p.18446744073709551615.1.png"));
}

#[test]
fn test_save_images_to_file() {
    let response = decoded(1, 1);
    let plan = response.save_images(OutputTargetWithData::File("out/cat.png")).unwrap();
    assert_eq!(plan.writes.len(), 1);
    assert_eq!(plan.writes[0].image, 0);
    assert_eq!(plan.writes[0].path.as_deref(), Some("out/cat.png"));
    assert_eq!(plan.unused, 0);
}

#[test]
fn test_save_images_to_file_uses_first_of_many() {
    let response = decoded(1, 4);
    let plan = response.save_images(OutputTargetWithData::File("cat.png")).unwrap();
    assert_eq!(plan.writes.len(), 1);
    assert_eq!(plan.writes[0].image, 0);
    assert_eq!(plan.unused, 3);
}

#[test]
fn test_save_images_to_stdout() {
    let response = decoded(1, 2);
    let plan = response.save_images(OutputTargetWithData::Stdout).unwrap();
    assert_eq!(plan.writes.len(), 1);
    assert_eq!(plan.writes[0].image, 0);
    assert_eq!(plan.writes[0].path, None);
    assert_eq!(plan.unused, 1);
}

#[test]
fn test_save_images_needs_an_image_for_named_output() {
    let response = decoded(1, 0);
    let error = response.save_images(OutputTargetWithData::File("cat.png")).unwrap_err();
    assert!(matches!(error, SaveError::NoImages));
    assert_eq!(error.message(), "API unexpectedly returned no images");
    let error = response.save_images(OutputTargetWithData::Stdout).unwrap_err();
    assert!(matches!(error, SaveError::NoImages));
}
