use inference_bridge::error::BridgeError;
use inference_bridge::host::HostCall;
use inference_bridge::image_processing::{DecodeError, ResizeError};
use inference_bridge::inference::SessionError;
use inference_bridge::loader::LoadError;
use inference_bridge::request::{text_request, vision_request, MessageRole, MAX_IMAGE_LENGTH};
use inference_bridge::Paths;

#[test]
fn text_request_carries_the_prompt_only() {
    let request = text_request("hello".to_string());
    assert_eq!(request.role, MessageRole::User);
    assert_eq!(request.prompt, "hello");
    assert_eq!(request.image, None);
}

#[test]
fn vision_request_previews_the_pixels_that_came_in() {
    let pixels = vec![0xFFFF0000u32 as i32, 0x7F00FF00, 0x000000FF, -1, 0, 0x12345678];
    let plan = vision_request("what is this?".to_string(), pixels.clone(), 3, 2).unwrap();
    assert_eq!(plan.request.role, MessageRole::User);
    assert_eq!(plan.request.prompt, "what is this?");
    let image = plan.request.image.unwrap();
    assert_eq!((image.width(), image.height()), (3, 2));
    assert_eq!(&image.as_raw()[..8], &[255u8, 0, 0, 255, 0, 255, 0, 0x7F]);
    assert_eq!(plan.preview, HostCall::ProcessImageUpdate { pixels, width: 3, height: 2 });
}

#[test]
fn vision_request_limits_the_longest_edge() {
    assert_eq!(MAX_IMAGE_LENGTH, 1024);
    let pixels = vec![0xFF102030u32 as i32; 2048 * 4];
    let plan = vision_request("describe".to_string(), pixels, 2048, 4).unwrap();
    let image = plan.request.image.unwrap();
    assert_eq!((image.width(), image.height()), (1024, 2));
    match plan.preview {
        HostCall::ProcessImageUpdate { pixels, width, height } => {
            assert_eq!((width, height), (1024, 2));
            assert_eq!(pixels.len(), 2048);
            assert!(pixels.iter().all(|p| *p == 0xFF102030u32 as i32));
        }
        other => panic!("unexpected preview {:?}", other),
    }
}

#[test]
fn vision_request_refuses_wrong_length() {
    assert_eq!(
        vision_request("p".to_string(), vec![0; 5], 2, 3),
        Err(BridgeError::Decode(DecodeError::LengthMismatch))
    );
}

#[test]
fn vision_request_refuses_empty_image() {
    assert_eq!(
        vision_request("p".to_string(), vec![], 0, 3),
        Err(BridgeError::Resize(ResizeError::InvalidDimensions))
    );
}

#[test]
fn vision_request_refuses_oversize_image() {
    let edge = (1usize << 20) + 1;
    assert_eq!(
        vision_request("p".to_string(), vec![0; edge], edge as u32, 1),
        Err(BridgeError::Resize(ResizeError::TooLarge))
    );
}

#[test]
fn errors_are_described_in_words() {
    let cases = vec![
        (BridgeError::Decode(DecodeError::LengthMismatch), "pixel buffer length is not width * height"),
        (BridgeError::Resize(ResizeError::InvalidDimensions), "image width or height is zero"),
        (BridgeError::Resize(ResizeError::TooLarge), "image is too large to be scaled"),
        (BridgeError::Load(LoadError::Loader("no such file".to_string())), "model load failed: no such file"),
        (BridgeError::Load(LoadError::AlreadyInitialized), "model slot is already initialized"),
        (BridgeError::Load(LoadError::WorkerFailed), "model load worker ended without a result"),
        (BridgeError::Load(LoadError::Cancelled), "model load was cancelled"),
        (BridgeError::Load(LoadError::MissingParent), "path of the weights has no parent"),
        (BridgeError::Load(LoadError::MissingFileName), "path of the weights has no file name"),
        (BridgeError::Session(SessionError::StreamFailed("boom".to_string())), "model stream failed: boom"),
        (BridgeError::Session(SessionError::UnexpectedItem), "model stream gave a response that is not a chunk"),
        (BridgeError::Session(SessionError::MalformedDelta), "model stream gave a delta without content"),
        (BridgeError::Session(SessionError::Cancelled), "session was cancelled"),
        (BridgeError::Host("no such method".to_string()), "host call failed: no such method"),
    ];
    for (error, words) in cases {
        assert_eq!(error.describe(), words);
        assert_eq!(error.exception_message(), format!("Rust Error: {}", words));
    }
}

#[test]
fn host_calls_name_their_methods() {
    let clear = HostCall::ClearOutput;
    assert_eq!(clear.method_name(), "clear_output");
    assert_eq!(clear.jni_signature(), "()V");
    let chunk = HostCall::ProcessChunk("text".to_string());
    assert_eq!(chunk.method_name(), "process_chunk");
    assert_eq!(chunk.jni_signature(), "(Ljava/lang/String;)V");
    let update = HostCall::ProcessImageUpdate { pixels: vec![1, 2], width: 2, height: 1 };
    assert_eq!(update.method_name(), "process_image_update");
    assert_eq!(update.jni_signature(), "([III)V");
}

#[test]
fn paths_hold_nine_locations() {
    let paths = Paths {
        cfg_path: "config.json".to_string(),
        gen_cfg_path: "generation_config.json".to_string(),
        uqff_path: "model/weights.uqff".to_string(),
        pre_proc_path: "preprocessor_config.json".to_string(),
        proc_path: "processor_config.json".to_string(),
        res_path: "residual.safetensors".to_string(),
        tok_path: "tokenizer.json".to_string(),
        tok_cfg_path: "tokenizer_config.json".to_string(),
        cimatrix_path: "cimatrix.dat".to_string(),
    };
    let copy = paths.clone();
    assert_eq!(copy, paths);
    assert_eq!(copy.uqff_path, "model/weights.uqff");
}
