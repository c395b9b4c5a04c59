use transcribe_rs::config::OcrConfig;
use transcribe_rs::ocr::{
    clean_ocr_text, late_worker_result, ocr_worker_args, perform_ocr, read_worker_result, tesseract_version,
    window_geometry, worker_result_text,
};

#[test]
fn ocr_is_not_built_in() {
    let config = OcrConfig::default();
    assert_eq!(
        perform_ocr("/tmp/shot.png", &config),
        Err("OCR support not compiled. Build with: cargo build --release --features ocr".to_string())
    );
}

#[test]
fn recognised_text_cleanup() {
    assert_eq!(clean_ocr_text("  Title  \n\n\n  body line \r\n\t\nlast"), "Title\nbody line\nlast");
    assert_eq!(clean_ocr_text(""), "");
    assert_eq!(clean_ocr_text("\n \n"), "");
    assert_eq!(clean_ocr_text("one"), "one");
}

#[test]
fn capture_geometry() {
    assert_eq!(window_geometry(&[Some(10), Some(-20)], &[Some(1920), Some(1080)]), "10,-20 1920x1080");
    assert_eq!(window_geometry(&[], &[]), "0,0 800x600");
    assert_eq!(window_geometry(&[None, Some(5)], &[Some(640)]), "0,5 640x600");
    assert_eq!(window_geometry(&[Some(i64::MIN)], &[]), "-9223372036854775808,0 800x600");
}

#[test]
fn worker_arguments_and_results() {
    let config = OcrConfig::default();
    let args = ocr_worker_args("/tmp/shot.png", &config);
    assert_eq!(args.len(), 5);
    assert_eq!(args[0], "ocr-worker");
    assert_eq!(args[1], "/tmp/shot.png");
    assert_eq!(args[2], config.result_path);
    assert_eq!(args[3], "eng");
    assert_eq!(args[4], "300");

    assert_eq!(worker_result_text(Ok("text".to_string())), "text");
    assert_eq!(worker_result_text(Err("no image".to_string())), "OCR_ERROR: no image");
    assert_eq!(read_worker_result("text"), Ok("text".to_string()));
    assert_eq!(read_worker_result("OCR_ERROR: no image"), Err("no image".to_string()));
    assert_eq!(read_worker_result("OCR_ERROR:x"), Err("OCR_ERROR:x".to_string()));
    assert_eq!(late_worker_result("text"), Some("text".to_string()));
    assert_eq!(late_worker_result("OCR_ERROR: x"), None);
}

#[test]
fn tesseract_version_line() {
    assert_eq!(tesseract_version("tesseract 5.3.4\n leptonica-1.84.1\n"), "tesseract 5.3.4");
    assert_eq!(tesseract_version("v5\r\nmore"), "v5");
    assert_eq!(tesseract_version("only"), "only");
    assert_eq!(tesseract_version(""), "unknown version");
    assert_eq!(tesseract_version("\nsecond"), "");
}
