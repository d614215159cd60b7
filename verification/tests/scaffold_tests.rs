use iciaws_cli::base64::base64_decode;
use iciaws_cli::scaffold::{prune_services, substitute};
use iciaws_cli::template_files::get_template_files;

#[test]
fn test_substitute_name() {
    let input = "$NAME$ __PROJECT_NAME__";
    assert_eq!(substitute(input, "myapi", "desc"), "myapi myapi");
}

#[test]
fn test_substitute_description() {
    let input = "__DESCRIPTION__";
    assert_eq!(substitute(input, "x", "hello world"), "hello world");
}

#[test]
fn test_prune_cargo_toml_all_selected() {
    let content = "iciaws_s3 = { git = \"...\", package = \"iciaws_s3\" }\niciaws_ses = { git = \"...\", package = \"iciaws_ses\" }";
    let result = prune_services(content, &["iciaws_s3", "iciaws_ses"]);
    assert!(result.contains("iciaws_s3"));
    assert!(result.contains("iciaws_ses"));
}

#[test]
fn test_prune_cargo_toml_one_selected() {
    let content = "iciaws_s3 = { git = \"...\", package = \"iciaws_s3\" }\niciaws_ses = { git = \"...\", package = \"iciaws_ses\" }";
    let result = prune_services(content, &["iciaws_s3"]);
    assert!(result.contains("iciaws_s3"));
    assert!(!result.contains("iciaws_ses"));
}

#[test]
fn test_prune_main_rs_services() {
    let content = r#"use iciaws_s3::get_s3_client;
use iciaws_ses::get_ses_client;
    let s3_client = get_s3_client().await;
    let ses_client = get_ses_client().await;
    addon_map.put_addon("s3", s3_client);
    addon_map.put_addon("ses", ses_client);"#;
    let result = prune_services(content, &["iciaws_s3"]);
    assert!(result.contains("iciaws_s3"));
    assert!(!result.contains("iciaws_ses"));
    assert!(!result.contains("get_ses_client"));
    assert!(!result.contains(r#""ses""#));
}

/// Verify base64 roundtrip using the same algorithm in both modules.
#[test]
fn test_base64_roundtrip() {
    let original = "Hello, world!\nLine 2\r\nWith #hashes##";
    // Encode using the build-time algorithm (same logic)
    const CHARS: &[u8] = b"ABCDEFGHIJKLMNOPQRSTUVWXYZabcdefghijklmnopqrstuvwxyz0123456789+/";
    let mut result = String::new();
    for chunk in original.as_bytes().chunks(3) {
        let b0 = chunk[0] as u32;
        let b1 = if chunk.len() > 1 { chunk[1] as u32 } else { 0 };
        let b2 = if chunk.len() > 2 { chunk[2] as u32 } else { 0 };
        let triple = (b0 << 16) | (b1 << 8) | b2;
        result.push(CHARS[((triple >> 18) & 0x3F) as usize] as char);
        result.push(CHARS[((triple >> 12) & 0x3F) as usize] as char);
        if chunk.len() > 1 { result.push(CHARS[((triple >> 6) & 0x3F) as usize] as char); } else { result.push('='); }
        if chunk.len() > 2 { result.push(CHARS[(triple & 0x3F) as usize] as char); } else { result.push('='); }
    }
    let decoded = String::from_utf8(base64_decode(&result)).unwrap();
    assert_eq!(decoded, original);
}

#[test]
fn test_extracted_template_is_valid_utf8() {
    for (_name, b64) in get_template_files() {
        let bytes = base64_decode(&b64);
        assert!(String::from_utf8(bytes).is_ok(), "Template {} must be valid UTF-8", b64);
    }
}

#[test]
fn test_substitution_on_template_with_placeholders() {
    // Only files that actually contain placeholders should be checked
    for (name, b64) in get_template_files() {
        let bytes = base64_decode(&b64);
        let content = String::from_utf8(bytes).unwrap();
        let has_placeholder = content.contains("$NAME$") || content.contains("__PROJECT_NAME__") || content.contains("__DESCRIPTION__");
        if has_placeholder {
            let processed = substitute(&content, "myproject", "A cool API");
            assert!(processed.contains("myproject"), "File {} should contain substituted project name", name);
        }
    }
}
