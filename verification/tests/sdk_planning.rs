use aws_json_router::router::header_value_text;
use aws_json_router::sdk_gen::{
    gradle_invocation_args, should_retry_assemble, CodeGenSettings, GeneratedSdk,
    MAX_ASSEMBLE_ATTEMPTS,
};
use aws_json_router::text::{decimal_string, str_contains};

#[test]
fn default_settings() {
    let s = CodeGenSettings::default();
    assert_eq!(s.smithy_parallelism, 1);
    assert_eq!(s.max_gradle_heap_megabytes, 512);
    assert_eq!(s.max_gradle_metaspace_megabytes, 512);
    assert!(s.aws_models_path.is_none());
    assert!(s.model_metadata_path.is_none());
}

#[test]
fn gradle_args_for_default_settings() {
    let args = gradle_invocation_args(
        &CodeGenSettings::default(),
        "/sdk/versions.toml",
        "abc123",
        1,
    );
    let expected: Vec<String> = vec![
        "--no-daemon",
        "--no-parallel",
        "--max-workers=1",
        "--info",
        "-Dorg.gradle.jvmargs=-Xmx512m -XX:MaxMetaspaceSize=512m -XX:+UseSerialGC -verbose:gc -Dkotlin.incremental=false -Dkotlin.caching.enabled=false -Dkotlin.compiler.execution.strategy=in-process",
        "-Djava.util.concurrent.ForkJoinPool.common.parallelism=1",
        "-Paws.sdk.previous.release.versions.manifest=/sdk/versions.toml",
        "-Paws.sdk.examples.revision=abc123",
        "-Paws.sdk.sync.attempt=1",
        "aws:sdk:assemble",
    ]
    .into_iter()
    .map(|s| s.to_string())
    .collect();
    assert_eq!(args, expected);
}

#[test]
fn gradle_args_include_optional_model_paths() {
    let settings = CodeGenSettings {
        smithy_parallelism: 4,
        max_gradle_heap_megabytes: 2048,
        max_gradle_metaspace_megabytes: 1024,
        aws_models_path: Some("/models".to_string()),
        model_metadata_path: Some("/meta.toml".to_string()),
    };
    let args = gradle_invocation_args(&settings, "/v.toml", "deadbeef", 2);
    assert_eq!(args[4], "-Dorg.gradle.jvmargs=-Xmx2048m -XX:MaxMetaspaceSize=1024m -XX:+UseSerialGC -verbose:gc -Dkotlin.incremental=false -Dkotlin.caching.enabled=false -Dkotlin.compiler.execution.strategy=in-process");
    assert_eq!(args[5], "-Djava.util.concurrent.ForkJoinPool.common.parallelism=4");
    assert_eq!(args[6], "-Paws.sdk.models.path=/models");
    assert_eq!(args[7], "-Paws.sdk.model.metadata=/meta.toml");
    assert_eq!(args[8], "-Paws.sdk.previous.release.versions.manifest=/v.toml");
    assert_eq!(args[9], "-Paws.sdk.examples.revision=deadbeef");
    assert_eq!(args[10], "-Paws.sdk.sync.attempt=2");
    assert_eq!(args[11], "aws:sdk:assemble");
    assert_eq!(args.len(), 12);
}

#[test]
fn retry_only_on_daemon_timeout_with_attempts_left() {
    let timeout_msg = "something: Timeout waiting to connect to the Gradle daemon (err)";
    assert!(should_retry_assemble(1, MAX_ASSEMBLE_ATTEMPTS, timeout_msg));
    assert!(should_retry_assemble(2, MAX_ASSEMBLE_ATTEMPTS, timeout_msg));
    assert!(!should_retry_assemble(3, MAX_ASSEMBLE_ATTEMPTS, timeout_msg));
    assert!(!should_retry_assemble(1, MAX_ASSEMBLE_ATTEMPTS, "compilation failed"));
}

#[test]
fn decimal_rendering() {
    assert_eq!(decimal_string(0), "0");
    assert_eq!(decimal_string(7), "7");
    assert_eq!(decimal_string(512), "512");
    assert_eq!(decimal_string(10), "10");
    assert_eq!(decimal_string(u64::MAX), "18446744073709551615");
}

#[test]
fn substring_search() {
    assert!(str_contains("abcdef", "cde"));
    assert!(str_contains("abcdef", ""));
    assert!(str_contains("abcdef", "abcdef"));
    assert!(str_contains("abcdef", "f"));
    assert!(!str_contains("abcdef", "fg"));
    assert!(!str_contains("ab", "abc"));
}

#[test]
fn generated_sdk_records_its_path() {
    let sdk = GeneratedSdk::new("/tmp/aws-sdk".to_string());
    assert_eq!(sdk.path().as_str(), "/tmp/aws-sdk");
}

#[test]
fn header_text_decoding() {
    assert_eq!(header_value_text(&b"Op1".to_vec()), Ok("Op1".to_string()));
    assert_eq!(header_value_text(&b"with\ttab".to_vec()), Ok("with\ttab".to_string()));
    assert_eq!(header_value_text(&vec![b'a', 0x1F, b'b']), Err(1));
    assert_eq!(header_value_text(&vec![0xFF]), Err(0));
    assert_eq!(header_value_text(&Vec::new()), Ok(String::new()));
}
