use revi_core::language::detect_language_from_path;

#[test]
fn test_language_detection() {
    assert_eq!(detect_language_from_path("src/main.ts"), "typescript");
    assert_eq!(detect_language_from_path("src/app.tsx"), "typescript");
    assert_eq!(detect_language_from_path("lib/utils.js"), "javascript");
    assert_eq!(detect_language_from_path("src/main.rs"), "rust");
    assert_eq!(detect_language_from_path("app.py"), "python");
    assert_eq!(detect_language_from_path("main.go"), "go");
    assert_eq!(detect_language_from_path("config.json"), "json");
    assert_eq!(detect_language_from_path("styles.css"), "css");
    assert_eq!(detect_language_from_path("index.html"), "html");
    assert_eq!(detect_language_from_path("README.md"), "markdown");
    assert_eq!(detect_language_from_path("Cargo.toml"), "toml");
    assert_eq!(detect_language_from_path("config.yaml"), "yaml");
    assert_eq!(detect_language_from_path("script.sh"), "bash");
    assert_eq!(detect_language_from_path("types.d.ts"), "typescript");
    assert_eq!(detect_language_from_path("unknown.xyz"), "text");
}
