//! Stack detection tests: indicator file contents in, detected stack out.

use orchestra::detector::{detect_stack, Confidence, DetectError, DetectorObs};
use orchestra::types::ProjectType;

fn empty_obs() -> DetectorObs {
    DetectorObs {
        composer_json: None,
        pubspec_yaml: None,
        cargo_toml: None,
        go_mod: None,
        mix_exs: None,
        build_gradle_kts: None,
        build_gradle: None,
        pom_xml: None,
        has_dotnet_project: false,
        csproj_contents: String::new(),
        gemfile: None,
        package_swift: None,
        has_xcodeproj: false,
        package_json: None,
        has_tsconfig: false,
        requirements_txt: None,
        pyproject_toml: None,
        pipfile: None,
        setup_py: None,
    }
}

fn pkg_json(deps: &[(&str, &str)]) -> String {
    let entries: Vec<String> = deps.iter().map(|(k, v)| format!("\"{k}\": \"{v}\"")).collect();
    format!("{{\"dependencies\": {{{}}}}}", entries.join(", "))
}

#[test]
fn php_detection() {
    for (dep, lang, fw, pt) in [
        ("laravel/framework", "PHP", "Laravel", ProjectType::Backend),
        ("symfony/framework-bundle", "PHP", "Symfony", ProjectType::Backend),
        ("roots/sage", "PHP", "WordPress", ProjectType::Backend),
        ("slim/slim", "PHP", "Slim", ProjectType::Backend),
        ("cakephp/cakephp", "PHP", "CakePHP", ProjectType::Backend),
        ("codeigniter4/framework", "PHP", "CodeIgniter", ProjectType::Backend),
    ] {
        let mut obs = empty_obs();
        obs.composer_json = Some(format!(r#"{{"require": {{"{dep}": "^1.0"}}}}"#));
        let s = detect_stack("/code/app", &obs).expect("detect");
        assert_eq!(s.primary_language, lang);
        assert_eq!(s.framework.as_deref(), Some(fw));
        assert_eq!(s.project_type, pt);
        assert_eq!(s.confidence, Confidence::High);
    }
}

#[test]
fn uppercase_content_still_matches() {
    let mut obs = empty_obs();
    obs.composer_json = Some(r#"{"REQUIRE": {"LARAVEL/FRAMEWORK": "^1.0"}}"#.to_string());
    let s = detect_stack("/code/app", &obs).expect("detect");
    assert_eq!(s.framework.as_deref(), Some("Laravel"), "matching is case-insensitive");
}

#[test]
fn php_no_framework() {
    let mut obs = empty_obs();
    obs.composer_json = Some(r#"{"require": {"monolog/monolog": "^3.0"}}"#.to_string());
    let s = detect_stack("/code/app", &obs).expect("detect");
    assert_eq!(s.primary_language, "PHP");
    assert!(s.framework.is_none());
    assert_eq!(s.confidence, Confidence::Medium);
}

#[test]
fn flutter_detection() {
    let mut obs = empty_obs();
    obs.pubspec_yaml = Some("name: myapp\ndependencies:\n  flutter:\n    sdk: flutter\n".to_string());
    let s = detect_stack("/code/app", &obs).expect("detect");
    assert_eq!(s.primary_language, "Dart");
    assert_eq!(s.framework.as_deref(), Some("Flutter"));
    assert_eq!(s.project_type, ProjectType::Mobile);
    assert_eq!(s.confidence, Confidence::High);
}

#[test]
fn dart_no_flutter() {
    let mut obs = empty_obs();
    obs.pubspec_yaml = Some("name: cli_tool\nenvironment:\n  sdk: '>=3.0.0 <4.0.0'\n".to_string());
    let s = detect_stack("/code/app", &obs).expect("detect");
    assert_eq!(s.primary_language, "Dart");
    assert!(s.framework.is_none());
}

#[test]
fn rust_detection() {
    for (dep, lang, fw, pt) in [
        ("actix-web", "Rust", "Actix Web", ProjectType::Backend),
        ("axum", "Rust", "Axum", ProjectType::Backend),
        ("tauri", "Rust", "Tauri", ProjectType::Frontend),
        ("leptos", "Rust", "Leptos", ProjectType::Frontend),
        ("rocket", "Rust", "Rocket", ProjectType::Backend),
    ] {
        let mut obs = empty_obs();
        obs.cargo_toml = Some(format!(
            "[package]\nname = \"app\"\nversion = \"0.1.0\"\n\n[dependencies]\n{dep} = \"1\"\n"
        ));
        let s = detect_stack("/code/app", &obs).expect("detect");
        assert_eq!(s.primary_language, lang);
        assert_eq!(s.framework.as_deref(), Some(fw));
        assert_eq!(s.project_type, pt);
    }
}

#[test]
fn rust_no_framework() {
    let mut obs = empty_obs();
    obs.cargo_toml = Some("[package]\nname = \"app\"\nversion = \"0.1.0\"\n".to_string());
    let s = detect_stack("/code/app", &obs).expect("detect");
    assert_eq!(s.primary_language, "Rust");
    assert!(s.framework.is_none());
    assert_eq!(s.confidence, Confidence::Medium);
}

#[test]
fn go_detection() {
    for (dep, lang, fw) in [
        ("github.com/gin-gonic/gin", "Go", "Gin"),
        ("github.com/labstack/echo/v4", "Go", "Echo"),
        ("github.com/gofiber/fiber/v2", "Go", "Fiber"),
    ] {
        let mut obs = empty_obs();
        obs.go_mod = Some(format!("module myapp\n\ngo 1.21\n\nrequire {dep} v1.0.0\n"));
        let s = detect_stack("/code/app", &obs).expect("detect");
        assert_eq!(s.primary_language, lang);
        assert_eq!(s.framework.as_deref(), Some(fw));
        assert_eq!(s.project_type, ProjectType::Backend);
    }
}

#[test]
fn phoenix_detection() {
    let mut obs = empty_obs();
    obs.mix_exs = Some(
        "defmodule MyApp do\n  defp deps do\n    [{:phoenix, \"~> 1.7\"}]\n  end\nend\n".to_string(),
    );
    let s = detect_stack("/code/app", &obs).expect("detect");
    assert_eq!(s.primary_language, "Elixir");
    assert_eq!(s.framework.as_deref(), Some("Phoenix"));
}

#[test]
fn spring_boot_gradle() {
    let mut obs = empty_obs();
    obs.build_gradle = Some("plugins { id 'org.springframework.boot' version '3.1.0' }\n".to_string());
    let s = detect_stack("/code/app", &obs).expect("detect");
    assert_eq!(s.primary_language, "Java");
    assert_eq!(s.framework.as_deref(), Some("Spring Boot"));
}

#[test]
fn spring_boot_maven() {
    let mut obs = empty_obs();
    obs.pom_xml = Some(
        "<project><parent><artifactId>spring-boot-starter-parent</artifactId></parent></project>"
            .to_string(),
    );
    let s = detect_stack("/code/app", &obs).expect("detect");
    assert_eq!(s.primary_language, "Java");
    assert_eq!(s.framework.as_deref(), Some("Spring Boot"));
}

#[test]
fn kotlin_gradle_kts() {
    let mut obs = empty_obs();
    obs.build_gradle_kts = Some(
        "plugins { id(\"org.springframework.boot\") version \"3.1.0\" }\n".to_string(),
    );
    let s = detect_stack("/code/app", &obs).expect("detect");
    assert_eq!(s.primary_language, "Kotlin");
}

#[test]
fn ruby_detection() {
    for (gemfile_line, fw) in [
        ("gem \"rails\", \"~> 7.1\"", "Rails"),
        ("gem 'sinatra'", "Sinatra"),
        ("gem 'hanami', '~> 2.0'", "Hanami"),
    ] {
        let mut obs = empty_obs();
        obs.gemfile = Some(format!("source 'https://rubygems.org'\n{gemfile_line}\n"));
        let s = detect_stack("/code/app", &obs).expect("detect");
        assert_eq!(s.primary_language, "Ruby");
        assert_eq!(s.framework.as_deref(), Some(fw));
    }
}

#[test]
fn js_framework_detection() {
    for (dep, ver, lang, fw, pt) in [
        ("next", "^14.0.0", "JavaScript", "Next.js", ProjectType::Frontend),
        ("nuxt", "^3.0.0", "JavaScript", "Nuxt", ProjectType::Frontend),
        ("react", "^18.0.0", "JavaScript", "React", ProjectType::Frontend),
        ("vue", "^3.0.0", "JavaScript", "Vue", ProjectType::Frontend),
        ("@angular/core", "^17.0.0", "JavaScript", "Angular", ProjectType::Frontend),
        ("svelte", "^4.0.0", "JavaScript", "Svelte", ProjectType::Frontend),
        ("@sveltejs/kit", "^2.0.0", "JavaScript", "SvelteKit", ProjectType::Frontend),
        ("astro", "^4.0.0", "JavaScript", "Astro", ProjectType::Frontend),
        ("gatsby", "^5.0.0", "JavaScript", "Gatsby", ProjectType::Frontend),
        ("express", "^4.0.0", "JavaScript", "Express", ProjectType::Backend),
        ("fastify", "^4.0.0", "JavaScript", "Fastify", ProjectType::Backend),
        ("@nestjs/core", "^10.0.0", "JavaScript", "NestJS", ProjectType::Backend),
        ("koa", "^2.0.0", "JavaScript", "Koa", ProjectType::Backend),
    ] {
        let mut obs = empty_obs();
        obs.package_json = Some(pkg_json(&[(dep, ver)]));
        let s = detect_stack("/code/app", &obs).expect("detect");
        assert_eq!(s.primary_language, lang);
        assert_eq!(s.framework.as_deref(), Some(fw));
        assert_eq!(s.project_type, pt);
        assert_eq!(s.confidence, Confidence::High);
    }
}

#[test]
fn typescript_detected_via_tsconfig() {
    let mut obs = empty_obs();
    obs.package_json = Some(pkg_json(&[("next", "^14.0.0")]));
    obs.has_tsconfig = true;
    let s = detect_stack("/code/app", &obs).expect("detect");
    assert_eq!(s.primary_language, "TypeScript");
    assert_eq!(s.framework.as_deref(), Some("Next.js"));
}

#[test]
fn remix_detection() {
    let mut obs = empty_obs();
    obs.package_json = Some(pkg_json(&[("@remix-run/react", "^2.0.0")]));
    let s = detect_stack("/code/app", &obs).expect("detect");
    assert_eq!(s.framework.as_deref(), Some("Remix"));
}

#[test]
fn python_detection() {
    for (req, fw, pt) in [
        ("fastapi\nuvicorn\n", "FastAPI", ProjectType::Backend),
        ("Django>=4.2\n", "Django", ProjectType::Backend),
        ("Flask>=3.0\n", "Flask", ProjectType::Backend),
        ("starlette\nhttpx\n", "Starlette", ProjectType::Backend),
        ("torch\nnumpy\n", "PyTorch", ProjectType::Ml),
        ("tensorflow>=2.0\n", "TensorFlow", ProjectType::Ml),
        ("scikit-learn\npandas\n", "scikit-learn", ProjectType::Ml),
        ("streamlit\n", "Streamlit", ProjectType::Ml),
        ("gradio\n", "Gradio", ProjectType::Ml),
    ] {
        let mut obs = empty_obs();
        obs.requirements_txt = Some(req.to_string());
        let s = detect_stack("/code/app", &obs).expect("detect");
        assert_eq!(s.primary_language, "Python");
        assert_eq!(s.framework.as_deref(), Some(fw));
        assert_eq!(s.project_type, pt);
    }
}

#[test]
fn python_pyproject_toml_detection() {
    let mut obs = empty_obs();
    obs.pyproject_toml = Some(
        "[tool.poetry.dependencies]\nfastapi = \"^0.110\"\nuvicorn = \"*\"\n".to_string(),
    );
    let s = detect_stack("/code/app", &obs).expect("detect");
    assert_eq!(s.primary_language, "Python");
    assert_eq!(s.framework.as_deref(), Some("FastAPI"));
}

#[test]
fn empty_dir_returns_unknown_stack_error() {
    let obs = empty_obs();
    let err = detect_stack("/code/app", &obs).unwrap_err();
    assert!(matches!(err, DetectError::UnknownStack { .. }), "got: {err:?}");
}

#[test]
fn invalid_package_json_is_a_parse_error() {
    let mut obs = empty_obs();
    obs.package_json = Some("{not json".to_string());
    let err = detect_stack("/code/app", &obs).unwrap_err();
    match err {
        DetectError::ParseError { path, .. } => assert_eq!(path, "/code/app/package.json"),
        other => panic!("expected parse error, got {other:?}"),
    }
}
