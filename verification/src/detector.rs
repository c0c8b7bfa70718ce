//! Stack detection: inspects the contents of a codebase's indicator files
//! and returns the primary language, framework, and project category.
//! Checks are ordered by specificity: language-specific manifest files take
//! priority over generic ones.
//!
//! Reading the indicator files is the caller's side; the classification of
//! their contents happens here.

use vstd::prelude::*;

use crate::strutil::spec_contains;
use crate::types::ProjectType;

verus! {

/// Confidence level of a detected stack.
#[derive(Debug, Clone, Copy, PartialEq, Eq, Structural)]
pub enum Confidence {
    /// Definitive indicator file with content match.
    High,
    /// Indicator file present but no framework match.
    Medium,
}

/// A detected technology stack for a codebase.
#[derive(Debug, Clone)]
pub struct DetectedStack {
    /// Primary programming language.
    pub primary_language: String,
    /// Framework or runtime, if identified.
    pub framework: Option<String>,
    /// Inferred project category.
    pub project_type: ProjectType,
    /// Detection confidence.
    pub confidence: Confidence,
}

/// Errors from stack detection.
#[derive(Debug, Clone)]
pub enum DetectError {
    /// An I/O error reading an indicator file, already rendered as text.
    Io(String),
    /// An indicator file that should parse did not.
    ParseError { path: String, message: String },
    /// No known indicator file was found.
    UnknownStack { path: String },
}

/// What the lowercasing of a string yields. The result depends on the
/// characters alone.
pub uninterp spec fn lower_of(s: Seq<char>) -> Seq<char>;

/// Relies on `str::to_lowercase`: the result depends on the characters
/// alone, and an empty string stays empty.
#[verifier::external_body]
fn lowercase(s: &str) -> (r: String)
    ensures
        r@ == lower_of(s@),
        s@.len() == 0 ==> r@.len() == 0,
{
    s.to_lowercase()
}

/// Whether a string parses as a JSON document. Parse success is a function
/// of the content alone.
pub uninterp spec fn json_ok_of(content: Seq<char>) -> bool;

/// The keys of one named top-level object of a JSON document, in order;
/// empty when the document has no such object. A function of the content
/// and the section name alone.
pub uninterp spec fn section_keys_of(content: Seq<char>, section: Seq<char>) -> Seq<Seq<char>>;

/// Relies on serde_json: parses the document and collects the keys of the
/// named top-level object. Succeeds exactly when the content is valid JSON.
#[verifier::external_body]
fn json_section_keys(content: &str, section: &str) -> (r: Option<Vec<String>>)
    ensures
        r is Some <==> json_ok_of(content@),
        r matches Some(v) ==> v@.map_values(|s: String| s@) == section_keys_of(
            content@,
            section@,
        ),
{
    let json: serde_json::Value = match serde_json::from_str(content) {
        Ok(v) => v,
        Err(_) => return None,
    };
    let mut keys: Vec<String> = Vec::new();
    if let Some(obj) = json.get(section).and_then(|v| v.as_object()) {
        for k in obj.keys() {
            keys.push(k.clone());
        }
    }
    Some(keys)
}

/// The dependency names a package manifest declares: the keys of its
/// `dependencies`, `devDependencies` and `peerDependencies` sections, in
/// that order.
pub open spec fn spec_dep_names(content: Seq<char>) -> Seq<Seq<char>> {
    section_keys_of(content, "dependencies"@) + section_keys_of(content, "devDependencies"@)
        + section_keys_of(content, "peerDependencies"@)
}

/// Collect a package manifest's dependency names from its three dependency
/// sections, or nothing when the manifest is not valid JSON.
fn package_dependency_names(content: &str) -> (r: Option<Vec<String>>)
    ensures
        r is Some <==> json_ok_of(content@),
        r matches Some(v) ==> v@.map_values(|s: String| s@) == spec_dep_names(content@),
{
    let mut deps = match json_section_keys(content, "dependencies") {
        Option::Some(v) => v,
        Option::None => {
            return Option::None;
        },
    };
    let dev = match json_section_keys(content, "devDependencies") {
        Option::Some(v) => v,
        Option::None => {
            // The first call proved the content parses, so this arm is
            // unreachable.
            proof {
                assert(false);
            }
            return Option::None;
        },
    };
    let peer = match json_section_keys(content, "peerDependencies") {
        Option::Some(v) => v,
        Option::None => {
            // Unreachable for the same reason.
            proof {
                assert(false);
            }
            return Option::None;
        },
    };
    let ghost deps0 = deps@;
    let mut i: usize = 0;
    while i < dev.len()
        invariant
            i <= dev@.len(),
            deps@.map_values(|s: String| s@) == deps0.map_values(|s: String| s@)
                + dev@.map_values(|s: String| s@).take(i as int),
        decreases dev@.len() - i,
    {
        let ghost prev = deps@;
        deps.push(dev[i].clone());
        proof {
            assert(deps@.map_values(|s: String| s@) =~= prev.map_values(|s: String| s@) + seq![
                dev@[i as int]@,
            ]);
            assert(prev.map_values(|s: String| s@) + seq![dev@[i as int]@] =~= deps0.map_values(
                |s: String| s@,
            ) + dev@.map_values(|s: String| s@).take(i + 1));
        }
        i = i + 1;
    }
    proof {
        assert(dev@.map_values(|s: String| s@).take(dev@.len() as int) =~= dev@.map_values(
            |s: String| s@,
        ));
    }
    let ghost deps1 = deps@;
    let mut k: usize = 0;
    while k < peer.len()
        invariant
            k <= peer@.len(),
            deps@.map_values(|s: String| s@) == deps1.map_values(|s: String| s@)
                + peer@.map_values(|s: String| s@).take(k as int),
        decreases peer@.len() - k,
    {
        let ghost prev = deps@;
        deps.push(peer[k].clone());
        proof {
            assert(deps@.map_values(|s: String| s@) =~= prev.map_values(|s: String| s@) + seq![
                peer@[k as int]@,
            ]);
            assert(prev.map_values(|s: String| s@) + seq![peer@[k as int]@] =~= deps1.map_values(
                |s: String| s@,
            ) + peer@.map_values(|s: String| s@).take(k + 1));
        }
        k = k + 1;
    }
    proof {
        assert(peer@.map_values(|s: String| s@).take(peer@.len() as int) =~= peer@.map_values(
            |s: String| s@,
        ));
        assert(deps@.map_values(|s: String| s@) =~= spec_dep_names(content@));
    }
    Option::Some(deps)
}

/// The contents of every indicator file found in a codebase root, plus the
/// presence flags the detection rules read.
pub struct DetectorObs {
    pub composer_json: Option<String>,
    pub pubspec_yaml: Option<String>,
    pub cargo_toml: Option<String>,
    pub go_mod: Option<String>,
    pub mix_exs: Option<String>,
    pub build_gradle_kts: Option<String>,
    pub build_gradle: Option<String>,
    pub pom_xml: Option<String>,
    /// Any `.csproj`, `.sln` or `.fsproj` file present.
    pub has_dotnet_project: bool,
    /// The contents of every `.csproj` file, joined.
    pub csproj_contents: String,
    pub gemfile: Option<String>,
    pub package_swift: Option<String>,
    pub has_xcodeproj: bool,
    pub package_json: Option<String>,
    pub has_tsconfig: bool,
    pub requirements_txt: Option<String>,
    pub pyproject_toml: Option<String>,
    pub pipfile: Option<String>,
    pub setup_py: Option<String>,
}

/// The framework the PHP rules detect in lowered content.
pub open spec fn spec_php_framework(lower: Seq<char>) -> Option<Seq<char>> {
    if spec_contains(lower, "laravel/framework"@) {
        Some("Laravel"@)
    } else if spec_contains(lower, "symfony/symfony"@) || spec_contains(lower, "symfony/framework-bundle"@) {
        Some("Symfony"@)
    } else if spec_contains(lower, "roots/sage"@) || spec_contains(lower, "johnpbloch/wordpress"@) {
        Some("WordPress"@)
    } else if spec_contains(lower, "slim/slim"@) {
        Some("Slim"@)
    } else if spec_contains(lower, "cakephp/cakephp"@) {
        Some("CakePHP"@)
    } else if spec_contains(lower, "codeigniter4/framework"@) {
        Some("CodeIgniter"@)
    } else {
        None
    }
}

/// The framework the Rust rules detect in lowered content.
pub open spec fn spec_rust_crate_framework(lower: Seq<char>) -> Option<Seq<char>> {
    if spec_contains(lower, "actix-web"@) || spec_contains(lower, "actix_web"@) {
        Some("Actix Web"@)
    } else if spec_contains(lower, "\"axum\""@) || spec_contains(lower, "axum ="@) {
        Some("Axum"@)
    } else if spec_contains(lower, "tauri"@) {
        Some("Tauri"@)
    } else if spec_contains(lower, "leptos"@) {
        Some("Leptos"@)
    } else if spec_contains(lower, "rocket"@) {
        Some("Rocket"@)
    } else if spec_contains(lower, "warp"@) {
        Some("Warp"@)
    } else {
        None
    }
}

/// The framework the Go rules detect in lowered content.
pub open spec fn spec_go_framework(lower: Seq<char>) -> Option<Seq<char>> {
    if spec_contains(lower, "gin-gonic/gin"@) {
        Some("Gin"@)
    } else if spec_contains(lower, "labstack/echo"@) {
        Some("Echo"@)
    } else if spec_contains(lower, "gofiber/fiber"@) {
        Some("Fiber"@)
    } else if spec_contains(lower, "beego/beego"@) || spec_contains(lower, "astaxie/beego"@) {
        Some("Beego"@)
    } else if spec_contains(lower, "go-chi/chi"@) {
        Some("Chi"@)
    } else {
        None
    }
}

/// The framework the Elixir rules detect in lowered content.
pub open spec fn spec_elixir_framework(lower: Seq<char>) -> Option<Seq<char>> {
    if spec_contains(lower, ":phoenix"@) || spec_contains(lower, "\"phoenix\""@) {
        Some("Phoenix"@)
    } else {
        None
    }
}

/// The framework the JVM rules detect in lowered content.
pub open spec fn spec_jvm_framework(lower: Seq<char>) -> Option<Seq<char>> {
    if spec_contains(lower, "spring-boot"@) || spec_contains(lower, "springframework"@) {
        Some("Spring Boot"@)
    } else if spec_contains(lower, "quarkus"@) {
        Some("Quarkus"@)
    } else if spec_contains(lower, "micronaut"@) {
        Some("Micronaut"@)
    } else {
        None
    }
}

/// The framework the .NET rules detect in lowered content.
pub open spec fn spec_dotnet_framework(lower: Seq<char>) -> Option<Seq<char>> {
    if spec_contains(lower, "microsoft.aspnetcore"@) {
        Some("ASP.NET Core"@)
    } else if spec_contains(lower, "maui"@) {
        Some("MAUI"@)
    } else if spec_contains(lower, "blazor"@) || spec_contains(lower, "microsoft.aspnetcore.components"@) {
        Some("Blazor"@)
    } else {
        None
    }
}

/// The framework the Ruby rules detect in lowered content.
pub open spec fn spec_ruby_framework(lower: Seq<char>) -> Option<Seq<char>> {
    if spec_contains(lower, "\"rails\""@) || spec_contains(lower, "'rails'"@) {
        Some("Rails"@)
    } else if spec_contains(lower, "sinatra"@) {
        Some("Sinatra"@)
    } else if spec_contains(lower, "hanami"@) {
        Some("Hanami"@)
    } else {
        None
    }
}

/// The framework the Swift rules detect in lowered content.
pub open spec fn spec_swift_framework(lower: Seq<char>) -> Option<Seq<char>> {
    if spec_contains(lower, "swiftui"@) {
        Some("SwiftUI"@)
    } else if spec_contains(lower, "vapor"@) {
        Some("Vapor"@)
    } else {
        None
    }
}

/// Classify PHP indicator content.
pub fn classify_php(content: &str) -> (r: DetectedStack)
    ensures
        r.primary_language@ == "PHP"@,
        match r.framework {
            Some(f) => spec_php_framework(lower_of(content@)) matches Some(x) && f@ == x,
            None => spec_php_framework(lower_of(content@)) is None,
        },
        r.confidence == (if spec_php_framework(lower_of(content@)) is Some {
            Confidence::High
        } else {
            Confidence::Medium
        }),
        r.project_type == ProjectType::Backend,
{
    let lowered = lowercase(content);
    let framework: Option<String> = if crate::strutil::contains_str(lowered.as_str(), "laravel/framework") {
        Option::Some("Laravel".to_owned())
    } else if crate::strutil::contains_str(lowered.as_str(), "symfony/symfony") || crate::strutil::contains_str(lowered.as_str(), "symfony/framework-bundle") {
        Option::Some("Symfony".to_owned())
    } else if crate::strutil::contains_str(lowered.as_str(), "roots/sage") || crate::strutil::contains_str(lowered.as_str(), "johnpbloch/wordpress") {
        Option::Some("WordPress".to_owned())
    } else if crate::strutil::contains_str(lowered.as_str(), "slim/slim") {
        Option::Some("Slim".to_owned())
    } else if crate::strutil::contains_str(lowered.as_str(), "cakephp/cakephp") {
        Option::Some("CakePHP".to_owned())
    } else if crate::strutil::contains_str(lowered.as_str(), "codeigniter4/framework") {
        Option::Some("CodeIgniter".to_owned())
    } else {
        Option::None
    };
    let confidence = if framework.is_some() {
        Confidence::High
    } else {
        Confidence::Medium
    };
    DetectedStack {
        primary_language: "PHP".to_owned(),
        framework,
        project_type: ProjectType::Backend,
        confidence,
    }
}

/// Classify Go indicator content.
pub fn classify_go(content: &str) -> (r: DetectedStack)
    ensures
        r.primary_language@ == "Go"@,
        match r.framework {
            Some(f) => spec_go_framework(lower_of(content@)) matches Some(x) && f@ == x,
            None => spec_go_framework(lower_of(content@)) is None,
        },
        r.confidence == (if spec_go_framework(lower_of(content@)) is Some {
            Confidence::High
        } else {
            Confidence::Medium
        }),
        r.project_type == ProjectType::Backend,
{
    let lowered = lowercase(content);
    let framework: Option<String> = if crate::strutil::contains_str(lowered.as_str(), "gin-gonic/gin") {
        Option::Some("Gin".to_owned())
    } else if crate::strutil::contains_str(lowered.as_str(), "labstack/echo") {
        Option::Some("Echo".to_owned())
    } else if crate::strutil::contains_str(lowered.as_str(), "gofiber/fiber") {
        Option::Some("Fiber".to_owned())
    } else if crate::strutil::contains_str(lowered.as_str(), "beego/beego") || crate::strutil::contains_str(lowered.as_str(), "astaxie/beego") {
        Option::Some("Beego".to_owned())
    } else if crate::strutil::contains_str(lowered.as_str(), "go-chi/chi") {
        Option::Some("Chi".to_owned())
    } else {
        Option::None
    };
    let confidence = if framework.is_some() {
        Confidence::High
    } else {
        Confidence::Medium
    };
    DetectedStack {
        primary_language: "Go".to_owned(),
        framework,
        project_type: ProjectType::Backend,
        confidence,
    }
}

/// Classify Elixir indicator content.
pub fn classify_elixir(content: &str) -> (r: DetectedStack)
    ensures
        r.primary_language@ == "Elixir"@,
        match r.framework {
            Some(f) => spec_elixir_framework(lower_of(content@)) matches Some(x) && f@ == x,
            None => spec_elixir_framework(lower_of(content@)) is None,
        },
        r.confidence == (if spec_elixir_framework(lower_of(content@)) is Some {
            Confidence::High
        } else {
            Confidence::Medium
        }),
        r.project_type == ProjectType::Backend,
{
    let lowered = lowercase(content);
    let framework: Option<String> = if crate::strutil::contains_str(lowered.as_str(), ":phoenix") || crate::strutil::contains_str(lowered.as_str(), "\"phoenix\"") {
        Option::Some("Phoenix".to_owned())
    } else {
        Option::None
    };
    let confidence = if framework.is_some() {
        Confidence::High
    } else {
        Confidence::Medium
    };
    DetectedStack {
        primary_language: "Elixir".to_owned(),
        framework,
        project_type: ProjectType::Backend,
        confidence,
    }
}

/// Classify Ruby indicator content.
pub fn classify_ruby(content: &str) -> (r: DetectedStack)
    ensures
        r.primary_language@ == "Ruby"@,
        match r.framework {
            Some(f) => spec_ruby_framework(lower_of(content@)) matches Some(x) && f@ == x,
            None => spec_ruby_framework(lower_of(content@)) is None,
        },
        r.confidence == (if spec_ruby_framework(lower_of(content@)) is Some {
            Confidence::High
        } else {
            Confidence::Medium
        }),
        r.project_type == ProjectType::Backend,
{
    let lowered = lowercase(content);
    let framework: Option<String> = if crate::strutil::contains_str(lowered.as_str(), "\"rails\"") || crate::strutil::contains_str(lowered.as_str(), "'rails'") {
        Option::Some("Rails".to_owned())
    } else if crate::strutil::contains_str(lowered.as_str(), "sinatra") {
        Option::Some("Sinatra".to_owned())
    } else if crate::strutil::contains_str(lowered.as_str(), "hanami") {
        Option::Some("Hanami".to_owned())
    } else {
        Option::None
    };
    let confidence = if framework.is_some() {
        Confidence::High
    } else {
        Confidence::Medium
    };
    DetectedStack {
        primary_language: "Ruby".to_owned(),
        framework,
        project_type: ProjectType::Backend,
        confidence,
    }
}

/// The project category of a Rust crate: Tauri and Leptos are frontend.
pub open spec fn spec_rust_project_type(fw: Option<Seq<char>>) -> ProjectType {
    match fw {
        Some(f) => if f == "Tauri"@ || f == "Leptos"@ {
            ProjectType::Frontend
        } else {
            ProjectType::Backend
        },
        None => ProjectType::Backend,
    }
}

/// Classify Rust indicator content.
pub fn classify_rust_crate(content: &str) -> (r: DetectedStack)
    ensures
        r.primary_language@ == "Rust"@,
        match r.framework {
            Some(f) => spec_rust_crate_framework(lower_of(content@)) matches Some(x) && f@ == x,
            None => spec_rust_crate_framework(lower_of(content@)) is None,
        },
        r.confidence == (if spec_rust_crate_framework(lower_of(content@)) is Some {
            Confidence::High
        } else {
            Confidence::Medium
        }),
        r.project_type == spec_rust_project_type(spec_rust_crate_framework(lower_of(content@))),
{
    let lowered = lowercase(content);
    let framework: Option<String> = if crate::strutil::contains_str(lowered.as_str(), "actix-web") || crate::strutil::contains_str(lowered.as_str(), "actix_web") {
        Option::Some("Actix Web".to_owned())
    } else if crate::strutil::contains_str(lowered.as_str(), "\"axum\"") || crate::strutil::contains_str(lowered.as_str(), "axum =") {
        Option::Some("Axum".to_owned())
    } else if crate::strutil::contains_str(lowered.as_str(), "tauri") {
        Option::Some("Tauri".to_owned())
    } else if crate::strutil::contains_str(lowered.as_str(), "leptos") {
        Option::Some("Leptos".to_owned())
    } else if crate::strutil::contains_str(lowered.as_str(), "rocket") {
        Option::Some("Rocket".to_owned())
    } else if crate::strutil::contains_str(lowered.as_str(), "warp") {
        Option::Some("Warp".to_owned())
    } else {
        Option::None
    };
    let confidence = if framework.is_some() {
        Confidence::High
    } else {
        Confidence::Medium
    };
    let project_type = match &framework {
        Option::Some(f) => {
            if crate::strutil::str_eq(f.as_str(), "Tauri") || crate::strutil::str_eq(
                f.as_str(),
                "Leptos",
            ) {
                ProjectType::Frontend
            } else {
                ProjectType::Backend
            }
        },
        Option::None => ProjectType::Backend,
    };
    DetectedStack {
        primary_language: "Rust".to_owned(),
        framework,
        project_type,
        confidence,
    }
}

/// A pubspec marks a Flutter app when it names the flutter SDK.
pub open spec fn spec_is_flutter(content: Seq<char>) -> bool {
    spec_contains(content, "flutter:"@) && spec_contains(content, "sdk: flutter"@)
}

/// Classify Dart indicator content.
pub fn classify_dart_flutter(content: &str) -> (r: DetectedStack)
    ensures
        r.primary_language@ == "Dart"@,
        spec_is_flutter(content@) ==> (r.framework matches Some(f) && f@ == "Flutter"@
            && r.project_type == ProjectType::Mobile && r.confidence == Confidence::High),
        !spec_is_flutter(content@) ==> r.framework is None && r.project_type
            == ProjectType::Backend && r.confidence == Confidence::Medium,
{
    let is_flutter = crate::strutil::contains_str(content, "flutter:")
        && crate::strutil::contains_str(content, "sdk: flutter");
    if is_flutter {
        DetectedStack {
            primary_language: "Dart".to_owned(),
            framework: Option::Some("Flutter".to_owned()),
            project_type: ProjectType::Mobile,
            confidence: Confidence::High,
        }
    } else {
        DetectedStack {
            primary_language: "Dart".to_owned(),
            framework: Option::None,
            project_type: ProjectType::Backend,
            confidence: Confidence::Medium,
        }
    }
}

/// Classify JVM build-file content; Kotlin when the Gradle script is `.kts`.
pub fn classify_jvm(content: &str, is_kotlin: bool) -> (r: DetectedStack)
    ensures
        is_kotlin ==> r.primary_language@ == "Kotlin"@,
        !is_kotlin ==> r.primary_language@ == "Java"@,
        match r.framework {
            Some(f) => spec_jvm_framework(lower_of(content@)) matches Some(x) && f@ == x,
            None => spec_jvm_framework(lower_of(content@)) is None,
        },
        r.confidence == (if spec_jvm_framework(lower_of(content@)) is Some {
            Confidence::High
        } else {
            Confidence::Medium
        }),
        r.project_type == ProjectType::Backend,
{
    let lowered = lowercase(content);
    let framework: Option<String> = if crate::strutil::contains_str(lowered.as_str(), "spring-boot") || crate::strutil::contains_str(lowered.as_str(), "springframework") {
        Option::Some("Spring Boot".to_owned())
    } else if crate::strutil::contains_str(lowered.as_str(), "quarkus") {
        Option::Some("Quarkus".to_owned())
    } else if crate::strutil::contains_str(lowered.as_str(), "micronaut") {
        Option::Some("Micronaut".to_owned())
    } else {
        Option::None
    };
    let confidence = if framework.is_some() {
        Confidence::High
    } else {
        Confidence::Medium
    };
    let language = if is_kotlin {
        "Kotlin".to_owned()
    } else {
        "Java".to_owned()
    };
    DetectedStack {
        primary_language: language,
        framework,
        project_type: ProjectType::Backend,
        confidence,
    }
}

/// The project category of a .NET stack: MAUI is mobile, Blazor frontend.
pub open spec fn spec_dotnet_project_type(fw: Option<Seq<char>>) -> ProjectType {
    match fw {
        Some(f) => if f == "MAUI"@ {
            ProjectType::Mobile
        } else if f == "Blazor"@ {
            ProjectType::Frontend
        } else {
            ProjectType::Backend
        },
        None => ProjectType::Backend,
    }
}

/// Classify .NET project-file content.
pub fn classify_dotnet(content: &str) -> (r: DetectedStack)
    ensures
        r.primary_language@ == "C#"@,
        match r.framework {
            Some(f) => spec_dotnet_framework(lower_of(content@)) matches Some(x) && f@ == x,
            None => spec_dotnet_framework(lower_of(content@)) is None,
        },
        r.confidence == (if spec_dotnet_framework(lower_of(content@)) is Some {
            Confidence::High
        } else {
            Confidence::Medium
        }),
        r.project_type == spec_dotnet_project_type(spec_dotnet_framework(lower_of(content@))),
{
    let lowered = lowercase(content);
    let framework: Option<String> = if crate::strutil::contains_str(lowered.as_str(), "microsoft.aspnetcore") {
        Option::Some("ASP.NET Core".to_owned())
    } else if crate::strutil::contains_str(lowered.as_str(), "maui") {
        Option::Some("MAUI".to_owned())
    } else if crate::strutil::contains_str(lowered.as_str(), "blazor") || crate::strutil::contains_str(lowered.as_str(), "microsoft.aspnetcore.components") {
        Option::Some("Blazor".to_owned())
    } else {
        Option::None
    };
    let confidence = if framework.is_some() {
        Confidence::High
    } else {
        Confidence::Medium
    };
    let project_type = match &framework {
        Option::Some(f) => {
            if crate::strutil::str_eq(f.as_str(), "MAUI") {
                ProjectType::Mobile
            } else if crate::strutil::str_eq(f.as_str(), "Blazor") {
                ProjectType::Frontend
            } else {
                ProjectType::Backend
            }
        },
        Option::None => ProjectType::Backend,
    };
    DetectedStack {
        primary_language: "C#".to_owned(),
        framework,
        project_type,
        confidence,
    }
}

/// The project category of a Swift stack: Vapor is backend, the rest mobile.
pub open spec fn spec_swift_project_type(fw: Option<Seq<char>>) -> ProjectType {
    match fw {
        Some(f) => if f == "Vapor"@ {
            ProjectType::Backend
        } else {
            ProjectType::Mobile
        },
        None => ProjectType::Mobile,
    }
}

/// Classify Swift indicator content (empty when only an Xcode project was
/// found). Confidence stays medium: the indicator is never definitive.
pub fn classify_swift(content: &str) -> (r: DetectedStack)
    ensures
        r.primary_language@ == "Swift"@,
        match r.framework {
            Some(f) => spec_swift_framework(lower_of(content@)) matches Some(x) && f@ == x,
            None => spec_swift_framework(lower_of(content@)) is None,
        },
        r.confidence == Confidence::Medium,
        r.project_type == spec_swift_project_type(spec_swift_framework(lower_of(content@))),
{
    let lowered = lowercase(content);
    let framework: Option<String> = if crate::strutil::contains_str(lowered.as_str(), "swiftui") {
        Option::Some("SwiftUI".to_owned())
    } else if crate::strutil::contains_str(lowered.as_str(), "vapor") {
        Option::Some("Vapor".to_owned())
    } else {
        Option::None
    };
    let project_type = match &framework {
        Option::Some(f) => {
            if crate::strutil::str_eq(f.as_str(), "Vapor") {
                ProjectType::Backend
            } else {
                ProjectType::Mobile
            }
        },
        Option::None => ProjectType::Mobile,
    };
    DetectedStack {
        primary_language: "Swift".to_owned(),
        framework,
        project_type,
        confidence: Confidence::Medium,
    }
}

/// Membership of a dependency name in a manifest's dependency list.
pub open spec fn spec_has_dep(deps: Seq<Seq<char>>, name: Seq<char>) -> bool {
    deps.contains(name)
}

/// Does the dependency list name this package?
fn has_dep(deps: &Vec<String>, name: &str) -> (r: bool)
    ensures
        r == spec_has_dep(deps@.map_values(|s: String| s@), name@),
{
    let ghost views = deps@.map_values(|s: String| s@);
    let mut i: usize = 0;
    while i < deps.len()
        invariant
            views == deps@.map_values(|s: String| s@),
            i <= deps@.len(),
            forall|t: int| 0 <= t < i ==> views[t] != name@,
        decreases deps@.len() - i,
    {
        if crate::strutil::str_eq(deps[i].as_str(), name) {
            proof {
                assert(views[i as int] == name@);
            }
            return true;
        }
        i = i + 1;
    }
    proof {
        assert(forall|t: int| 0 <= t < views.len() ==> views[t] != name@);
    }
    false
}

/// The JavaScript framework and category the dependency list implies.
pub open spec fn spec_js_framework(deps: Seq<Seq<char>>) -> Option<(Seq<char>, ProjectType)> {
    if spec_has_dep(deps, "next"@) {
        Some(("Next.js"@, ProjectType::Frontend))
    } else if spec_has_dep(deps, "nuxt"@) || spec_has_dep(deps, "nuxt3"@) {
        Some(("Nuxt"@, ProjectType::Frontend))
    } else if spec_has_dep(deps, "@remix-run/react"@) || spec_has_dep(deps, "@remix-run/node"@) {
        Some(("Remix"@, ProjectType::Frontend))
    } else if spec_has_dep(deps, "astro"@) {
        Some(("Astro"@, ProjectType::Frontend))
    } else if spec_has_dep(deps, "gatsby"@) {
        Some(("Gatsby"@, ProjectType::Frontend))
    } else if spec_has_dep(deps, "@angular/core"@) {
        Some(("Angular"@, ProjectType::Frontend))
    } else if spec_has_dep(deps, "@sveltejs/kit"@) {
        Some(("SvelteKit"@, ProjectType::Frontend))
    } else if spec_has_dep(deps, "svelte"@) {
        Some(("Svelte"@, ProjectType::Frontend))
    } else if spec_has_dep(deps, "vue"@) {
        Some(("Vue"@, ProjectType::Frontend))
    } else if spec_has_dep(deps, "react"@) {
        Some(("React"@, ProjectType::Frontend))
    } else if spec_has_dep(deps, "@nestjs/core"@) {
        Some(("NestJS"@, ProjectType::Backend))
    } else if spec_has_dep(deps, "express"@) {
        Some(("Express"@, ProjectType::Backend))
    } else if spec_has_dep(deps, "fastify"@) {
        Some(("Fastify"@, ProjectType::Backend))
    } else if spec_has_dep(deps, "koa"@) {
        Some(("Koa"@, ProjectType::Backend))
    } else if spec_has_dep(deps, "hapi"@) || spec_has_dep(deps, "@hapi/hapi"@) {
        Some(("Hapi"@, ProjectType::Backend))
    } else {
        None
    }
}

/// Classify a JavaScript or TypeScript codebase from its dependency list
/// and the presence of a TypeScript configuration.
pub fn classify_javascript(has_tsconfig: bool, deps: &Vec<String>) -> (r: DetectedStack)
    ensures
        ({
            let views = deps@.map_values(|s: String| s@);
            let is_ts = has_tsconfig || spec_has_dep(views, "typescript"@);
            &&& is_ts ==> r.primary_language@ == "TypeScript"@
            &&& !is_ts ==> r.primary_language@ == "JavaScript"@
            &&& match spec_js_framework(views) {
                Some(fw) => (r.framework matches Some(f) && f@ == fw.0) && r.project_type
                    == fw.1 && r.confidence == Confidence::High,
                None => r.framework is None && r.project_type == ProjectType::Backend
                    && r.confidence == Confidence::Medium,
            }
        }),
{
    let is_typescript = has_tsconfig || has_dep(deps, "typescript");
    let language = if is_typescript {
        "TypeScript".to_owned()
    } else {
        "JavaScript".to_owned()
    };
    let found: Option<(String, ProjectType)> = if has_dep(deps, "next") {
        Option::Some(("Next.js".to_owned(), ProjectType::Frontend))
    } else if has_dep(deps, "nuxt") || has_dep(deps, "nuxt3") {
        Option::Some(("Nuxt".to_owned(), ProjectType::Frontend))
    } else if has_dep(deps, "@remix-run/react") || has_dep(deps, "@remix-run/node") {
        Option::Some(("Remix".to_owned(), ProjectType::Frontend))
    } else if has_dep(deps, "astro") {
        Option::Some(("Astro".to_owned(), ProjectType::Frontend))
    } else if has_dep(deps, "gatsby") {
        Option::Some(("Gatsby".to_owned(), ProjectType::Frontend))
    } else if has_dep(deps, "@angular/core") {
        Option::Some(("Angular".to_owned(), ProjectType::Frontend))
    } else if has_dep(deps, "@sveltejs/kit") {
        Option::Some(("SvelteKit".to_owned(), ProjectType::Frontend))
    } else if has_dep(deps, "svelte") {
        Option::Some(("Svelte".to_owned(), ProjectType::Frontend))
    } else if has_dep(deps, "vue") {
        Option::Some(("Vue".to_owned(), ProjectType::Frontend))
    } else if has_dep(deps, "react") {
        Option::Some(("React".to_owned(), ProjectType::Frontend))
    } else if has_dep(deps, "@nestjs/core") {
        Option::Some(("NestJS".to_owned(), ProjectType::Backend))
    } else if has_dep(deps, "express") {
        Option::Some(("Express".to_owned(), ProjectType::Backend))
    } else if has_dep(deps, "fastify") {
        Option::Some(("Fastify".to_owned(), ProjectType::Backend))
    } else if has_dep(deps, "koa") {
        Option::Some(("Koa".to_owned(), ProjectType::Backend))
    } else if has_dep(deps, "hapi") || has_dep(deps, "@hapi/hapi") {
        Option::Some(("Hapi".to_owned(), ProjectType::Backend))
    } else {
        Option::None
    };
    match found {
        Option::Some((f, pt)) => DetectedStack {
            primary_language: language,
            framework: Option::Some(f),
            project_type: pt,
            confidence: Confidence::High,
        },
        Option::None => DetectedStack {
            primary_language: language,
            framework: Option::None,
            project_type: ProjectType::Backend,
            confidence: Confidence::Medium,
        },
    }
}

/// The Python framework and category the lowered indicator content implies.
pub open spec fn spec_python_framework(lower: Seq<char>) -> Option<(Seq<char>, ProjectType)> {
    if spec_contains(lower, "fastapi"@) {
        Some(("FastAPI"@, ProjectType::Backend))
    } else if spec_contains(lower, "django"@) {
        Some(("Django"@, ProjectType::Backend))
    } else if spec_contains(lower, "flask"@) {
        Some(("Flask"@, ProjectType::Backend))
    } else if spec_contains(lower, "starlette"@) {
        Some(("Starlette"@, ProjectType::Backend))
    } else if spec_contains(lower, "litestar"@) || spec_contains(lower, "litestar-api"@) {
        Some(("Litestar"@, ProjectType::Backend))
    } else if spec_contains(lower, "streamlit"@) {
        Some(("Streamlit"@, ProjectType::Ml))
    } else if spec_contains(lower, "gradio"@) {
        Some(("Gradio"@, ProjectType::Ml))
    } else if spec_contains(lower, "torch"@) || spec_contains(lower, "pytorch"@) {
        Some(("PyTorch"@, ProjectType::Ml))
    } else if spec_contains(lower, "tensorflow"@) || spec_contains(lower, "keras"@) {
        Some(("TensorFlow"@, ProjectType::Ml))
    } else if spec_contains(lower, "scikit-learn"@) || spec_contains(lower, "sklearn"@) {
        Some(("scikit-learn"@, ProjectType::Ml))
    } else if spec_contains(lower, "pandas"@) || spec_contains(lower, "numpy"@) {
        Some(("Data Science"@, ProjectType::Ml))
    } else {
        None
    }
}

/// Classify Python indicator content.
pub fn classify_python(content: &str) -> (r: DetectedStack)
    ensures
        r.primary_language@ == "Python"@,
        match spec_python_framework(lower_of(content@)) {
            Some(fw) => (r.framework matches Some(f) && f@ == fw.0) && r.project_type == fw.1
                && r.confidence == Confidence::High,
            None => r.framework is None && r.project_type == ProjectType::Backend
                && r.confidence == Confidence::Medium,
        },
{
    let lowered = lowercase(content);
    let found: Option<(String, ProjectType)> = if crate::strutil::contains_str(lowered.as_str(), "fastapi") {
        Option::Some(("FastAPI".to_owned(), ProjectType::Backend))
    } else if crate::strutil::contains_str(lowered.as_str(), "django") {
        Option::Some(("Django".to_owned(), ProjectType::Backend))
    } else if crate::strutil::contains_str(lowered.as_str(), "flask") {
        Option::Some(("Flask".to_owned(), ProjectType::Backend))
    } else if crate::strutil::contains_str(lowered.as_str(), "starlette") {
        Option::Some(("Starlette".to_owned(), ProjectType::Backend))
    } else if crate::strutil::contains_str(lowered.as_str(), "litestar") || crate::strutil::contains_str(lowered.as_str(), "litestar-api") {
        Option::Some(("Litestar".to_owned(), ProjectType::Backend))
    } else if crate::strutil::contains_str(lowered.as_str(), "streamlit") {
        Option::Some(("Streamlit".to_owned(), ProjectType::Ml))
    } else if crate::strutil::contains_str(lowered.as_str(), "gradio") {
        Option::Some(("Gradio".to_owned(), ProjectType::Ml))
    } else if crate::strutil::contains_str(lowered.as_str(), "torch") || crate::strutil::contains_str(lowered.as_str(), "pytorch") {
        Option::Some(("PyTorch".to_owned(), ProjectType::Ml))
    } else if crate::strutil::contains_str(lowered.as_str(), "tensorflow") || crate::strutil::contains_str(lowered.as_str(), "keras") {
        Option::Some(("TensorFlow".to_owned(), ProjectType::Ml))
    } else if crate::strutil::contains_str(lowered.as_str(), "scikit-learn") || crate::strutil::contains_str(lowered.as_str(), "sklearn") {
        Option::Some(("scikit-learn".to_owned(), ProjectType::Ml))
    } else if crate::strutil::contains_str(lowered.as_str(), "pandas") || crate::strutil::contains_str(lowered.as_str(), "numpy") {
        Option::Some(("Data Science".to_owned(), ProjectType::Ml))
    } else {
        Option::None
    };
    match found {
        Option::Some((f, pt)) => DetectedStack {
            primary_language: "Python".to_owned(),
            framework: Option::Some(f),
            project_type: pt,
            confidence: Confidence::High,
        },
        Option::None => DetectedStack {
            primary_language: "Python".to_owned(),
            framework: Option::None,
            project_type: ProjectType::Backend,
            confidence: Confidence::Medium,
        },
    }
}

/// The result the PHP rules give for content `c`.
pub open spec fn php_result(d: DetectedStack, c: Seq<char>) -> bool {
    &&& d.primary_language@ == "PHP"@
    &&& match d.framework {
        Some(f) => spec_php_framework(lower_of(c)) matches Some(x) && f@ == x,
        None => spec_php_framework(lower_of(c)) is None,
    }
    &&& d.confidence == (if spec_php_framework(lower_of(c)) is Some {
        Confidence::High
    } else {
        Confidence::Medium
    })
    &&& d.project_type == ProjectType::Backend
}

/// The result the Go rules give for content `c`.
pub open spec fn go_result(d: DetectedStack, c: Seq<char>) -> bool {
    &&& d.primary_language@ == "Go"@
    &&& match d.framework {
        Some(f) => spec_go_framework(lower_of(c)) matches Some(x) && f@ == x,
        None => spec_go_framework(lower_of(c)) is None,
    }
    &&& d.confidence == (if spec_go_framework(lower_of(c)) is Some {
        Confidence::High
    } else {
        Confidence::Medium
    })
    &&& d.project_type == ProjectType::Backend
}

/// The result the Elixir rules give for content `c`.
pub open spec fn elixir_result(d: DetectedStack, c: Seq<char>) -> bool {
    &&& d.primary_language@ == "Elixir"@
    &&& match d.framework {
        Some(f) => spec_elixir_framework(lower_of(c)) matches Some(x) && f@ == x,
        None => spec_elixir_framework(lower_of(c)) is None,
    }
    &&& d.confidence == (if spec_elixir_framework(lower_of(c)) is Some {
        Confidence::High
    } else {
        Confidence::Medium
    })
    &&& d.project_type == ProjectType::Backend
}

/// The result the Ruby rules give for content `c`.
pub open spec fn ruby_result(d: DetectedStack, c: Seq<char>) -> bool {
    &&& d.primary_language@ == "Ruby"@
    &&& match d.framework {
        Some(f) => spec_ruby_framework(lower_of(c)) matches Some(x) && f@ == x,
        None => spec_ruby_framework(lower_of(c)) is None,
    }
    &&& d.confidence == (if spec_ruby_framework(lower_of(c)) is Some {
        Confidence::High
    } else {
        Confidence::Medium
    })
    &&& d.project_type == ProjectType::Backend
}

/// The result the Dart rules give for content `c`.
pub open spec fn dart_result(d: DetectedStack, c: Seq<char>) -> bool {
    &&& d.primary_language@ == "Dart"@
    &&& spec_is_flutter(c) ==> (d.framework matches Some(f) && f@ == "Flutter"@
        && d.project_type == ProjectType::Mobile && d.confidence == Confidence::High)
    &&& !spec_is_flutter(c) ==> d.framework is None && d.project_type == ProjectType::Backend
        && d.confidence == Confidence::Medium
}

/// The result the Rust rules give for content `c`.
pub open spec fn rust_result(d: DetectedStack, c: Seq<char>) -> bool {
    &&& d.primary_language@ == "Rust"@
    &&& match d.framework {
        Some(f) => spec_rust_crate_framework(lower_of(c)) matches Some(x) && f@ == x,
        None => spec_rust_crate_framework(lower_of(c)) is None,
    }
    &&& d.confidence == (if spec_rust_crate_framework(lower_of(c)) is Some {
        Confidence::High
    } else {
        Confidence::Medium
    })
    &&& d.project_type == spec_rust_project_type(spec_rust_crate_framework(lower_of(c)))
}

/// The result the JVM rules give for content `c`.
pub open spec fn jvm_result(d: DetectedStack, c: Seq<char>, is_kotlin: bool) -> bool {
    &&& is_kotlin ==> d.primary_language@ == "Kotlin"@
    &&& !is_kotlin ==> d.primary_language@ == "Java"@
    &&& match d.framework {
        Some(f) => spec_jvm_framework(lower_of(c)) matches Some(x) && f@ == x,
        None => spec_jvm_framework(lower_of(c)) is None,
    }
    &&& d.confidence == (if spec_jvm_framework(lower_of(c)) is Some {
        Confidence::High
    } else {
        Confidence::Medium
    })
    &&& d.project_type == ProjectType::Backend
}

/// The result the .NET rules give for content `c`.
pub open spec fn dotnet_result(d: DetectedStack, c: Seq<char>) -> bool {
    &&& d.primary_language@ == "C#"@
    &&& match d.framework {
        Some(f) => spec_dotnet_framework(lower_of(c)) matches Some(x) && f@ == x,
        None => spec_dotnet_framework(lower_of(c)) is None,
    }
    &&& d.confidence == (if spec_dotnet_framework(lower_of(c)) is Some {
        Confidence::High
    } else {
        Confidence::Medium
    })
    &&& d.project_type == spec_dotnet_project_type(spec_dotnet_framework(lower_of(c)))
}

/// The result the Swift rules give for content `c`.
pub open spec fn swift_result(d: DetectedStack, c: Seq<char>) -> bool {
    &&& d.primary_language@ == "Swift"@
    &&& match d.framework {
        Some(f) => spec_swift_framework(lower_of(c)) matches Some(x) && f@ == x,
        None => spec_swift_framework(lower_of(c)) is None,
    }
    &&& d.confidence == Confidence::Medium
    &&& d.project_type == spec_swift_project_type(spec_swift_framework(lower_of(c)))
}

/// The result the JavaScript rules give for dependency names `deps`.
pub open spec fn js_result(d: DetectedStack, deps: Seq<Seq<char>>, has_tsconfig: bool) -> bool {
    let is_ts = has_tsconfig || spec_has_dep(deps, "typescript"@);
    &&& is_ts ==> d.primary_language@ == "TypeScript"@
    &&& !is_ts ==> d.primary_language@ == "JavaScript"@
    &&& match spec_js_framework(deps) {
        Some(fw) => (d.framework matches Some(f) && f@ == fw.0) && d.project_type == fw.1
            && d.confidence == Confidence::High,
        None => d.framework is None && d.project_type == ProjectType::Backend && d.confidence
            == Confidence::Medium,
    }
}

/// The result the Python rules give for content `c`.
pub open spec fn python_result(d: DetectedStack, c: Seq<char>) -> bool {
    &&& d.primary_language@ == "Python"@
    &&& match spec_python_framework(lower_of(c)) {
        Some(fw) => (d.framework matches Some(f) && f@ == fw.0) && d.project_type == fw.1
            && d.confidence == Confidence::High,
        None => d.framework is None && d.project_type == ProjectType::Backend && d.confidence
            == Confidence::Medium,
    }
}

/// No indicator file was found at all.
pub open spec fn no_indicator(o: DetectorObs) -> bool {
    &&& o.composer_json is None
    &&& o.pubspec_yaml is None
    &&& o.cargo_toml is None
    &&& o.go_mod is None
    &&& o.mix_exs is None
    &&& o.build_gradle_kts is None
    &&& o.build_gradle is None
    &&& o.pom_xml is None
    &&& !o.has_dotnet_project
    &&& o.gemfile is None
    &&& o.package_swift is None
    &&& !o.has_xcodeproj
    &&& o.package_json is None
    &&& o.requirements_txt is None
    &&& o.pyproject_toml is None
    &&& o.pipfile is None
    &&& o.setup_py is None
}

/// Detect the technology stack of the codebase at `path` from the
/// indicator files observed there. Checks are ordered by specificity:
/// language-specific manifests take priority over generic ones. With no
/// known indicator at all, the stack is unknown.
pub fn detect_stack(path: &str, obs: &DetectorObs) -> (r: Result<DetectedStack, DetectError>)
    ensures
        obs.composer_json matches Some(c) ==> (r matches Ok(d) && php_result(d, c@)),
        obs.composer_json is None ==> (obs.pubspec_yaml matches Some(c) ==> (r matches Ok(d) && dart_result(d, c@))),
        obs.composer_json is None && obs.pubspec_yaml is None ==> (obs.cargo_toml matches Some(c) ==> (r matches Ok(d) && rust_result(d, c@))),
        obs.composer_json is None && obs.pubspec_yaml is None && obs.cargo_toml is None ==> (obs.go_mod matches Some(c) ==> (r matches Ok(d) && go_result(d, c@))),
        obs.composer_json is None && obs.pubspec_yaml is None && obs.cargo_toml is None && obs.go_mod is None ==> (obs.mix_exs matches Some(c) ==> (r matches Ok(d) && elixir_result(d, c@))),
        obs.composer_json is None && obs.pubspec_yaml is None && obs.cargo_toml is None && obs.go_mod is None && obs.mix_exs is None ==> (obs.build_gradle_kts matches Some(c) ==> (r matches Ok(d) && jvm_result(d, c@, true))),
        obs.composer_json is None && obs.pubspec_yaml is None && obs.cargo_toml is None && obs.go_mod is None && obs.mix_exs is None && obs.build_gradle_kts is None ==> (obs.build_gradle matches Some(c) ==> (r matches Ok(d) && jvm_result(d, c@, false))),
        obs.composer_json is None && obs.pubspec_yaml is None && obs.cargo_toml is None && obs.go_mod is None && obs.mix_exs is None && obs.build_gradle_kts is None && obs.build_gradle is None ==> (obs.pom_xml matches Some(c) ==> (r matches Ok(d) && jvm_result(d, c@, false))),
        obs.composer_json is None && obs.pubspec_yaml is None && obs.cargo_toml is None && obs.go_mod is None && obs.mix_exs is None && obs.build_gradle_kts is None && obs.build_gradle is None && obs.pom_xml is None && obs.has_dotnet_project ==> (r matches Ok(d) && dotnet_result(d, obs.csproj_contents@)),
        obs.composer_json is None && obs.pubspec_yaml is None && obs.cargo_toml is None && obs.go_mod is None && obs.mix_exs is None && obs.build_gradle_kts is None && obs.build_gradle is None && obs.pom_xml is None && !obs.has_dotnet_project ==> (obs.gemfile matches Some(c) ==> (r matches Ok(d) && ruby_result(d, c@))),
        obs.composer_json is None && obs.pubspec_yaml is None && obs.cargo_toml is None && obs.go_mod is None && obs.mix_exs is None && obs.build_gradle_kts is None && obs.build_gradle is None && obs.pom_xml is None && !obs.has_dotnet_project && obs.gemfile is None ==> (obs.package_swift matches Some(c) ==> (r matches Ok(d) && swift_result(d, c@))),
        obs.composer_json is None && obs.pubspec_yaml is None && obs.cargo_toml is None && obs.go_mod is None && obs.mix_exs is None && obs.build_gradle_kts is None && obs.build_gradle is None && obs.pom_xml is None && !obs.has_dotnet_project && obs.gemfile is None && obs.package_swift is None && obs.has_xcodeproj ==> (r matches Ok(d) && swift_result(d, ""@)),
        obs.composer_json is None && obs.pubspec_yaml is None && obs.cargo_toml is None && obs.go_mod is None && obs.mix_exs is None && obs.build_gradle_kts is None && obs.build_gradle is None && obs.pom_xml is None && !obs.has_dotnet_project && obs.gemfile is None && obs.package_swift is None && !obs.has_xcodeproj ==> (obs.package_json matches Some(c) ==> ({
            &&& json_ok_of(c@) ==> (r matches Ok(d) && js_result(d, spec_dep_names(c@), obs.has_tsconfig))
            &&& !json_ok_of(c@) ==> (r matches Err(e) && e matches DetectError::ParseError { path: p, message: m } && p@ == path@ + "/package.json"@)
        })),
        obs.composer_json is None && obs.pubspec_yaml is None && obs.cargo_toml is None && obs.go_mod is None && obs.mix_exs is None && obs.build_gradle_kts is None && obs.build_gradle is None && obs.pom_xml is None && !obs.has_dotnet_project && obs.gemfile is None && obs.package_swift is None && !obs.has_xcodeproj && obs.package_json is None ==> (obs.requirements_txt matches Some(c) ==> (r matches Ok(d) && python_result(d, c@))),
        obs.composer_json is None && obs.pubspec_yaml is None && obs.cargo_toml is None && obs.go_mod is None && obs.mix_exs is None && obs.build_gradle_kts is None && obs.build_gradle is None && obs.pom_xml is None && !obs.has_dotnet_project && obs.gemfile is None && obs.package_swift is None && !obs.has_xcodeproj && obs.package_json is None && obs.requirements_txt is None ==> (obs.pyproject_toml matches Some(c) ==> (r matches Ok(d) && python_result(d, c@))),
        obs.composer_json is None && obs.pubspec_yaml is None && obs.cargo_toml is None && obs.go_mod is None && obs.mix_exs is None && obs.build_gradle_kts is None && obs.build_gradle is None && obs.pom_xml is None && !obs.has_dotnet_project && obs.gemfile is None && obs.package_swift is None && !obs.has_xcodeproj && obs.package_json is None && obs.requirements_txt is None && obs.pyproject_toml is None ==> (obs.pipfile matches Some(c) ==> (r matches Ok(d) && python_result(d, c@))),
        obs.composer_json is None && obs.pubspec_yaml is None && obs.cargo_toml is None && obs.go_mod is None && obs.mix_exs is None && obs.build_gradle_kts is None && obs.build_gradle is None && obs.pom_xml is None && !obs.has_dotnet_project && obs.gemfile is None && obs.package_swift is None && !obs.has_xcodeproj && obs.package_json is None && obs.requirements_txt is None && obs.pyproject_toml is None && obs.pipfile is None ==> (obs.setup_py matches Some(c) ==> (r matches Ok(d) && python_result(d, c@))),
        no_indicator(*obs) ==> (r matches Err(e) && e matches DetectError::UnknownStack { path: p } && p@ == path@),
{
    match &obs.composer_json {
        Option::Some(c) => {
            return Result::Ok(classify_php(c.as_str()));
        },
        Option::None => {},
    }
    match &obs.pubspec_yaml {
        Option::Some(c) => {
            return Result::Ok(classify_dart_flutter(c.as_str()));
        },
        Option::None => {},
    }
    match &obs.cargo_toml {
        Option::Some(c) => {
            return Result::Ok(classify_rust_crate(c.as_str()));
        },
        Option::None => {},
    }
    match &obs.go_mod {
        Option::Some(c) => {
            return Result::Ok(classify_go(c.as_str()));
        },
        Option::None => {},
    }
    match &obs.mix_exs {
        Option::Some(c) => {
            return Result::Ok(classify_elixir(c.as_str()));
        },
        Option::None => {},
    }
    match &obs.build_gradle_kts {
        Option::Some(c) => {
            return Result::Ok(classify_jvm(c.as_str(), true));
        },
        Option::None => {},
    }
    match &obs.build_gradle {
        Option::Some(c) => {
            return Result::Ok(classify_jvm(c.as_str(), false));
        },
        Option::None => {},
    }
    match &obs.pom_xml {
        Option::Some(c) => {
            return Result::Ok(classify_jvm(c.as_str(), false));
        },
        Option::None => {},
    }
    if obs.has_dotnet_project {
        return Result::Ok(classify_dotnet(obs.csproj_contents.as_str()));
    }
    match &obs.gemfile {
        Option::Some(c) => {
            return Result::Ok(classify_ruby(c.as_str()));
        },
        Option::None => {},
    }
    match &obs.package_swift {
        Option::Some(c) => {
            return Result::Ok(classify_swift(c.as_str()));
        },
        Option::None => {},
    }
    if obs.has_xcodeproj {
        return Result::Ok(classify_swift(""));
    }
    match &obs.package_json {
        Option::Some(c) => {
            match package_dependency_names(c.as_str()) {
                Option::Some(deps) => {
                    return Result::Ok(classify_javascript(obs.has_tsconfig, &deps));
                },
                Option::None => {
                    let mut p = path.to_owned();
                    p.append("/package.json");
                    return Result::Err(
                        DetectError::ParseError {
                            path: p,
                            message: "invalid JSON".to_owned(),
                        },
                    );
                },
            }
        },
        Option::None => {},
    }
    match &obs.requirements_txt {
        Option::Some(c) => {
            return Result::Ok(classify_python(c.as_str()));
        },
        Option::None => {},
    }
    match &obs.pyproject_toml {
        Option::Some(c) => {
            return Result::Ok(classify_python(c.as_str()));
        },
        Option::None => {},
    }
    match &obs.pipfile {
        Option::Some(c) => {
            return Result::Ok(classify_python(c.as_str()));
        },
        Option::None => {},
    }
    match &obs.setup_py {
        Option::Some(c) => {
            return Result::Ok(classify_python(c.as_str()));
        },
        Option::None => {},
    }
    let mut p = path.to_owned();
    Result::Err(DetectError::UnknownStack { path: p })
}

} // verus!
