//! Programming languages a snippet can be written in.
use vstd::prelude::*;
use crate::text::{str_eq, to_lower, lowercase, lower_ascii};

verus! {

/// The language of a snippet; `Other` carries a name or extension that the
/// library does not know.
#[derive(Debug)]
pub enum SnippetLanguage {
    Rust,
    JavaScript,
    TypeScript,
    Python,
    Go,
    Java,
    C,
    Cpp,
    CSharp,
    PHP,
    Ruby,
    Swift,
    Kotlin,
    Dart,
    HTML,
    CSS,
    SCSS,
    SQL,
    Bash,
    PowerShell,
    Yaml,
    Json,
    Xml,
    Markdown,
    Dockerfile,
    Toml,
    Ini,
    Config,
    Text,
    Other(String),
}

impl Clone for SnippetLanguage {
    fn clone(&self) -> (r: Self)
        ensures
            r == *self,
    {
        match self {
            SnippetLanguage::Other(s) => SnippetLanguage::Other(s.clone()),
            SnippetLanguage::Rust => SnippetLanguage::Rust,
            SnippetLanguage::JavaScript => SnippetLanguage::JavaScript,
            SnippetLanguage::TypeScript => SnippetLanguage::TypeScript,
            SnippetLanguage::Python => SnippetLanguage::Python,
            SnippetLanguage::Go => SnippetLanguage::Go,
            SnippetLanguage::Java => SnippetLanguage::Java,
            SnippetLanguage::C => SnippetLanguage::C,
            SnippetLanguage::Cpp => SnippetLanguage::Cpp,
            SnippetLanguage::CSharp => SnippetLanguage::CSharp,
            SnippetLanguage::PHP => SnippetLanguage::PHP,
            SnippetLanguage::Ruby => SnippetLanguage::Ruby,
            SnippetLanguage::Swift => SnippetLanguage::Swift,
            SnippetLanguage::Kotlin => SnippetLanguage::Kotlin,
            SnippetLanguage::Dart => SnippetLanguage::Dart,
            SnippetLanguage::HTML => SnippetLanguage::HTML,
            SnippetLanguage::CSS => SnippetLanguage::CSS,
            SnippetLanguage::SCSS => SnippetLanguage::SCSS,
            SnippetLanguage::SQL => SnippetLanguage::SQL,
            SnippetLanguage::Bash => SnippetLanguage::Bash,
            SnippetLanguage::PowerShell => SnippetLanguage::PowerShell,
            SnippetLanguage::Yaml => SnippetLanguage::Yaml,
            SnippetLanguage::Json => SnippetLanguage::Json,
            SnippetLanguage::Xml => SnippetLanguage::Xml,
            SnippetLanguage::Markdown => SnippetLanguage::Markdown,
            SnippetLanguage::Dockerfile => SnippetLanguage::Dockerfile,
            SnippetLanguage::Toml => SnippetLanguage::Toml,
            SnippetLanguage::Ini => SnippetLanguage::Ini,
            SnippetLanguage::Config => SnippetLanguage::Config,
            SnippetLanguage::Text => SnippetLanguage::Text,
        }
    }
}

impl SnippetLanguage {
    /// The file extension of the language; for `Other`, its own text.
    pub open spec fn spec_file_extension(self) -> Seq<char> {
        match self {
            SnippetLanguage::Rust => "rs"@,
            SnippetLanguage::JavaScript => "js"@,
            SnippetLanguage::TypeScript => "ts"@,
            SnippetLanguage::Python => "py"@,
            SnippetLanguage::Go => "go"@,
            SnippetLanguage::Java => "java"@,
            SnippetLanguage::C => "c"@,
            SnippetLanguage::Cpp => "cpp"@,
            SnippetLanguage::CSharp => "cs"@,
            SnippetLanguage::PHP => "php"@,
            SnippetLanguage::Ruby => "rb"@,
            SnippetLanguage::Swift => "swift"@,
            SnippetLanguage::Kotlin => "kt"@,
            SnippetLanguage::Dart => "dart"@,
            SnippetLanguage::HTML => "html"@,
            SnippetLanguage::CSS => "css"@,
            SnippetLanguage::SCSS => "scss"@,
            SnippetLanguage::SQL => "sql"@,
            SnippetLanguage::Bash => "sh"@,
            SnippetLanguage::PowerShell => "ps1"@,
            SnippetLanguage::Yaml => "yaml"@,
            SnippetLanguage::Json => "json"@,
            SnippetLanguage::Xml => "xml"@,
            SnippetLanguage::Markdown => "md"@,
            SnippetLanguage::Dockerfile => "dockerfile"@,
            SnippetLanguage::Toml => "toml"@,
            SnippetLanguage::Ini => "ini"@,
            SnippetLanguage::Config => "conf"@,
            SnippetLanguage::Text => "txt"@,
            SnippetLanguage::Other(e) => e@,
        }
    }

    /// The full name of the language; for `Other`, its own text.
    pub open spec fn spec_display_name(self) -> Seq<char> {
        match self {
            SnippetLanguage::Rust => "Rust"@,
            SnippetLanguage::JavaScript => "JavaScript"@,
            SnippetLanguage::TypeScript => "TypeScript"@,
            SnippetLanguage::Python => "Python"@,
            SnippetLanguage::Go => "Go"@,
            SnippetLanguage::Java => "Java"@,
            SnippetLanguage::C => "C"@,
            SnippetLanguage::Cpp => "C++"@,
            SnippetLanguage::CSharp => "C#"@,
            SnippetLanguage::PHP => "PHP"@,
            SnippetLanguage::Ruby => "Ruby"@,
            SnippetLanguage::Swift => "Swift"@,
            SnippetLanguage::Kotlin => "Kotlin"@,
            SnippetLanguage::Dart => "Dart"@,
            SnippetLanguage::HTML => "HTML"@,
            SnippetLanguage::CSS => "CSS"@,
            SnippetLanguage::SCSS => "SCSS"@,
            SnippetLanguage::SQL => "SQL"@,
            SnippetLanguage::Bash => "Bash"@,
            SnippetLanguage::PowerShell => "PowerShell"@,
            SnippetLanguage::Yaml => "YAML"@,
            SnippetLanguage::Json => "JSON"@,
            SnippetLanguage::Xml => "XML"@,
            SnippetLanguage::Markdown => "Markdown"@,
            SnippetLanguage::Dockerfile => "Dockerfile"@,
            SnippetLanguage::Toml => "TOML"@,
            SnippetLanguage::Ini => "INI"@,
            SnippetLanguage::Config => "Config"@,
            SnippetLanguage::Text => "Text"@,
            SnippetLanguage::Other(n) => n@,
        }
    }

    /// The Nerd Font glyph of the language.
    pub open spec fn spec_icon(self) -> Seq<char> {
        match self {
            SnippetLanguage::Rust => "\u{e7a8}"@,
            SnippetLanguage::JavaScript => "\u{e781}"@,
            SnippetLanguage::TypeScript => "\u{e8ca}"@,
            SnippetLanguage::Python => "\u{e73c}"@,
            SnippetLanguage::Go => "\u{f07d3}"@,
            SnippetLanguage::Java => "\u{e256}"@,
            SnippetLanguage::C => "\u{e771}"@,
            SnippetLanguage::Cpp => "\u{e61d}"@,
            SnippetLanguage::CSharp => "\u{e648}"@,
            SnippetLanguage::PHP => "\u{e73d}"@,
            SnippetLanguage::Ruby => "\u{e605}"@,
            SnippetLanguage::Swift => "\u{e755}"@,
            SnippetLanguage::Kotlin => "\u{e81b}"@,
            SnippetLanguage::Dart => "\u{e798}"@,
            SnippetLanguage::HTML => "\u{e736}"@,
            SnippetLanguage::CSS => "\u{e749}"@,
            SnippetLanguage::SCSS => "\u{f07ec}"@,
            SnippetLanguage::SQL => "\u{e7c4}"@,
            SnippetLanguage::Bash => "\u{ebca}"@,
            SnippetLanguage::PowerShell => "\u{e760}"@,
            SnippetLanguage::Yaml => "\u{f15c}"@,
            SnippetLanguage::Json => "\u{e60b}"@,
            SnippetLanguage::Xml => "\u{f05c0}"@,
            SnippetLanguage::Markdown => "\u{eeab}"@,
            SnippetLanguage::Dockerfile => "\u{f21f}"@,
            SnippetLanguage::Toml => "\u{f15c}"@,
            SnippetLanguage::Ini => "\u{f15c}"@,
            SnippetLanguage::Config => "\u{f15c}"@,
            SnippetLanguage::Text => "\u{f15c}"@,
            SnippetLanguage::Other(_) => "\u{f15c}"@,
        }
    }

    /// The abbreviated name of the language; for `Other`, its own text.
    pub open spec fn spec_short_name(self) -> Seq<char> {
        match self {
            SnippetLanguage::Rust => "Rust"@,
            SnippetLanguage::JavaScript => "JS"@,
            SnippetLanguage::TypeScript => "TS"@,
            SnippetLanguage::Python => "Py"@,
            SnippetLanguage::Go => "Go"@,
            SnippetLanguage::Java => "Java"@,
            SnippetLanguage::C => "C"@,
            SnippetLanguage::Cpp => "C++"@,
            SnippetLanguage::CSharp => "C#"@,
            SnippetLanguage::PHP => "PHP"@,
            SnippetLanguage::Ruby => "Ruby"@,
            SnippetLanguage::Swift => "Swift"@,
            SnippetLanguage::Kotlin => "Kotlin"@,
            SnippetLanguage::Dart => "Dart"@,
            SnippetLanguage::HTML => "HTML"@,
            SnippetLanguage::CSS => "CSS"@,
            SnippetLanguage::SCSS => "SCSS"@,
            SnippetLanguage::SQL => "SQL"@,
            SnippetLanguage::Bash => "Bash"@,
            SnippetLanguage::PowerShell => "PS"@,
            SnippetLanguage::Yaml => "YAML"@,
            SnippetLanguage::Json => "JSON"@,
            SnippetLanguage::Xml => "XML"@,
            SnippetLanguage::Markdown => "MD"@,
            SnippetLanguage::Dockerfile => "Docker"@,
            SnippetLanguage::Toml => "TOML"@,
            SnippetLanguage::Ini => "INI"@,
            SnippetLanguage::Config => "Conf"@,
            SnippetLanguage::Text => "Text"@,
            SnippetLanguage::Other(n) => n@,
        }
    }

    /// The file extension for the language.
    pub fn file_extension(&self) -> (r: &str)
        ensures
            r@ == self.spec_file_extension(),
    {
        match self {
            SnippetLanguage::Rust => "rs",
            SnippetLanguage::JavaScript => "js",
            SnippetLanguage::TypeScript => "ts",
            SnippetLanguage::Python => "py",
            SnippetLanguage::Go => "go",
            SnippetLanguage::Java => "java",
            SnippetLanguage::C => "c",
            SnippetLanguage::Cpp => "cpp",
            SnippetLanguage::CSharp => "cs",
            SnippetLanguage::PHP => "php",
            SnippetLanguage::Ruby => "rb",
            SnippetLanguage::Swift => "swift",
            SnippetLanguage::Kotlin => "kt",
            SnippetLanguage::Dart => "dart",
            SnippetLanguage::HTML => "html",
            SnippetLanguage::CSS => "css",
            SnippetLanguage::SCSS => "scss",
            SnippetLanguage::SQL => "sql",
            SnippetLanguage::Bash => "sh",
            SnippetLanguage::PowerShell => "ps1",
            SnippetLanguage::Yaml => "yaml",
            SnippetLanguage::Json => "json",
            SnippetLanguage::Xml => "xml",
            SnippetLanguage::Markdown => "md",
            SnippetLanguage::Dockerfile => "dockerfile",
            SnippetLanguage::Toml => "toml",
            SnippetLanguage::Ini => "ini",
            SnippetLanguage::Config => "conf",
            SnippetLanguage::Text => "txt",
            SnippetLanguage::Other(e) => e.as_str(),
        }
    }

    /// The name shown for the language.
    pub fn display_name(&self) -> (r: &str)
        ensures
            r@ == self.spec_display_name(),
    {
        match self {
            SnippetLanguage::Rust => "Rust",
            SnippetLanguage::JavaScript => "JavaScript",
            SnippetLanguage::TypeScript => "TypeScript",
            SnippetLanguage::Python => "Python",
            SnippetLanguage::Go => "Go",
            SnippetLanguage::Java => "Java",
            SnippetLanguage::C => "C",
            SnippetLanguage::Cpp => "C++",
            SnippetLanguage::CSharp => "C#",
            SnippetLanguage::PHP => "PHP",
            SnippetLanguage::Ruby => "Ruby",
            SnippetLanguage::Swift => "Swift",
            SnippetLanguage::Kotlin => "Kotlin",
            SnippetLanguage::Dart => "Dart",
            SnippetLanguage::HTML => "HTML",
            SnippetLanguage::CSS => "CSS",
            SnippetLanguage::SCSS => "SCSS",
            SnippetLanguage::SQL => "SQL",
            SnippetLanguage::Bash => "Bash",
            SnippetLanguage::PowerShell => "PowerShell",
            SnippetLanguage::Yaml => "YAML",
            SnippetLanguage::Json => "JSON",
            SnippetLanguage::Xml => "XML",
            SnippetLanguage::Markdown => "Markdown",
            SnippetLanguage::Dockerfile => "Dockerfile",
            SnippetLanguage::Toml => "TOML",
            SnippetLanguage::Ini => "INI",
            SnippetLanguage::Config => "Config",
            SnippetLanguage::Text => "Text",
            SnippetLanguage::Other(n) => n.as_str(),
        }
    }

    /// The icon shown for the language.
    pub fn icon(&self) -> (r: &str)
        ensures
            r@ == self.spec_icon(),
    {
        match self {
            SnippetLanguage::Rust => "\u{e7a8}",
            SnippetLanguage::JavaScript => "\u{e781}",
            SnippetLanguage::TypeScript => "\u{e8ca}",
            SnippetLanguage::Python => "\u{e73c}",
            SnippetLanguage::Go => "\u{f07d3}",
            SnippetLanguage::Java => "\u{e256}",
            SnippetLanguage::C => "\u{e771}",
            SnippetLanguage::Cpp => "\u{e61d}",
            SnippetLanguage::CSharp => "\u{e648}",
            SnippetLanguage::PHP => "\u{e73d}",
            SnippetLanguage::Ruby => "\u{e605}",
            SnippetLanguage::Swift => "\u{e755}",
            SnippetLanguage::Kotlin => "\u{e81b}",
            SnippetLanguage::Dart => "\u{e798}",
            SnippetLanguage::HTML => "\u{e736}",
            SnippetLanguage::CSS => "\u{e749}",
            SnippetLanguage::SCSS => "\u{f07ec}",
            SnippetLanguage::SQL => "\u{e7c4}",
            SnippetLanguage::Bash => "\u{ebca}",
            SnippetLanguage::PowerShell => "\u{e760}",
            SnippetLanguage::Yaml => "\u{f15c}",
            SnippetLanguage::Json => "\u{e60b}",
            SnippetLanguage::Xml => "\u{f05c0}",
            SnippetLanguage::Markdown => "\u{eeab}",
            SnippetLanguage::Dockerfile => "\u{f21f}",
            SnippetLanguage::Toml => "\u{f15c}",
            SnippetLanguage::Ini => "\u{f15c}",
            SnippetLanguage::Config => "\u{f15c}",
            SnippetLanguage::Text => "\u{f15c}",
            SnippetLanguage::Other(_) => "\u{f15c}",
        }
    }

    /// The short name shown for the language.
    pub fn short_name(&self) -> (r: &str)
        ensures
            r@ == self.spec_short_name(),
    {
        match self {
            SnippetLanguage::Rust => "Rust",
            SnippetLanguage::JavaScript => "JS",
            SnippetLanguage::TypeScript => "TS",
            SnippetLanguage::Python => "Py",
            SnippetLanguage::Go => "Go",
            SnippetLanguage::Java => "Java",
            SnippetLanguage::C => "C",
            SnippetLanguage::Cpp => "C++",
            SnippetLanguage::CSharp => "C#",
            SnippetLanguage::PHP => "PHP",
            SnippetLanguage::Ruby => "Ruby",
            SnippetLanguage::Swift => "Swift",
            SnippetLanguage::Kotlin => "Kotlin",
            SnippetLanguage::Dart => "Dart",
            SnippetLanguage::HTML => "HTML",
            SnippetLanguage::CSS => "CSS",
            SnippetLanguage::SCSS => "SCSS",
            SnippetLanguage::SQL => "SQL",
            SnippetLanguage::Bash => "Bash",
            SnippetLanguage::PowerShell => "PS",
            SnippetLanguage::Yaml => "YAML",
            SnippetLanguage::Json => "JSON",
            SnippetLanguage::Xml => "XML",
            SnippetLanguage::Markdown => "MD",
            SnippetLanguage::Dockerfile => "Docker",
            SnippetLanguage::Toml => "TOML",
            SnippetLanguage::Ini => "INI",
            SnippetLanguage::Config => "Conf",
            SnippetLanguage::Text => "Text",
            SnippetLanguage::Other(n) => n.as_str(),
        }
    }

    /// The language that a lower-case file extension names, if the library knows it.
    pub open spec fn known_extension(l: Seq<char>) -> Option<SnippetLanguage> {
        if l == "rs"@ {
            Some(SnippetLanguage::Rust)
        } else if l == "js"@ {
            Some(SnippetLanguage::JavaScript)
        } else if l == "ts"@ {
            Some(SnippetLanguage::TypeScript)
        } else if l == "py"@ {
            Some(SnippetLanguage::Python)
        } else if l == "go"@ {
            Some(SnippetLanguage::Go)
        } else if l == "java"@ {
            Some(SnippetLanguage::Java)
        } else if l == "c"@ {
            Some(SnippetLanguage::C)
        } else if l == "cpp"@ {
            Some(SnippetLanguage::Cpp)
        } else if l == "cc"@ {
            Some(SnippetLanguage::Cpp)
        } else if l == "cxx"@ {
            Some(SnippetLanguage::Cpp)
        } else if l == "cs"@ {
            Some(SnippetLanguage::CSharp)
        } else if l == "php"@ {
            Some(SnippetLanguage::PHP)
        } else if l == "rb"@ {
            Some(SnippetLanguage::Ruby)
        } else if l == "swift"@ {
            Some(SnippetLanguage::Swift)
        } else if l == "kt"@ {
            Some(SnippetLanguage::Kotlin)
        } else if l == "dart"@ {
            Some(SnippetLanguage::Dart)
        } else if l == "html"@ {
            Some(SnippetLanguage::HTML)
        } else if l == "htm"@ {
            Some(SnippetLanguage::HTML)
        } else if l == "css"@ {
            Some(SnippetLanguage::CSS)
        } else if l == "scss"@ {
            Some(SnippetLanguage::SCSS)
        } else if l == "sql"@ {
            Some(SnippetLanguage::SQL)
        } else if l == "sh"@ {
            Some(SnippetLanguage::Bash)
        } else if l == "ps1"@ {
            Some(SnippetLanguage::PowerShell)
        } else if l == "yml"@ {
            Some(SnippetLanguage::Yaml)
        } else if l == "yaml"@ {
            Some(SnippetLanguage::Yaml)
        } else if l == "json"@ {
            Some(SnippetLanguage::Json)
        } else if l == "xml"@ {
            Some(SnippetLanguage::Xml)
        } else if l == "md"@ {
            Some(SnippetLanguage::Markdown)
        } else if l == "dockerfile"@ {
            Some(SnippetLanguage::Dockerfile)
        } else if l == "toml"@ {
            Some(SnippetLanguage::Toml)
        } else if l == "ini"@ {
            Some(SnippetLanguage::Ini)
        } else if l == "conf"@ {
            Some(SnippetLanguage::Config)
        } else if l == "config"@ {
            Some(SnippetLanguage::Config)
        } else if l == "txt"@ {
            Some(SnippetLanguage::Text)
        } else {
            None
        }
    }

    /// The language that a lower-case file extension names, if the library knows it.
    pub fn language_of_known_extension(l: &str) -> (r: Option<SnippetLanguage>)
        ensures
            r == Self::known_extension(l@),
    {
        if str_eq(l, "rs") {
            return Some(SnippetLanguage::Rust);
        }
        if str_eq(l, "js") {
            return Some(SnippetLanguage::JavaScript);
        }
        if str_eq(l, "ts") {
            return Some(SnippetLanguage::TypeScript);
        }
        if str_eq(l, "py") {
            return Some(SnippetLanguage::Python);
        }
        if str_eq(l, "go") {
            return Some(SnippetLanguage::Go);
        }
        if str_eq(l, "java") {
            return Some(SnippetLanguage::Java);
        }
        if str_eq(l, "c") {
            return Some(SnippetLanguage::C);
        }
        if str_eq(l, "cpp") {
            return Some(SnippetLanguage::Cpp);
        }
        if str_eq(l, "cc") {
            return Some(SnippetLanguage::Cpp);
        }
        if str_eq(l, "cxx") {
            return Some(SnippetLanguage::Cpp);
        }
        if str_eq(l, "cs") {
            return Some(SnippetLanguage::CSharp);
        }
        if str_eq(l, "php") {
            return Some(SnippetLanguage::PHP);
        }
        if str_eq(l, "rb") {
            return Some(SnippetLanguage::Ruby);
        }
        if str_eq(l, "swift") {
            return Some(SnippetLanguage::Swift);
        }
        if str_eq(l, "kt") {
            return Some(SnippetLanguage::Kotlin);
        }
        if str_eq(l, "dart") {
            return Some(SnippetLanguage::Dart);
        }
        if str_eq(l, "html") {
            return Some(SnippetLanguage::HTML);
        }
        if str_eq(l, "htm") {
            return Some(SnippetLanguage::HTML);
        }
        if str_eq(l, "css") {
            return Some(SnippetLanguage::CSS);
        }
        if str_eq(l, "scss") {
            return Some(SnippetLanguage::SCSS);
        }
        if str_eq(l, "sql") {
            return Some(SnippetLanguage::SQL);
        }
        if str_eq(l, "sh") {
            return Some(SnippetLanguage::Bash);
        }
        if str_eq(l, "ps1") {
            return Some(SnippetLanguage::PowerShell);
        }
        if str_eq(l, "yml") {
            return Some(SnippetLanguage::Yaml);
        }
        if str_eq(l, "yaml") {
            return Some(SnippetLanguage::Yaml);
        }
        if str_eq(l, "json") {
            return Some(SnippetLanguage::Json);
        }
        if str_eq(l, "xml") {
            return Some(SnippetLanguage::Xml);
        }
        if str_eq(l, "md") {
            return Some(SnippetLanguage::Markdown);
        }
        if str_eq(l, "dockerfile") {
            return Some(SnippetLanguage::Dockerfile);
        }
        if str_eq(l, "toml") {
            return Some(SnippetLanguage::Toml);
        }
        if str_eq(l, "ini") {
            return Some(SnippetLanguage::Ini);
        }
        if str_eq(l, "conf") {
            return Some(SnippetLanguage::Config);
        }
        if str_eq(l, "config") {
            return Some(SnippetLanguage::Config);
        }
        if str_eq(l, "txt") {
            return Some(SnippetLanguage::Text);
        }
        None
    }

    /// The language that a lower-case extension typed after the title of a new snippet selects; `Text` when none matches.
    pub open spec fn typed_extension_language(l: Seq<char>) -> SnippetLanguage {
        if l == "rs"@ {
            SnippetLanguage::Rust
        } else if l == "js"@ {
            SnippetLanguage::JavaScript
        } else if l == "ts"@ {
            SnippetLanguage::TypeScript
        } else if l == "py"@ {
            SnippetLanguage::Python
        } else if l == "go"@ {
            SnippetLanguage::Go
        } else if l == "java"@ {
            SnippetLanguage::Java
        } else if l == "c"@ {
            SnippetLanguage::C
        } else if l == "cpp"@ {
            SnippetLanguage::Cpp
        } else if l == "cc"@ {
            SnippetLanguage::Cpp
        } else if l == "cxx"@ {
            SnippetLanguage::Cpp
        } else if l == "cs"@ {
            SnippetLanguage::CSharp
        } else if l == "php"@ {
            SnippetLanguage::PHP
        } else if l == "rb"@ {
            SnippetLanguage::Ruby
        } else if l == "swift"@ {
            SnippetLanguage::Swift
        } else if l == "kt"@ {
            SnippetLanguage::Kotlin
        } else if l == "dart"@ {
            SnippetLanguage::Dart
        } else if l == "html"@ {
            SnippetLanguage::HTML
        } else if l == "css"@ {
            SnippetLanguage::CSS
        } else if l == "scss"@ {
            SnippetLanguage::SCSS
        } else if l == "sql"@ {
            SnippetLanguage::SQL
        } else if l == "sh"@ {
            SnippetLanguage::Bash
        } else if l == "bash"@ {
            SnippetLanguage::Bash
        } else if l == "ps1"@ {
            SnippetLanguage::PowerShell
        } else if l == "yml"@ {
            SnippetLanguage::Yaml
        } else if l == "yaml"@ {
            SnippetLanguage::Yaml
        } else if l == "json"@ {
            SnippetLanguage::Json
        } else if l == "xml"@ {
            SnippetLanguage::Xml
        } else if l == "md"@ {
            SnippetLanguage::Markdown
        } else if l == "dockerfile"@ {
            SnippetLanguage::Dockerfile
        } else if l == "toml"@ {
            SnippetLanguage::Toml
        } else if l == "ini"@ {
            SnippetLanguage::Ini
        } else if l == "conf"@ {
            SnippetLanguage::Config
        } else if l == "config"@ {
            SnippetLanguage::Config
        } else {
            SnippetLanguage::Text
        }
    }

    /// The language that a lower-case extension typed after the title of a new snippet selects.
    pub fn language_of_typed_extension(l: &str) -> (r: SnippetLanguage)
        ensures
            r == Self::typed_extension_language(l@),
    {
        if str_eq(l, "rs") {
            return SnippetLanguage::Rust;
        }
        if str_eq(l, "js") {
            return SnippetLanguage::JavaScript;
        }
        if str_eq(l, "ts") {
            return SnippetLanguage::TypeScript;
        }
        if str_eq(l, "py") {
            return SnippetLanguage::Python;
        }
        if str_eq(l, "go") {
            return SnippetLanguage::Go;
        }
        if str_eq(l, "java") {
            return SnippetLanguage::Java;
        }
        if str_eq(l, "c") {
            return SnippetLanguage::C;
        }
        if str_eq(l, "cpp") {
            return SnippetLanguage::Cpp;
        }
        if str_eq(l, "cc") {
            return SnippetLanguage::Cpp;
        }
        if str_eq(l, "cxx") {
            return SnippetLanguage::Cpp;
        }
        if str_eq(l, "cs") {
            return SnippetLanguage::CSharp;
        }
        if str_eq(l, "php") {
            return SnippetLanguage::PHP;
        }
        if str_eq(l, "rb") {
            return SnippetLanguage::Ruby;
        }
        if str_eq(l, "swift") {
            return SnippetLanguage::Swift;
        }
        if str_eq(l, "kt") {
            return SnippetLanguage::Kotlin;
        }
        if str_eq(l, "dart") {
            return SnippetLanguage::Dart;
        }
        if str_eq(l, "html") {
            return SnippetLanguage::HTML;
        }
        if str_eq(l, "css") {
            return SnippetLanguage::CSS;
        }
        if str_eq(l, "scss") {
            return SnippetLanguage::SCSS;
        }
        if str_eq(l, "sql") {
            return SnippetLanguage::SQL;
        }
        if str_eq(l, "sh") {
            return SnippetLanguage::Bash;
        }
        if str_eq(l, "bash") {
            return SnippetLanguage::Bash;
        }
        if str_eq(l, "ps1") {
            return SnippetLanguage::PowerShell;
        }
        if str_eq(l, "yml") {
            return SnippetLanguage::Yaml;
        }
        if str_eq(l, "yaml") {
            return SnippetLanguage::Yaml;
        }
        if str_eq(l, "json") {
            return SnippetLanguage::Json;
        }
        if str_eq(l, "xml") {
            return SnippetLanguage::Xml;
        }
        if str_eq(l, "md") {
            return SnippetLanguage::Markdown;
        }
        if str_eq(l, "dockerfile") {
            return SnippetLanguage::Dockerfile;
        }
        if str_eq(l, "toml") {
            return SnippetLanguage::Toml;
        }
        if str_eq(l, "ini") {
            return SnippetLanguage::Ini;
        }
        if str_eq(l, "conf") {
            return SnippetLanguage::Config;
        }
        if str_eq(l, "config") {
            return SnippetLanguage::Config;
        }
        SnippetLanguage::Text
    }

    /// The language for a file extension, compared without case; an extension
    /// that names no known language becomes `Other` with the extension as given.
    pub fn _from_extension(ext: &str) -> (r: SnippetLanguage)
        ensures
            match Self::known_extension(lowercase(ext@)) {
                Some(k) => r == k,
                None => r is Other && r->Other_0@ == ext@,
            },
            lower_ascii(ext@) ==> match Self::known_extension(ext@) {
                Some(k) => r == k,
                None => r is Other && r->Other_0@ == ext@,
            },
    {
        let l = to_lower(ext);
        match Self::language_of_known_extension(l.as_str()) {
            Some(k) => k,
            None => SnippetLanguage::Other(ext.to_string()),
        }
    }
}

/// The extension of every built-in language is lower-case ASCII and names
/// that language again, so `_from_extension(l.file_extension())` gives `l`
/// back: no two built-in languages share an extension.
pub proof fn law_extension_round_trip(l: SnippetLanguage)
    requires
        l !is Other,
    ensures
        lower_ascii(l.spec_file_extension()),
        SnippetLanguage::known_extension(l.spec_file_extension()) == Some(l),
{
    reveal_strlit("rs");
    reveal_strlit("js");
    reveal_strlit("ts");
    reveal_strlit("py");
    reveal_strlit("go");
    reveal_strlit("java");
    reveal_strlit("c");
    reveal_strlit("cpp");
    reveal_strlit("cc");
    reveal_strlit("cxx");
    reveal_strlit("cs");
    reveal_strlit("php");
    reveal_strlit("rb");
    reveal_strlit("swift");
    reveal_strlit("kt");
    reveal_strlit("dart");
    reveal_strlit("html");
    reveal_strlit("htm");
    reveal_strlit("css");
    reveal_strlit("scss");
    reveal_strlit("sql");
    reveal_strlit("sh");
    reveal_strlit("ps1");
    reveal_strlit("yml");
    reveal_strlit("yaml");
    reveal_strlit("json");
    reveal_strlit("xml");
    reveal_strlit("md");
    reveal_strlit("dockerfile");
    reveal_strlit("toml");
    reveal_strlit("ini");
    reveal_strlit("conf");
    reveal_strlit("config");
    reveal_strlit("txt");
    match l {
        SnippetLanguage::Rust => {
            assert(SnippetLanguage::known_extension("rs"@) == Some(SnippetLanguage::Rust));
        },
        SnippetLanguage::JavaScript => {
            assert("js"@[0] != "rs"@[0]);
            assert(SnippetLanguage::known_extension("js"@) == Some(SnippetLanguage::JavaScript));
        },
        SnippetLanguage::TypeScript => {
            assert("ts"@[0] != "rs"@[0]);
            assert("ts"@[0] != "js"@[0]);
            assert(SnippetLanguage::known_extension("ts"@) == Some(SnippetLanguage::TypeScript));
        },
        SnippetLanguage::Python => {
            assert("py"@[0] != "rs"@[0]);
            assert("py"@[0] != "js"@[0]);
            assert("py"@[0] != "ts"@[0]);
            assert(SnippetLanguage::known_extension("py"@) == Some(SnippetLanguage::Python));
        },
        SnippetLanguage::Go => {
            assert("go"@[0] != "rs"@[0]);
            assert("go"@[0] != "js"@[0]);
            assert("go"@[0] != "ts"@[0]);
            assert("go"@[0] != "py"@[0]);
            assert(SnippetLanguage::known_extension("go"@) == Some(SnippetLanguage::Go));
        },
        SnippetLanguage::Java => {
            assert("java"@.len() != "rs"@.len());
            assert("java"@.len() != "js"@.len());
            assert("java"@.len() != "ts"@.len());
            assert("java"@.len() != "py"@.len());
            assert("java"@.len() != "go"@.len());
            assert(SnippetLanguage::known_extension("java"@) == Some(SnippetLanguage::Java));
        },
        SnippetLanguage::C => {
            assert("c"@.len() != "rs"@.len());
            assert("c"@.len() != "js"@.len());
            assert("c"@.len() != "ts"@.len());
            assert("c"@.len() != "py"@.len());
            assert("c"@.len() != "go"@.len());
            assert("c"@.len() != "java"@.len());
            assert(SnippetLanguage::known_extension("c"@) == Some(SnippetLanguage::C));
        },
        SnippetLanguage::Cpp => {
            assert("cpp"@.len() != "rs"@.len());
            assert("cpp"@.len() != "js"@.len());
            assert("cpp"@.len() != "ts"@.len());
            assert("cpp"@.len() != "py"@.len());
            assert("cpp"@.len() != "go"@.len());
            assert("cpp"@.len() != "java"@.len());
            assert("cpp"@.len() != "c"@.len());
            assert(SnippetLanguage::known_extension("cpp"@) == Some(SnippetLanguage::Cpp));
        },
        SnippetLanguage::CSharp => {
            assert("cs"@[0] != "rs"@[0]);
            assert("cs"@[0] != "js"@[0]);
            assert("cs"@[0] != "ts"@[0]);
            assert("cs"@[0] != "py"@[0]);
            assert("cs"@[0] != "go"@[0]);
            assert("cs"@.len() != "java"@.len());
            assert("cs"@.len() != "c"@.len());
            assert("cs"@.len() != "cpp"@.len());
            assert("cs"@[1] != "cc"@[1]);
            assert("cs"@.len() != "cxx"@.len());
            assert(SnippetLanguage::known_extension("cs"@) == Some(SnippetLanguage::CSharp));
        },
        SnippetLanguage::PHP => {
            assert("php"@.len() != "rs"@.len());
            assert("php"@.len() != "js"@.len());
            assert("php"@.len() != "ts"@.len());
            assert("php"@.len() != "py"@.len());
            assert("php"@.len() != "go"@.len());
            assert("php"@.len() != "java"@.len());
            assert("php"@.len() != "c"@.len());
            assert("php"@[0] != "cpp"@[0]);
            assert("php"@.len() != "cc"@.len());
            assert("php"@[0] != "cxx"@[0]);
            assert("php"@.len() != "cs"@.len());
            assert(SnippetLanguage::known_extension("php"@) == Some(SnippetLanguage::PHP));
        },
        SnippetLanguage::Ruby => {
            assert("rb"@[1] != "rs"@[1]);
            assert("rb"@[0] != "js"@[0]);
            assert("rb"@[0] != "ts"@[0]);
            assert("rb"@[0] != "py"@[0]);
            assert("rb"@[0] != "go"@[0]);
            assert("rb"@.len() != "java"@.len());
            assert("rb"@.len() != "c"@.len());
            assert("rb"@.len() != "cpp"@.len());
            assert("rb"@[0] != "cc"@[0]);
            assert("rb"@.len() != "cxx"@.len());
            assert("rb"@[0] != "cs"@[0]);
            assert("rb"@.len() != "php"@.len());
            assert(SnippetLanguage::known_extension("rb"@) == Some(SnippetLanguage::Ruby));
        },
        SnippetLanguage::Swift => {
            assert("swift"@.len() != "rs"@.len());
            assert("swift"@.len() != "js"@.len());
            assert("swift"@.len() != "ts"@.len());
            assert("swift"@.len() != "py"@.len());
            assert("swift"@.len() != "go"@.len());
            assert("swift"@.len() != "java"@.len());
            assert("swift"@.len() != "c"@.len());
            assert("swift"@.len() != "cpp"@.len());
            assert("swift"@.len() != "cc"@.len());
            assert("swift"@.len() != "cxx"@.len());
            assert("swift"@.len() != "cs"@.len());
            assert("swift"@.len() != "php"@.len());
            assert("swift"@.len() != "rb"@.len());
            assert(SnippetLanguage::known_extension("swift"@) == Some(SnippetLanguage::Swift));
        },
        SnippetLanguage::Kotlin => {
            assert("kt"@[0] != "rs"@[0]);
            assert("kt"@[0] != "js"@[0]);
            assert("kt"@[0] != "ts"@[0]);
            assert("kt"@[0] != "py"@[0]);
            assert("kt"@[0] != "go"@[0]);
            assert("kt"@.len() != "java"@.len());
            assert("kt"@.len() != "c"@.len());
            assert("kt"@.len() != "cpp"@.len());
            assert("kt"@[0] != "cc"@[0]);
            assert("kt"@.len() != "cxx"@.len());
            assert("kt"@[0] != "cs"@[0]);
            assert("kt"@.len() != "php"@.len());
            assert("kt"@[0] != "rb"@[0]);
            assert("kt"@.len() != "swift"@.len());
            assert(SnippetLanguage::known_extension("kt"@) == Some(SnippetLanguage::Kotlin));
        },
        SnippetLanguage::Dart => {
            assert("dart"@.len() != "rs"@.len());
            assert("dart"@.len() != "js"@.len());
            assert("dart"@.len() != "ts"@.len());
            assert("dart"@.len() != "py"@.len());
            assert("dart"@.len() != "go"@.len());
            assert("dart"@[0] != "java"@[0]);
            assert("dart"@.len() != "c"@.len());
            assert("dart"@.len() != "cpp"@.len());
            assert("dart"@.len() != "cc"@.len());
            assert("dart"@.len() != "cxx"@.len());
            assert("dart"@.len() != "cs"@.len());
            assert("dart"@.len() != "php"@.len());
            assert("dart"@.len() != "rb"@.len());
            assert("dart"@.len() != "swift"@.len());
            assert("dart"@.len() != "kt"@.len());
            assert(SnippetLanguage::known_extension("dart"@) == Some(SnippetLanguage::Dart));
        },
        SnippetLanguage::HTML => {
            assert("html"@.len() != "rs"@.len());
            assert("html"@.len() != "js"@.len());
            assert("html"@.len() != "ts"@.len());
            assert("html"@.len() != "py"@.len());
            assert("html"@.len() != "go"@.len());
            assert("html"@[0] != "java"@[0]);
            assert("html"@.len() != "c"@.len());
            assert("html"@.len() != "cpp"@.len());
            assert("html"@.len() != "cc"@.len());
            assert("html"@.len() != "cxx"@.len());
            assert("html"@.len() != "cs"@.len());
            assert("html"@.len() != "php"@.len());
            assert("html"@.len() != "rb"@.len());
            assert("html"@.len() != "swift"@.len());
            assert("html"@.len() != "kt"@.len());
            assert("html"@[0] != "dart"@[0]);
            assert(SnippetLanguage::known_extension("html"@) == Some(SnippetLanguage::HTML));
        },
        SnippetLanguage::CSS => {
            assert("css"@.len() != "rs"@.len());
            assert("css"@.len() != "js"@.len());
            assert("css"@.len() != "ts"@.len());
            assert("css"@.len() != "py"@.len());
            assert("css"@.len() != "go"@.len());
            assert("css"@.len() != "java"@.len());
            assert("css"@.len() != "c"@.len());
            assert("css"@[1] != "cpp"@[1]);
            assert("css"@.len() != "cc"@.len());
            assert("css"@[1] != "cxx"@[1]);
            assert("css"@.len() != "cs"@.len());
            assert("css"@[0] != "php"@[0]);
            assert("css"@.len() != "rb"@.len());
            assert("css"@.len() != "swift"@.len());
            assert("css"@.len() != "kt"@.len());
            assert("css"@.len() != "dart"@.len());
            assert("css"@.len() != "html"@.len());
            assert("css"@[0] != "htm"@[0]);
            assert(SnippetLanguage::known_extension("css"@) == Some(SnippetLanguage::CSS));
        },
        SnippetLanguage::SCSS => {
            assert("scss"@.len() != "rs"@.len());
            assert("scss"@.len() != "js"@.len());
            assert("scss"@.len() != "ts"@.len());
            assert("scss"@.len() != "py"@.len());
            assert("scss"@.len() != "go"@.len());
            assert("scss"@[0] != "java"@[0]);
            assert("scss"@.len() != "c"@.len());
            assert("scss"@.len() != "cpp"@.len());
            assert("scss"@.len() != "cc"@.len());
            assert("scss"@.len() != "cxx"@.len());
            assert("scss"@.len() != "cs"@.len());
            assert("scss"@.len() != "php"@.len());
            assert("scss"@.len() != "rb"@.len());
            assert("scss"@.len() != "swift"@.len());
            assert("scss"@.len() != "kt"@.len());
            assert("scss"@[0] != "dart"@[0]);
            assert("scss"@[0] != "html"@[0]);
            assert("scss"@.len() != "htm"@.len());
            assert("scss"@.len() != "css"@.len());
            assert(SnippetLanguage::known_extension("scss"@) == Some(SnippetLanguage::SCSS));
        },
        SnippetLanguage::SQL => {
            assert("sql"@.len() != "rs"@.len());
            assert("sql"@.len() != "js"@.len());
            assert("sql"@.len() != "ts"@.len());
            assert("sql"@.len() != "py"@.len());
            assert("sql"@.len() != "go"@.len());
            assert("sql"@.len() != "java"@.len());
            assert("sql"@.len() != "c"@.len());
            assert("sql"@[0] != "cpp"@[0]);
            assert("sql"@.len() != "cc"@.len());
            assert("sql"@[0] != "cxx"@[0]);
            assert("sql"@.len() != "cs"@.len());
            assert("sql"@[0] != "php"@[0]);
            assert("sql"@.len() != "rb"@.len());
            assert("sql"@.len() != "swift"@.len());
            assert("sql"@.len() != "kt"@.len());
            assert("sql"@.len() != "dart"@.len());
            assert("sql"@.len() != "html"@.len());
            assert("sql"@[0] != "htm"@[0]);
            assert("sql"@[0] != "css"@[0]);
            assert("sql"@.len() != "scss"@.len());
            assert(SnippetLanguage::known_extension("sql"@) == Some(SnippetLanguage::SQL));
        },
        SnippetLanguage::Bash => {
            assert("sh"@[0] != "rs"@[0]);
            assert("sh"@[0] != "js"@[0]);
            assert("sh"@[0] != "ts"@[0]);
            assert("sh"@[0] != "py"@[0]);
            assert("sh"@[0] != "go"@[0]);
            assert("sh"@.len() != "java"@.len());
            assert("sh"@.len() != "c"@.len());
            assert("sh"@.len() != "cpp"@.len());
            assert("sh"@[0] != "cc"@[0]);
            assert("sh"@.len() != "cxx"@.len());
            assert("sh"@[0] != "cs"@[0]);
            assert("sh"@.len() != "php"@.len());
            assert("sh"@[0] != "rb"@[0]);
            assert("sh"@.len() != "swift"@.len());
            assert("sh"@[0] != "kt"@[0]);
            assert("sh"@.len() != "dart"@.len());
            assert("sh"@.len() != "html"@.len());
            assert("sh"@.len() != "htm"@.len());
            assert("sh"@.len() != "css"@.len());
            assert("sh"@.len() != "scss"@.len());
            assert("sh"@.len() != "sql"@.len());
            assert(SnippetLanguage::known_extension("sh"@) == Some(SnippetLanguage::Bash));
        },
        SnippetLanguage::PowerShell => {
            assert("ps1"@.len() != "rs"@.len());
            assert("ps1"@.len() != "js"@.len());
            assert("ps1"@.len() != "ts"@.len());
            assert("ps1"@.len() != "py"@.len());
            assert("ps1"@.len() != "go"@.len());
            assert("ps1"@.len() != "java"@.len());
            assert("ps1"@.len() != "c"@.len());
            assert("ps1"@[0] != "cpp"@[0]);
            assert("ps1"@.len() != "cc"@.len());
            assert("ps1"@[0] != "cxx"@[0]);
            assert("ps1"@.len() != "cs"@.len());
            assert("ps1"@[1] != "php"@[1]);
            assert("ps1"@.len() != "rb"@.len());
            assert("ps1"@.len() != "swift"@.len());
            assert("ps1"@.len() != "kt"@.len());
            assert("ps1"@.len() != "dart"@.len());
            assert("ps1"@.len() != "html"@.len());
            assert("ps1"@[0] != "htm"@[0]);
            assert("ps1"@[0] != "css"@[0]);
            assert("ps1"@.len() != "scss"@.len());
            assert("ps1"@[0] != "sql"@[0]);
            assert("ps1"@.len() != "sh"@.len());
            assert(SnippetLanguage::known_extension("ps1"@) == Some(SnippetLanguage::PowerShell));
        },
        SnippetLanguage::Yaml => {
            assert("yaml"@.len() != "rs"@.len());
            assert("yaml"@.len() != "js"@.len());
            assert("yaml"@.len() != "ts"@.len());
            assert("yaml"@.len() != "py"@.len());
            assert("yaml"@.len() != "go"@.len());
            assert("yaml"@[0] != "java"@[0]);
            assert("yaml"@.len() != "c"@.len());
            assert("yaml"@.len() != "cpp"@.len());
            assert("yaml"@.len() != "cc"@.len());
            assert("yaml"@.len() != "cxx"@.len());
            assert("yaml"@.len() != "cs"@.len());
            assert("yaml"@.len() != "php"@.len());
            assert("yaml"@.len() != "rb"@.len());
            assert("yaml"@.len() != "swift"@.len());
            assert("yaml"@.len() != "kt"@.len());
            assert("yaml"@[0] != "dart"@[0]);
            assert("yaml"@[0] != "html"@[0]);
            assert("yaml"@.len() != "htm"@.len());
            assert("yaml"@.len() != "css"@.len());
            assert("yaml"@[0] != "scss"@[0]);
            assert("yaml"@.len() != "sql"@.len());
            assert("yaml"@.len() != "sh"@.len());
            assert("yaml"@.len() != "ps1"@.len());
            assert("yaml"@.len() != "yml"@.len());
            assert(SnippetLanguage::known_extension("yaml"@) == Some(SnippetLanguage::Yaml));
        },
        SnippetLanguage::Json => {
            assert("json"@.len() != "rs"@.len());
            assert("json"@.len() != "js"@.len());
            assert("json"@.len() != "ts"@.len());
            assert("json"@.len() != "py"@.len());
            assert("json"@.len() != "go"@.len());
            assert("json"@[1] != "java"@[1]);
            assert("json"@.len() != "c"@.len());
            assert("json"@.len() != "cpp"@.len());
            assert("json"@.len() != "cc"@.len());
            assert("json"@.len() != "cxx"@.len());
            assert("json"@.len() != "cs"@.len());
            assert("json"@.len() != "php"@.len());
            assert("json"@.len() != "rb"@.len());
            assert("json"@.len() != "swift"@.len());
            assert("json"@.len() != "kt"@.len());
            assert("json"@[0] != "dart"@[0]);
            assert("json"@[0] != "html"@[0]);
            assert("json"@.len() != "htm"@.len());
            assert("json"@.len() != "css"@.len());
            assert("json"@[0] != "scss"@[0]);
            assert("json"@.len() != "sql"@.len());
            assert("json"@.len() != "sh"@.len());
            assert("json"@.len() != "ps1"@.len());
            assert("json"@.len() != "yml"@.len());
            assert("json"@[0] != "yaml"@[0]);
            assert(SnippetLanguage::known_extension("json"@) == Some(SnippetLanguage::Json));
        },
        SnippetLanguage::Xml => {
            assert("xml"@.len() != "rs"@.len());
            assert("xml"@.len() != "js"@.len());
            assert("xml"@.len() != "ts"@.len());
            assert("xml"@.len() != "py"@.len());
            assert("xml"@.len() != "go"@.len());
            assert("xml"@.len() != "java"@.len());
            assert("xml"@.len() != "c"@.len());
            assert("xml"@[0] != "cpp"@[0]);
            assert("xml"@.len() != "cc"@.len());
            assert("xml"@[0] != "cxx"@[0]);
            assert("xml"@.len() != "cs"@.len());
            assert("xml"@[0] != "php"@[0]);
            assert("xml"@.len() != "rb"@.len());
            assert("xml"@.len() != "swift"@.len());
            assert("xml"@.len() != "kt"@.len());
            assert("xml"@.len() != "dart"@.len());
            assert("xml"@.len() != "html"@.len());
            assert("xml"@[0] != "htm"@[0]);
            assert("xml"@[0] != "css"@[0]);
            assert("xml"@.len() != "scss"@.len());
            assert("xml"@[0] != "sql"@[0]);
            assert("xml"@.len() != "sh"@.len());
            assert("xml"@[0] != "ps1"@[0]);
            assert("xml"@[0] != "yml"@[0]);
            assert("xml"@.len() != "yaml"@.len());
            assert("xml"@.len() != "json"@.len());
            assert(SnippetLanguage::known_extension("xml"@) == Some(SnippetLanguage::Xml));
        },
        SnippetLanguage::Markdown => {
            assert("md"@[0] != "rs"@[0]);
            assert("md"@[0] != "js"@[0]);
            assert("md"@[0] != "ts"@[0]);
            assert("md"@[0] != "py"@[0]);
            assert("md"@[0] != "go"@[0]);
            assert("md"@.len() != "java"@.len());
            assert("md"@.len() != "c"@.len());
            assert("md"@.len() != "cpp"@.len());
            assert("md"@[0] != "cc"@[0]);
            assert("md"@.len() != "cxx"@.len());
            assert("md"@[0] != "cs"@[0]);
            assert("md"@.len() != "php"@.len());
            assert("md"@[0] != "rb"@[0]);
            assert("md"@.len() != "swift"@.len());
            assert("md"@[0] != "kt"@[0]);
            assert("md"@.len() != "dart"@.len());
            assert("md"@.len() != "html"@.len());
            assert("md"@.len() != "htm"@.len());
            assert("md"@.len() != "css"@.len());
            assert("md"@.len() != "scss"@.len());
            assert("md"@.len() != "sql"@.len());
            assert("md"@[0] != "sh"@[0]);
            assert("md"@.len() != "ps1"@.len());
            assert("md"@.len() != "yml"@.len());
            assert("md"@.len() != "yaml"@.len());
            assert("md"@.len() != "json"@.len());
            assert("md"@.len() != "xml"@.len());
            assert(SnippetLanguage::known_extension("md"@) == Some(SnippetLanguage::Markdown));
        },
        SnippetLanguage::Dockerfile => {
            assert("dockerfile"@.len() != "rs"@.len());
            assert("dockerfile"@.len() != "js"@.len());
            assert("dockerfile"@.len() != "ts"@.len());
            assert("dockerfile"@.len() != "py"@.len());
            assert("dockerfile"@.len() != "go"@.len());
            assert("dockerfile"@.len() != "java"@.len());
            assert("dockerfile"@.len() != "c"@.len());
            assert("dockerfile"@.len() != "cpp"@.len());
            assert("dockerfile"@.len() != "cc"@.len());
            assert("dockerfile"@.len() != "cxx"@.len());
            assert("dockerfile"@.len() != "cs"@.len());
            assert("dockerfile"@.len() != "php"@.len());
            assert("dockerfile"@.len() != "rb"@.len());
            assert("dockerfile"@.len() != "swift"@.len());
            assert("dockerfile"@.len() != "kt"@.len());
            assert("dockerfile"@.len() != "dart"@.len());
            assert("dockerfile"@.len() != "html"@.len());
            assert("dockerfile"@.len() != "htm"@.len());
            assert("dockerfile"@.len() != "css"@.len());
            assert("dockerfile"@.len() != "scss"@.len());
            assert("dockerfile"@.len() != "sql"@.len());
            assert("dockerfile"@.len() != "sh"@.len());
            assert("dockerfile"@.len() != "ps1"@.len());
            assert("dockerfile"@.len() != "yml"@.len());
            assert("dockerfile"@.len() != "yaml"@.len());
            assert("dockerfile"@.len() != "json"@.len());
            assert("dockerfile"@.len() != "xml"@.len());
            assert("dockerfile"@.len() != "md"@.len());
            assert(SnippetLanguage::known_extension("dockerfile"@) == Some(SnippetLanguage::Dockerfile));
        },
        SnippetLanguage::Toml => {
            assert("toml"@.len() != "rs"@.len());
            assert("toml"@.len() != "js"@.len());
            assert("toml"@.len() != "ts"@.len());
            assert("toml"@.len() != "py"@.len());
            assert("toml"@.len() != "go"@.len());
            assert("toml"@[0] != "java"@[0]);
            assert("toml"@.len() != "c"@.len());
            assert("toml"@.len() != "cpp"@.len());
            assert("toml"@.len() != "cc"@.len());
            assert("toml"@.len() != "cxx"@.len());
            assert("toml"@.len() != "cs"@.len());
            assert("toml"@.len() != "php"@.len());
            assert("toml"@.len() != "rb"@.len());
            assert("toml"@.len() != "swift"@.len());
            assert("toml"@.len() != "kt"@.len());
            assert("toml"@[0] != "dart"@[0]);
            assert("toml"@[0] != "html"@[0]);
            assert("toml"@.len() != "htm"@.len());
            assert("toml"@.len() != "css"@.len());
            assert("toml"@[0] != "scss"@[0]);
            assert("toml"@.len() != "sql"@.len());
            assert("toml"@.len() != "sh"@.len());
            assert("toml"@.len() != "ps1"@.len());
            assert("toml"@.len() != "yml"@.len());
            assert("toml"@[0] != "yaml"@[0]);
            assert("toml"@[0] != "json"@[0]);
            assert("toml"@.len() != "xml"@.len());
            assert("toml"@.len() != "md"@.len());
            assert("toml"@.len() != "dockerfile"@.len());
            assert(SnippetLanguage::known_extension("toml"@) == Some(SnippetLanguage::Toml));
        },
        SnippetLanguage::Ini => {
            assert("ini"@.len() != "rs"@.len());
            assert("ini"@.len() != "js"@.len());
            assert("ini"@.len() != "ts"@.len());
            assert("ini"@.len() != "py"@.len());
            assert("ini"@.len() != "go"@.len());
            assert("ini"@.len() != "java"@.len());
            assert("ini"@.len() != "c"@.len());
            assert("ini"@[0] != "cpp"@[0]);
            assert("ini"@.len() != "cc"@.len());
            assert("ini"@[0] != "cxx"@[0]);
            assert("ini"@.len() != "cs"@.len());
            assert("ini"@[0] != "php"@[0]);
            assert("ini"@.len() != "rb"@.len());
            assert("ini"@.len() != "swift"@.len());
            assert("ini"@.len() != "kt"@.len());
            assert("ini"@.len() != "dart"@.len());
            assert("ini"@.len() != "html"@.len());
            assert("ini"@[0] != "htm"@[0]);
            assert("ini"@[0] != "css"@[0]);
            assert("ini"@.len() != "scss"@.len());
            assert("ini"@[0] != "sql"@[0]);
            assert("ini"@.len() != "sh"@.len());
            assert("ini"@[0] != "ps1"@[0]);
            assert("ini"@[0] != "yml"@[0]);
            assert("ini"@.len() != "yaml"@.len());
            assert("ini"@.len() != "json"@.len());
            assert("ini"@[0] != "xml"@[0]);
            assert("ini"@.len() != "md"@.len());
            assert("ini"@.len() != "dockerfile"@.len());
            assert("ini"@.len() != "toml"@.len());
            assert(SnippetLanguage::known_extension("ini"@) == Some(SnippetLanguage::Ini));
        },
        SnippetLanguage::Config => {
            assert("conf"@.len() != "rs"@.len());
            assert("conf"@.len() != "js"@.len());
            assert("conf"@.len() != "ts"@.len());
            assert("conf"@.len() != "py"@.len());
            assert("conf"@.len() != "go"@.len());
            assert("conf"@[0] != "java"@[0]);
            assert("conf"@.len() != "c"@.len());
            assert("conf"@.len() != "cpp"@.len());
            assert("conf"@.len() != "cc"@.len());
            assert("conf"@.len() != "cxx"@.len());
            assert("conf"@.len() != "cs"@.len());
            assert("conf"@.len() != "php"@.len());
            assert("conf"@.len() != "rb"@.len());
            assert("conf"@.len() != "swift"@.len());
            assert("conf"@.len() != "kt"@.len());
            assert("conf"@[0] != "dart"@[0]);
            assert("conf"@[0] != "html"@[0]);
            assert("conf"@.len() != "htm"@.len());
            assert("conf"@.len() != "css"@.len());
            assert("conf"@[0] != "scss"@[0]);
            assert("conf"@.len() != "sql"@.len());
            assert("conf"@.len() != "sh"@.len());
            assert("conf"@.len() != "ps1"@.len());
            assert("conf"@.len() != "yml"@.len());
            assert("conf"@[0] != "yaml"@[0]);
            assert("conf"@[0] != "json"@[0]);
            assert("conf"@.len() != "xml"@.len());
            assert("conf"@.len() != "md"@.len());
            assert("conf"@.len() != "dockerfile"@.len());
            assert("conf"@[0] != "toml"@[0]);
            assert("conf"@.len() != "ini"@.len());
            assert(SnippetLanguage::known_extension("conf"@) == Some(SnippetLanguage::Config));
        },
        SnippetLanguage::Text => {
            assert("txt"@.len() != "rs"@.len());
            assert("txt"@.len() != "js"@.len());
            assert("txt"@.len() != "ts"@.len());
            assert("txt"@.len() != "py"@.len());
            assert("txt"@.len() != "go"@.len());
            assert("txt"@.len() != "java"@.len());
            assert("txt"@.len() != "c"@.len());
            assert("txt"@[0] != "cpp"@[0]);
            assert("txt"@.len() != "cc"@.len());
            assert("txt"@[0] != "cxx"@[0]);
            assert("txt"@.len() != "cs"@.len());
            assert("txt"@[0] != "php"@[0]);
            assert("txt"@.len() != "rb"@.len());
            assert("txt"@.len() != "swift"@.len());
            assert("txt"@.len() != "kt"@.len());
            assert("txt"@.len() != "dart"@.len());
            assert("txt"@.len() != "html"@.len());
            assert("txt"@[0] != "htm"@[0]);
            assert("txt"@[0] != "css"@[0]);
            assert("txt"@.len() != "scss"@.len());
            assert("txt"@[0] != "sql"@[0]);
            assert("txt"@.len() != "sh"@.len());
            assert("txt"@[0] != "ps1"@[0]);
            assert("txt"@[0] != "yml"@[0]);
            assert("txt"@.len() != "yaml"@.len());
            assert("txt"@.len() != "json"@.len());
            assert("txt"@[0] != "xml"@[0]);
            assert("txt"@.len() != "md"@.len());
            assert("txt"@.len() != "dockerfile"@.len());
            assert("txt"@.len() != "toml"@.len());
            assert("txt"@[0] != "ini"@[0]);
            assert("txt"@.len() != "conf"@.len());
            assert("txt"@.len() != "config"@.len());
            assert(SnippetLanguage::known_extension("txt"@) == Some(SnippetLanguage::Text));
        },
        SnippetLanguage::Other(_) => {},
    }
}

/// Typing a new snippet's name with the extension of a built-in language
/// (other than plain text) selects that language.
pub proof fn law_typed_extension_selects_language(l: SnippetLanguage)
    requires
        l !is Other,
        l !is Text,
    ensures
        SnippetLanguage::typed_extension_language(l.spec_file_extension()) == l,
{
    reveal_strlit("rs");
    reveal_strlit("js");
    reveal_strlit("ts");
    reveal_strlit("py");
    reveal_strlit("go");
    reveal_strlit("java");
    reveal_strlit("c");
    reveal_strlit("cpp");
    reveal_strlit("cc");
    reveal_strlit("cxx");
    reveal_strlit("cs");
    reveal_strlit("php");
    reveal_strlit("rb");
    reveal_strlit("swift");
    reveal_strlit("kt");
    reveal_strlit("dart");
    reveal_strlit("html");
    reveal_strlit("css");
    reveal_strlit("scss");
    reveal_strlit("sql");
    reveal_strlit("sh");
    reveal_strlit("bash");
    reveal_strlit("ps1");
    reveal_strlit("yml");
    reveal_strlit("yaml");
    reveal_strlit("json");
    reveal_strlit("xml");
    reveal_strlit("md");
    reveal_strlit("dockerfile");
    reveal_strlit("toml");
    reveal_strlit("ini");
    reveal_strlit("conf");
    reveal_strlit("config");
    match l {
        SnippetLanguage::Rust => {
            assert(SnippetLanguage::typed_extension_language("rs"@) == SnippetLanguage::Rust);
        },
        SnippetLanguage::JavaScript => {
            assert("js"@[0] != "rs"@[0]);
            assert(SnippetLanguage::typed_extension_language("js"@) == SnippetLanguage::JavaScript);
        },
        SnippetLanguage::TypeScript => {
            assert("ts"@[0] != "rs"@[0]);
            assert("ts"@[0] != "js"@[0]);
            assert(SnippetLanguage::typed_extension_language("ts"@) == SnippetLanguage::TypeScript);
        },
        SnippetLanguage::Python => {
            assert("py"@[0] != "rs"@[0]);
            assert("py"@[0] != "js"@[0]);
            assert("py"@[0] != "ts"@[0]);
            assert(SnippetLanguage::typed_extension_language("py"@) == SnippetLanguage::Python);
        },
        SnippetLanguage::Go => {
            assert("go"@[0] != "rs"@[0]);
            assert("go"@[0] != "js"@[0]);
            assert("go"@[0] != "ts"@[0]);
            assert("go"@[0] != "py"@[0]);
            assert(SnippetLanguage::typed_extension_language("go"@) == SnippetLanguage::Go);
        },
        SnippetLanguage::Java => {
            assert("java"@.len() != "rs"@.len());
            assert("java"@.len() != "js"@.len());
            assert("java"@.len() != "ts"@.len());
            assert("java"@.len() != "py"@.len());
            assert("java"@.len() != "go"@.len());
            assert(SnippetLanguage::typed_extension_language("java"@) == SnippetLanguage::Java);
        },
        SnippetLanguage::C => {
            assert("c"@.len() != "rs"@.len());
            assert("c"@.len() != "js"@.len());
            assert("c"@.len() != "ts"@.len());
            assert("c"@.len() != "py"@.len());
            assert("c"@.len() != "go"@.len());
            assert("c"@.len() != "java"@.len());
            assert(SnippetLanguage::typed_extension_language("c"@) == SnippetLanguage::C);
        },
        SnippetLanguage::Cpp => {
            assert("cpp"@.len() != "rs"@.len());
            assert("cpp"@.len() != "js"@.len());
            assert("cpp"@.len() != "ts"@.len());
            assert("cpp"@.len() != "py"@.len());
            assert("cpp"@.len() != "go"@.len());
            assert("cpp"@.len() != "java"@.len());
            assert("cpp"@.len() != "c"@.len());
            assert(SnippetLanguage::typed_extension_language("cpp"@) == SnippetLanguage::Cpp);
        },
        SnippetLanguage::CSharp => {
            assert("cs"@[0] != "rs"@[0]);
            assert("cs"@[0] != "js"@[0]);
            assert("cs"@[0] != "ts"@[0]);
            assert("cs"@[0] != "py"@[0]);
            assert("cs"@[0] != "go"@[0]);
            assert("cs"@.len() != "java"@.len());
            assert("cs"@.len() != "c"@.len());
            assert("cs"@.len() != "cpp"@.len());
            assert("cs"@[1] != "cc"@[1]);
            assert("cs"@.len() != "cxx"@.len());
            assert(SnippetLanguage::typed_extension_language("cs"@) == SnippetLanguage::CSharp);
        },
        SnippetLanguage::PHP => {
            assert("php"@.len() != "rs"@.len());
            assert("php"@.len() != "js"@.len());
            assert("php"@.len() != "ts"@.len());
            assert("php"@.len() != "py"@.len());
            assert("php"@.len() != "go"@.len());
            assert("php"@.len() != "java"@.len());
            assert("php"@.len() != "c"@.len());
            assert("php"@[0] != "cpp"@[0]);
            assert("php"@.len() != "cc"@.len());
            assert("php"@[0] != "cxx"@[0]);
            assert("php"@.len() != "cs"@.len());
            assert(SnippetLanguage::typed_extension_language("php"@) == SnippetLanguage::PHP);
        },
        SnippetLanguage::Ruby => {
            assert("rb"@[1] != "rs"@[1]);
            assert("rb"@[0] != "js"@[0]);
            assert("rb"@[0] != "ts"@[0]);
            assert("rb"@[0] != "py"@[0]);
            assert("rb"@[0] != "go"@[0]);
            assert("rb"@.len() != "java"@.len());
            assert("rb"@.len() != "c"@.len());
            assert("rb"@.len() != "cpp"@.len());
            assert("rb"@[0] != "cc"@[0]);
            assert("rb"@.len() != "cxx"@.len());
            assert("rb"@[0] != "cs"@[0]);
            assert("rb"@.len() != "php"@.len());
            assert(SnippetLanguage::typed_extension_language("rb"@) == SnippetLanguage::Ruby);
        },
        SnippetLanguage::Swift => {
            assert("swift"@.len() != "rs"@.len());
            assert("swift"@.len() != "js"@.len());
            assert("swift"@.len() != "ts"@.len());
            assert("swift"@.len() != "py"@.len());
            assert("swift"@.len() != "go"@.len());
            assert("swift"@.len() != "java"@.len());
            assert("swift"@.len() != "c"@.len());
            assert("swift"@.len() != "cpp"@.len());
            assert("swift"@.len() != "cc"@.len());
            assert("swift"@.len() != "cxx"@.len());
            assert("swift"@.len() != "cs"@.len());
            assert("swift"@.len() != "php"@.len());
            assert("swift"@.len() != "rb"@.len());
            assert(SnippetLanguage::typed_extension_language("swift"@) == SnippetLanguage::Swift);
        },
        SnippetLanguage::Kotlin => {
            assert("kt"@[0] != "rs"@[0]);
            assert("kt"@[0] != "js"@[0]);
            assert("kt"@[0] != "ts"@[0]);
            assert("kt"@[0] != "py"@[0]);
            assert("kt"@[0] != "go"@[0]);
            assert("kt"@.len() != "java"@.len());
            assert("kt"@.len() != "c"@.len());
            assert("kt"@.len() != "cpp"@.len());
            assert("kt"@[0] != "cc"@[0]);
            assert("kt"@.len() != "cxx"@.len());
            assert("kt"@[0] != "cs"@[0]);
            assert("kt"@.len() != "php"@.len());
            assert("kt"@[0] != "rb"@[0]);
            assert("kt"@.len() != "swift"@.len());
            assert(SnippetLanguage::typed_extension_language("kt"@) == SnippetLanguage::Kotlin);
        },
        SnippetLanguage::Dart => {
            assert("dart"@.len() != "rs"@.len());
            assert("dart"@.len() != "js"@.len());
            assert("dart"@.len() != "ts"@.len());
            assert("dart"@.len() != "py"@.len());
            assert("dart"@.len() != "go"@.len());
            assert("dart"@[0] != "java"@[0]);
            assert("dart"@.len() != "c"@.len());
            assert("dart"@.len() != "cpp"@.len());
            assert("dart"@.len() != "cc"@.len());
            assert("dart"@.len() != "cxx"@.len());
            assert("dart"@.len() != "cs"@.len());
            assert("dart"@.len() != "php"@.len());
            assert("dart"@.len() != "rb"@.len());
            assert("dart"@.len() != "swift"@.len());
            assert("dart"@.len() != "kt"@.len());
            assert(SnippetLanguage::typed_extension_language("dart"@) == SnippetLanguage::Dart);
        },
        SnippetLanguage::HTML => {
            assert("html"@.len() != "rs"@.len());
            assert("html"@.len() != "js"@.len());
            assert("html"@.len() != "ts"@.len());
            assert("html"@.len() != "py"@.len());
            assert("html"@.len() != "go"@.len());
            assert("html"@[0] != "java"@[0]);
            assert("html"@.len() != "c"@.len());
            assert("html"@.len() != "cpp"@.len());
            assert("html"@.len() != "cc"@.len());
            assert("html"@.len() != "cxx"@.len());
            assert("html"@.len() != "cs"@.len());
            assert("html"@.len() != "php"@.len());
            assert("html"@.len() != "rb"@.len());
            assert("html"@.len() != "swift"@.len());
            assert("html"@.len() != "kt"@.len());
            assert("html"@[0] != "dart"@[0]);
            assert(SnippetLanguage::typed_extension_language("html"@) == SnippetLanguage::HTML);
        },
        SnippetLanguage::CSS => {
            assert("css"@.len() != "rs"@.len());
            assert("css"@.len() != "js"@.len());
            assert("css"@.len() != "ts"@.len());
            assert("css"@.len() != "py"@.len());
            assert("css"@.len() != "go"@.len());
            assert("css"@.len() != "java"@.len());
            assert("css"@.len() != "c"@.len());
            assert("css"@[1] != "cpp"@[1]);
            assert("css"@.len() != "cc"@.len());
            assert("css"@[1] != "cxx"@[1]);
            assert("css"@.len() != "cs"@.len());
            assert("css"@[0] != "php"@[0]);
            assert("css"@.len() != "rb"@.len());
            assert("css"@.len() != "swift"@.len());
            assert("css"@.len() != "kt"@.len());
            assert("css"@.len() != "dart"@.len());
            assert("css"@.len() != "html"@.len());
            assert(SnippetLanguage::typed_extension_language("css"@) == SnippetLanguage::CSS);
        },
        SnippetLanguage::SCSS => {
            assert("scss"@.len() != "rs"@.len());
            assert("scss"@.len() != "js"@.len());
            assert("scss"@.len() != "ts"@.len());
            assert("scss"@.len() != "py"@.len());
            assert("scss"@.len() != "go"@.len());
            assert("scss"@[0] != "java"@[0]);
            assert("scss"@.len() != "c"@.len());
            assert("scss"@.len() != "cpp"@.len());
            assert("scss"@.len() != "cc"@.len());
            assert("scss"@.len() != "cxx"@.len());
            assert("scss"@.len() != "cs"@.len());
            assert("scss"@.len() != "php"@.len());
            assert("scss"@.len() != "rb"@.len());
            assert("scss"@.len() != "swift"@.len());
            assert("scss"@.len() != "kt"@.len());
            assert("scss"@[0] != "dart"@[0]);
            assert("scss"@[0] != "html"@[0]);
            assert("scss"@.len() != "css"@.len());
            assert(SnippetLanguage::typed_extension_language("scss"@) == SnippetLanguage::SCSS);
        },
        SnippetLanguage::SQL => {
            assert("sql"@.len() != "rs"@.len());
            assert("sql"@.len() != "js"@.len());
            assert("sql"@.len() != "ts"@.len());
            assert("sql"@.len() != "py"@.len());
            assert("sql"@.len() != "go"@.len());
            assert("sql"@.len() != "java"@.len());
            assert("sql"@.len() != "c"@.len());
            assert("sql"@[0] != "cpp"@[0]);
            assert("sql"@.len() != "cc"@.len());
            assert("sql"@[0] != "cxx"@[0]);
            assert("sql"@.len() != "cs"@.len());
            assert("sql"@[0] != "php"@[0]);
            assert("sql"@.len() != "rb"@.len());
            assert("sql"@.len() != "swift"@.len());
            assert("sql"@.len() != "kt"@.len());
            assert("sql"@.len() != "dart"@.len());
            assert("sql"@.len() != "html"@.len());
            assert("sql"@[0] != "css"@[0]);
            assert("sql"@.len() != "scss"@.len());
            assert(SnippetLanguage::typed_extension_language("sql"@) == SnippetLanguage::SQL);
        },
        SnippetLanguage::Bash => {
            assert("sh"@[0] != "rs"@[0]);
            assert("sh"@[0] != "js"@[0]);
            assert("sh"@[0] != "ts"@[0]);
            assert("sh"@[0] != "py"@[0]);
            assert("sh"@[0] != "go"@[0]);
            assert("sh"@.len() != "java"@.len());
            assert("sh"@.len() != "c"@.len());
            assert("sh"@.len() != "cpp"@.len());
            assert("sh"@[0] != "cc"@[0]);
            assert("sh"@.len() != "cxx"@.len());
            assert("sh"@[0] != "cs"@[0]);
            assert("sh"@.len() != "php"@.len());
            assert("sh"@[0] != "rb"@[0]);
            assert("sh"@.len() != "swift"@.len());
            assert("sh"@[0] != "kt"@[0]);
            assert("sh"@.len() != "dart"@.len());
            assert("sh"@.len() != "html"@.len());
            assert("sh"@.len() != "css"@.len());
            assert("sh"@.len() != "scss"@.len());
            assert("sh"@.len() != "sql"@.len());
            assert(SnippetLanguage::typed_extension_language("sh"@) == SnippetLanguage::Bash);
        },
        SnippetLanguage::PowerShell => {
            assert("ps1"@.len() != "rs"@.len());
            assert("ps1"@.len() != "js"@.len());
            assert("ps1"@.len() != "ts"@.len());
            assert("ps1"@.len() != "py"@.len());
            assert("ps1"@.len() != "go"@.len());
            assert("ps1"@.len() != "java"@.len());
            assert("ps1"@.len() != "c"@.len());
            assert("ps1"@[0] != "cpp"@[0]);
            assert("ps1"@.len() != "cc"@.len());
            assert("ps1"@[0] != "cxx"@[0]);
            assert("ps1"@.len() != "cs"@.len());
            assert("ps1"@[1] != "php"@[1]);
            assert("ps1"@.len() != "rb"@.len());
            assert("ps1"@.len() != "swift"@.len());
            assert("ps1"@.len() != "kt"@.len());
            assert("ps1"@.len() != "dart"@.len());
            assert("ps1"@.len() != "html"@.len());
            assert("ps1"@[0] != "css"@[0]);
            assert("ps1"@.len() != "scss"@.len());
            assert("ps1"@[0] != "sql"@[0]);
            assert("ps1"@.len() != "sh"@.len());
            assert("ps1"@.len() != "bash"@.len());
            assert(SnippetLanguage::typed_extension_language("ps1"@) == SnippetLanguage::PowerShell);
        },
        SnippetLanguage::Yaml => {
            assert("yaml"@.len() != "rs"@.len());
            assert("yaml"@.len() != "js"@.len());
            assert("yaml"@.len() != "ts"@.len());
            assert("yaml"@.len() != "py"@.len());
            assert("yaml"@.len() != "go"@.len());
            assert("yaml"@[0] != "java"@[0]);
            assert("yaml"@.len() != "c"@.len());
            assert("yaml"@.len() != "cpp"@.len());
            assert("yaml"@.len() != "cc"@.len());
            assert("yaml"@.len() != "cxx"@.len());
            assert("yaml"@.len() != "cs"@.len());
            assert("yaml"@.len() != "php"@.len());
            assert("yaml"@.len() != "rb"@.len());
            assert("yaml"@.len() != "swift"@.len());
            assert("yaml"@.len() != "kt"@.len());
            assert("yaml"@[0] != "dart"@[0]);
            assert("yaml"@[0] != "html"@[0]);
            assert("yaml"@.len() != "css"@.len());
            assert("yaml"@[0] != "scss"@[0]);
            assert("yaml"@.len() != "sql"@.len());
            assert("yaml"@.len() != "sh"@.len());
            assert("yaml"@[0] != "bash"@[0]);
            assert("yaml"@.len() != "ps1"@.len());
            assert("yaml"@.len() != "yml"@.len());
            assert(SnippetLanguage::typed_extension_language("yaml"@) == SnippetLanguage::Yaml);
        },
        SnippetLanguage::Json => {
            assert("json"@.len() != "rs"@.len());
            assert("json"@.len() != "js"@.len());
            assert("json"@.len() != "ts"@.len());
            assert("json"@.len() != "py"@.len());
            assert("json"@.len() != "go"@.len());
            assert("json"@[1] != "java"@[1]);
            assert("json"@.len() != "c"@.len());
            assert("json"@.len() != "cpp"@.len());
            assert("json"@.len() != "cc"@.len());
            assert("json"@.len() != "cxx"@.len());
            assert("json"@.len() != "cs"@.len());
            assert("json"@.len() != "php"@.len());
            assert("json"@.len() != "rb"@.len());
            assert("json"@.len() != "swift"@.len());
            assert("json"@.len() != "kt"@.len());
            assert("json"@[0] != "dart"@[0]);
            assert("json"@[0] != "html"@[0]);
            assert("json"@.len() != "css"@.len());
            assert("json"@[0] != "scss"@[0]);
            assert("json"@.len() != "sql"@.len());
            assert("json"@.len() != "sh"@.len());
            assert("json"@[0] != "bash"@[0]);
            assert("json"@.len() != "ps1"@.len());
            assert("json"@.len() != "yml"@.len());
            assert("json"@[0] != "yaml"@[0]);
            assert(SnippetLanguage::typed_extension_language("json"@) == SnippetLanguage::Json);
        },
        SnippetLanguage::Xml => {
            assert("xml"@.len() != "rs"@.len());
            assert("xml"@.len() != "js"@.len());
            assert("xml"@.len() != "ts"@.len());
            assert("xml"@.len() != "py"@.len());
            assert("xml"@.len() != "go"@.len());
            assert("xml"@.len() != "java"@.len());
            assert("xml"@.len() != "c"@.len());
            assert("xml"@[0] != "cpp"@[0]);
            assert("xml"@.len() != "cc"@.len());
            assert("xml"@[0] != "cxx"@[0]);
            assert("xml"@.len() != "cs"@.len());
            assert("xml"@[0] != "php"@[0]);
            assert("xml"@.len() != "rb"@.len());
            assert("xml"@.len() != "swift"@.len());
            assert("xml"@.len() != "kt"@.len());
            assert("xml"@.len() != "dart"@.len());
            assert("xml"@.len() != "html"@.len());
            assert("xml"@[0] != "css"@[0]);
            assert("xml"@.len() != "scss"@.len());
            assert("xml"@[0] != "sql"@[0]);
            assert("xml"@.len() != "sh"@.len());
            assert("xml"@.len() != "bash"@.len());
            assert("xml"@[0] != "ps1"@[0]);
            assert("xml"@[0] != "yml"@[0]);
            assert("xml"@.len() != "yaml"@.len());
            assert("xml"@.len() != "json"@.len());
            assert(SnippetLanguage::typed_extension_language("xml"@) == SnippetLanguage::Xml);
        },
        SnippetLanguage::Markdown => {
            assert("md"@[0] != "rs"@[0]);
            assert("md"@[0] != "js"@[0]);
            assert("md"@[0] != "ts"@[0]);
            assert("md"@[0] != "py"@[0]);
            assert("md"@[0] != "go"@[0]);
            assert("md"@.len() != "java"@.len());
            assert("md"@.len() != "c"@.len());
            assert("md"@.len() != "cpp"@.len());
            assert("md"@[0] != "cc"@[0]);
            assert("md"@.len() != "cxx"@.len());
            assert("md"@[0] != "cs"@[0]);
            assert("md"@.len() != "php"@.len());
            assert("md"@[0] != "rb"@[0]);
            assert("md"@.len() != "swift"@.len());
            assert("md"@[0] != "kt"@[0]);
            assert("md"@.len() != "dart"@.len());
            assert("md"@.len() != "html"@.len());
            assert("md"@.len() != "css"@.len());
            assert("md"@.len() != "scss"@.len());
            assert("md"@.len() != "sql"@.len());
            assert("md"@[0] != "sh"@[0]);
            assert("md"@.len() != "bash"@.len());
            assert("md"@.len() != "ps1"@.len());
            assert("md"@.len() != "yml"@.len());
            assert("md"@.len() != "yaml"@.len());
            assert("md"@.len() != "json"@.len());
            assert("md"@.len() != "xml"@.len());
            assert(SnippetLanguage::typed_extension_language("md"@) == SnippetLanguage::Markdown);
        },
        SnippetLanguage::Dockerfile => {
            assert("dockerfile"@.len() != "rs"@.len());
            assert("dockerfile"@.len() != "js"@.len());
            assert("dockerfile"@.len() != "ts"@.len());
            assert("dockerfile"@.len() != "py"@.len());
            assert("dockerfile"@.len() != "go"@.len());
            assert("dockerfile"@.len() != "java"@.len());
            assert("dockerfile"@.len() != "c"@.len());
            assert("dockerfile"@.len() != "cpp"@.len());
            assert("dockerfile"@.len() != "cc"@.len());
            assert("dockerfile"@.len() != "cxx"@.len());
            assert("dockerfile"@.len() != "cs"@.len());
            assert("dockerfile"@.len() != "php"@.len());
            assert("dockerfile"@.len() != "rb"@.len());
            assert("dockerfile"@.len() != "swift"@.len());
            assert("dockerfile"@.len() != "kt"@.len());
            assert("dockerfile"@.len() != "dart"@.len());
            assert("dockerfile"@.len() != "html"@.len());
            assert("dockerfile"@.len() != "css"@.len());
            assert("dockerfile"@.len() != "scss"@.len());
            assert("dockerfile"@.len() != "sql"@.len());
            assert("dockerfile"@.len() != "sh"@.len());
            assert("dockerfile"@.len() != "bash"@.len());
            assert("dockerfile"@.len() != "ps1"@.len());
            assert("dockerfile"@.len() != "yml"@.len());
            assert("dockerfile"@.len() != "yaml"@.len());
            assert("dockerfile"@.len() != "json"@.len());
            assert("dockerfile"@.len() != "xml"@.len());
            assert("dockerfile"@.len() != "md"@.len());
            assert(SnippetLanguage::typed_extension_language("dockerfile"@) == SnippetLanguage::Dockerfile);
        },
        SnippetLanguage::Toml => {
            assert("toml"@.len() != "rs"@.len());
            assert("toml"@.len() != "js"@.len());
            assert("toml"@.len() != "ts"@.len());
            assert("toml"@.len() != "py"@.len());
            assert("toml"@.len() != "go"@.len());
            assert("toml"@[0] != "java"@[0]);
            assert("toml"@.len() != "c"@.len());
            assert("toml"@.len() != "cpp"@.len());
            assert("toml"@.len() != "cc"@.len());
            assert("toml"@.len() != "cxx"@.len());
            assert("toml"@.len() != "cs"@.len());
            assert("toml"@.len() != "php"@.len());
            assert("toml"@.len() != "rb"@.len());
            assert("toml"@.len() != "swift"@.len());
            assert("toml"@.len() != "kt"@.len());
            assert("toml"@[0] != "dart"@[0]);
            assert("toml"@[0] != "html"@[0]);
            assert("toml"@.len() != "css"@.len());
            assert("toml"@[0] != "scss"@[0]);
            assert("toml"@.len() != "sql"@.len());
            assert("toml"@.len() != "sh"@.len());
            assert("toml"@[0] != "bash"@[0]);
            assert("toml"@.len() != "ps1"@.len());
            assert("toml"@.len() != "yml"@.len());
            assert("toml"@[0] != "yaml"@[0]);
            assert("toml"@[0] != "json"@[0]);
            assert("toml"@.len() != "xml"@.len());
            assert("toml"@.len() != "md"@.len());
            assert("toml"@.len() != "dockerfile"@.len());
            assert(SnippetLanguage::typed_extension_language("toml"@) == SnippetLanguage::Toml);
        },
        SnippetLanguage::Ini => {
            assert("ini"@.len() != "rs"@.len());
            assert("ini"@.len() != "js"@.len());
            assert("ini"@.len() != "ts"@.len());
            assert("ini"@.len() != "py"@.len());
            assert("ini"@.len() != "go"@.len());
            assert("ini"@.len() != "java"@.len());
            assert("ini"@.len() != "c"@.len());
            assert("ini"@[0] != "cpp"@[0]);
            assert("ini"@.len() != "cc"@.len());
            assert("ini"@[0] != "cxx"@[0]);
            assert("ini"@.len() != "cs"@.len());
            assert("ini"@[0] != "php"@[0]);
            assert("ini"@.len() != "rb"@.len());
            assert("ini"@.len() != "swift"@.len());
            assert("ini"@.len() != "kt"@.len());
            assert("ini"@.len() != "dart"@.len());
            assert("ini"@.len() != "html"@.len());
            assert("ini"@[0] != "css"@[0]);
            assert("ini"@.len() != "scss"@.len());
            assert("ini"@[0] != "sql"@[0]);
            assert("ini"@.len() != "sh"@.len());
            assert("ini"@.len() != "bash"@.len());
            assert("ini"@[0] != "ps1"@[0]);
            assert("ini"@[0] != "yml"@[0]);
            assert("ini"@.len() != "yaml"@.len());
            assert("ini"@.len() != "json"@.len());
            assert("ini"@[0] != "xml"@[0]);
            assert("ini"@.len() != "md"@.len());
            assert("ini"@.len() != "dockerfile"@.len());
            assert("ini"@.len() != "toml"@.len());
            assert(SnippetLanguage::typed_extension_language("ini"@) == SnippetLanguage::Ini);
        },
        SnippetLanguage::Config => {
            assert("conf"@.len() != "rs"@.len());
            assert("conf"@.len() != "js"@.len());
            assert("conf"@.len() != "ts"@.len());
            assert("conf"@.len() != "py"@.len());
            assert("conf"@.len() != "go"@.len());
            assert("conf"@[0] != "java"@[0]);
            assert("conf"@.len() != "c"@.len());
            assert("conf"@.len() != "cpp"@.len());
            assert("conf"@.len() != "cc"@.len());
            assert("conf"@.len() != "cxx"@.len());
            assert("conf"@.len() != "cs"@.len());
            assert("conf"@.len() != "php"@.len());
            assert("conf"@.len() != "rb"@.len());
            assert("conf"@.len() != "swift"@.len());
            assert("conf"@.len() != "kt"@.len());
            assert("conf"@[0] != "dart"@[0]);
            assert("conf"@[0] != "html"@[0]);
            assert("conf"@.len() != "css"@.len());
            assert("conf"@[0] != "scss"@[0]);
            assert("conf"@.len() != "sql"@.len());
            assert("conf"@.len() != "sh"@.len());
            assert("conf"@[0] != "bash"@[0]);
            assert("conf"@.len() != "ps1"@.len());
            assert("conf"@.len() != "yml"@.len());
            assert("conf"@[0] != "yaml"@[0]);
            assert("conf"@[0] != "json"@[0]);
            assert("conf"@.len() != "xml"@.len());
            assert("conf"@.len() != "md"@.len());
            assert("conf"@.len() != "dockerfile"@.len());
            assert("conf"@[0] != "toml"@[0]);
            assert("conf"@.len() != "ini"@.len());
            assert(SnippetLanguage::typed_extension_language("conf"@) == SnippetLanguage::Config);
        },
        _ => {},
    }
}

/// The languages offered when a snippet is created, in the order shown.
pub open spec fn available_languages() -> Seq<SnippetLanguage> {
    seq![SnippetLanguage::Rust, SnippetLanguage::JavaScript, SnippetLanguage::TypeScript, SnippetLanguage::Python, SnippetLanguage::Go, SnippetLanguage::Java, SnippetLanguage::C, SnippetLanguage::Cpp, SnippetLanguage::CSharp, SnippetLanguage::PHP, SnippetLanguage::Ruby, SnippetLanguage::Swift, SnippetLanguage::Kotlin, SnippetLanguage::Dart, SnippetLanguage::HTML, SnippetLanguage::CSS, SnippetLanguage::SCSS, SnippetLanguage::SQL, SnippetLanguage::Bash, SnippetLanguage::PowerShell, SnippetLanguage::Yaml, SnippetLanguage::Json, SnippetLanguage::Xml, SnippetLanguage::Markdown, SnippetLanguage::Dockerfile, SnippetLanguage::Toml, SnippetLanguage::Ini, SnippetLanguage::Config, SnippetLanguage::Text]
}

/// The languages offered when a snippet is created, in the order shown.
pub fn get_available_languages() -> (r: Vec<SnippetLanguage>)
    ensures
        r@ == available_languages(),
{
    let r = vec![SnippetLanguage::Rust, SnippetLanguage::JavaScript, SnippetLanguage::TypeScript, SnippetLanguage::Python, SnippetLanguage::Go, SnippetLanguage::Java, SnippetLanguage::C, SnippetLanguage::Cpp, SnippetLanguage::CSharp, SnippetLanguage::PHP, SnippetLanguage::Ruby, SnippetLanguage::Swift, SnippetLanguage::Kotlin, SnippetLanguage::Dart, SnippetLanguage::HTML, SnippetLanguage::CSS, SnippetLanguage::SCSS, SnippetLanguage::SQL, SnippetLanguage::Bash, SnippetLanguage::PowerShell, SnippetLanguage::Yaml, SnippetLanguage::Json, SnippetLanguage::Xml, SnippetLanguage::Markdown, SnippetLanguage::Dockerfile, SnippetLanguage::Toml, SnippetLanguage::Ini, SnippetLanguage::Config, SnippetLanguage::Text];
    proof {
        assert(r@ =~= available_languages());
    }
    r
}

} // verus!
