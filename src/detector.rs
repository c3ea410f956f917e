//! File type recognised from a path's extension.

use vstd::prelude::*;
use crate::text::{extension_of, path_extension, same_text};

verus! {

#[derive(Clone, Copy, Debug, PartialEq, Eq, Structural)]
pub enum FileType {
    Rust,
    Python,
    JavaScript,
    TypeScript,
    C,
    Cpp,
    Go,
    Java,
    Html,
    Css,
    Markdown,
    Json,
    Yaml,
    Toml,
    Shell,
    Unknown,
}

/// The file type for an extension.
pub open spec fn file_type_for(ext: Seq<char>) -> FileType {
    if ext == "rs"@ {
        FileType::Rust
    } else if ext == "py"@ {
        FileType::Python
    } else if ext == "js"@ {
        FileType::JavaScript
    } else if ext == "ts"@ {
        FileType::TypeScript
    } else if ext == "c"@ || ext == "h"@ {
        FileType::C
    } else if ext == "cpp"@ || ext == "cc"@ || ext == "cxx"@ || ext == "hpp"@ {
        FileType::Cpp
    } else if ext == "go"@ {
        FileType::Go
    } else if ext == "java"@ {
        FileType::Java
    } else if ext == "html"@ || ext == "htm"@ {
        FileType::Html
    } else if ext == "css"@ {
        FileType::Css
    } else if ext == "md"@ || ext == "markdown"@ {
        FileType::Markdown
    } else if ext == "json"@ {
        FileType::Json
    } else if ext == "yaml"@ || ext == "yml"@ {
        FileType::Yaml
    } else if ext == "toml"@ {
        FileType::Toml
    } else if ext == "sh"@ || ext == "bash"@ {
        FileType::Shell
    } else {
        FileType::Unknown
    }
}

impl FileType {
    /// The file type named by the path's extension; `Unknown` without one.
    pub fn from_path(path: &str) -> (t: FileType)
        ensures
            t == match extension_of(path@) {
                Some(e) => file_type_for(e),
                None => FileType::Unknown,
            },
    {
        let ext = match path_extension(path) {
            Some(e) => e,
            None => return FileType::Unknown,
        };
        let e = ext.as_str();
        if same_text(e, "rs") {
            FileType::Rust
        } else if same_text(e, "py") {
            FileType::Python
        } else if same_text(e, "js") {
            FileType::JavaScript
        } else if same_text(e, "ts") {
            FileType::TypeScript
        } else if same_text(e, "c") || same_text(e, "h") {
            FileType::C
        } else if same_text(e, "cpp") || same_text(e, "cc") || same_text(e, "cxx") || same_text(e, "hpp") {
            FileType::Cpp
        } else if same_text(e, "go") {
            FileType::Go
        } else if same_text(e, "java") {
            FileType::Java
        } else if same_text(e, "html") || same_text(e, "htm") {
            FileType::Html
        } else if same_text(e, "css") {
            FileType::Css
        } else if same_text(e, "md") || same_text(e, "markdown") {
            FileType::Markdown
        } else if same_text(e, "json") {
            FileType::Json
        } else if same_text(e, "yaml") || same_text(e, "yml") {
            FileType::Yaml
        } else if same_text(e, "toml") {
            FileType::Toml
        } else if same_text(e, "sh") || same_text(e, "bash") {
            FileType::Shell
        } else {
            FileType::Unknown
        }
    }
}

} // verus!
