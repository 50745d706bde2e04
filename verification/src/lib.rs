//! Assembles an ALPS profile document from an in-memory directory tree of
//! Markdown files with YAML frontmatter: splitting frontmatter from body,
//! decoding headers into typed nodes, walking the tree into a nested
//! descriptor structure, and laying the result out as a JSON document.

pub mod decode;
pub mod json;
pub mod node;
pub mod scaffold;
pub mod text;
pub mod walk;
pub mod yaml;
