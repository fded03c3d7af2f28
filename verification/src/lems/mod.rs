/// The registry of the component types of a document.
pub mod file;
/// The elements of a document, read one for one.
pub mod raw;
