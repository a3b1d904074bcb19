//! Scene files: which loader reads a file, chosen by its extension.

pub mod error;
pub mod json;

use vstd::prelude::*;

use crate::parser::error::ParserError;
use crate::parser::json::JSONSceneLoader;

verus! {

/// The extension of a path's file name, as std's `Path::extension` finds it
/// and as text: the part after the name's last `.`.
pub uninterp spec fn path_extension(path: Seq<char>) -> Option<Seq<char>>;

/// Relies on std's `Path::extension`, with the result read back as a `str`:
/// the extension of the path's file name, if it has one.
#[verifier::external_body]
fn file_extension(path: &str) -> (r: Option<String>)
    ensures
        r matches Some(e) ==> path_extension(path@) == Some(e@),
        r is None ==> path_extension(path@) is None,
{
    std::path::Path::new(path).extension().and_then(|e| e.to_str()).map(|e| e.to_owned())
}

/// The extension of the scene files that this library reads.
pub open spec fn json_extension() -> Seq<char> {
    "json"@
}

/// Picks the loader of a scene file.
pub struct FileReaderFactory;

impl FileReaderFactory {
    /// The loader for `filename` given its extension: files that end in
    /// `.json` are read by the JSON loader, any other is refused.
    pub fn processor_for_extension(filename: &str, extension: &Option<String>) -> (r: Result<
        JSONSceneLoader,
        ParserError,
    >)
        ensures
            r is Ok <==> (extension matches Some(e) && e@ == json_extension()),
            r matches Ok(loader) ==> loader@ == filename@,
            r matches Err(e) ==> e is FileExtension,
    {
        let json = "json".to_owned();
        proof {
            reveal_strlit("json");
        }
        match extension {
            Some(e) => {
                if *e == json {
                    Ok(JSONSceneLoader::new(filename))
                } else {
                    Err(ParserError::FileExtension)
                }
            },
            None => Err(ParserError::FileExtension),
        }
    }

    /// The loader for a scene file, chosen by the file's extension: only
    /// `.json` files are supported.
    pub fn get_file_processor(filename: &str) -> (r: Result<JSONSceneLoader, ParserError>)
        ensures
            r is Ok <==> path_extension(filename@) == Some(json_extension()),
            r matches Ok(loader) ==> loader@ == filename@,
            r matches Err(e) ==> e is FileExtension,
    {
        let extension = file_extension(filename);
        FileReaderFactory::processor_for_extension(filename, &extension)
    }
}

} // verus!
