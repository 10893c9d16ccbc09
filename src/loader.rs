//! Serving module sources by scheme, and deciding the kind of each module.
//!
//! A load runs in three parts. `source_kind` picks the handler from the
//! specifier's scheme, before anything is read or fetched; an unsupported
//! scheme fails there. The caller then obtains the bytes: from the content
//! cache or the network for `http`/`https` (see `crate::cache`), from the
//! specifier itself for `data` (`decode_data`), from disk for `file`. Last,
//! `finish` decides the module's kind and assembles the result.
use vstd::prelude::*;
use vstd::string::*;
use crate::specifier::Specifier;

verus! {

/// The module kind that the importer asked for.
#[derive(Clone, Debug, PartialEq, Eq)]
pub enum RequestedKind {
    Unset,
    Json,
    Text,
    Bytes,
    Other(String),
}

/// The kind of a loaded module.
#[derive(Clone, Debug, PartialEq, Eq)]
pub enum ModuleKind {
    JavaScript,
    Json,
    Wasm,
    Text,
    Bytes,
    Other(String),
}

/// Where a module's bytes come from, by scheme.
#[derive(Clone, Copy, Debug, PartialEq, Eq, Structural)]
pub enum SourceKind {
    /// `http` and `https`: the content cache, else the network.
    Network,
    /// `data`: the specifier's own payload.
    Data,
    /// `file`: the local disk.
    File,
}

/// A local file could not be read.
#[derive(Clone, Debug, PartialEq, Eq)]
pub struct LoadFailedError {
    pub specifier: String,
    pub message: String,
}

/// Why a module could not be loaded.
#[derive(Clone, Debug, PartialEq, Eq)]
pub enum LoadError {
    /// The scheme has no handler.
    UnsupportedScheme(String),
    /// The specifier is not a valid data URL.
    InvalidDataUrl,
    /// The data URL's body could not be decoded.
    UndecodableDataUrl,
    /// A `file` specifier that names no local path.
    NotAFileUrl(String),
    /// Reading a local file failed.
    LoadFailed(LoadFailedError),
    /// Reading a cached object failed.
    Cache(String),
    /// The request could not be made.
    Request(String),
    /// The server answered with an error status.
    Http(String),
    /// The response body could not be read.
    Response(String),
    /// A kind other than JSON or plain code was asked of a network or data
    /// module.
    UnsupportedKind,
    /// A JSON file was imported without asking for the JSON kind.
    JsonWithoutAttribute,
}

/// A loaded module: its bytes, its kind, and the URL that served it when
/// that differs from the specifier.
#[derive(Clone, Debug)]
pub struct LoadedModule {
    pub bytes: Vec<u8>,
    pub kind: ModuleKind,
    pub redirect: Option<String>,
}

/// The handler for a scheme, if it has one.
pub open spec fn source_of_scheme(scheme: Seq<char>) -> Option<SourceKind> {
    if scheme == "http"@ || scheme == "https"@ {
        Some(SourceKind::Network)
    } else if scheme == "data"@ {
        Some(SourceKind::Data)
    } else if scheme == "file"@ {
        Some(SourceKind::File)
    } else {
        None
    }
}

/// The text in lower case.
pub uninterp spec fn lower_of(text: Seq<char>) -> Seq<char>;

/// Relies on str::to_lowercase: the result depends on the text alone.
#[verifier::external_body]
fn lowercase(text: &str) -> (r: String)
    ensures
        r@ == lower_of(text@),
{
    text.to_lowercase()
}

/// Whether the data-URL processor accepts the text.
pub uninterp spec fn data_url_processes(text: Seq<char>) -> bool;

/// The decoded body of a data URL; `None` when the body does not decode.
pub uninterp spec fn data_url_body(text: Seq<char>) -> Option<Seq<u8>>;

/// Relies on data_url::DataUrl::process, which accepts or refuses the text,
/// and on DataUrl::decode_to_vec, which decodes the body of an accepted one.
#[verifier::external_body]
fn decode_data_url(text: &str) -> (r: Result<Vec<u8>, LoadError>)
    ensures
        !data_url_processes(text@) ==> (r is Err && r->Err_0 == LoadError::InvalidDataUrl),
        data_url_processes(text@) ==> (r is Err <==> data_url_body(text@) is None),
        (data_url_processes(text@) && r is Err) ==> r->Err_0 == LoadError::UndecodableDataUrl,
        r is Ok ==> r->Ok_0@ == data_url_body(text@)->0,
{
    match data_url::DataUrl::process(text) {
        Err(_) => Err(LoadError::InvalidDataUrl),
        Ok(u) => match u.decode_to_vec() {
            Ok((body, _)) => Ok(body),
            Err(_) => Err(LoadError::UndecodableDataUrl),
        },
    }
}

/// A file extension in lower case, when there is one.
pub open spec fn lowered(extension: Option<&str>) -> Option<Seq<char>> {
    match extension {
        Some(e) => Some(lower_of(e@)),
        None => None,
    }
}

/// The kind asked for, where it is honoured; JavaScript otherwise.
pub open spec fn requested_or_script(requested: RequestedKind) -> ModuleKind {
    match requested {
        RequestedKind::Other(t) => ModuleKind::Other(t),
        RequestedKind::Text => ModuleKind::Text,
        RequestedKind::Bytes => ModuleKind::Bytes,
        _ => ModuleKind::JavaScript,
    }
}

/// The kind of a module read from disk, before the JSON check: by
/// extension, else as asked, else JavaScript.
pub open spec fn file_kind(ext: Option<Seq<char>>, requested: RequestedKind) -> ModuleKind {
    match ext {
        Some(e) => if e == "json"@ {
            ModuleKind::Json
        } else if e == "wasm"@ {
            ModuleKind::Wasm
        } else {
            requested_or_script(requested)
        },
        None => requested_or_script(requested),
    }
}

/// The kind of a loaded module, or why the request is refused.
pub open spec fn kind_outcome(
    source: SourceKind,
    ext: Option<Seq<char>>,
    requested: RequestedKind,
) -> Result<ModuleKind, LoadError> {
    match source {
        SourceKind::File => {
            let k = file_kind(ext, requested);
            if k == ModuleKind::Json && requested != RequestedKind::Json {
                Err(LoadError::JsonWithoutAttribute)
            } else {
                Ok(k)
            }
        },
        _ => match requested {
            RequestedKind::Unset => Ok(ModuleKind::JavaScript),
            RequestedKind::Json => Ok(ModuleKind::Json),
            _ => Err(LoadError::UnsupportedKind),
        },
    }
}

fn text_is(text: &String, literal: &str) -> (r: bool)
    ensures
        r == (text@ == literal@),
{
    *text == String::from_str(literal)
}

/// The kind asked for, where a file honours it; JavaScript otherwise.
fn requested_kind(requested: &RequestedKind) -> (r: ModuleKind)
    ensures
        r == requested_or_script(*requested),
{
    match requested {
        RequestedKind::Other(t) => ModuleKind::Other(t.clone()),
        RequestedKind::Text => ModuleKind::Text,
        RequestedKind::Bytes => ModuleKind::Bytes,
        _ => ModuleKind::JavaScript,
    }
}

/// The URL that served a module, when it differs from the one asked for.
pub fn redirect_target(requested: &str, served: &str) -> (r: Option<String>)
    ensures
        r is Some <==> served@ != requested@,
        r is Some ==> r->0@ == served@,
{
    let a = String::from_str(requested);
    let b = String::from_str(served);
    if a == b {
        None
    } else {
        Some(b)
    }
}

/// The module loader.
pub struct ExtendedModuleLoader;

impl ExtendedModuleLoader {
    /// Picks the handler for the specifier's scheme. Nothing is read or
    /// fetched here, so an unsupported scheme fails before any I/O.
    pub fn source_kind(&self, specifier: &Specifier) -> (r: Result<SourceKind, LoadError>)
        ensures
            source_of_scheme(specifier.scheme_view()) is Some ==> r == Ok::<SourceKind, LoadError>(
                source_of_scheme(specifier.scheme_view())->0,
            ),
            source_of_scheme(specifier.scheme_view()) is None ==> r is Err
                && r->Err_0 is UnsupportedScheme && r->Err_0->UnsupportedScheme_0@
                == specifier.scheme_view(),
    {
        let s = String::from_str(specifier.scheme());
        if text_is(&s, "http") || text_is(&s, "https") {
            Ok(SourceKind::Network)
        } else if text_is(&s, "data") {
            Ok(SourceKind::Data)
        } else if text_is(&s, "file") {
            Ok(SourceKind::File)
        } else {
            Err(LoadError::UnsupportedScheme(s))
        }
    }

    /// Decodes a `data` specifier's payload.
    pub fn decode_data(&self, specifier: &Specifier) -> (r: Result<Vec<u8>, LoadError>)
        ensures
            !data_url_processes(specifier.text_view()) ==> r == Err::<Vec<u8>, LoadError>(
                LoadError::InvalidDataUrl,
            ),
            data_url_processes(specifier.text_view()) && data_url_body(specifier.text_view()) is None ==> r
                == Err::<Vec<u8>, LoadError>(LoadError::UndecodableDataUrl),
            data_url_processes(specifier.text_view()) && data_url_body(specifier.text_view()) is Some ==> r is Ok
                && r->Ok_0@ == data_url_body(specifier.text_view())->0,
    {
        decode_data_url(specifier.text())
    }

    /// Decides a module's kind from where it came from, the file's
    /// extension (for `file` sources) and the kind asked for.
    pub fn module_kind(
        &self,
        source: SourceKind,
        extension: Option<&str>,
        requested: &RequestedKind,
    ) -> (r: Result<ModuleKind, LoadError>)
        ensures
            r == kind_outcome(source, lowered(extension), *requested),
    {
        match source {
            SourceKind::File => {
                let k = match extension {
                    Some(e) => {
                        let low = lowercase(e);
                        if text_is(&low, "json") {
                            ModuleKind::Json
                        } else if text_is(&low, "wasm") {
                            ModuleKind::Wasm
                        } else {
                            requested_kind(requested)
                        }
                    },
                    None => requested_kind(requested),
                };
                let is_json = match k {
                    ModuleKind::Json => true,
                    _ => false,
                };
                let asked_json = match requested {
                    RequestedKind::Json => true,
                    _ => false,
                };
                if is_json && !asked_json {
                    Err(LoadError::JsonWithoutAttribute)
                } else {
                    Ok(k)
                }
            },
            _ => match requested {
                RequestedKind::Unset => Ok(ModuleKind::JavaScript),
                RequestedKind::Json => Ok(ModuleKind::Json),
                _ => Err(LoadError::UnsupportedKind),
            },
        }
    }

    /// Completes a load from the bytes obtained: decides the kind, and
    /// returns the bytes with it, or the reason the kind is refused.
    pub fn finish(
        &self,
        source: SourceKind,
        bytes: Vec<u8>,
        redirect: Option<String>,
        extension: Option<&str>,
        requested: &RequestedKind,
    ) -> (r: Result<LoadedModule, LoadError>)
        ensures
            kind_outcome(source, lowered(extension), *requested) is Err ==> r
                == Err::<LoadedModule, LoadError>(
                kind_outcome(source, lowered(extension), *requested)->Err_0,
            ),
            kind_outcome(source, lowered(extension), *requested) is Ok ==> r is Ok && r->Ok_0.kind
                == kind_outcome(source, lowered(extension), *requested)->Ok_0 && r->Ok_0.bytes
                == bytes && r->Ok_0.redirect == redirect,
    {
        match self.module_kind(source, extension, requested) {
            Ok(kind) => Ok(LoadedModule { bytes, kind, redirect }),
            Err(e) => Err(e),
        }
    }
}

/// A local JSON file loads only when the JSON kind is asked for, and then
/// loads as a JSON module.
pub proof fn lemma_json_file_needs_attribute(ext: Seq<char>, requested: RequestedKind)
    requires
        ext == "json"@,
    ensures
        requested != RequestedKind::Json ==> kind_outcome(SourceKind::File, Some(ext), requested)
            == Err::<ModuleKind, LoadError>(LoadError::JsonWithoutAttribute),
        requested == RequestedKind::Json ==> kind_outcome(SourceKind::File, Some(ext), requested)
            == Ok::<ModuleKind, LoadError>(ModuleKind::Json),
{
}

/// A scheme without a handler is refused, and only such a scheme.
pub proof fn lemma_unsupported_scheme_refused(scheme: Seq<char>)
    ensures
        source_of_scheme(scheme) is None <==> (scheme != "http"@ && scheme != "https"@ && scheme
            != "data"@ && scheme != "file"@),
{
}

} // verus!
